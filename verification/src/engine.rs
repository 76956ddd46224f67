//! The regular expression engine behind the patterns. Everything here is
//! stated of the `regex` crate and believed, not proved.

use vstd::prelude::*;

verus! {

#[verifier::external_type_specification]
#[verifier::external_body]
pub struct ExRegex(regex::Regex);

#[verifier::external_type_specification]
#[verifier::external_body]
pub struct ExRegexError(regex::Error);

/// Whether `regex::Regex::new` accepts the expression `source`.
pub uninterp spec fn regex_compiles(source: Seq<char>) -> bool;

/// The expression that a compiled `regex::Regex` was made from, which
/// `regex::Regex::as_str` returns.
pub uninterp spec fn regex_source(re: regex::Regex) -> Seq<char>;

/// What the groups named `names` of the expression `source` capture in the
/// leftmost match in `text`, found by `regex::Regex::captures` and read with
/// `regex::Captures::name`: nothing where there is no match, and for each
/// name the text of its group, where the group took part in the match.
pub uninterp spec fn regex_captures(
    source: Seq<char>,
    text: Seq<char>,
    names: Seq<Seq<char>>,
) -> Option<Seq<Option<Seq<char>>>>;

/// Whether `regex_syntax::is_meta_character` holds of `c`: these are the
/// characters that `regex::escape` puts a backslash before.
pub open spec fn is_meta_character(c: char) -> bool {
    c == '\\' || c == '.' || c == '+' || c == '*' || c == '?' || c == '(' || c == ')' || c == '|'
        || c == '[' || c == ']' || c == '{' || c == '}' || c == '^' || c == '$' || c == '#'
        || c == '&' || c == '-' || c == '~'
}

/// `text` with a backslash before each meta character.
pub open spec fn escaped(text: Seq<char>) -> Seq<char>
    decreases text.len(),
{
    if text.len() == 0 {
        Seq::empty()
    } else if is_meta_character(text.last()) {
        escaped(text.drop_last()).push('\\').push(text.last())
    } else {
        escaped(text.drop_last()).push(text.last())
    }
}

/// The views of the strings of `names`.
pub open spec fn names_view(names: Seq<String>) -> Seq<Seq<char>> {
    names.map_values(|n: String| n@)
}

/// The views of the captured texts of `values`.
pub open spec fn values_view(values: Seq<Option<String>>) -> Seq<Option<Seq<char>>> {
    values.map_values(
        |v: Option<String>|
            match v {
                Some(s) => Some(s@),
                None => None,
            },
    )
}

/// `regex::Regex::new`: it accepts exactly the expressions of which
/// `regex_compiles` holds, and the compiled value keeps its source.
pub assume_specification[ regex::Regex::new ](re: &str) -> (r: Result<
    regex::Regex,
    regex::Error,
>)
    ensures
        r is Ok <==> regex_compiles(re@),
        r is Ok ==> regex_source(r->Ok_0) == re@,
;

/// `regex::escape`: the text with a backslash before each meta character,
/// and nothing else changed.
pub assume_specification[ regex::escape ](pattern: &str) -> (r: String)
    ensures
        r@ == escaped(pattern@),
;

/// `regex::Regex::captures`, and `regex::Captures::name` for each of
/// `names`: the result is the one that `regex_captures` names, with one
/// entry for each name.
#[verifier::external_body]
pub(crate) fn capture_names(re: &regex::Regex, text: &str, names: &Vec<String>) -> (found: Option<
    Vec<Option<String>>,
>)
    ensures
        match found {
            Some(values) => regex_captures(regex_source(*re), text@, names_view(names@)) == Some(
                values_view(values@),
            ) && values@.len() == names@.len(),
            None => regex_captures(regex_source(*re), text@, names_view(names@)) is None,
        },
{
    let caps = re.captures(text)?;
    Some(names.iter().map(|n| caps.name(n).map(|m| m.as_str().to_string())).collect())
}

} // verus!
