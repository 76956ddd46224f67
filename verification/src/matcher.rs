//! Matching a request path against a compiled pattern, and binding the
//! parameters that the match captured.

use vstd::prelude::*;
use vstd::string::*;
use crate::engine::{
    capture_names, names_view, regex_captures, regex_compiles, regex_source, values_view,
};
use crate::error::PatternSyntaxError;
use crate::path::{Path, SegmentSpec};
use crate::pattern::{param_names, pattern_regex};
use crate::text::same_text;

verus! {

/// A parameter that a match bound: its name and the text it captured.
#[derive(Debug)]
pub struct Param {
    pub name: String,
    pub value: String,
}

impl View for Param {
    type V = (Seq<char>, Seq<char>);

    open spec fn view(&self) -> (Seq<char>, Seq<char>) {
        (self.name@, self.value@)
    }
}

/// The views of the parameters of `params`.
pub open spec fn params_view(params: Seq<Param>) -> Seq<(Seq<char>, Seq<char>)> {
    params.map_values(|p: Param| p@)
}

/// The path as patterns see it: it begins with `/`, but the root is empty.
pub open spec fn normalized(text: Seq<char>) -> Seq<char> {
    if text.len() == 0 || text == "/"@ {
        Seq::empty()
    } else if text[0] == '/' {
        text
    } else {
        "/"@ + text
    }
}

/// The parameters among the first `n` names that have a value, each with
/// its value, in order.
pub open spec fn bound_params(
    names: Seq<Seq<char>>,
    values: Seq<Option<Seq<char>>>,
    n: int,
) -> Seq<(Seq<char>, Seq<char>)>
    decreases n,
{
    if n <= 0 || n > names.len() || n > values.len() {
        Seq::empty()
    } else {
        match values[n - 1] {
            Some(v) => bound_params(names, values, n - 1).push((names[n - 1], v)),
            None => bound_params(names, values, n - 1),
        }
    }
}

/// The parameters that have a value, as far as both lists go.
pub open spec fn bind(names: Seq<Seq<char>>, values: Seq<Option<Seq<char>>>) -> Seq<
    (Seq<char>, Seq<char>),
> {
    bound_params(
        names,
        values,
        if names.len() <= values.len() {
            names.len() as int
        } else {
            values.len() as int
        },
    )
}

/// What matching `text` against the pattern `segments` gives: nothing where
/// the expression of the pattern does not match the normalized text, else
/// the parameters that the match bound.
pub open spec fn captured(segments: Seq<SegmentSpec>, text: Seq<char>) -> Option<
    Seq<(Seq<char>, Seq<char>)>,
> {
    let names = param_names(segments, segments.len() as int);
    match regex_captures(pattern_regex(segments), normalized(text), names) {
        Some(values) => Some(bind(names, values)),
        None => None,
    }
}

/// The path as patterns see it.
pub fn normalize(text: &str) -> (path: String)
    ensures
        path@ == normalized(text@),
{
    let n = text.unicode_len();
    if n == 0 || same_text(text, "/") {
        String::new()
    } else if text.get_char(0) == '/' {
        text.to_owned()
    } else {
        let mut path = "/".to_owned();
        path.append(text);
        path
    }
}

/// The parameters that have a value, each with its value, in the order of
/// their names.
pub fn bind_params(names: &Vec<String>, values: &Vec<Option<String>>) -> (params: Vec<Param>)
    ensures
        params_view(params@) == bind(names_view(names@), values_view(values@)),
{
    let n = if names.len() <= values.len() {
        names.len()
    } else {
        values.len()
    };
    let mut params: Vec<Param> = Vec::new();
    let mut i: usize = 0;
    while i < n
        invariant
            i <= n,
            n <= names.len(),
            n <= values.len(),
            params_view(params@) =~= bound_params(
                names_view(names@),
                values_view(values@),
                i as int,
            ),
        decreases n - i,
    {
        proof {
            assert(names_view(names@)[i as int] == names@[i as int]@);
            assert(values_view(values@)[i as int] == match values@[i as int] {
                Some(s) => Some(s@),
                None => None,
            });
        }
        match &values[i] {
            Some(v) => {
                params.push(Param { name: names[i].clone(), value: v.clone() });
            },
            None => {},
        }
        i = i + 1;
    }
    params
}

/// A pattern with its compiled regular expression.
pub struct Matcher {
    path: Path,
    names: Vec<String>,
    compiled: regex::Regex,
}

impl View for Matcher {
    type V = Seq<SegmentSpec>;

    /// The segments of the pattern.
    closed spec fn view(&self) -> Seq<SegmentSpec> {
        self.path@
    }
}

impl Matcher {
    #[verifier::type_invariant]
    spec fn well_formed(&self) -> bool {
        &&& regex_source(self.compiled) == pattern_regex(self.path@)
        &&& names_view(self.names@) == param_names(self.path@, self.path@.len() as int)
    }

    /// Compiles the expression of `path`. This fails exactly where the
    /// expression is not a regular expression, as happens where two segments
    /// bind the same name.
    pub fn new(path: Path) -> (r: Result<Self, PatternSyntaxError>)
        ensures
            match r {
                Ok(m) => m@ == path@ && regex_compiles(pattern_regex(path@)),
                Err(e) => e == PatternSyntaxError::InvalidRegex && !regex_compiles(
                    pattern_regex(path@),
                ),
            },
    {
        let source = path.to_regex();
        let names = path.params();
        match regex::Regex::new(source.as_str()) {
            Ok(compiled) => Ok(Matcher { path, names, compiled }),
            Err(_) => Err(PatternSyntaxError::InvalidRegex),
        }
    }

    /// The pattern.
    pub fn path(&self) -> (path: &Path)
        ensures
            path@ == self@,
    {
        &self.path
    }

    /// Matches `text` against the pattern.
    pub fn captures(&self, text: &str) -> (r: Option<Vec<Param>>)
        ensures
            match r {
                Some(params) => captured(self@, text@) == Some(params_view(params@)),
                None => captured(self@, text@) is None,
            },
    {
        proof {
            use_type_invariant(self);
        }
        let subject = normalize(text);
        match capture_names(&self.compiled, subject.as_str(), &self.names) {
            Some(values) => Some(bind_params(&self.names, &values)),
            None => None,
        }
    }
}

} // verus!
