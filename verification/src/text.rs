//! Small helpers on strings and characters that the pattern compiler shares.

use vstd::prelude::*;
use vstd::string::*;
use vstd::std_specs::iter::IteratorSpec;

verus! {

/// Whether `c` is a decimal digit.
pub open spec fn is_digit(c: char) -> bool {
    '0' <= c && c <= '9'
}

/// Whether `c` may stand in a name: a letter, a digit or `_`.
pub open spec fn is_name_char(c: char) -> bool {
    ('a' <= c && c <= 'z') || ('A' <= c && c <= 'Z') || is_digit(c) || c == '_'
}

/// The end of the run of name characters that starts at `i`.
pub open spec fn name_end(s: Seq<char>, i: int) -> int
    decreases s.len() - i,
{
    if 0 <= i < s.len() && is_name_char(s[i]) {
        name_end(s, i + 1)
    } else {
        i
    }
}

/// The first index from `i` on at which `c` stands, or the length of `s`.
pub open spec fn first_index_of(s: Seq<char>, c: char, i: int) -> int
    decreases s.len() - i,
{
    if 0 <= i < s.len() {
        if s[i] == c {
            i
        } else {
            first_index_of(s, c, i + 1)
        }
    } else {
        s.len() as int
    }
}

/// The last index below `n` at which `c` stands, or -1.
pub open spec fn last_index_of(s: Seq<char>, c: char, n: int) -> int
    decreases n,
{
    if 0 < n <= s.len() {
        if s[n - 1] == c {
            n - 1
        } else {
            last_index_of(s, c, n - 1)
        }
    } else {
        -1
    }
}

/// The index from `i` on of the `}` that closes the braces open at `i`,
/// `depth` of them, or the length of `s` where they stay open.
pub open spec fn closing_brace(s: Seq<char>, i: int, depth: nat) -> int
    decreases s.len() - i,
{
    if 0 <= i < s.len() {
        if s[i] == '{' {
            closing_brace(s, i + 1, depth + 1)
        } else if s[i] == '}' {
            if depth <= 1 {
                i
            } else {
                closing_brace(s, i + 1, (depth - 1) as nat)
            }
        } else {
            closing_brace(s, i + 1, depth)
        }
    } else {
        s.len() as int
    }
}

/// The first index from `i` on at which `/` stands outside all braces,
/// `depth` of which are open at `i`, or the length of `s`.
pub open spec fn slash_outside_braces(s: Seq<char>, i: int, depth: nat) -> int
    decreases s.len() - i,
{
    if 0 <= i < s.len() {
        if s[i] == '/' && depth == 0 {
            i
        } else if s[i] == '{' {
            slash_outside_braces(s, i + 1, depth + 1)
        } else if s[i] == '}' && depth > 0 {
            slash_outside_braces(s, i + 1, (depth - 1) as nat)
        } else {
            slash_outside_braces(s, i + 1, depth)
        }
    } else {
        s.len() as int
    }
}

/// `first_index_of` stays between its start and the length.
pub proof fn lemma_first_index_bounds(s: Seq<char>, c: char, i: int)
    requires
        0 <= i <= s.len(),
    ensures
        i <= first_index_of(s, c, i) <= s.len(),
    decreases s.len() - i,
{
    if i < s.len() && s[i] != c {
        lemma_first_index_bounds(s, c, i + 1);
    }
}

/// `closing_brace` stays between its start and the length.
pub proof fn lemma_closing_brace_bounds(s: Seq<char>, i: int, depth: nat)
    requires
        0 <= i <= s.len(),
    ensures
        i <= closing_brace(s, i, depth) <= s.len(),
    decreases s.len() - i,
{
    if i < s.len() {
        if s[i] == '{' {
            lemma_closing_brace_bounds(s, i + 1, depth + 1);
        } else if s[i] == '}' {
            if depth > 1 {
                lemma_closing_brace_bounds(s, i + 1, (depth - 1) as nat);
            }
        } else {
            lemma_closing_brace_bounds(s, i + 1, depth);
        }
    }
}

/// `slash_outside_braces` stays between its start and the length.
pub proof fn lemma_slash_bounds(s: Seq<char>, i: int, depth: nat)
    requires
        0 <= i <= s.len(),
    ensures
        i <= slash_outside_braces(s, i, depth) <= s.len(),
    decreases s.len() - i,
{
    if i < s.len() {
        if s[i] == '/' && depth == 0 {
        } else if s[i] == '{' {
            lemma_slash_bounds(s, i + 1, depth + 1);
        } else if s[i] == '}' && depth > 0 {
            lemma_slash_bounds(s, i + 1, (depth - 1) as nat);
        } else {
            lemma_slash_bounds(s, i + 1, depth);
        }
    }
}

/// Whether `c` is a decimal digit.
pub fn digit(c: char) -> (b: bool)
    ensures
        b == is_digit(c),
{
    '0' <= c && c <= '9'
}

/// Whether `c` may stand in a name.
pub fn name_char(c: char) -> (b: bool)
    ensures
        b == is_name_char(c),
{
    ('a' <= c && c <= 'z') || ('A' <= c && c <= 'Z') || digit(c) || c == '_'
}

/// The end of the run of name characters that starts at `start`.
pub fn scan_name(chars: &Vec<char>, start: usize) -> (end: usize)
    requires
        start <= chars.len(),
    ensures
        end == name_end(chars@, start as int),
        start <= end <= chars.len(),
{
    let mut i: usize = start;
    while i < chars.len() && name_char(chars[i])
        invariant
            start <= i <= chars.len(),
            name_end(chars@, start as int) == name_end(chars@, i as int),
        decreases chars.len() - i,
    {
        i = i + 1;
    }
    i
}

/// The first index from `start` on at which `c` stands, or the length.
pub fn find_first(chars: &Vec<char>, c: char, start: usize) -> (at: usize)
    requires
        start <= chars.len(),
    ensures
        at == first_index_of(chars@, c, start as int),
        start <= at <= chars.len(),
{
    let mut i: usize = start;
    while i < chars.len() && chars[i] != c
        invariant
            start <= i <= chars.len(),
            first_index_of(chars@, c, start as int) == first_index_of(chars@, c, i as int),
        decreases chars.len() - i,
    {
        i = i + 1;
    }
    i
}

/// The last index at which `c` stands, if it stands anywhere.
pub fn find_last(chars: &Vec<char>, c: char) -> (at: Option<usize>)
    ensures
        match at {
            Some(k) => k == last_index_of(chars@, c, chars.len() as int) && k < chars.len()
                && chars@[k as int] == c,
            None => last_index_of(chars@, c, chars.len() as int) == -1,
        },
{
    let mut n: usize = chars.len();
    while n > 0 && chars[n - 1] != c
        invariant
            n <= chars.len(),
            last_index_of(chars@, c, chars.len() as int) == last_index_of(chars@, c, n as int),
        decreases n,
    {
        n = n - 1;
    }
    if n > 0 {
        Some(n - 1)
    } else {
        None
    }
}

/// The index of the `}` that closes the brace at `start`, or the length
/// where it stays open.
pub fn find_closing_brace(chars: &Vec<char>, start: usize) -> (at: usize)
    requires
        start <= chars.len(),
    ensures
        at == closing_brace(chars@, start as int, 0),
        start <= at <= chars.len(),
{
    let mut i: usize = start;
    let mut depth: usize = 0;
    while i < chars.len() && !(chars[i] == '}' && depth <= 1)
        invariant
            start <= i <= chars.len(),
            depth <= i - start,
            closing_brace(chars@, start as int, 0) == closing_brace(
                chars@,
                i as int,
                depth as nat,
            ),
        decreases chars.len() - i,
    {
        if chars[i] == '{' {
            depth = depth + 1;
        } else if chars[i] == '}' {
            depth = depth - 1;
        }
        i = i + 1;
    }
    i
}

/// The first index from `start` on at which `/` stands outside all braces,
/// or the length.
pub fn find_slash_outside_braces(chars: &Vec<char>, start: usize) -> (at: usize)
    requires
        start <= chars.len(),
    ensures
        at == slash_outside_braces(chars@, start as int, 0),
        start <= at <= chars.len(),
{
    let mut i: usize = start;
    let mut depth: usize = 0;
    while i < chars.len() && !(chars[i] == '/' && depth == 0)
        invariant
            start <= i <= chars.len(),
            depth <= i - start,
            slash_outside_braces(chars@, start as int, 0) == slash_outside_braces(
                chars@,
                i as int,
                depth as nat,
            ),
        decreases chars.len() - i,
    {
        if chars[i] == '{' {
            depth = depth + 1;
        } else if chars[i] == '}' && depth > 0 {
            depth = depth - 1;
        }
        i = i + 1;
    }
    i
}

/// Whether two strings hold the same characters.
pub fn same_text(a: &str, b: &str) -> (same: bool)
    ensures
        same == (a@ == b@),
{
    let x = to_chars(a);
    let y = to_chars(b);
    if x.len() != y.len() {
        return false;
    }
    let mut i: usize = 0;
    while i < x.len()
        invariant
            i <= x.len(),
            x.len() == y.len(),
            x@ == a@,
            y@ == b@,
            forall|k: int| 0 <= k < i ==> x@[k] == y@[k],
        decreases x.len() - i,
    {
        if x[i] != y[i] {
            return false;
        }
        i = i + 1;
    }
    proof {
        assert(x@ =~= y@);
    }
    true
}

/// The characters of `s` from `from` up to `to`, as a string of their own.
pub fn slice_string(s: &str, from: usize, to: usize) -> (part: String)
    requires
        from <= to <= s@.len(),
    ensures
        part@ == s@.subrange(from as int, to as int),
{
    s.substring_char(from, to).to_owned()
}

/// The characters of `s`, in order.
pub fn to_chars(s: &str) -> (chars: Vec<char>)
    ensures
        chars@ == s@,
{
    broadcast use {axiom_spec_iter, next_postcondition};
    let mut chars: Vec<char> = Vec::new();
    let mut it = s.chars();
    loop
        invariant
            it.obeys_prophetic_iter_laws(),
            it.decrease() is Some,
            chars@ + it.remaining() == s@,
        ensures
            chars@ == s@,
        decreases it.decrease()->0,
    {
        match it.next() {
            Some(c) => {
                chars.push(c);
                proof {
                    assert(chars@ + it.remaining() =~= s@);
                }
            },
            None => {
                proof {
                    assert(chars@ + it.remaining() =~= chars@);
                }
                break;
            },
        }
    }
    chars
}

} // verus!
