//! From a path pattern to the regular expression that matches it.
//!
//! Every segment contributes a fragment that begins with its delimiter `/`.
//! A literal contributes itself, escaped. A dynamic segment contributes a
//! named group; where it is optional, the delimiter and the group together
//! may be absent. The expression of a pattern is anchored at both ends.

use vstd::prelude::*;
use vstd::string::*;
use crate::engine::{escaped, regex_compiles};
use crate::error::PatternSyntaxError;
use crate::path::{
    parse_pattern, view_result, DynamicSpec, Path, PathSegment, PathSegmentDynamic, SegmentSpec,
    ValueKind,
};

verus! {

/// The pattern that every value of a kind has, where the kind has one.
pub open spec fn canonical_pattern(kind: ValueKind) -> Option<Seq<char>> {
    match kind {
        ValueKind::U8
        | ValueKind::U16
        | ValueKind::U32
        | ValueKind::U64
        | ValueKind::U128
        | ValueKind::Usize => Some("[0-9]+"@),
        ValueKind::I8
        | ValueKind::I16
        | ValueKind::I32
        | ValueKind::I64
        | ValueKind::I128
        | ValueKind::Isize => Some("-?[0-9]+"@),
        ValueKind::Bool => Some("true|false"@),
        ValueKind::Text => None,
    }
}

/// The pattern that a kind stands for, if it stands for one.
pub open spec fn kind_pattern(kind: Option<ValueKind>) -> Option<Seq<char>> {
    match kind {
        Some(k) => canonical_pattern(k),
        None => None,
    }
}

/// What the group of a dynamic segment matches: the explicit pattern; else
/// the pattern of the kind; else, for a glob, any characters, as few as
/// possible where more segments follow; else one path component.
pub open spec fn inner_pattern(d: DynamicSpec, followed: bool) -> Seq<char> {
    match d.pattern {
        Some(p) => p,
        None => match kind_pattern(d.kind) {
            Some(c) => c,
            None => if d.glob {
                if followed {
                    ".+?"@
                } else {
                    ".+"@
                }
            } else {
                "[^/]+"@
            },
        },
    }
}

/// The fragment of one segment. `followed` says whether more segments come
/// after it.
pub open spec fn fragment(segment: SegmentSpec, followed: bool) -> Seq<char> {
    match segment {
        SegmentSpec::Static(literal) => "/"@ + escaped(literal),
        SegmentSpec::Dynamic(d) => if d.optional {
            "(?:/(?P<"@ + d.name + ">"@ + inner_pattern(d, followed) + "))?"@
        } else {
            "/(?P<"@ + d.name + ">"@ + inner_pattern(d, followed) + ")"@
        },
    }
}

/// The fragments of the first `n` segments, one after the other.
pub open spec fn fragments(segments: Seq<SegmentSpec>, n: int) -> Seq<char>
    decreases n,
{
    if n <= 0 || n > segments.len() {
        Seq::empty()
    } else {
        fragments(segments, n - 1) + fragment(segments[n - 1], n < segments.len())
    }
}

/// The regular expression of a pattern.
pub open spec fn pattern_regex(segments: Seq<SegmentSpec>) -> Seq<char> {
    "^"@ + fragments(segments, segments.len() as int) + "$"@
}

/// The names that the first `n` segments bind, in order.
pub open spec fn param_names(segments: Seq<SegmentSpec>, n: int) -> Seq<Seq<char>>
    decreases n,
{
    if n <= 0 || n > segments.len() {
        Seq::empty()
    } else {
        match segments[n - 1] {
            SegmentSpec::Dynamic(d) => param_names(segments, n - 1).push(d.name),
            SegmentSpec::Static(_) => param_names(segments, n - 1),
        }
    }
}

/// Whether every explicit pattern among the segments is a regular
/// expression.
pub open spec fn patterns_compile(segments: Seq<SegmentSpec>) -> bool {
    forall|i: int|
        0 <= i < segments.len() ==> match #[trigger] segments[i] {
            SegmentSpec::Dynamic(d) => match d.pattern {
                Some(p) => regex_compiles(p),
                None => true,
            },
            SegmentSpec::Static(_) => true,
        }
}

/// The outcome of reading a pattern string, given that of reading its
/// syntax: an explicit pattern that is no regular expression is an error.
pub open spec fn checked(syntax: Result<Seq<SegmentSpec>, PatternSyntaxError>) -> Result<
    Seq<SegmentSpec>,
    PatternSyntaxError,
> {
    match syntax {
        Err(e) => Err(e),
        Ok(segments) => if patterns_compile(segments) {
            Ok(segments)
        } else {
            Err(PatternSyntaxError::InvalidRegex)
        },
    }
}

/// The pattern of a kind, where it has one.
pub fn canonical(kind: ValueKind) -> (pattern: Option<&'static str>)
    ensures
        match pattern {
            Some(p) => canonical_pattern(kind) == Some(p@),
            None => canonical_pattern(kind) is None,
        },
{
    match kind {
        ValueKind::U8
        | ValueKind::U16
        | ValueKind::U32
        | ValueKind::U64
        | ValueKind::U128
        | ValueKind::Usize => Some("[0-9]+"),
        ValueKind::I8
        | ValueKind::I16
        | ValueKind::I32
        | ValueKind::I64
        | ValueKind::I128
        | ValueKind::Isize => Some("-?[0-9]+"),
        ValueKind::Bool => Some("true|false"),
        ValueKind::Text => None,
    }
}

impl PathSegmentDynamic {
    /// What the group of this segment matches.
    pub fn inner(&self, followed: bool) -> (pattern: String)
        ensures
            pattern@ == inner_pattern(self@, followed),
    {
        match &self.regex {
            Some(p) => p.clone(),
            None => {
                let of_kind = match self.ty {
                    Some(k) => canonical(k),
                    None => None,
                };
                match of_kind {
                    Some(c) => c.to_owned(),
                    None => if self.glob {
                        if followed {
                            ".+?".to_owned()
                        } else {
                            ".+".to_owned()
                        }
                    } else {
                        "[^/]+".to_owned()
                    },
                }
            },
        }
    }
}

impl PathSegment {
    /// The fragment of this segment.
    pub fn fragment(&self, followed: bool) -> (text: String)
        ensures
            text@ == fragment(self@, followed),
    {
        match self {
            PathSegment::Static(literal) => {
                let mut text = "/".to_owned();
                let quoted = regex::escape(literal.as_str());
                text.append(quoted.as_str());
                text
            },
            PathSegment::Dynamic(d) => {
                let inner = d.inner(followed);
                let mut text = if d.optional {
                    "(?:/(?P<".to_owned()
                } else {
                    "/(?P<".to_owned()
                };
                text.append(d.ident.as_str());
                text.append(">");
                text.append(inner.as_str());
                if d.optional {
                    text.append("))?");
                } else {
                    text.append(")");
                }
                text
            },
        }
    }
}

impl Path {
    /// The regular expression of this pattern.
    pub fn to_regex(&self) -> (source: String)
        ensures
            source@ == pattern_regex(self@),
    {
        let mut source = "^".to_owned();
        let n = self.segments.len();
        let mut i: usize = 0;
        while i < n
            invariant
                i <= n,
                n == self.segments.len(),
                source@ == "^"@ + fragments(self@, i as int),
            decreases n - i,
        {
            let piece = self.segments[i].fragment(i + 1 < n);
            proof {
                assert(self@[i as int] == self.segments[i as int]@);
                assert(("^"@ + fragments(self@, i as int)) + piece@ =~= "^"@ + fragments(
                    self@,
                    i as int + 1,
                ));
            }
            source.append(piece.as_str());
            i = i + 1;
        }
        source.append("$");
        source
    }

    /// The names that this pattern binds, in order.
    pub fn params(&self) -> (names: Vec<String>)
        ensures
            names@.map_values(|n: String| n@) == param_names(self@, self@.len() as int),
    {
        let mut names: Vec<String> = Vec::new();
        let n = self.segments.len();
        let mut i: usize = 0;
        while i < n
            invariant
                i <= n,
                n == self.segments.len(),
                names@.map_values(|n: String| n@) =~= param_names(self@, i as int),
            decreases n - i,
        {
            proof {
                assert(self@[i as int] == self.segments[i as int]@);
            }
            match &self.segments[i] {
                PathSegment::Dynamic(d) => {
                    names.push(d.ident.clone());
                },
                PathSegment::Static(_) => {},
            }
            i = i + 1;
        }
        names
    }

    /// Whether every explicit pattern in this path is a regular expression.
    pub fn patterns_valid(&self) -> (valid: bool)
        ensures
            valid == patterns_compile(self@),
    {
        let n = self.segments.len();
        let mut i: usize = 0;
        while i < n
            invariant
                i <= n,
                n == self.segments.len(),
                patterns_compile(self@.subrange(0, i as int)),
            decreases n - i,
        {
            proof {
                assert(self@[i as int] == self.segments[i as int]@);
            }
            let valid = match &self.segments[i] {
                PathSegment::Dynamic(d) => match &d.regex {
                    Some(p) => regex::Regex::new(p.as_str()).is_ok(),
                    None => true,
                },
                PathSegment::Static(_) => true,
            };
            if !valid {
                return false;
            }
            proof {
                let next = self@.subrange(0, i as int + 1);
                assert forall|k: int| 0 <= k < next.len() implies match #[trigger] next[k] {
                    SegmentSpec::Dynamic(d) => match d.pattern {
                        Some(p) => regex_compiles(p),
                        None => true,
                    },
                    SegmentSpec::Static(_) => true,
                } by {
                    if k < i {
                        assert(next[k] == self@.subrange(0, i as int)[k]);
                    }
                }
            }
            i = i + 1;
        }
        proof {
            assert(self@.subrange(0, n as int) =~= self@);
        }
        true
    }

    /// Reads a pattern string. The outcome is that of reading its syntax,
    /// but that an explicit pattern which is no regular expression is an
    /// error.
    pub fn parse(pattern: &str) -> (r: Result<Self, PatternSyntaxError>)
        ensures
            view_result(r) == checked(parse_pattern(pattern@)),
    {
        match Path::parse_syntax(pattern) {
            Err(e) => Err(e),
            Ok(path) => if path.patterns_valid() {
                Ok(path)
            } else {
                Err(PatternSyntaxError::InvalidRegex)
            },
        }
    }
}

} // verus!
