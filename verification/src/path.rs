//! Path patterns: the segments of a pattern, their mathematical model, and
//! the grammar of pattern strings.
//!
//! A pattern string is a list of segments separated by `/`. One leading `/`
//! is ignored, and the empty string is the empty pattern. A segment that
//! begins with `{` is dynamic and runs to its closing brace; any other
//! segment is a literal, which may be empty.
//!
//! Inside the braces stands a name, followed by nothing, by `?` (optional),
//! by `*` (glob), by `*?` (optional glob), or by a type annotation `:type`
//! and an explicit pattern `@regex`, each of which may be left out, in either
//! order.

use vstd::prelude::*;
use vstd::string::*;
use crate::error::PatternSyntaxError;
use crate::text::{
    closing_brace, digit, find_closing_brace, find_first, find_last, find_slash_outside_braces,
    first_index_of, is_digit, last_index_of, lemma_closing_brace_bounds,
    lemma_first_index_bounds, lemma_slash_bounds,
    name_end, same_text, scan_name, slash_outside_braces, slice_string, to_chars,
};

verus! {

/// The primitive kinds that a type annotation can name.
#[derive(Clone, Copy, Debug, PartialEq, Eq, Structural)]
pub enum ValueKind {
    U8,
    U16,
    U32,
    U64,
    U128,
    Usize,
    I8,
    I16,
    I32,
    I64,
    I128,
    Isize,
    Bool,
    Text,
}

/// A segment that binds a parameter.
#[derive(Debug)]
pub struct PathSegmentDynamic {
    /// The parameter's name.
    pub ident: String,
    /// Whether the segment, with the delimiter before it, may be absent.
    pub optional: bool,
    /// Whether the segment may span several path components.
    pub glob: bool,
    /// The kind of value, where a type annotation named a known one.
    pub ty: Option<ValueKind>,
    /// The explicit pattern, which overrides the one of the kind.
    pub regex: Option<String>,
}

/// One segment of a path pattern.
#[derive(Debug)]
pub enum PathSegment {
    Static(String),
    Dynamic(PathSegmentDynamic),
}

/// A path pattern: its segments in order. The empty pattern is valid.
#[derive(Debug)]
pub struct Path {
    pub segments: Vec<PathSegment>,
}

/// The model of a dynamic segment.
pub struct DynamicSpec {
    pub name: Seq<char>,
    pub optional: bool,
    pub glob: bool,
    pub kind: Option<ValueKind>,
    pub pattern: Option<Seq<char>>,
}

/// The model of a segment.
pub enum SegmentSpec {
    Static(Seq<char>),
    Dynamic(DynamicSpec),
}

/// What a type annotation says: the kind it names, if it is a known one, and
/// the flags that its `Option<..>` and `Vec<..>` wrappers stand for.
#[derive(Clone, Copy, Debug, PartialEq, Eq, Structural)]
pub struct TypeSpec {
    pub kind: Option<ValueKind>,
    pub optional: bool,
    pub glob: bool,
}

impl View for PathSegmentDynamic {
    type V = DynamicSpec;

    open spec fn view(&self) -> DynamicSpec {
        DynamicSpec {
            name: self.ident@,
            optional: self.optional,
            glob: self.glob,
            kind: self.ty,
            pattern: match self.regex {
                Some(r) => Some(r@),
                None => None,
            },
        }
    }
}

impl Clone for PathSegmentDynamic {
    fn clone(&self) -> (copy: Self)
        ensures
            copy == *self,
    {
        PathSegmentDynamic {
            ident: self.ident.clone(),
            optional: self.optional,
            glob: self.glob,
            ty: self.ty,
            regex: match &self.regex {
                Some(r) => Some(r.clone()),
                None => None,
            },
        }
    }
}

impl Clone for PathSegment {
    fn clone(&self) -> (copy: Self)
        ensures
            copy == *self,
    {
        match self {
            PathSegment::Static(literal) => PathSegment::Static(literal.clone()),
            PathSegment::Dynamic(d) => PathSegment::Dynamic(d.clone()),
        }
    }
}

impl Clone for Path {
    fn clone(&self) -> (copy: Self)
        ensures
            copy.segments@ == self.segments@,
            copy@ == self@,
    {
        let mut copy = Path { segments: Vec::new() };
        copy.extend(self);
        proof {
            assert(copy.segments@ =~= self.segments@);
        }
        copy
    }
}

impl View for PathSegment {
    type V = SegmentSpec;

    open spec fn view(&self) -> SegmentSpec {
        match self {
            PathSegment::Static(lit) => SegmentSpec::Static(lit@),
            PathSegment::Dynamic(d) => SegmentSpec::Dynamic(d@),
        }
    }
}

impl View for Path {
    type V = Seq<SegmentSpec>;

    open spec fn view(&self) -> Seq<SegmentSpec> {
        self.segments@.map_values(|s: PathSegment| s@)
    }
}

/// The kind that a type name stands for.
pub open spec fn kind_of_name(t: Seq<char>) -> Option<ValueKind> {
    if t == "u8"@ {
        Some(ValueKind::U8)
    } else if t == "u16"@ {
        Some(ValueKind::U16)
    } else if t == "u32"@ {
        Some(ValueKind::U32)
    } else if t == "u64"@ {
        Some(ValueKind::U64)
    } else if t == "u128"@ {
        Some(ValueKind::U128)
    } else if t == "usize"@ {
        Some(ValueKind::Usize)
    } else if t == "i8"@ {
        Some(ValueKind::I8)
    } else if t == "i16"@ {
        Some(ValueKind::I16)
    } else if t == "i32"@ {
        Some(ValueKind::I32)
    } else if t == "i64"@ {
        Some(ValueKind::I64)
    } else if t == "i128"@ {
        Some(ValueKind::I128)
    } else if t == "isize"@ {
        Some(ValueKind::Isize)
    } else if t == "bool"@ {
        Some(ValueKind::Bool)
    } else if t == "String"@ {
        Some(ValueKind::Text)
    } else {
        None
    }
}

/// The text between `open` and a final `>`, where `t` has that shape.
pub open spec fn unwrap_generic(t: Seq<char>, open: Seq<char>) -> Option<Seq<char>> {
    if t.len() > open.len() && t.subrange(0, open.len() as int) == open && t.last() == '>' {
        Some(t.subrange(open.len() as int, t.len() - 1))
    } else {
        None
    }
}

/// What the type annotation `t` says. `Vec<T>` is a glob of `T`, `Option<T>`
/// an optional `T`, and `Option<Vec<T>>` both.
pub open spec fn annotation(t: Seq<char>) -> TypeSpec {
    match unwrap_generic(t, "Vec<"@) {
        Some(inner) => TypeSpec { kind: kind_of_name(inner), optional: false, glob: true },
        None => match unwrap_generic(t, "Option<"@) {
            Some(inner) => match unwrap_generic(inner, "Vec<"@) {
                Some(element) => TypeSpec {
                    kind: kind_of_name(element),
                    optional: true,
                    glob: true,
                },
                None => TypeSpec { kind: kind_of_name(inner), optional: true, glob: false },
            },
            None => TypeSpec { kind: kind_of_name(t), optional: false, glob: false },
        },
    }
}

/// The dynamic segment with the given name, type annotation and explicit
/// pattern. An annotation that names no known kind is an error unless a
/// pattern stands beside it.
pub open spec fn annotated(
    name: Seq<char>,
    ty: Option<Seq<char>>,
    pattern: Option<Seq<char>>,
) -> Result<DynamicSpec, PatternSyntaxError> {
    match ty {
        None => Ok(DynamicSpec { name, optional: false, glob: false, kind: None, pattern }),
        Some(t) => {
            let a = annotation(t);
            if a.kind is None && pattern is None {
                Err(PatternSyntaxError::UnknownType)
            } else {
                Ok(DynamicSpec { name, optional: a.optional, glob: a.glob, kind: a.kind, pattern })
            }
        },
    }
}

/// What follows the name inside the braces. After `:` the type runs to the
/// first `@`. After `@` the pattern runs to the end, unless what follows its
/// last `:` names a known kind: then that is the type.
pub open spec fn parse_modifiers(name: Seq<char>, rest: Seq<char>) -> Result<
    DynamicSpec,
    PatternSyntaxError,
> {
    let plain = DynamicSpec { name, optional: false, glob: false, kind: None, pattern: None };
    if rest.len() == 0 {
        Ok(plain)
    } else if rest[0] == '?' {
        if rest.len() == 1 {
            Ok(DynamicSpec { optional: true, ..plain })
        } else {
            Err(PatternSyntaxError::UnexpectedCharacter)
        }
    } else if rest[0] == '*' {
        if rest.len() == 1 {
            Ok(DynamicSpec { glob: true, ..plain })
        } else if rest.len() == 2 && rest[1] == '?' {
            Ok(DynamicSpec { glob: true, optional: true, ..plain })
        } else {
            Err(PatternSyntaxError::UnexpectedCharacter)
        }
    } else if rest[0] == ':' {
        let at = first_index_of(rest, '@', 1);
        let pattern = if at < rest.len() {
            Some(rest.subrange(at + 1, rest.len() as int))
        } else {
            None
        };
        annotated(name, Some(rest.subrange(1, at)), pattern)
    } else if rest[0] == '@' {
        let colon = last_index_of(rest, ':', rest.len() as int);
        if colon >= 1 && annotation(rest.subrange(colon + 1, rest.len() as int)).kind is Some {
            annotated(
                name,
                Some(rest.subrange(colon + 1, rest.len() as int)),
                Some(rest.subrange(1, colon)),
            )
        } else {
            annotated(name, None, Some(rest.subrange(1, rest.len() as int)))
        }
    } else {
        Err(PatternSyntaxError::UnexpectedCharacter)
    }
}

/// The dynamic segment that the text between the braces describes.
pub open spec fn parse_dynamic(body: Seq<char>) -> Result<DynamicSpec, PatternSyntaxError> {
    let n = name_end(body, 0);
    if n == 0 {
        Err(PatternSyntaxError::EmptyName)
    } else if is_digit(body[0]) {
        Err(PatternSyntaxError::InvalidName)
    } else {
        parse_modifiers(body.subrange(0, n), body.subrange(n, body.len() as int))
    }
}

/// The segment that `piece` describes.
pub open spec fn parse_segment(piece: Seq<char>) -> Result<SegmentSpec, PatternSyntaxError> {
    if piece.len() > 0 && piece[0] == '{' {
        let close = closing_brace(piece, 0, 0);
        if close >= piece.len() {
            Err(PatternSyntaxError::UnclosedSegment)
        } else if close != piece.len() - 1 {
            Err(PatternSyntaxError::UnexpectedCharacter)
        } else {
            match parse_dynamic(piece.subrange(1, close)) {
                Ok(d) => Ok(SegmentSpec::Dynamic(d)),
                Err(e) => Err(e),
            }
        }
    } else {
        Ok(SegmentSpec::Static(piece))
    }
}

/// Where the segment that starts at `start` ends: at the next `/`, which for
/// a dynamic segment is the next one outside all braces, or at the end.
pub open spec fn segment_end(s: Seq<char>, start: int) -> int {
    if 0 <= start < s.len() && s[start] == '{' {
        slash_outside_braces(s, start, 0)
    } else {
        first_index_of(s, '/', start)
    }
}

/// The segments of `s` from `start` on, or the first error in them.
pub open spec fn parse_segments(s: Seq<char>, start: int) -> Result<
    Seq<SegmentSpec>,
    PatternSyntaxError,
>
    decreases s.len() - start,
    via parse_segments_decreases
{
    if start < 0 || start > s.len() {
        Ok(Seq::empty())
    } else {
        let end = segment_end(s, start);
        match parse_segment(s.subrange(start, end)) {
            Err(e) => Err(e),
            Ok(segment) => if end >= s.len() {
                Ok(seq![segment])
            } else {
                match parse_segments(s, end + 1) {
                    Err(e) => Err(e),
                    Ok(rest) => Ok(seq![segment] + rest),
                }
            },
        }
    }
}

#[via_fn]
proof fn parse_segments_decreases(s: Seq<char>, start: int) {
    if 0 <= start <= s.len() {
        lemma_segment_end_bounds(s, start);
    }
}

/// A segment ends between its start and the length.
pub proof fn lemma_segment_end_bounds(s: Seq<char>, start: int)
    requires
        0 <= start <= s.len(),
    ensures
        start <= segment_end(s, start) <= s.len(),
{
    lemma_slash_bounds(s, start, 0);
    lemma_first_index_bounds(s, '/', start);
}

/// The pattern that the string `s` describes, by its syntax alone.
pub open spec fn parse_pattern(s: Seq<char>) -> Result<Seq<SegmentSpec>, PatternSyntaxError> {
    let start: int = if s.len() > 0 && s[0] == '/' { 1 } else { 0 };
    if start == s.len() {
        Ok(Seq::empty())
    } else {
        parse_segments(s, start)
    }
}

/// The first dynamic segment from index `i` on that binds `name`.
pub open spec fn find_param(segments: Seq<SegmentSpec>, name: Seq<char>, i: int) -> Option<
    DynamicSpec,
>
    decreases segments.len() - i,
{
    if i < 0 || i >= segments.len() {
        None
    } else {
        match segments[i] {
            SegmentSpec::Dynamic(d) => if d.name == name {
                Some(d)
            } else {
                find_param(segments, name, i + 1)
            },
            SegmentSpec::Static(_) => find_param(segments, name, i + 1),
        }
    }
}

/// The model of a parse result: that of the value, or the error.
pub open spec fn view_result<T: View>(r: Result<T, PatternSyntaxError>) -> Result<
    T::V,
    PatternSyntaxError,
> {
    match r {
        Ok(v) => Ok(v@),
        Err(e) => Err(e),
    }
}

/// The segments `done`, followed by those of `rest`, or the error of `rest`.
pub open spec fn with_prefix(
    done: Seq<SegmentSpec>,
    rest: Result<Seq<SegmentSpec>, PatternSyntaxError>,
) -> Result<Seq<SegmentSpec>, PatternSyntaxError> {
    match rest {
        Ok(more) => Ok(done + more),
        Err(e) => Err(e),
    }
}

/// The kind that the type name `t` stands for.
pub fn kind_from_name(t: &str) -> (kind: Option<ValueKind>)
    ensures
        kind == kind_of_name(t@),
{
    if same_text(t, "u8") {
        Some(ValueKind::U8)
    } else if same_text(t, "u16") {
        Some(ValueKind::U16)
    } else if same_text(t, "u32") {
        Some(ValueKind::U32)
    } else if same_text(t, "u64") {
        Some(ValueKind::U64)
    } else if same_text(t, "u128") {
        Some(ValueKind::U128)
    } else if same_text(t, "usize") {
        Some(ValueKind::Usize)
    } else if same_text(t, "i8") {
        Some(ValueKind::I8)
    } else if same_text(t, "i16") {
        Some(ValueKind::I16)
    } else if same_text(t, "i32") {
        Some(ValueKind::I32)
    } else if same_text(t, "i64") {
        Some(ValueKind::I64)
    } else if same_text(t, "i128") {
        Some(ValueKind::I128)
    } else if same_text(t, "isize") {
        Some(ValueKind::Isize)
    } else if same_text(t, "bool") {
        Some(ValueKind::Bool)
    } else if same_text(t, "String") {
        Some(ValueKind::Text)
    } else {
        None
    }
}

/// The text of `t` between `open` and a final `>`, where `t` has that shape.
pub fn strip_generic<'a>(t: &'a str, open: &str) -> (inner: Option<&'a str>)
    ensures
        match inner {
            Some(i) => unwrap_generic(t@, open@) == Some(i@),
            None => unwrap_generic(t@, open@) is None,
        },
{
    let n = t.unicode_len();
    let m = open.unicode_len();
    if n > m && same_text(t.substring_char(0, m), open) && t.get_char(n - 1) == '>' {
        Some(t.substring_char(m, n - 1))
    } else {
        None
    }
}

/// What the type annotation `t` says.
pub fn read_annotation(t: &str) -> (a: TypeSpec)
    ensures
        a == annotation(t@),
{
    match strip_generic(t, "Vec<") {
        Some(inner) => TypeSpec { kind: kind_from_name(inner), optional: false, glob: true },
        None => match strip_generic(t, "Option<") {
            Some(inner) => match strip_generic(inner, "Vec<") {
                Some(element) => TypeSpec {
                    kind: kind_from_name(element),
                    optional: true,
                    glob: true,
                },
                None => TypeSpec { kind: kind_from_name(inner), optional: true, glob: false },
            },
            None => TypeSpec { kind: kind_from_name(t), optional: false, glob: false },
        },
    }
}

impl PathSegmentDynamic {
    /// The plain segment of that name: required, one component, any text.
    pub fn new(ident: String) -> (d: Self)
        ensures
            d@ == (DynamicSpec {
                name: ident@,
                optional: false,
                glob: false,
                kind: None,
                pattern: None,
            }),
    {
        PathSegmentDynamic { ident, optional: false, glob: false, ty: None, regex: None }
    }

    /// The segment with the given name, type annotation and explicit pattern.
    pub fn annotated(ident: String, ty: Option<&str>, regex: Option<String>) -> (r: Result<
        Self,
        PatternSyntaxError,
    >)
        ensures
            view_result(r) == annotated(
                ident@,
                match ty {
                    Some(t) => Some(t@),
                    None => None,
                },
                match regex {
                    Some(p) => Some(p@),
                    None => None,
                },
            ),
    {
        match ty {
            None => Ok(PathSegmentDynamic { ident, optional: false, glob: false, ty: None, regex }),
            Some(t) => {
                let a = read_annotation(t);
                if a.kind.is_none() && regex.is_none() {
                    Err(PatternSyntaxError::UnknownType)
                } else {
                    Ok(
                        PathSegmentDynamic {
                            ident,
                            optional: a.optional,
                            glob: a.glob,
                            ty: a.kind,
                            regex,
                        },
                    )
                }
            },
        }
    }

    /// Reads what follows the name inside the braces.
    pub fn with_modifiers(ident: String, rest: &str) -> (r: Result<Self, PatternSyntaxError>)
        ensures
            view_result(r) == parse_modifiers(ident@, rest@),
    {
        let chars = to_chars(rest);
        let len = chars.len();
        if len == 0 {
            return Ok(PathSegmentDynamic::new(ident));
        }
        let first = chars[0];
        if first == '?' {
            if len == 1 {
                Ok(PathSegmentDynamic { ident, optional: true, glob: false, ty: None, regex: None })
            } else {
                Err(PatternSyntaxError::UnexpectedCharacter)
            }
        } else if first == '*' {
            if len == 1 {
                Ok(PathSegmentDynamic { ident, optional: false, glob: true, ty: None, regex: None })
            } else if len == 2 && chars[1] == '?' {
                Ok(PathSegmentDynamic { ident, optional: true, glob: true, ty: None, regex: None })
            } else {
                Err(PatternSyntaxError::UnexpectedCharacter)
            }
        } else if first == ':' {
            let at = find_first(&chars, '@', 1);
            let regex = if at < len {
                Some(slice_string(rest, at + 1, len))
            } else {
                None
            };
            PathSegmentDynamic::annotated(ident, Some(rest.substring_char(1, at)), regex)
        } else if first == '@' {
            match find_last(&chars, ':') {
                Some(colon) => {
                    let ty = rest.substring_char(colon + 1, len);
                    if read_annotation(ty).kind.is_some() {
                        PathSegmentDynamic::annotated(
                            ident,
                            Some(ty),
                            Some(slice_string(rest, 1, colon)),
                        )
                    } else {
                        PathSegmentDynamic::annotated(ident, None, Some(slice_string(rest, 1, len)))
                    }
                },
                None => PathSegmentDynamic::annotated(ident, None, Some(slice_string(rest, 1, len))),
            }
        } else {
            Err(PatternSyntaxError::UnexpectedCharacter)
        }
    }

    /// Reads the text between the braces of a dynamic segment.
    pub fn parse(body: &str) -> (r: Result<Self, PatternSyntaxError>)
        ensures
            view_result(r) == parse_dynamic(body@),
    {
        let chars = to_chars(body);
        let len = chars.len();
        let n = scan_name(&chars, 0);
        if n == 0 {
            return Err(PatternSyntaxError::EmptyName);
        }
        if digit(chars[0]) {
            return Err(PatternSyntaxError::InvalidName);
        }
        PathSegmentDynamic::with_modifiers(slice_string(body, 0, n), body.substring_char(n, len))
    }
}

impl PathSegment {
    /// Reads one segment of a pattern string.
    pub fn parse(piece: &str) -> (r: Result<Self, PatternSyntaxError>)
        ensures
            view_result(r) == parse_segment(piece@),
    {
        let chars = to_chars(piece);
        let len = chars.len();
        if len > 0 && chars[0] == '{' {
            let close = find_closing_brace(&chars, 0);
            proof {
                lemma_closing_brace_bounds(chars@, 1, 1);
            }
            if close >= len {
                Err(PatternSyntaxError::UnclosedSegment)
            } else if close != len - 1 {
                Err(PatternSyntaxError::UnexpectedCharacter)
            } else {
                match PathSegmentDynamic::parse(piece.substring_char(1, close)) {
                    Ok(d) => Ok(PathSegment::Dynamic(d)),
                    Err(e) => Err(e),
                }
            }
        } else {
            proof {
                assert(piece@.subrange(0, len as int) =~= piece@);
            }
            Ok(PathSegment::Static(slice_string(piece, 0, len)))
        }
    }
}

impl Path {
    /// The empty pattern.
    pub fn new() -> (p: Self)
        ensures
            p@ == Seq::<SegmentSpec>::empty(),
    {
        let p = Path { segments: Vec::new() };
        proof {
            assert(p@ =~= Seq::<SegmentSpec>::empty());
        }
        p
    }

    /// The segment that binds the parameter `name`: the first of them, if
    /// there is one.
    pub fn param(&self, name: &str) -> (found: Option<&PathSegmentDynamic>)
        ensures
            match found {
                Some(d) => find_param(self@, name@, 0) == Some(d@),
                None => find_param(self@, name@, 0) is None,
            },
    {
        let n = self.segments.len();
        let mut i: usize = 0;
        while i < n
            invariant
                i <= n,
                n == self.segments.len(),
                find_param(self@, name@, 0) == find_param(self@, name@, i as int),
            decreases n - i,
        {
            proof {
                assert(self@[i as int] == self.segments[i as int]@);
            }
            match &self.segments[i] {
                PathSegment::Dynamic(d) => {
                    if same_text(d.ident.as_str(), name) {
                        return Some(d);
                    }
                },
                PathSegment::Static(_) => {},
            }
            i = i + 1;
        }
        None
    }

    /// Adds the segments of `other` after those of this pattern.
    pub fn extend(&mut self, other: &Path)
        ensures
            final(self).segments@ == old(self).segments@ + other.segments@,
            final(self)@ == old(self)@ + other@,
    {
        let n = other.segments.len();
        let mut i: usize = 0;
        while i < n
            invariant
                i <= n,
                n == other.segments.len(),
                self.segments@ == old(self).segments@ + other.segments@.subrange(0, i as int),
            decreases n - i,
        {
            self.segments.push(other.segments[i].clone());
            proof {
                assert(self.segments@ =~= old(self).segments@ + other.segments@.subrange(
                    0,
                    i as int + 1,
                ));
            }
            i = i + 1;
        }
        proof {
            assert(other.segments@.subrange(0, n as int) =~= other.segments@);
            assert(self@ =~= old(self)@ + other@);
        }
    }

    /// This pattern followed by `other`.
    pub fn join(&self, other: &Path) -> (joined: Self)
        ensures
            joined@ == self@ + other@,
    {
        let mut joined = self.clone();
        joined.extend(other);
        joined
    }

    /// Reads a pattern string by its syntax alone: explicit patterns are
    /// taken as they stand.
    pub fn parse_syntax(pattern: &str) -> (r: Result<Self, PatternSyntaxError>)
        ensures
            view_result(r) == parse_pattern(pattern@),
    {
        let chars = to_chars(pattern);
        let len = chars.len();
        let start: usize = if len > 0 && chars[0] == '/' { 1 } else { 0 };
        let mut path = Path::new();
        if start == len {
            return Ok(path);
        }
        let mut i: usize = start;
        loop
            invariant
                start <= i <= len,
                len == chars.len(),
                chars@ == pattern@,
                parse_pattern(pattern@) == parse_segments(pattern@, start as int),
                with_prefix(path@, parse_segments(pattern@, i as int)) == parse_segments(
                    pattern@,
                    start as int,
                ),
            decreases len - i,
        {
            let end = if i < len && chars[i] == '{' {
                find_slash_outside_braces(&chars, i)
            } else {
                find_first(&chars, '/', i)
            };
            let ghost here = parse_segments(pattern@, i as int);
            assert(end == segment_end(pattern@, i as int));
            match PathSegment::parse(pattern.substring_char(i, end)) {
                Err(e) => {
                    assert(here == Err::<Seq<SegmentSpec>, _>(e));
                    return Err(e);
                },
                Ok(segment) => {
                    let ghost before = path@;
                    path.segments.push(segment);
                    proof {
                        assert(path@ =~= before + seq![segment@]);
                        if end >= len {
                            assert(here == Ok::<_, PatternSyntaxError>(seq![segment@]));
                        } else {
                            match parse_segments(pattern@, end as int + 1) {
                                Ok(rest) => {
                                    assert(here == Ok::<_, PatternSyntaxError>(
                                        seq![segment@] + rest,
                                    ));
                                    assert(path@ + rest =~= before + (seq![segment@] + rest));
                                },
                                Err(e) => {
                                    assert(here == Err::<Seq<SegmentSpec>, _>(e));
                                },
                            }
                        }
                    }
                    if end >= len {
                        return Ok(path);
                    }
                    i = end + 1;
                },
            }
        }
    }
}

} // verus!
