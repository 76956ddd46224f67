use reign_router::error::PatternSyntaxError;
use reign_router::matcher::Matcher;
use reign_router::path::{Path, PathSegment, ValueKind};

fn bound(pattern: &str, text: &str) -> Option<Vec<(String, String)>> {
    let matcher = Matcher::new(Path::parse(pattern).unwrap()).unwrap();
    matcher
        .captures(text)
        .map(|params| params.into_iter().map(|p| (p.name, p.value)).collect())
}

fn pair(name: &str, value: &str) -> (String, String) {
    (name.to_string(), value.to_string())
}

#[test]
fn optional_segment_may_be_absent() {
    assert_eq!(bound("a/{id?}", "a"), Some(vec![]));
    assert_eq!(bound("a/{id?}", "a/5"), Some(vec![pair("id", "5")]));
    assert_eq!(bound("a/{id?}", "a/"), None);
    assert_eq!(bound("a/{id?}", "/a/5"), Some(vec![pair("id", "5")]));
}

#[test]
fn glob_stops_before_trailing_literal() {
    assert_eq!(bound("a/{id*}/b", "a/x/y/b"), Some(vec![pair("id", "x/y")]));
    assert_eq!(bound("a/{id*}/b", "a/b"), None);
    assert_eq!(bound("a/{id*}", "a/x/y/b"), Some(vec![pair("id", "x/y/b")]));
}

#[test]
fn expressions_of_patterns() {
    assert_eq!(Path::parse("").unwrap().to_regex(), "^$");
    assert_eq!(Path::parse("/").unwrap().to_regex(), "^$");
    assert_eq!(Path::parse("users/{id:u32}").unwrap().to_regex(), "^/users/(?P<id>[0-9]+)$");
    assert_eq!(Path::parse("files/{path*}").unwrap().to_regex(), "^/files/(?P<path>.+)$");
    assert_eq!(Path::parse("opt/{id?}").unwrap().to_regex(), "^/opt(?:/(?P<id>[^/]+))?$");
    assert_eq!(
        Path::parse("tag/{id@[0-9]{4}}").unwrap().to_regex(),
        "^/tag/(?P<id>[0-9]{4})$"
    );
    assert_eq!(Path::parse("a/{id*}/b").unwrap().to_regex(), "^/a/(?P<id>.+?)/b$");
    assert_eq!(Path::parse("a.b/c-d").unwrap().to_regex(), "^/a\\.b/c\\-d$");
    assert_eq!(Path::parse("double//slashes").unwrap().to_regex(), "^/double//slashes$");
}

#[test]
fn syntax_errors() {
    assert_eq!(Path::parse("a/{}").unwrap_err(), PatternSyntaxError::EmptyName);
    assert_eq!(Path::parse("a/{?}").unwrap_err(), PatternSyntaxError::EmptyName);
    assert_eq!(Path::parse("a/{1x}").unwrap_err(), PatternSyntaxError::InvalidName);
    assert_eq!(Path::parse("a/{id").unwrap_err(), PatternSyntaxError::UnclosedSegment);
    assert_eq!(Path::parse("a/{id}x").unwrap_err(), PatternSyntaxError::UnexpectedCharacter);
    assert_eq!(Path::parse("a/{id?*}").unwrap_err(), PatternSyntaxError::UnexpectedCharacter);
    assert_eq!(Path::parse("a/{id-x}").unwrap_err(), PatternSyntaxError::UnexpectedCharacter);
    assert_eq!(Path::parse("a/{id:float}").unwrap_err(), PatternSyntaxError::UnknownType);
    assert_eq!(Path::parse("a/{id@[0-9}").unwrap_err(), PatternSyntaxError::InvalidRegex);
    assert!(Path::parse_syntax("a/{id@[0-9}").is_ok());
}

#[test]
fn type_annotations() {
    let path = Path::parse("a/{id:Option<Vec<u8>>}/{n@[a-z]+:i64}/{m:Float@x+}").unwrap();
    assert_eq!(path.segments.len(), 4);
    match &path.segments[1] {
        PathSegment::Dynamic(d) => {
            assert_eq!(d.ident, "id");
            assert!(d.optional && d.glob);
            assert_eq!(d.ty, Some(ValueKind::U8));
            assert_eq!(d.regex, None);
        }
        PathSegment::Static(_) => panic!("dynamic expected"),
    }
    match &path.segments[2] {
        PathSegment::Dynamic(d) => {
            assert_eq!(d.ident, "n");
            assert!(!d.optional && !d.glob);
            assert_eq!(d.ty, Some(ValueKind::I64));
            assert_eq!(d.regex.as_deref(), Some("[a-z]+"));
        }
        PathSegment::Static(_) => panic!("dynamic expected"),
    }
    match &path.segments[3] {
        PathSegment::Dynamic(d) => {
            assert_eq!(d.ty, None);
            assert_eq!(d.regex.as_deref(), Some("x+"));
        }
        PathSegment::Static(_) => panic!("dynamic expected"),
    }
}

#[test]
fn literal_examples_match() {
    assert_eq!(bound("users/{id:u32}", "users/42"), Some(vec![pair("id", "42")]));
    assert_eq!(bound("users/{id:u32}", "users/x"), None);
    assert_eq!(bound("n/{v:i16}", "n/-12"), Some(vec![pair("v", "-12")]));
    assert_eq!(bound("flag/{on:bool}", "flag/true"), Some(vec![pair("on", "true")]));
    assert_eq!(bound("flag/{on:bool}", "flag/yes"), None);
    assert_eq!(bound("name/{n:String}", "name/ab"), Some(vec![pair("n", "ab")]));
    assert_eq!(bound("files/{path*}", "files/a/b.txt"), Some(vec![pair("path", "a/b.txt")]));
    assert_eq!(bound("files/{path*?}", "files"), Some(vec![]));
    assert_eq!(bound("files/{path*?}", "files/a/b"), Some(vec![pair("path", "a/b")]));
    assert_eq!(bound("tag/{id@[0-9]{4}}", "tag/2024"), Some(vec![pair("id", "2024")]));
    assert_eq!(bound("tag/{id@[0-9]{4}}", "tag/24"), None);
    assert_eq!(bound("{a}/{b}", "x/y"), Some(vec![pair("a", "x"), pair("b", "y")]));
    assert_eq!(bound("{a}/{b}", "x"), None);
    assert_eq!(bound("a.b/c-d", "a.b/c-d"), Some(vec![]));
    assert_eq!(bound("a.b/c-d", "axb/c-d"), None);
    assert_eq!(bound("double//slashes", "double//slashes"), Some(vec![]));
    assert_eq!(bound("double//slashes", "double/slashes"), None);
    assert_eq!(bound("", "/"), Some(vec![]));
    assert_eq!(bound("", ""), Some(vec![]));
    assert_eq!(bound("/", "x"), None);
    assert_eq!(bound("o/{v:Option<u8>}", "o"), Some(vec![]));
    assert_eq!(bound("l/{v:Vec<String>}/end", "l/a/b/end"), Some(vec![pair("v", "a/b")]));
}

#[test]
fn segments_are_read_one_by_one() {
    assert!(matches!(PathSegment::parse("abc").unwrap(), PathSegment::Static(s) if s == "abc"));
    assert!(matches!(PathSegment::parse("").unwrap(), PathSegment::Static(s) if s.is_empty()));
    assert!(matches!(PathSegment::parse("a{b}").unwrap(), PathSegment::Static(s) if s == "a{b}"));
    match PathSegment::parse("{id*?}").unwrap() {
        PathSegment::Dynamic(d) => {
            assert_eq!(d.ident, "id");
            assert!(d.optional && d.glob);
            assert_eq!((d.ty, d.regex), (None, None));
        }
        PathSegment::Static(_) => panic!("dynamic expected"),
    }
    assert_eq!(PathSegment::parse("{a}{b}").unwrap_err(), PatternSyntaxError::UnexpectedCharacter);
    assert_eq!(PathSegment::parse("{a{b}").unwrap_err(), PatternSyntaxError::UnclosedSegment);
}

#[test]
fn names_of_parameters() {
    let p = Path::parse("a/{x}/b/{y?}/{z*}").unwrap();
    assert_eq!(p.params(), vec!["x", "y", "z"]);
    assert!(Path::new().params().is_empty());
    let joined = Path::parse("a/{x}").unwrap().join(&Path::parse("{y}").unwrap());
    assert_eq!(joined.to_regex(), "^/a/(?P<x>[^/]+)/(?P<y>[^/]+)$");
    assert_eq!(joined.clone().to_regex(), joined.to_regex());
}

#[test]
fn a_name_bound_twice_does_not_compile() {
    let p = Path::parse("{id}/{id}").unwrap();
    assert_eq!(Matcher::new(p).err(), Some(PatternSyntaxError::InvalidRegex));
}

#[test]
fn parameters_are_found_by_name() {
    let p = Path::parse("a/{x:u8}/{y*?}").unwrap();
    let x = p.param("x").unwrap();
    assert_eq!(x.ty, Some(ValueKind::U8));
    assert!(!x.optional && !x.glob);
    let y = p.param("y").unwrap();
    assert!(y.optional && y.glob);
    assert!(p.param("a").is_none());
    assert!(p.param("z").is_none());
}
