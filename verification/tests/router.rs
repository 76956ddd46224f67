use reign_router::error::{BuildError, PatternSyntaxError};
use reign_router::path::Path;
use reign_router::route::{Method, Pipe, Route};
use reign_router::router::{Node, RouteRef, Router, Scope};
use reign_router::service::service;

fn path(pattern: &str) -> Path {
    Path::parse(pattern).unwrap()
}

fn handlers(entries: &[RouteRef]) -> Vec<usize> {
    entries.iter().map(|e| e.handler).collect()
}

#[test]
fn table_follows_declaration_order() {
    let mut body = Router::new();
    body.get(path("x"), 2);
    body.post(path("y"), 3);

    let mut r = Router::new();
    r.get(path("first"), 1);
    r.scope(path("inner"), body);
    r.get(path("last"), 4);

    let entries = r.refs().unwrap();
    assert_eq!(handlers(&entries), vec![1, 2, 3, 4]);
    assert_eq!(entries[1].path.to_regex(), "^/inner/x$");
    assert_eq!(entries[2].path.to_regex(), "^/inner/y$");
    assert_eq!(entries[2].methods, vec![Method::Post]);
    assert_eq!(entries[3].path.to_regex(), "^/last$");
}

#[test]
fn scopes_hand_down_paths_constraints_and_middleware() {
    let mut innermost = Router::new();
    innermost.any_with_constraint(&[Method::Get, Method::Head], path("{id:u8}"), 7, 40);
    innermost.all(path("plain"), 41);

    let mut middle = Router::new();
    middle.pipe(Pipe::new("b").add(20).add(21)).unwrap();
    middle.pipe(Pipe::new("c").add(30)).unwrap();
    middle.scope_as(
        Scope::new(path("in/{rest*}")).through(&["c", "b"]).constraint(6).to(innermost),
    );

    let mut r = Router::new();
    r.pipe(Pipe::new("a").add(10)).unwrap();
    r.scope_as(Scope::new(path("out")).through(&["a"]).constraint(5).to(middle));

    let entries = r.refs().unwrap();
    assert_eq!(entries.len(), 2);
    assert_eq!(entries[0].path.to_regex(), "^/out/in/(?P<rest>.+?)/(?P<id>[0-9]+)$");
    assert_eq!(entries[0].methods, vec![Method::Get, Method::Head]);
    assert_eq!(entries[0].constraints, vec![5, 6, 7]);
    assert_eq!(entries[0].middlewares, vec![10, 30, 20, 21]);
    assert_eq!(entries[0].handler, 40);
    assert_eq!(entries[1].path.to_regex(), "^/out/in/(?P<rest>.+?)/plain$");
    assert!(entries[1].methods.is_empty());
    assert_eq!(entries[1].constraints, vec![5, 6]);
    assert_eq!(entries[1].middlewares, vec![10, 30, 20, 21]);
}

#[test]
fn builders_add_nodes_at_the_end() {
    let mut r = Router::new();
    r.put(path("a"), 1);
    r.patch(path("b"), 2);
    r.delete(path("c"), 3);
    r.head(path("d"), 4);
    r.options(path("e"), 5);
    r.trace(path("f"), 6);
    r.connect(path("g"), 7);
    r.all_with_constraint(path("h"), 9, 8);
    r.any(&[Method::Get, Method::Post], path("i"), 9);
    r.scope_through(path("j"), &[], Router::new());
    assert_eq!(r.nodes.len(), 10);
    let expected = [
        vec![Method::Put],
        vec![Method::Patch],
        vec![Method::Delete],
        vec![Method::Head],
        vec![Method::Options],
        vec![Method::Trace],
        vec![Method::Connect],
        vec![],
        vec![Method::Get, Method::Post],
    ];
    for (i, methods) in expected.iter().enumerate() {
        match &r.nodes[i] {
            Node::Route(route) => {
                assert_eq!(&route.methods, methods);
                assert_eq!(route.handler, i + 1);
            }
            Node::Scope(_) => panic!("route expected"),
        }
    }
    match &r.nodes[7] {
        Node::Route(route) => assert_eq!(route.constraint, Some(9)),
        Node::Scope(_) => panic!("route expected"),
    }
    assert!(matches!(&r.nodes[9], Node::Scope(s) if s.through.is_empty()));
}

#[test]
fn route_builder_sets_each_part() {
    let route = Route::new(path("a"), 1).methods(&[Method::Get]).constraint(2).handler(3);
    assert_eq!(route.methods, vec![Method::Get]);
    assert_eq!(route.constraint, Some(2));
    assert_eq!(route.handler, 3);
    assert_eq!(route.path.to_regex(), "^/a$");
}

#[test]
fn duplicate_pipe_is_refused() {
    let mut r = Router::new();
    r.pipe(Pipe::new("app").add(1)).unwrap();
    let err = r.pipe(Pipe::new("app").add(2)).unwrap_err();
    assert_eq!(err, BuildError::DuplicatePipe("app".to_string()));
    assert_eq!(err.message(), "pipe with name `app` is already defined");
    assert_eq!(r.pipes.len(), 1);
    assert_eq!(r.pipes[0].middlewares, vec![1]);
    assert_eq!(r.find("app"), Some(0));
    assert_eq!(r.find("other"), None);
}

#[test]
fn pipes_resolve_in_the_order_of_the_names() {
    let mut r = Router::new();
    r.pipe(Pipe::new("a").add(1).add(2)).unwrap();
    r.pipe(Pipe::new("b").add(3)).unwrap();
    let names = vec!["b".to_string(), "a".to_string(), "b".to_string()];
    assert_eq!(r.resolve(&names).unwrap(), vec![3, 1, 2, 3]);
    let missing = vec!["a".to_string(), "x".to_string(), "y".to_string()];
    assert_eq!(r.resolve(&missing).unwrap_err(), BuildError::PipeNotFound("x".to_string()));
}

#[test]
fn pipe_of_a_descendant_is_not_visible() {
    let mut body = Router::new();
    body.pipe(Pipe::new("secret").add(1)).unwrap();
    body.get(path(""), 0);

    let mut r = Router::new();
    r.scope_through(path("a"), &["secret"], body);
    let err = r.refs().unwrap_err();
    assert_eq!(err, BuildError::PipeNotFound("secret".to_string()));
    assert_eq!(err.message(), "can't find pipe with name `secret`");
}

#[test]
fn pipes_in_a_nested_scope_are_refused() {
    let mut innermost = Router::new();
    innermost.pipe(Pipe::new("deep").add(1)).unwrap();
    innermost.get(path(""), 0);

    let mut middle = Router::new();
    middle.scope(path("b"), innermost);

    let mut r = Router::new();
    r.scope(path("a"), middle);
    let err = r.refs().unwrap_err();
    assert_eq!(err, BuildError::PipeInScope);
    assert_eq!(err.message(), "Pipes are not allowed to be defined in scopes");
}

#[test]
fn first_error_in_declaration_order_is_reported() {
    let mut r = Router::new();
    r.scope_through(path("a"), &["one"], Router::new());
    r.scope_through(path("b"), &["two"], Router::new());
    assert_eq!(r.refs().unwrap_err(), BuildError::PipeNotFound("one".to_string()));
}

#[test]
fn a_name_bound_twice_has_no_table() {
    let mut body = Router::new();
    body.get(path("{id}"), 0);
    let mut r = Router::new();
    r.scope(path("{id}"), body);
    assert!(r.refs().is_ok());
    let err = service(&r).err().unwrap();
    assert_eq!(err, BuildError::Pattern(PatternSyntaxError::InvalidRegex));
    assert_eq!(err.message(), "invalid path pattern");
}
