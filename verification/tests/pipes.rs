use reign_router::chain::{Chain, Step};
use reign_router::path::Path;
use reign_router::route::{Method, Pipe};
use reign_router::router::{Router, Scope};
use reign_router::service::{service, Service};

const INDEX: usize = 0;
const POWERED_BY: usize = 0;

struct Response {
    status: u16,
    headers: Vec<(String, String)>,
    body: String,
}

fn path(pattern: &str) -> Path {
    Path::parse(pattern).unwrap()
}

fn build(router: &Router) -> Service {
    match service(router) {
        Ok(s) => s,
        Err(e) => panic!("{}", e.message()),
    }
}

fn path_of(uri: &str) -> &str {
    let rest = uri.strip_prefix("https://reign.rs").unwrap();
    if rest.is_empty() {
        "/"
    } else {
        rest
    }
}

fn call(service: &Service, uri: &str) -> Response {
    let found = match service.dispatch(Method::Get, path_of(uri), &[]) {
        Some(m) => m,
        None => return Response { status: 404, headers: vec![], body: String::new() },
    };
    let mut chain = Chain::new(found.middlewares.clone(), found.handler);
    let mut response = loop {
        match chain.enter() {
            Step::Middleware(_) => {}
            Step::Handler(h) => {
                assert_eq!(h, INDEX);
                break Response { status: 200, headers: vec![], body: "index".to_string() };
            }
        }
    };
    while let Some(m) = chain.leave() {
        assert_eq!(m, POWERED_BY);
        response.headers.push(("x-powered-by".to_string(), "reign".to_string()));
    }
    response
}

fn index_router() -> Router {
    let mut r = Router::new();
    r.get(path(""), INDEX);
    r
}

#[test]
#[should_panic(expected = "can't find pipe with name `app`")]
fn test_invalid_pipe() {
    let mut r = Router::new();
    r.scope_as(Scope::new(path("")).through(&["app"]).to(index_router()));
    build(&r);
}

#[test]
#[should_panic(expected = "can't find pipe with name `secret`")]
fn test_scope_pipe_not_visible() {
    let mut inner = Router::new();
    inner.pipe(Pipe::new("secret").add(POWERED_BY)).unwrap();
    inner.scope_as(Scope::new(path("")).through(&["secret"]).to(index_router()));

    let mut r = Router::new();
    r.scope_as(Scope::new(path("pipe")).to(inner));
    r.scope_as(Scope::new(path("")).through(&["secret"]).to(index_router()));
    build(&r);
}

#[test]
fn test_pipe_in_scope() {
    let mut inner = Router::new();
    inner.pipe(Pipe::new("secret").add(POWERED_BY)).unwrap();
    inner.scope_as(Scope::new(path("")).through(&["secret"]).to(index_router()));

    let mut r = Router::new();
    r.scope_as(Scope::new(path("pipe")).to(inner));
    r.scope_as(Scope::new(path("")).to(index_router()));
    let service = build(&r);

    let res = call(&service, "https://reign.rs/pipe");

    assert_eq!(res.status, 200);
    assert!(res.headers.iter().any(|(name, _)| name == "x-powered-by"));
    assert_eq!(res.body, "index");

    let res = call(&service, "https://reign.rs");

    assert_eq!(res.status, 200);
    assert!(!res.headers.iter().any(|(name, _)| name == "x-powered-by"));
    assert_eq!(res.body, "index");
}

#[test]
#[should_panic(expected = "can't find pipe with name `secret`")]
fn test_pipe_in_upper_scope() {
    let mut innermost = Router::new();
    innermost.scope_as(Scope::new(path("")).through(&["secret"]).to(index_router()));

    let mut r = Router::new();
    r.pipe(Pipe::new("secret").add(POWERED_BY)).unwrap();
    r.scope_as(Scope::new(path("pipe")).to(innermost));
    build(&r);
}
