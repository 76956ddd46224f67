use reign_router::chain::{Chain, Step};
use reign_router::error::{HandlerError, RequestError};
use reign_router::matcher::{bind_params, normalize, Param};
use reign_router::path::Path;
use reign_router::route::Method;
use reign_router::router::Router;
use reign_router::service::{all_hold, allows, service, Service};

fn path(pattern: &str) -> Path {
    Path::parse(pattern).unwrap()
}

fn table(router: &Router) -> Service {
    service(router).unwrap()
}

fn pairs(params: &[Param]) -> Vec<(&str, &str)> {
    params.iter().map(|p| (p.name.as_str(), p.value.as_str())).collect()
}

#[test]
fn first_match_wins() {
    let mut r = Router::new();
    r.get(path("users/{id}"), 1);
    r.get(path("users/me"), 2);
    r.get(path("{all*}"), 3);
    let service = table(&r);

    let m = service.dispatch(Method::Get, "/users/me", &[]).unwrap();
    assert_eq!((m.index, m.handler), (0, 1));
    assert_eq!(pairs(&m.params), vec![("id", "me")]);

    let m = service.dispatch(Method::Get, "/other/x", &[]).unwrap();
    assert_eq!((m.index, m.handler), (2, 3));
    assert_eq!(pairs(&m.params), vec![("all", "other/x")]);
}

#[test]
fn method_mismatch_falls_through() {
    let mut r = Router::new();
    r.post(path("form"), 1);
    let only_post = table(&r);
    assert!(only_post.dispatch(Method::Get, "/form", &[]).is_none());
    assert_eq!(only_post.dispatch(Method::Post, "/form", &[]).unwrap().handler, 1);

    r.all(path("form"), 2);
    let with_fallback = table(&r);
    assert_eq!(with_fallback.dispatch(Method::Get, "/form", &[]).unwrap().handler, 2);
    assert_eq!(with_fallback.dispatch(Method::Post, "/form", &[]).unwrap().handler, 1);
}

#[test]
fn constraints_decide_among_candidates() {
    let mut r = Router::new();
    r.any_with_constraint(&[Method::Get], path("a"), 0, 10);
    r.all_with_constraint(path("a"), 1, 11);
    r.get(path("a"), 12);
    let service = table(&r);

    assert_eq!(service.dispatch(Method::Get, "a", &[true, true]).unwrap().handler, 10);
    assert_eq!(service.dispatch(Method::Get, "a", &[false, true]).unwrap().handler, 11);
    assert_eq!(service.dispatch(Method::Get, "a", &[false, false]).unwrap().handler, 12);
    assert_eq!(service.dispatch(Method::Get, "a", &[]).unwrap().handler, 12);
    assert_eq!(service.dispatch(Method::Put, "a", &[false, true]).unwrap().handler, 11);
    assert!(service.dispatch(Method::Put, "a", &[true, false]).is_none());
}

#[test]
fn candidates_are_found_from_an_index_on() {
    let mut r = Router::new();
    r.get(path("a"), 1);
    r.post(path("a"), 2);
    r.all_with_constraint(path("{x}"), 4, 3);
    let service = table(&r);
    assert_eq!(service.len(), 3);

    let first = service.candidate(Method::Get, "/a", 0).unwrap();
    assert_eq!(first.index, 0);
    let second = service.candidate(Method::Get, "/a", 1).unwrap();
    assert_eq!(second.index, 2);
    assert_eq!(second.constraints, vec![4]);
    assert_eq!(pairs(&second.params), vec![("x", "a")]);
    assert!(service.candidate(Method::Get, "/a", 3).is_none());
    assert!(service.candidate(Method::Get, "/a/b", 0).is_none());
    assert_eq!(service.entry(1).handler, 2);
}

#[test]
fn optional_parameter_reaches_the_handler() {
    let mut r = Router::new();
    r.get(path("param_optional/{id?}"), 0);
    let service = table(&r);

    let respond = |uri: &str| {
        let m = service.dispatch(Method::Get, uri, &[]).unwrap();
        let id = m.params.iter().find(|p| p.name == "id").map(|p| p.value.clone());
        format!("param_optional {}", id.unwrap_or_default())
    };
    assert_eq!(respond("/param_optional"), "param_optional ");
    assert_eq!(respond("/param_optional/7"), "param_optional 7");
}

#[test]
fn paths_are_normalized() {
    assert_eq!(normalize(""), "");
    assert_eq!(normalize("/"), "");
    assert_eq!(normalize("a/b"), "/a/b");
    assert_eq!(normalize("/a/b"), "/a/b");
    assert_eq!(normalize("//"), "//");
    assert_eq!(normalize("a/"), "/a/");
}

#[test]
fn only_bound_parameters_are_kept() {
    let names = vec!["a".to_string(), "b".to_string(), "c".to_string()];
    let values = vec![Some("1".to_string()), None, Some("3".to_string())];
    assert_eq!(pairs(&bind_params(&names, &values)), vec![("a", "1"), ("c", "3")]);
    let short = vec![Some("1".to_string())];
    assert_eq!(pairs(&bind_params(&names, &short)), vec![("a", "1")]);
    assert!(bind_params(&names, &[].to_vec()).is_empty());
}

#[test]
fn methods_and_verdicts() {
    assert!(allows(&vec![], Method::Trace));
    assert!(allows(&vec![Method::Get, Method::Post], Method::Post));
    assert!(!allows(&vec![Method::Get, Method::Post], Method::Put));
    assert!(all_hold(&vec![], &[]));
    assert!(all_hold(&vec![1, 0], &[true, true]));
    assert!(!all_hold(&vec![1, 0], &[true, false]));
    assert!(!all_hold(&vec![2], &[true, true]));
}

#[test]
fn middleware_wraps_like_an_onion() {
    let mut chain = Chain::new(vec![10, 20, 30], 7);
    let mut trace = Vec::new();
    loop {
        match chain.enter() {
            Step::Middleware(m) => trace.push(format!("in {}", m)),
            Step::Handler(h) => {
                trace.push(format!("handle {}", h));
                break;
            }
        }
    }
    while let Some(m) = chain.leave() {
        trace.push(format!("out {}", m));
    }
    assert_eq!(trace, vec!["in 10", "in 20", "in 30", "handle 7", "out 30", "out 20", "out 10"]);
    assert_eq!(chain.leave(), None);
}

#[test]
fn middleware_that_answers_ends_the_way_in() {
    let mut chain = Chain::new(vec![10, 20, 30], 7);
    assert_eq!(chain.enter(), Step::Middleware(10));
    assert_eq!(chain.enter(), Step::Middleware(20));
    assert_eq!(chain.leave(), Some(20));
    assert_eq!(chain.leave(), Some(10));
    assert_eq!(chain.leave(), None);
    let mut empty = Chain::new(vec![], 7);
    assert_eq!(empty.enter(), Step::Handler(7));
    assert_eq!(empty.enter(), Step::Handler(7));
    assert_eq!(empty.leave(), None);
}

#[test]
fn errors_have_their_status() {
    assert_eq!(RequestError::NoMatch.status(), 404);
    assert_eq!(RequestError::Handler(HandlerError::Parse).status(), 422);
    assert_eq!(RequestError::Handler(HandlerError::Other).status(), 500);
}
