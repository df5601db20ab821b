use edge_router::handlers::Response;
use edge_router::matcher::{match_segments, param_value, Param};
use edge_router::path::{split_fields, split_segments};
use edge_router::pattern::{parse_pattern, PatternError, Segment};
use edge_router::router::{match_path, Method, MethodFilter, RouteError, Router};
use edge_router::service::{plan, worker_routes, Endpoint, Step};

fn texts(v: &[String]) -> Vec<&str> {
    v.iter().map(|s| s.as_str()).collect()
}

fn pairs(v: &[Param]) -> Vec<(&str, &str)> {
    v.iter().map(|p| (p.name.as_str(), p.value.as_str())).collect()
}

fn reply_of(step: Step) -> Response {
    match step {
        Step::Reply(r) => r,
        other => panic!("expected a reply, got {:?}", other),
    }
}

#[test]
fn split_fields_keeps_empty_fields() {
    assert_eq!(texts(&split_fields("a//b/")), vec!["a", "", "b", ""]);
    assert_eq!(texts(&split_fields("")), vec![""]);
}

#[test]
fn split_segments_ignores_outer_separators() {
    assert!(split_segments("/").is_empty());
    assert!(split_segments("").is_empty());
    assert_eq!(texts(&split_segments("/a/b/")), vec!["a", "b"]);
    assert_eq!(texts(&split_segments("form/name")), vec!["form", "name"]);
    assert_eq!(texts(&split_segments("//a")), vec!["", "a"]);
}

#[test]
fn parse_pattern_reads_segment_kinds() {
    let p = parse_pattern("/form/:field/*rest").unwrap();
    assert_eq!(p.len(), 3);
    assert!(matches!(&p[0], Segment::Literal(t) if t == "form"));
    assert!(matches!(&p[1], Segment::Named(t) if t == "field"));
    assert!(matches!(&p[2], Segment::CatchAll(t) if t == "rest"));
    assert!(parse_pattern("/").unwrap().is_empty());
}

#[test]
fn catch_all_must_be_last() {
    assert_eq!(parse_pattern("/a/*rest/b").unwrap_err(), PatternError::CatchAllNotLast);
    assert!(parse_pattern("/a/b/*rest").is_ok());
    let mut r: Router<u8> = Router::new();
    assert_eq!(
        r.register(MethodFilter::Any, "/a/*rest/b", 1),
        Err(RouteError::Malformed(PatternError::CatchAllNotLast))
    );
    assert_eq!(r.len(), 0);
}

#[test]
fn empty_segment_is_rejected() {
    assert_eq!(parse_pattern("/a//b").unwrap_err(), PatternError::EmptySegment);
}

#[test]
fn duplicate_name_is_rejected() {
    assert_eq!(parse_pattern("/:x/:x").unwrap_err(), PatternError::DuplicateName);
    assert_eq!(parse_pattern("/:x/*x").unwrap_err(), PatternError::DuplicateName);
}

#[test]
fn duplicate_binding_is_rejected() {
    let mut r: Router<u8> = Router::new();
    assert_eq!(r.register(MethodFilter::Only(Method::Get), "/a/:x", 1), Ok(()));
    assert_eq!(
        r.register(MethodFilter::Only(Method::Get), "a/:x/", 2),
        Err(RouteError::Duplicate)
    );
    assert_eq!(r.register(MethodFilter::Only(Method::Post), "/a/:x", 3), Ok(()));
    assert_eq!(r.len(), 2);
    assert_eq!(*r.handler(1), 3);
}

#[test]
fn named_segment_captures_one_segment() {
    let p = parse_pattern("/user/:id").unwrap();
    let m = match_path(&p, "/user/42").unwrap();
    assert_eq!(pairs(&m), vec![("id", "42")]);
    assert!(match_path(&p, "/user").is_none());
    assert!(match_path(&p, "/user/42/x").is_none());
    assert!(match_path(&p, "/user//").is_none());
    assert!(match_path(&p, "/users/42").is_none());
}

#[test]
fn catch_all_captures_the_rest_joined() {
    let p = parse_pattern("/files/*rest").unwrap();
    assert_eq!(pairs(&match_path(&p, "/files/a/b/c").unwrap()), vec![("rest", "a/b/c")]);
    assert_eq!(pairs(&match_path(&p, "/files").unwrap()), vec![("rest", "")]);
    assert!(match_path(&p, "/other/a").is_none());
}

#[test]
fn match_segments_on_split_path() {
    let p = parse_pattern("/a/:b").unwrap();
    let path = split_segments("/a/x");
    assert_eq!(pairs(&match_segments(&p, &path).unwrap()), vec![("b", "x")]);
}

#[test]
fn match_is_the_same_on_the_same_inputs() {
    let p = parse_pattern("/form/:field").unwrap();
    let a = match_path(&p, "/form/name").unwrap();
    let b = match_path(&p, "/form/name").unwrap();
    assert_eq!(pairs(&a), pairs(&b));
    assert!(match_path(&p, "/form").is_none() && match_path(&p, "/form").is_none());
}

#[test]
fn param_value_finds_the_first() {
    let ps = vec![
        Param { name: "a".to_string(), value: "1".to_string() },
        Param { name: "b".to_string(), value: "2".to_string() },
    ];
    assert_eq!(param_value(&ps, "b"), Some("2".to_string()));
    assert_eq!(param_value(&ps, "c"), None);
}

#[test]
fn earlier_binding_wins() {
    let mut r: Router<&str> = Router::new();
    r.register(MethodFilter::Only(Method::Get), "/a/:x", "named").unwrap();
    r.register(MethodFilter::Only(Method::Get), "/a/b", "literal").unwrap();
    let m = r.find(Method::Get, "/a/b").unwrap();
    assert_eq!(m.index, 0);
    assert_eq!(*r.handler(m.index), "named");

    let mut r: Router<&str> = Router::new();
    r.register(MethodFilter::Only(Method::Get), "/a/b", "literal").unwrap();
    r.register(MethodFilter::Only(Method::Get), "/a/:x", "named").unwrap();
    let m = r.find(Method::Get, "/a/b").unwrap();
    assert_eq!(*r.handler(m.index), "literal");
    assert!(m.params.is_empty());
    let m = r.find(Method::Get, "/a/c").unwrap();
    assert_eq!(*r.handler(m.index), "named");
    assert_eq!(pairs(&m.params), vec![("x", "c")]);
}

#[test]
fn any_method_binding_matches_every_method() {
    let mut r: Router<u8> = Router::new();
    r.register(MethodFilter::Only(Method::Get), "/x", 1).unwrap();
    r.register(MethodFilter::Any, "/*rest", 2).unwrap();
    assert_eq!(r.find(Method::Get, "/x").unwrap().index, 0);
    assert_eq!(r.find(Method::Delete, "/x").unwrap().index, 1);
    assert!(r.find(Method::Put, "/").is_some());
}

#[test]
fn worker_routes_has_three_bindings() {
    let r = worker_routes();
    assert_eq!(r.len(), 3);
    assert_eq!(*r.handler(0), Endpoint::LuckyNumber);
    assert_eq!(*r.handler(1), Endpoint::FormField);
    assert_eq!(*r.handler(2), Endpoint::WorkerVersion);
}

#[test]
fn root_leads_to_the_database_query() {
    let r = worker_routes();
    assert!(matches!(plan(&r, Method::Get, "/"), Step::QueryLuckyNumber));
}

#[test]
fn form_path_leads_to_the_named_field() {
    let r = worker_routes();
    match plan(&r, Method::Post, "/form/name") {
        Step::ReadFormField(Some(f)) => assert_eq!(f, "name"),
        other => panic!("unexpected step {:?}", other),
    }
    match plan(&r, Method::Post, "/form/missing") {
        Step::ReadFormField(Some(f)) => assert_eq!(f, "missing"),
        other => panic!("unexpected step {:?}", other),
    }
}

#[test]
fn version_path_reads_the_version_variable() {
    let r = worker_routes();
    match plan(&r, Method::Get, "/worker-version") {
        Step::ReadVar(name) => assert_eq!(name, "WORKERS_RS_VERSION"),
        other => panic!("unexpected step {:?}", other),
    }
}

#[test]
fn unknown_path_is_not_found() {
    let r = worker_routes();
    let reply = reply_of(plan(&r, Method::Get, "/does-not-exist"));
    assert_eq!(reply.status, 404);
    assert_eq!(reply.body, "Not Found");
}

#[test]
fn wrong_method_is_not_found() {
    let r = worker_routes();
    assert_eq!(reply_of(plan(&r, Method::Post, "/")).status, 404);
    assert_eq!(reply_of(plan(&r, Method::Get, "/form/name")).status, 404);
}
