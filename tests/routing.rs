use hyper_router::context::Params;
use hyper_router::router::{Handler, Router};
use hyper_router::service::service_router;

fn param_of(params: &Params, name: &str) -> Option<String> {
    params.find(name)
}

#[test]
fn registered_routes_reach_their_handlers() {
    let router = service_router();
    assert_eq!(router.route("/test", "GET").handler, Handler::Test);
    assert_eq!(router.route("/counter", "GET").handler, Handler::Counter);
    assert_eq!(router.route("/send", "POST").handler, Handler::Send);
    assert_eq!(router.route("/params/abc", "GET").handler, Handler::Param);
    assert_eq!(router.route("/test", "GET").params.len(), 0);
}

#[test]
fn unmatched_method_or_path_is_not_found() {
    let router = service_router();
    assert_eq!(router.route("/test", "POST").handler, Handler::NotFound);
    assert_eq!(router.route("/send", "GET").handler, Handler::NotFound);
    assert_eq!(router.route("/missing", "GET").handler, Handler::NotFound);
    assert_eq!(router.route("/test/extra", "GET").handler, Handler::NotFound);
    assert_eq!(router.route("", "GET").handler, Handler::NotFound);
    assert_eq!(router.route("/missing", "GET").params.len(), 0);
}

#[test]
fn parameter_is_extracted() {
    let router = service_router();
    let m = router.route("/params/xyz", "GET");
    assert_eq!(m.handler, Handler::Param);
    assert_eq!(param_of(&m.params, "some_param"), Some("xyz".to_string()));
    assert_eq!(param_of(&m.params, "other"), None);
}

#[test]
fn parameter_segment_must_be_non_empty() {
    let router = service_router();
    assert_eq!(router.route("/params/", "GET").handler, Handler::NotFound);
    assert_eq!(router.route("/params", "GET").handler, Handler::NotFound);
}

#[test]
fn first_registered_route_wins() {
    let mut router = Router::new();
    router.get("/a/:x", Handler::Param);
    router.get("/a/b", Handler::Test);
    router.get("/a/c", Handler::Counter);
    let m = router.route("/a/b", "GET");
    assert_eq!(m.handler, Handler::Param);
    assert_eq!(param_of(&m.params, "x"), Some("b".to_string()));
    let mut other = Router::new();
    other.get("/a/b", Handler::Test);
    other.get("/a/:x", Handler::Param);
    assert_eq!(other.route("/a/b", "GET").handler, Handler::Test);
    assert_eq!(other.route("/a/q", "GET").handler, Handler::Param);
}

#[test]
fn several_parameters_bind_in_pattern_order() {
    let mut router = Router::new();
    router.add("PUT", "/u/:id/items/:item", Handler::Send);
    let m = router.route("/u/7/items/pen", "PUT");
    assert_eq!(m.handler, Handler::Send);
    assert_eq!(m.params.len(), 2);
    assert_eq!(param_of(&m.params, "id"), Some("7".to_string()));
    assert_eq!(param_of(&m.params, "item"), Some("pen".to_string()));
    assert_eq!(router.route("/u/7/items/pen", "GET").handler, Handler::NotFound);
}

#[test]
fn empty_router_finds_nothing() {
    let router = Router::new();
    assert_eq!(router.route("/", "GET").handler, Handler::NotFound);
}
