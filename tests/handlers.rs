use hyper_router::context::{Context, Params};
use hyper_router::handler::{
    counter_handler, forwarded_candidate, not_found_handler, param_handler, send_handler,
    test_handler, AppState, SendRequest,
};

fn state(thing: &str, counter: u64) -> AppState {
    AppState { state_thing: thing.to_string(), counter }
}

#[test]
fn test_handler_reports_display_text() {
    let s = state("state", 0);
    assert_eq!(test_handler(&s), "test called, state_thing was: state");
}

#[test]
fn counter_handler_increments_and_reports() {
    let mut s = state("state", 0);
    let r = counter_handler(&mut s, "127.0.0.1:5000", "0.0.0.0");
    assert_eq!(s.counter, 1);
    assert_eq!(r.status, 200);
    assert_eq!(r.content_type, Some("text/plain".to_string()));
    assert_eq!(
        r.body,
        "Socket address: 127.0.0.1:5000\nX-Forwarded-For: 0.0.0.0\nCounter value: 1"
    );
    assert_eq!(s.state_thing, "state");
}

#[test]
fn counter_increments_add_up() {
    let mut s = state("state", 5);
    for _ in 0..10 {
        counter_handler(&mut s, "peer", "0.0.0.0");
    }
    assert_eq!(s.counter, 15);
}

#[test]
fn counter_reaches_largest_value() {
    let mut s = state("x", u64::MAX - 1);
    let r = counter_handler(&mut s, "p", "q");
    assert_eq!(s.counter, u64::MAX);
    assert!(r.body.ends_with("Counter value: 18446744073709551615"));
}

#[test]
fn send_handler_echoes_fields() {
    let r = send_handler(Ok(SendRequest { name: "abc".to_string(), active: true }));
    assert_eq!(r.status, 200);
    assert_eq!(r.body, "send called with name: abc and active: true");
    let r = send_handler(Ok(SendRequest { name: String::new(), active: false }));
    assert_eq!(r.body, "send called with name:  and active: false");
}

#[test]
fn send_handler_valid_json_body() {
    let v: serde_json::Value = serde_json::from_str(r#"{"name":"abc","active":true}"#).unwrap();
    let req = SendRequest {
        name: v["name"].as_str().unwrap().to_string(),
        active: v["active"].as_bool().unwrap(),
    };
    let r = send_handler(Ok(req));
    assert_eq!(r.status, 200);
    assert_eq!(r.body, "send called with name: abc and active: true");
}

#[test]
fn send_handler_truncated_json_is_client_error() {
    let err = serde_json::from_str::<serde_json::Value>(r#"{"name":"#).unwrap_err();
    let r = send_handler(Err(err.to_string()));
    assert_eq!(r.status, 400);
    assert!(r.body.starts_with("could not parse JSON:"));
    assert_eq!(r.body, format!("could not parse JSON: {}", err));
}

#[test]
fn param_handler_reports_value() {
    let mut p = Params::new();
    p.insert("some_param".to_string(), "xyz".to_string());
    let ctx = Context::new(p, "1.2.3.4:5".to_string());
    assert_eq!(param_handler(&ctx), "param called, param was: xyz");
}

#[test]
fn param_handler_falls_back_to_empty() {
    let ctx = Context::new(Params::new(), "1.2.3.4:5".to_string());
    assert_eq!(param_handler(&ctx), "param called, param was: empty");
    let mut p = Params::new();
    p.insert("other".to_string(), "v".to_string());
    let ctx = Context::new(p, "peer".to_string());
    assert_eq!(param_handler(&ctx), "param called, param was: empty");
}

#[test]
fn not_found_reply() {
    let r = not_found_handler();
    assert_eq!(r.status, 404);
    assert_eq!(r.body, "not found");
}

#[test]
fn forwarded_candidate_takes_first_entry_trimmed() {
    assert_eq!(forwarded_candidate(" 10.0.0.1 , 10.0.0.2"), "10.0.0.1");
    assert_eq!(forwarded_candidate("10.0.0.3"), "10.0.0.3");
    assert_eq!(forwarded_candidate(""), "");
    assert_eq!(forwarded_candidate(",10.0.0.4"), "");
}
