use hyper_router::context::{Context, Params};
use hyper_router::service::{first_private_key, KeyItem};
use hyper_router::text::{bool_to_text, split_str, u64_to_decimal};
use hyper_router::tls::{AcceptStream, Admission, Connection, Phase};

#[test]
fn body_is_cached_after_first_read() {
    let mut ctx = Context::new(Params::new(), "peer".to_string());
    assert!(ctx.needs_body());
    assert_eq!(ctx.cached_body(), None);
    let first = ctx.cache_body(b"{\"name\":\"abc\"}".to_vec());
    assert_eq!(first, b"{\"name\":\"abc\"}".to_vec());
    assert!(!ctx.needs_body());
    let second = ctx.cache_body(b"other".to_vec());
    assert_eq!(second, first);
    assert_eq!(ctx.cached_body(), Some(first));
    assert_eq!(ctx.sock_addr(), "peer");
}

#[test]
fn handshake_success_admits_with_peer() {
    let mut c = Connection::accepted("192.168.0.9:4000".to_string());
    assert_eq!(c.phase(), Phase::Pending);
    c.begin_handshake();
    assert_eq!(c.phase(), Phase::Handshaking);
    assert_eq!(c.peer(), "192.168.0.9:4000");
    match c.finish_handshake(true) {
        Admission::Admit { peer } => assert_eq!(peer, "192.168.0.9:4000"),
        Admission::Discard => panic!("expected admission"),
    }
    assert_eq!(c.phase(), Phase::Established);
    assert_eq!(c.peer(), "192.168.0.9:4000");
}

#[test]
fn handshake_failure_is_contained() {
    let mut stream = AcceptStream::new();
    let mut bad = Connection::accepted("10.0.0.1:1".to_string());
    let mut good = Connection::accepted("10.0.0.2:2".to_string());
    bad.begin_handshake();
    good.begin_handshake();
    let outcome = bad.finish_handshake(false);
    assert!(matches!(outcome, Admission::Discard));
    assert_eq!(bad.phase(), Phase::Failed);
    stream.record(&outcome);
    assert!(stream.open);
    assert_eq!(stream.dropped, 1);
    assert_eq!(stream.established, 0);
    let outcome = good.finish_handshake(true);
    stream.record(&outcome);
    assert!(stream.open);
    assert_eq!(stream.established, 1);
    assert_eq!(good.peer(), "10.0.0.2:2");
    stream.close();
    assert!(!stream.open);
    assert_eq!(stream.established, 1);
    assert_eq!(stream.dropped, 1);
}

#[test]
fn first_supported_key_is_chosen() {
    let items = vec![KeyItem::Other, KeyItem::Ec(vec![1, 2]), KeyItem::Rsa(vec![3])];
    assert_eq!(first_private_key(&items), Some(vec![1, 2]));
    let items = vec![KeyItem::Pkcs8(vec![9]), KeyItem::Rsa(vec![3])];
    assert_eq!(first_private_key(&items), Some(vec![9]));
    assert_eq!(first_private_key(&vec![KeyItem::Other]), None);
    assert_eq!(first_private_key(&vec![]), None);
}

#[test]
fn decimal_rendering() {
    assert_eq!(u64_to_decimal(0), "0");
    assert_eq!(u64_to_decimal(7), "7");
    assert_eq!(u64_to_decimal(42), "42");
    assert_eq!(u64_to_decimal(1000), "1000");
    assert_eq!(u64_to_decimal(u64::MAX), "18446744073709551615");
    assert_eq!(bool_to_text(true), "true");
    assert_eq!(bool_to_text(false), "false");
}

#[test]
fn split_keeps_empty_pieces() {
    assert_eq!(split_str("/a//b", '/'), vec!["", "a", "", "b"]);
    assert_eq!(split_str("", '/'), vec![""]);
    assert_eq!(split_str("/", '/'), vec!["", ""]);
    assert_eq!(split_str("héllo/wörld", '/'), vec!["héllo", "wörld"]);
}

#[test]
fn decoding_twice_uses_the_same_bytes() {
    let mut ctx = Context::new(Params::new(), "peer".to_string());
    let body = br#"{"name":"abc","active":true}"#.to_vec();
    let first_bytes = ctx.cache_body(body);
    let first: serde_json::Value = serde_json::from_slice(&first_bytes).unwrap();
    assert!(!ctx.needs_body());
    let again = ctx.cached_body().unwrap();
    let second: serde_json::Value = serde_json::from_slice(&again).unwrap();
    assert_eq!(first, second);
    assert_eq!(second["name"], "abc");
}
