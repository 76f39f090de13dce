//! The fixed service: its route table and the choice of the server's
//! private key among the items of a PEM file.
use vstd::prelude::*;
use crate::router::{parse_pattern, Handler, RouteView, Router};

verus! {

/// The routes of the service, in registration order.
pub open spec fn service_routes() -> Seq<RouteView> {
    seq![
        RouteView { method: "GET"@, pattern: parse_pattern("/test"@), handler: Handler::Test },
        RouteView { method: "GET"@, pattern: parse_pattern("/counter"@), handler: Handler::Counter },
        RouteView { method: "POST"@, pattern: parse_pattern("/send"@), handler: Handler::Send },
        RouteView {
            method: "GET"@,
            pattern: parse_pattern("/params/:some_param"@),
            handler: Handler::Param,
        },
    ]
}

/// Builds the route table of the service.
pub fn service_router() -> (r: Router)
    ensures
        r@ == service_routes(),
{
    let mut r = Router::new();
    r.get("/test", Handler::Test);
    r.get("/counter", Handler::Counter);
    r.post("/send", Handler::Send);
    r.get("/params/:some_param", Handler::Param);
    assert(r@ =~= service_routes());
    r
}

/// An item of a PEM file, as far as key selection cares.
pub enum KeyItem {
    Rsa(Vec<u8>),
    Pkcs8(Vec<u8>),
    Ec(Vec<u8>),
    Other,
}

/// The key that an item holds, where it is a supported private key.
pub open spec fn key_of(item: KeyItem) -> Option<Seq<u8>> {
    match item {
        KeyItem::Rsa(b) => Some(b@),
        KeyItem::Pkcs8(b) => Some(b@),
        KeyItem::Ec(b) => Some(b@),
        KeyItem::Other => None,
    }
}

/// The first supported private key among `items` (RSA, PKCS#8 or EC), or
/// `None` where there is none, in which case the server must not start.
pub fn first_private_key(items: &Vec<KeyItem>) -> (r: Option<Vec<u8>>)
    ensures
        r matches Some(k) ==> exists|i: int|
            0 <= i < items@.len() && key_of(#[trigger] items@[i]) == Some(k@) && forall|j: int|
                0 <= j < i ==> key_of(#[trigger] items@[j]) is None,
        r is None ==> forall|j: int| 0 <= j < items@.len() ==> key_of(#[trigger] items@[j]) is None,
{
    let n = items.len();
    let mut i: usize = 0;
    while i < n
        invariant
            n == items@.len(),
            i <= n,
            forall|j: int| 0 <= j < i ==> key_of(#[trigger] items@[j]) is None,
        decreases n - i,
    {
        match &items[i] {
            KeyItem::Rsa(b) => {
                return Some(b.clone());
            },
            KeyItem::Pkcs8(b) => {
                return Some(b.clone());
            },
            KeyItem::Ec(b) => {
                return Some(b.clone());
            },
            KeyItem::Other => {},
        }
        i = i + 1;
    }
    None
}

} // verus!
