//! The endpoint bodies: what each route answers, computed from plain values
//! that the serving loop hands over (state under its lock, decoded body,
//! captured parameters, peer address text).
use vstd::prelude::*;
use vstd::string::*;
use crate::context::{lookup, Context};
use crate::text::{bool_text, bool_to_text, decimal, split_on, split_str, u64_to_decimal};

verus! {

/// The state shared by every request; the serving loop keeps it behind one
/// exclusive lock and hands it to a handler only inside that lock.
#[derive(Clone, Debug)]
pub struct AppState {
    pub state_thing: String,
    pub counter: u64,
}

/// A reply: status code, optional content type, and text body.
pub struct Response {
    pub status: u16,
    pub content_type: Option<String>,
    pub body: String,
}

/// The JSON body that `POST /send` expects: `{"name": string, "active": bool}`.
pub struct SendRequest {
    pub name: String,
    pub active: bool,
}

/// One counter request takes the state from `before` to `after`.
pub open spec fn counter_step(before: AppState, after: AppState) -> bool {
    &&& after.counter == before.counter + 1
    &&& after.state_thing@ == before.state_thing@
}

pub open spec fn test_text(state_thing: Seq<char>) -> Seq<char> {
    "test called, state_thing was: "@ + state_thing
}

pub open spec fn counter_text(sock_addr: Seq<char>, forwarded: Seq<char>, counter: nat) -> Seq<char> {
    "Socket address: "@ + sock_addr + "\nX-Forwarded-For: "@ + forwarded + "\nCounter value: "@
        + decimal(counter)
}

pub open spec fn send_text(name: Seq<char>, active: bool) -> Seq<char> {
    "send called with name: "@ + name + " and active: "@ + bool_text(active)
}

pub open spec fn parse_error_text(message: Seq<char>) -> Seq<char> {
    "could not parse JSON: "@ + message
}

pub open spec fn param_text(value: Seq<char>) -> Seq<char> {
    "param called, param was: "@ + value
}

/// The parameter that the `/params/:some_param` route binds.
pub open spec fn some_param_name() -> Seq<char> {
    "some_param"@
}

/// What `param_handler` reports for the parameters `ps`.
pub open spec fn param_reply(ps: Seq<(Seq<char>, Seq<char>)>) -> Seq<char> {
    match lookup(ps, some_param_name()) {
        Some(v) => param_text(v),
        None => param_text("empty"@),
    }
}

pub uninterp spec fn trim_of(s: Seq<char>) -> Seq<char>;

/// Relies on `str::trim`: strips leading and trailing whitespace; the result
/// depends on the characters alone, and an empty string stays empty.
#[verifier::external_body]
fn trim(s: &str) -> (r: String)
    ensures
        r@ == trim_of(s@),
        s@.len() == 0 ==> r@.len() == 0,
{
    s.trim().to_string()
}

/// The address candidate of an `X-Forwarded-For` header value: its first
/// comma-separated entry, trimmed.
pub fn forwarded_candidate(header: &str) -> (r: String)
    ensures
        r@ == trim_of(split_on(header@, ',')[0]),
{
    let parts = split_str(header, ',');
    proof {
        crate::text::lemma_split_nonempty(header@, ',');
    }
    trim(parts[0].as_str())
}

/// `GET /test`: reports the state's display text.
pub fn test_handler(state: &AppState) -> (r: String)
    ensures
        r@ == test_text(state.state_thing@),
{
    let mut r = "test called, state_thing was: ".to_string();
    r.append(state.state_thing.as_str());
    r
}

/// `GET /counter`: increments the counter and reports the peer address,
/// the forwarded address and the new counter value as plain text.
pub fn counter_handler(state: &mut AppState, sock_addr: &str, forwarded: &str) -> (r: Response)
    requires
        old(state).counter < u64::MAX,
    ensures
        counter_step(*old(state), *final(state)),
        r.status == 200,
        r.content_type matches Some(t) && t@ == "text/plain"@,
        r.body@ == counter_text(sock_addr@, forwarded@, final(state).counter as nat),
{
    state.counter = state.counter + 1;
    let mut body = "Socket address: ".to_string();
    body.append(sock_addr);
    body.append("\nX-Forwarded-For: ");
    body.append(forwarded);
    body.append("\nCounter value: ");
    let n = u64_to_decimal(state.counter);
    body.append(n.as_str());
    Response { status: 200, content_type: Some("text/plain".to_string()), body }
}

/// `POST /send`: echoes the decoded body, or answers 400 with the decoder's
/// message where the body was not valid.
pub fn send_handler(decoded: Result<SendRequest, String>) -> (r: Response)
    ensures
        r.content_type is None,
        decoded matches Ok(req) ==> r.status == 200 && r.body@ == send_text(
            req.name@,
            req.active,
        ),
        decoded matches Err(msg) ==> r.status == 400 && r.body@ == parse_error_text(msg@),
{
    match decoded {
        Ok(req) => {
            let mut body = "send called with name: ".to_string();
            body.append(req.name.as_str());
            body.append(" and active: ");
            let flag = bool_to_text(req.active);
            body.append(flag.as_str());
            Response { status: 200, content_type: None, body }
        },
        Err(msg) => {
            let mut body = "could not parse JSON: ".to_string();
            body.append(msg.as_str());
            Response { status: 400, content_type: None, body }
        },
    }
}

/// `GET /params/:some_param`: reports the captured value, or `empty` where
/// the request carries none.
pub fn param_handler(ctx: &Context) -> (r: String)
    ensures
        r@ == param_reply(ctx.params_view()),
{
    let mut r = "param called, param was: ".to_string();
    match ctx.params().find("some_param") {
        Some(v) => {
            r.append(v.as_str());
        },
        None => {
            r.append("empty");
        },
    }
    r
}

/// The reply to a request that no route matches.
pub fn not_found_handler() -> (r: Response)
    ensures
        r.status == 404,
        r.content_type is None,
        r.body@ == "not found"@,
{
    Response { status: 404, content_type: None, body: "not found".to_string() }
}

/// Counter requests that the lock serializes lose no update: a run of `n`
/// of them, in whichever order they took the lock, takes the counter from
/// `c` to `c + n` and leaves the display text as it was.
pub proof fn lemma_counter_serializable(states: Seq<AppState>)
    requires
        states.len() >= 1,
        forall|k: int|
            0 <= k < states.len() - 1 ==> #[trigger] counter_step(states[k], states[k + 1]),
    ensures
        states.last().counter == states[0].counter + (states.len() - 1),
        states.last().state_thing@ == states[0].state_thing@,
    decreases states.len(),
{
    if states.len() > 1 {
        let prev = states.drop_last();
        assert forall|k: int| 0 <= k < prev.len() - 1 implies #[trigger] counter_step(
            prev[k],
            prev[k + 1],
        ) by {
            assert(counter_step(states[k], states[k + 1]));
        }
        lemma_counter_serializable(prev);
        let k = states.len() - 2;
        assert(counter_step(states[k], states[k + 1]));
    }
}

} // verus!
