//! A small HTTP(S) service core: route table, per-request context, handler
//! bodies over shared application state, and the TLS acceptance state machine.
pub mod context;
pub mod handler;
pub mod router;
pub mod service;
pub mod text;
pub mod tls;
