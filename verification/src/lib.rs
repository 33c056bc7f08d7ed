//! Request construction and dispatch decisions for a browser-hosted HTTP client.
//!
//! The library builds the descriptor of an outgoing request (method, mode, body
//! and headers), decides what happens after each answer of the host's fetch
//! mechanism, and encodes a decoded text body as a JSON string literal. The
//! host calls themselves are made by the embedding program.

pub mod descriptor;
pub mod dispatch;
pub mod header;
pub mod json;
pub mod laws;

pub use descriptor::{request_init, setup_cors, Descriptor, RequestMode};
pub use dispatch::{
    delete, get, make_request, post, put, request, Action, Event, Exchange, Fault, Phase, Reply,
    Variant,
};
pub use header::{names_match, Header};
pub use json::quote_json;
