//! A Codex `/v1/responses` bridge on top of Gemini: the decisions, translations and state machines,
//! without the sockets and clocks around them.
use vstd::prelude::*;

pub mod auth;
pub mod catalog;
pub mod clock;
pub mod codex;
pub mod driver;
pub mod finish;
pub mod gemini;
pub mod harness;
pub mod ids;
pub mod json;
pub mod launch;
pub mod promises_client;
pub mod promises_request;
pub mod promises_stream;
pub mod protocol;
pub mod request;
pub mod responses;
pub mod rpc;
pub mod session;
pub mod stream;
pub mod text;
pub mod translate;
pub mod usage;

verus! {

/// Discard a value whose result is intentionally unused.
pub fn discard<T>(_value: T) {
}

} // verus!
