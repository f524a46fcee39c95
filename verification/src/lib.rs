//! Adaptive routing for an LLM gateway.

use vstd::prelude::*;

pub mod auth;
pub mod cli;
pub mod config;
pub mod error;
pub mod expand;
pub mod headers;
pub mod json;
pub mod proxy;
pub mod reload;
pub mod reply;
pub mod request_id;
pub mod router;
pub mod routes;
pub mod serving;
pub mod source;
pub mod state;
pub mod telemetry;
pub mod text;

verus! {

/// The version of this library.
pub fn version() -> (v: &'static str)
    ensures
        v@ == "0.1.0"@,
{
    "0.1.0"
}

} // verus!
