//! Stable external protocol types for the headless sidecar: JSON-RPC
//! envelopes, request validation and the shapes of results. Nothing here
//! starts capture or performs I/O.
use vstd::prelude::*;

pub mod dto;
pub mod jsonrpc;
pub mod request;
pub mod response;

verus! {

pub const PROTOCOL_VERSION: u32 = 1;

pub const DATA_VERSION: &'static str = "1";

} // verus!
