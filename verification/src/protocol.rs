//! Client and server messages of the thin relay around the viewport.
//!
//! The relay itself does the wire encoding; the library only owns the
//! message shapes, with all geometry carried as raw fixed-point integers.

use vstd::prelude::*;

verus! {

/// What a client may ask of the relay.
#[derive(Debug, Clone, PartialEq)]
pub enum ClientMsg {
    Hello { client_version: String },
    AddBox { w: i128, h: i128, d: i128 },
    AddCylinder { r: i128, h: i128 },
    RequestHeavy { kind: String, payload: Option<String> },
}

/// What the relay answers.
#[derive(Debug, Clone, PartialEq)]
pub enum ServerMsg {
    HelloAck,
    Log { text: String },
    JobAccepted { job_id: u64 },
    JobResult { job_id: u64, payload: String },
}

} // verus!
