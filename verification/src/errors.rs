//! The closed error surface of the engine.

use vstd::prelude::*;

verus! {

/// One tagged union covers every failure the engine can report.
///
/// - `Transport`: the network layer failed to reach the feed or the
///   analysis collaborator.
/// - `RemoteProtocol`: the feed answered with an explicit error payload.
/// - `Decode`: a response had a malformed or unexpected shape.
/// - `Persistence`: the store rejected a write (connectivity or a
///   constraint violation); the message names the constraint.
/// - `Configuration`: a required setting is missing at startup; the
///   message names the setting.
#[derive(Debug, Clone, PartialEq, Eq)]
pub enum CoreError {
    Transport,
    RemoteProtocol,
    Decode,
    Persistence(String),
    Configuration(String),
}

} // verus!
