//! Engine for a line-oriented version-control remote helper: the object and
//! ref data model, capability advertisement, command parsing with fetch/push
//! batching, and the protocol state machine. Transports plug in from outside;
//! this crate holds the logic and its proofs.
use vstd::prelude::*;

pub mod caps;
pub mod engine;
pub mod errors;
pub mod hex;
pub mod model;
pub mod parse;
pub mod render;
pub mod text;

verus! {

/// Marker for the `connect` capability: a backend that supports a direct
/// connection advertises it by setting the corresponding capability flag.
pub trait Connect {

}

} // verus!
