//! A host/guest call bridge: pointer handles, a byte wire format for domain
//! values and for the success/failure union, the host's import table and the
//! state machine that drives one call into a sandboxed guest.
use vstd::prelude::*;

pub mod error;
pub mod codec;
pub mod wire;
pub mod outcome;
pub mod imports;
pub mod bridge;
pub mod memory;

verus! {

} // verus!
