use vstd::prelude::*;

verus! {

/// Every way a call across the boundary can fail.
///
/// `GuestReported` is the only fault that crosses the boundary as bytes: it is
/// the failure branch of the union that the guest returns. The others are
/// host-local transport faults.
#[derive(Debug, Clone, PartialEq, Eq)]
pub enum WasmError {
    AllocationFailed,
    Serialization(String),
    Deserialization(String),
    GuestReported(String),
    Memory(String),
    ResultMissing,
}

} // verus!
