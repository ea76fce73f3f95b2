//! The raw copies between host bytes and a guest's linear memory, checked
//! against the memory's current size.
use vstd::prelude::*;
use vstd::slice::{slice_subrange, slice_to_vec};

use crate::codec::{GuestPtr, Len};
use crate::error::WasmError;

verus! {

/// Whether `len` bytes from `ptr` lie inside a memory of `size` bytes.
pub open spec fn in_bounds(size: int, ptr: int, len: int) -> bool {
    ptr + len <= size
}

/// Copies `bytes` into `mem` at `ptr`. A range past the end of memory is
/// refused with a memory error and `mem` is left as it was.
pub fn write_bytes(mem: &mut Vec<u8>, ptr: GuestPtr, bytes: &[u8]) -> (r: Result<(), WasmError>)
    ensures
        r is Ok <==> in_bounds(old(mem)@.len() as int, ptr as int, bytes@.len() as int),
        r is Ok ==> final(mem)@ == old(mem)@.subrange(0, ptr as int) + bytes@
            + old(mem)@.subrange(ptr + bytes@.len(), old(mem)@.len() as int),
        r is Err ==> r->Err_0 is Memory && final(mem)@ == old(mem)@,
{
    if ptr as usize > mem.len() || bytes.len() > mem.len() - ptr as usize {
        return Err(WasmError::Memory(String::from_str("write past the end of guest memory")));
    }
    let start = ptr as usize;
    let mut i: usize = 0;
    while i < bytes.len()
        invariant
            0 <= i <= bytes@.len(),
            start + bytes@.len() <= mem@.len(),
            mem@.len() <= usize::MAX,
            mem@.len() == old(mem)@.len(),
            forall|k: int| 0 <= k < mem@.len() ==> #[trigger] mem@[k] == if start <= k < start + i {
                bytes@[k - start]
            } else {
                old(mem)@[k]
            },
        decreases bytes@.len() - i,
    {
        mem.set(start + i, bytes[i]);
        i = i + 1;
    }
    assert(mem@ =~= old(mem)@.subrange(0, ptr as int) + bytes@
        + old(mem)@.subrange(ptr + bytes@.len(), old(mem)@.len() as int));
    Ok(())
}

/// Copies `len` bytes out of `mem` from `ptr`. A range past the end of
/// memory is refused with a memory error.
pub fn read_bytes(mem: &[u8], ptr: GuestPtr, len: Len) -> (r: Result<Vec<u8>, WasmError>)
    ensures
        r is Ok <==> in_bounds(mem@.len() as int, ptr as int, len as int),
        r is Ok ==> r->Ok_0@ == mem@.subrange(ptr as int, ptr + len),
        r is Err ==> r->Err_0 is Memory,
{
    if ptr as usize > mem.len() || len as usize > mem.len() - ptr as usize {
        return Err(WasmError::Memory(String::from_str("read past the end of guest memory")));
    }
    Ok(slice_to_vec(slice_subrange(mem, ptr as usize, ptr as usize + len as usize)))
}

/// Reading back what was just written gives the same bytes.
pub proof fn lemma_write_then_read(before: Seq<u8>, ptr: int, bytes: Seq<u8>)
    requires
        0 <= ptr,
        in_bounds(before.len() as int, ptr, bytes.len() as int),
    ensures
        (before.subrange(0, ptr) + bytes + before.subrange(ptr + bytes.len(), before.len() as int)).subrange(
            ptr,
            ptr + bytes.len(),
        ) == bytes,
{
    let after = before.subrange(0, ptr) + bytes + before.subrange(ptr + bytes.len(), before.len() as int);
    assert(after.subrange(ptr, ptr + bytes.len()) =~= bytes);
}

} // verus!
