//! One call into a guest, as a state machine. The library decides; whoever
//! owns the engine performs each action and hands back what happened:
//! allocate a buffer for the argument, write it, invoke the export, read the
//! result, free both buffers, finish.
use vstd::prelude::*;

use crate::codec::{Codec, Handle, GuestPtr, Len, handle_for, decode, handle_pair, uses};
use crate::error::WasmError;
use crate::outcome::{decode_outcome, result_of};
use crate::wire::{Value, convert, encodable, value_bytes};
use vstd::slice::slice_to_vec;

verus! {

/// How a guest build gives memory back: through its exported deallocator, or
/// by resetting a bump allocator between calls (freeing is then a no-op).
#[derive(Debug, Clone, Copy, PartialEq, Eq)]
pub enum FreePolicy {
    Explicit,
    BumpReset,
}

/// Where a call stands.
#[derive(Debug, Clone, Copy, PartialEq, Eq)]
pub enum Phase {
    Allocating,
    Writing,
    Invoking,
    Reading,
    Freeing,
    Done,
}

/// What the engine reports back for the last action.
pub enum Event {
    Allocated(GuestPtr),
    AllocationFailed,
    Written,
    WriteFailed,
    Returned(Handle),
    /// The export left its result in the instance's context slot (through
    /// `set_context_data`); these are the bytes taken from it.
    Stashed(Vec<u8>),
    ReadDone(Vec<u8>),
    ReadFailed,
    Freed,
    FreeFailed,
}

/// What the engine is to do next.
pub enum Action {
    Allocate(Len),
    Write(GuestPtr, Vec<u8>),
    Invoke(Handle),
    Read(GuestPtr, Len),
    Free(GuestPtr, Len),
    Finish(Result<Value, WasmError>),
}

/// The state of one call on one instance.
pub struct Call {
    pub codec: Codec,
    pub policy: FreePolicy,
    pub phase: Phase,
    /// The argument's wire form.
    pub arg: Vec<u8>,
    /// The argument's buffer while it is allocated.
    pub arg_buf: Option<(GuestPtr, Len)>,
    /// The result's buffer while the host holds it.
    pub result_buf: Option<(GuestPtr, Len)>,
    /// The bytes read back from the result buffer.
    pub result: Option<Vec<u8>>,
    /// The transport fault that ended the call early, if any.
    pub fault: Option<WasmError>,
    /// How many buffers the host has been responsible for freeing.
    pub acquired: u32,
    /// How many of them it has handed to a free.
    pub released: u32,
    /// How many frees failed during cleanup.
    pub failed_frees: u32,
}

/// What a finished call returns: a transport fault if one came, else what the
/// result bytes say.
pub open spec fn final_result(fault: Option<WasmError>, result: Option<Seq<u8>>, r: Result<Value, WasmError>) -> bool {
    match fault {
        Some(e) => r == Err::<Value, WasmError>(e),
        None => match result {
            Some(b) => result_of(b, r),
            None => r is Err && r->Err_0 is ResultMissing,
        },
    }
}

/// The view of the optional result bytes.
pub open spec fn bytes_of(b: Option<Vec<u8>>) -> Option<Seq<u8>> {
    match b {
        Some(v) => Some(v@),
        None => None,
    }
}

/// The last step of a call in its freeing phase: free the argument buffer,
/// then the result buffer (under explicit freeing), then finish.
pub open spec fn drains(s0: Call, s1: Call, a: Action) -> bool {
    &&& s1.codec == s0.codec && s1.policy == s0.policy && s1.arg == s0.arg
    &&& s1.result == s0.result && s1.acquired == s0.acquired
    &&& s1.failed_frees == s0.failed_frees
    &&& if s0.policy is Explicit && s0.arg_buf is Some {
        &&& s1.phase is Freeing && s1.fault == s0.fault
        &&& s1.arg_buf is None && s1.result_buf == s0.result_buf
        &&& s1.released == s0.released + 1
        &&& a == Action::Free(s0.arg_buf.unwrap().0, s0.arg_buf.unwrap().1)
    } else if s0.policy is Explicit && s0.result_buf is Some {
        &&& s1.phase is Freeing && s1.fault == s0.fault
        &&& s1.arg_buf is None && s1.result_buf is None
        &&& s1.released == s0.released + 1
        &&& a == Action::Free(s0.result_buf.unwrap().0, s0.result_buf.unwrap().1)
    } else {
        &&& s1.phase is Done && s1.arg_buf is None && s1.result_buf is None
        &&& s1.released == s0.released
        &&& a is Finish && final_result(s0.fault, bytes_of(s0.result), a->Finish_0)
    }
}

/// The fault a call holds after a transport failure: the one in its state
/// while it still frees buffers, the one it finished with once done.
pub open spec fn final_fault(s1: Call, a: Action) -> Option<WasmError> {
    match a {
        Action::Finish(Err(e)) => Some(e),
        _ => s1.fault,
    }
}

impl Call {
    /// The buffers that the host still owes a free, under explicit freeing.
    pub open spec fn owed(&self) -> Seq<(GuestPtr, Len)> {
        (match self.arg_buf { Some(b) => seq![b], None => Seq::empty() }) + (match self.result_buf {
            Some(b) => seq![b],
            None => Seq::empty(),
        })
    }

    /// The shape every state has, whatever is pending.
    pub open spec fn wf_shape(&self) -> bool {
        &&& self.arg@.len() <= u32::MAX
        &&& self.released <= self.acquired <= 2
        &&& self.policy is Explicit ==> self.acquired == self.released + self.owed().len()
        &&& (self.arg_buf is Some ==> self.arg_buf.unwrap().1 == self.arg@.len())
        &&& match self.phase {
            Phase::Allocating => self.arg_buf is None && self.result_buf is None && self.fault is None
                && self.result is None && self.acquired == 0,
            Phase::Writing | Phase::Invoking => self.arg_buf is Some && self.result_buf is None
                && self.fault is None && self.result is None && self.acquired == 1 && self.released == 0,
            Phase::Reading => self.arg_buf is Some && self.result_buf is Some && self.fault is None
                && self.result is None && self.acquired == 2 && self.released == 0,
            Phase::Freeing => true,
            Phase::Done => self.arg_buf is None && self.result_buf is None,
        }
    }

    /// A well-formed state: its shape, and no more failed frees than frees
    /// issued (while freeing, the last free issued has not failed yet).
    pub open spec fn wf(&self) -> bool {
        &&& self.wf_shape()
        &&& self.failed_frees <= self.released
        &&& self.phase is Freeing ==> self.failed_frees < self.released
    }

    /// Whether an event answers the action of the current phase.
    pub open spec fn expects(&self, e: Event) -> bool {
        match self.phase {
            Phase::Allocating => e is Allocated || e is AllocationFailed,
            Phase::Writing => e is Written || e is WriteFailed,
            Phase::Invoking => e is Returned || e is Stashed,
            Phase::Reading => e is ReadDone || e is ReadFailed,
            Phase::Freeing => e is Freed || e is FreeFailed,
            Phase::Done => false,
        }
    }

    /// `expects`, for a driver to test before handing an event over.
    pub fn accepts(&self, e: &Event) -> (r: bool)
        ensures
            r == self.expects(*e),
    {
        match self.phase {
            Phase::Allocating => matches!(e, Event::Allocated(_) | Event::AllocationFailed),
            Phase::Writing => matches!(e, Event::Written | Event::WriteFailed),
            Phase::Invoking => matches!(e, Event::Returned(_) | Event::Stashed(_)),
            Phase::Reading => matches!(e, Event::ReadDone(_) | Event::ReadFailed),
            Phase::Freeing => matches!(e, Event::Freed | Event::FreeFailed),
            Phase::Done => false,
        }
    }

    /// Starts a call with `arg`: serializes it and asks for a buffer of its
    /// exact length. A value that cannot be serialized, or whose wire form is
    /// too long to address, finishes the call at once.
    pub fn start(codec: Codec, policy: FreePolicy, arg: &Value) -> (r: (Call, Action))
        ensures
            r.0.wf(),
            r.0.codec == codec && r.0.policy == policy,
            r.0.acquired == 0 && r.0.released == 0,
            !encodable(arg@) ==> r.0.phase is Done && r.1 is Finish && r.1->Finish_0 is Err
                && r.1->Finish_0->Err_0 is Serialization,
            encodable(arg@) && value_bytes(arg@).len() > u32::MAX ==> r.0.phase is Done && r.1 is Finish
                && r.1->Finish_0 is Err && r.1->Finish_0->Err_0 is Memory,
            encodable(arg@) && value_bytes(arg@).len() <= u32::MAX ==> r.0.phase is Allocating
                && r.0.arg@ == value_bytes(arg@) && r.1 == Action::Allocate(value_bytes(arg@).len() as u32),
    {
        let bytes = convert(arg);
        let mut call = Call {
            codec,
            policy,
            phase: Phase::Done,
            arg: Vec::new(),
            arg_buf: None,
            result_buf: None,
            result: None,
            fault: None,
            acquired: 0,
            released: 0,
            failed_frees: 0,
        };
        match bytes {
            Err(e) => (call, Action::Finish(Err(e))),
            Ok(b) => {
                if b.len() as u64 > u32::MAX as u64 {
                    return (call, Action::Finish(Err(WasmError::Memory(String::from_str("argument too long to address")))));
                }
                let n = b.len() as u32;
                call.arg = b;
                call.phase = Phase::Allocating;
                (call, Action::Allocate(n))
            },
        }
    }

    /// The next free, or the end of the call.
    fn drain(&mut self) -> (a: Action)
        requires
            old(self).wf_shape(),
            old(self).failed_frees <= old(self).released,
            old(self).phase is Freeing,
        ensures
            final(self).wf(),
            drains(*old(self), *final(self), a),
    {
        if let FreePolicy::Explicit = self.policy {
            if let Some(b) = self.arg_buf {
                self.arg_buf = None;
                self.released = self.released + 1;
                return Action::Free(b.0, b.1);
            }
            if let Some(b) = self.result_buf {
                self.result_buf = None;
                self.released = self.released + 1;
                return Action::Free(b.0, b.1);
            }
        }
        self.arg_buf = None;
        self.result_buf = None;
        self.phase = Phase::Done;
        let r = match self.fault.take() {
            Some(e) => Err(e),
            None => match &self.result {
                Some(b) => decode_outcome(b.as_slice()),
                None => Err(WasmError::ResultMissing),
            },
        };
        Action::Finish(r)
    }

    /// Takes what the engine reports for the last action and returns the next
    /// one. A transport fault (allocation, write or read) ends the call with
    /// that fault, after the buffers already taken are freed; a failed free is
    /// counted and cleanup goes on.
    pub fn step(&mut self, e: Event) -> (a: Action)
        requires
            old(self).wf(),
            old(self).expects(e),
        ensures
            final(self).wf(),
            final(self).codec == old(self).codec && final(self).policy == old(self).policy,
            final(self).arg@ == old(self).arg@,
            old(self).phase is Allocating ==> match e {
                Event::Allocated(p) => final(self).phase is Writing
                    && final(self).arg_buf == Some((p, old(self).arg@.len() as u32))
                    && final(self).acquired == old(self).acquired + 1
                    && a is Write && a->Write_0 == p && a->Write_1@ == old(self).arg@,
                _ => final(self).phase is Done && a == Action::Finish(Err(WasmError::AllocationFailed)),
            },
            old(self).phase is Writing ==> match e {
                Event::Written => final(self).phase is Invoking && final(self).arg_buf == old(self).arg_buf
                    && a is Invoke && uses(a->Invoke_0, old(self).codec)
                    && handle_pair(a->Invoke_0) == (old(self).arg_buf.unwrap().0 as int, old(self).arg_buf.unwrap().1 as int),
                _ => drains(Call { phase: Phase::Freeing, fault: final_fault(*final(self), a), ..*old(self) }, *final(self), a)
                    && final_fault(*final(self), a) is Some
                    && final_fault(*final(self), a)->0 is Memory,
            },
            old(self).phase is Invoking ==> match e {
                Event::Returned(h) => final(self).phase is Reading
                    && final(self).acquired == old(self).acquired + 1
                    && final(self).result_buf is Some
                    && (final(self).result_buf.unwrap().0 as int, final(self).result_buf.unwrap().1 as int) == handle_pair(h)
                    && a == Action::Read(final(self).result_buf.unwrap().0, final(self).result_buf.unwrap().1),
                Event::Stashed(b) => drains(Call { phase: Phase::Freeing, result: Some(b), ..*old(self) }, *final(self), a),
                _ => false,
            },
            old(self).phase is Reading ==> match e {
                Event::ReadDone(b) => drains(Call { phase: Phase::Freeing, result: Some(b), ..*old(self) }, *final(self), a),
                _ => drains(Call { phase: Phase::Freeing, fault: final_fault(*final(self), a), ..*old(self) }, *final(self), a)
                    && final_fault(*final(self), a) is Some
                    && final_fault(*final(self), a)->0 is Memory,
            },
            old(self).phase is Freeing ==> match e {
                Event::Freed => drains(*old(self), *final(self), a),
                _ => drains(Call { failed_frees: (old(self).failed_frees + 1) as u32, ..*old(self) }, *final(self), a),
            },
    {
        match e {
            Event::Allocated(p) => {
                self.arg_buf = Some((p, self.arg.len() as u32));
                self.acquired = self.acquired + 1;
                self.phase = Phase::Writing;
                Action::Write(p, slice_to_vec(self.arg.as_slice()))
            },
            Event::AllocationFailed => {
                self.phase = Phase::Done;
                Action::Finish(Err(WasmError::AllocationFailed))
            },
            Event::Written => {
                let b = self.arg_buf.unwrap();
                self.phase = Phase::Invoking;
                Action::Invoke(handle_for(self.codec, b.0, b.1))
            },
            Event::WriteFailed => {
                self.fault = Some(WasmError::Memory(String::from_str("argument write out of bounds")));
                self.phase = Phase::Freeing;
                self.drain()
            },
            Event::Returned(h) => {
                let (p, n) = decode(h);
                self.result_buf = Some((p, n));
                self.acquired = self.acquired + 1;
                self.phase = Phase::Reading;
                Action::Read(p, n)
            },
            Event::Stashed(b) => {
                self.result = Some(b);
                self.phase = Phase::Freeing;
                self.drain()
            },
            Event::ReadDone(b) => {
                self.result = Some(b);
                self.phase = Phase::Freeing;
                self.drain()
            },
            Event::ReadFailed => {
                self.fault = Some(WasmError::Memory(String::from_str("result read out of bounds")));
                self.phase = Phase::Freeing;
                self.drain()
            },
            Event::Freed => self.drain(),
            Event::FreeFailed => {
                self.failed_frees = self.failed_frees + 1;
                self.drain()
            },
        }
    }
}

/// Under explicit freeing, a finished call has handed every buffer it took
/// on (its argument's and its result's) to exactly one free.
pub proof fn lemma_finished_call_freed_all(c: Call)
    requires
        c.wf(),
        c.phase is Done,
        c.policy is Explicit,
    ensures
        c.acquired == c.released,
        c.owed().len() == 0,
{
    assert(c.owed() =~= Seq::<(GuestPtr, Len)>::empty());
}

} // verus!
