//! The success/failure union that a guest returns: one tagged wire form for
//! both branches, so no side channel tells them apart.
use vstd::prelude::*;
use vstd::utf8::{encode_utf8, valid_utf8};
use vstd::slice::slice_subrange;

use crate::error::WasmError;
use crate::wire::{
    Value, ValueModel, value_bytes, encodable, parse_value, text_chunk, read_text, chunk_limit,
    convert, parse, read_text_at, lemma_value_round_trip, lemma_read_text,
};

verus! {

/// What a guest function returns: a value, or an error payload it reports.
pub enum OutcomeModel {
    Success(ValueModel),
    Failure(Seq<char>),
}

/// The view of a guest's result as the library holds it.
pub open spec fn outcome_of(o: &Result<Value, String>) -> OutcomeModel {
    match o {
        Ok(v) => OutcomeModel::Success(v@),
        Err(m) => OutcomeModel::Failure(m@),
    }
}

/// The wire form of an outcome: tag `0` and a value, or tag `1` and a text.
pub open spec fn outcome_bytes(o: OutcomeModel) -> Seq<u8> {
    match o {
        OutcomeModel::Success(v) => seq![0u8] + value_bytes(v),
        OutcomeModel::Failure(m) => seq![1u8] + text_chunk(m),
    }
}

/// Whether every length inside an outcome fits the wire's lengths.
pub open spec fn outcome_encodable(o: OutcomeModel) -> bool {
    match o {
        OutcomeModel::Success(v) => encodable(v),
        OutcomeModel::Failure(m) => encode_utf8(m).len() < chunk_limit(),
    }
}

/// The outcome whose wire form is exactly `b`, if any.
pub open spec fn parse_outcome(b: Seq<u8>) -> Option<OutcomeModel> {
    if b.len() == 0 {
        None
    } else if b[0] == 0 {
        match parse_value(b.skip(1)) {
            Some(v) => Some(OutcomeModel::Success(v)),
            None => None,
        }
    } else if b[0] == 1 {
        match read_text(b.skip(1)) {
            Some((m, rest)) => if rest.len() == 0 { Some(OutcomeModel::Failure(m)) } else { None },
            None => None,
        }
    } else {
        None
    }
}

/// What a call returns for the result bytes `b`: the value of a success, the
/// guest's payload for a failure, a deserialization error for anything else.
pub open spec fn result_of(b: Seq<u8>, r: Result<Value, WasmError>) -> bool {
    match parse_outcome(b) {
        Some(OutcomeModel::Success(v)) => r is Ok && r->Ok_0@ == v,
        Some(OutcomeModel::Failure(m)) => r is Err && r->Err_0 is GuestReported
            && r->Err_0->GuestReported_0@ == m,
        None => r is Err && r->Err_0 is Deserialization,
    }
}

/// The wire form of an outcome, as a guest writes it; fails with a
/// serialization error exactly when a length inside does not fit.
pub fn encode_outcome(o: &Result<Value, String>) -> (r: Result<Vec<u8>, WasmError>)
    ensures
        r is Ok <==> outcome_encodable(outcome_of(o)),
        r is Ok ==> r->Ok_0@ == outcome_bytes(outcome_of(o)),
        r is Err ==> r->Err_0 is Serialization,
{
    let mut out: Vec<u8> = Vec::new();
    match o {
        Ok(v) => {
            out.push(0u8);
            let mut body = convert(v)?;
            out.append(&mut body);
        },
        Err(m) => {
            out.push(1u8);
            let mut body = convert(&Value::Text(m.clone()))?;
            assert(body@ =~= seq![2u8] + text_chunk(m@));
            let tail = slice_subrange(body.as_slice(), 1, body.len());
            let mut t = vstd::slice::slice_to_vec(tail);
            assert(t@ =~= text_chunk(m@));
            out.append(&mut t);
        },
    }
    assert(out@ =~= outcome_bytes(outcome_of(o)));
    Ok(out)
}

/// Turns the bytes a guest returned into the call's result.
pub fn decode_outcome(b: &[u8]) -> (r: Result<Value, WasmError>)
    ensures
        result_of(b@, r),
{
    if b.len() == 0 {
        return Err(WasmError::Deserialization(String::from_str("empty result")));
    }
    let tag = b[0];
    let body = slice_subrange(b, 1, b.len());
    assert(body@ =~= b@.skip(1));
    if tag == 0 {
        match parse(body) {
            Ok(v) => Ok(v),
            Err(e) => Err(e),
        }
    } else if tag == 1 {
        match read_text_at(b, 1) {
            Some((m, end)) => if end == b.len() {
                Err(WasmError::GuestReported(m))
            } else {
                Err(WasmError::Deserialization(String::from_str("trailing bytes after failure")))
            },
            None => Err(WasmError::Deserialization(String::from_str("malformed failure payload"))),
        }
    } else {
        Err(WasmError::Deserialization(String::from_str("unknown outcome tag")))
    }
}

/// Decoding the wire form of an encodable outcome gives the outcome back.
pub proof fn lemma_outcome_round_trip(o: OutcomeModel)
    requires
        outcome_encodable(o),
    ensures
        parse_outcome(outcome_bytes(o)) == Some(o),
{
    let b = outcome_bytes(o);
    match o {
        OutcomeModel::Success(v) => {
            assert(b.skip(1) =~= value_bytes(v));
            lemma_value_round_trip(v);
        },
        OutcomeModel::Failure(m) => {
            assert(b.skip(1) =~= text_chunk(m) + Seq::empty());
            lemma_read_text(m, Seq::empty());
        },
    }
}

/// A failure that a guest reports comes out of the call as that failure,
/// carrying exactly its payload: never a success, never another error.
pub proof fn lemma_failure_surfaces(m: Seq<char>, r: Result<Value, WasmError>)
    requires
        encode_utf8(m).len() < chunk_limit(),
        result_of(outcome_bytes(OutcomeModel::Failure(m)), r),
    ensures
        r is Err,
        r->Err_0 is GuestReported,
        r->Err_0->GuestReported_0@ == m,
{
    lemma_outcome_round_trip(OutcomeModel::Failure(m));
}

/// A success comes out of the call as the value the guest returned.
pub proof fn lemma_success_surfaces(v: ValueModel, r: Result<Value, WasmError>)
    requires
        encodable(v),
        result_of(outcome_bytes(OutcomeModel::Success(v)), r),
    ensures
        r is Ok,
        r->Ok_0@ == v,
{
    lemma_outcome_round_trip(OutcomeModel::Success(v));
}

} // verus!
