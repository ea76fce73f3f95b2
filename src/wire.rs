//! The byte form of domain values and of the success/failure union.
//!
//! Every length on the wire is four little-endian bytes followed by that many
//! bytes (a chunk). A value is one tag byte and its body:
//! unit `0`; bytes `1 chunk`; text `2 chunk(utf-8)`; record
//! `3 count (chunk(name) chunk(value))*`. An outcome is `0 value` for success
//! and `1 chunk(utf-8 message)` for a failure reported by the guest.
use vstd::prelude::*;
use vstd::utf8::{encode_utf8, decode_utf8, valid_utf8, encode_utf8_decode_utf8, encode_utf8_valid_utf8};
use vstd::string::StringSliceAdditionalSpecFns;
use vstd::slice::{slice_subrange, slice_to_vec};

use crate::error::WasmError;

verus! {

/// One named field of a record.
#[derive(Debug, Clone, PartialEq, Eq)]
pub struct Field {
    pub name: String,
    pub value: String,
}

/// A host-native domain value that crosses the boundary.
#[derive(Debug, Clone, PartialEq, Eq)]
pub enum Value {
    Unit,
    Bytes(Vec<u8>),
    Text(String),
    Record(Vec<Field>),
}

/// The mathematical form of a value: text as characters, a record as its
/// (name, value) pairs in order.
pub enum ValueModel {
    Unit,
    Bytes(Seq<u8>),
    Text(Seq<char>),
    Record(Seq<(Seq<char>, Seq<char>)>),
}

impl View for Field {
    type V = (Seq<char>, Seq<char>);

    open spec fn view(&self) -> (Seq<char>, Seq<char>) {
        (self.name@, self.value@)
    }
}

/// The (name, value) pairs of a sequence of fields.
pub open spec fn fields_model(fs: Seq<Field>) -> Seq<(Seq<char>, Seq<char>)> {
    fs.map_values(|f: Field| f@)
}

impl View for Value {
    type V = ValueModel;

    open spec fn view(&self) -> ValueModel {
        match self {
            Value::Unit => ValueModel::Unit,
            Value::Bytes(b) => ValueModel::Bytes(b@),
            Value::Text(s) => ValueModel::Text(s@),
            Value::Record(fs) => ValueModel::Record(fields_model(fs@)),
        }
    }
}

/// The largest length a chunk can carry, plus one.
pub open spec fn chunk_limit() -> int {
    0x1_0000_0000
}

/// The number that four little-endian bytes spell.
pub open spec fn le32(b: Seq<u8>) -> nat {
    (b[0] + 256 * b[1] + 65536 * b[2] + 16777216 * b[3]) as nat
}

/// The four little-endian bytes of a number below 2^32.
pub open spec fn le32_bytes(n: nat) -> Seq<u8> {
    seq![(n % 256) as u8, (n / 256 % 256) as u8, (n / 65536 % 256) as u8, (n / 16777216) as u8]
}

/// Four little-endian bytes spell back the number they were made from.
pub proof fn lemma_le32(n: nat)
    requires
        n < chunk_limit(),
    ensures
        le32_bytes(n).len() == 4,
        le32(le32_bytes(n)) == n,
{
    let b = le32_bytes(n);
    assert(n == n % 256 + 256 * (n / 256 % 256) + 65536 * (n / 65536 % 256) + 16777216 * (n / 16777216)
        && n / 16777216 < 256) by (nonlinear_arith)
        requires n < 0x1_0000_0000;
}

/// Four bytes of length, then the bytes themselves.
pub open spec fn chunk(b: Seq<u8>) -> Seq<u8> {
    le32_bytes(b.len()) + b
}

/// The chunk of a text: its UTF-8 bytes.
pub open spec fn text_chunk(s: Seq<char>) -> Seq<u8> {
    chunk(encode_utf8(s))
}

/// The wire form of the fields of a record, in order.
pub open spec fn fields_bytes(fs: Seq<(Seq<char>, Seq<char>)>) -> Seq<u8>
    decreases fs.len(),
{
    if fs.len() == 0 {
        Seq::empty()
    } else {
        fields_bytes(fs.drop_last()) + text_chunk(fs.last().0) + text_chunk(fs.last().1)
    }
}

/// The wire form of a value.
pub open spec fn value_bytes(v: ValueModel) -> Seq<u8> {
    match v {
        ValueModel::Unit => seq![0u8],
        ValueModel::Bytes(b) => seq![1u8] + chunk(b),
        ValueModel::Text(s) => seq![2u8] + text_chunk(s),
        ValueModel::Record(fs) => seq![3u8] + le32_bytes(fs.len()) + fields_bytes(fs),
    }
}

/// Whether every length inside a value fits the wire's four-byte lengths.
pub open spec fn encodable(v: ValueModel) -> bool {
    match v {
        ValueModel::Unit => true,
        ValueModel::Bytes(b) => b.len() < chunk_limit(),
        ValueModel::Text(s) => encode_utf8(s).len() < chunk_limit(),
        ValueModel::Record(fs) => fs.len() < chunk_limit() && forall|i: int|
            0 <= i < fs.len() ==> encode_utf8(#[trigger] fs[i].0).len() < chunk_limit()
                && encode_utf8(fs[i].1).len() < chunk_limit(),
    }
}

/// Reads one chunk from the front of `b`: its payload and what follows.
pub open spec fn read_chunk(b: Seq<u8>) -> Option<(Seq<u8>, Seq<u8>)> {
    if b.len() < 4 {
        None
    } else {
        let n = le32(b.take(4)) as int;
        if b.len() - 4 < n {
            None
        } else {
            Some((b.subrange(4, 4 + n), b.skip(4 + n)))
        }
    }
}

/// Reads one chunk holding UTF-8 text.
pub open spec fn read_text(b: Seq<u8>) -> Option<(Seq<char>, Seq<u8>)> {
    match read_chunk(b) {
        Some((p, rest)) => if valid_utf8(p) {
            Some((decode_utf8(p), rest))
        } else {
            None
        },
        None => None,
    }
}

/// Reads `n` fields from the front of `b`: the fields and what follows.
pub open spec fn read_fields(b: Seq<u8>, n: nat) -> Option<(Seq<(Seq<char>, Seq<char>)>, Seq<u8>)>
    decreases n,
{
    if n == 0 {
        Some((Seq::empty(), b))
    } else {
        match read_fields(b, (n - 1) as nat) {
            Some((fs, rest)) => match read_text(rest) {
                Some((name, rest2)) => match read_text(rest2) {
                    Some((value, rest3)) => Some((fs.push((name, value)), rest3)),
                    None => None,
                },
                None => None,
            },
            None => None,
        }
    }
}

/// The value that `b` holds, if it is the whole wire form of one.
pub open spec fn parse_value(b: Seq<u8>) -> Option<ValueModel> {
    if b.len() == 0 {
        None
    } else {
        let rest = b.skip(1);
        if b[0] == 0 {
            if rest.len() == 0 { Some(ValueModel::Unit) } else { None }
        } else if b[0] == 1 {
            match read_chunk(rest) {
                Some((p, r)) => if r.len() == 0 { Some(ValueModel::Bytes(p)) } else { None },
                None => None,
            }
        } else if b[0] == 2 {
            match read_text(rest) {
                Some((s, r)) => if r.len() == 0 { Some(ValueModel::Text(s)) } else { None },
                None => None,
            }
        } else if b[0] == 3 && rest.len() >= 4 {
            let n = le32(rest.take(4));
            match read_fields(rest.skip(4), n) {
                Some((fs, r)) => if r.len() == 0 { Some(ValueModel::Record(fs)) } else { None },
                None => None,
            }
        } else {
            None
        }
    }
}

/// A chunk is read back whole, whatever follows it.
pub proof fn lemma_read_chunk(p: Seq<u8>, tail: Seq<u8>)
    requires
        p.len() < chunk_limit(),
    ensures
        read_chunk(chunk(p) + tail) == Some((p, tail)),
{
    lemma_le32(p.len());
    let b = chunk(p) + tail;
    let len4 = le32_bytes(p.len());
    assert(b.take(4) =~= len4);
    assert(b.subrange(4, 4 + p.len() as int) =~= p);
    assert(b.skip(4 + p.len() as int) =~= tail);
}

/// A text chunk is read back as the same characters, whatever follows it.
pub proof fn lemma_read_text(s: Seq<char>, tail: Seq<u8>)
    requires
        encode_utf8(s).len() < chunk_limit(),
    ensures
        read_text(text_chunk(s) + tail) == Some((s, tail)),
{
    lemma_read_chunk(encode_utf8(s), tail);
    encode_utf8_valid_utf8(s);
    encode_utf8_decode_utf8(s);
}

/// The fields of a record are read back in order, whatever follows them.
pub proof fn lemma_read_fields(fs: Seq<(Seq<char>, Seq<char>)>, tail: Seq<u8>)
    requires
        forall|i: int| 0 <= i < fs.len() ==> encode_utf8(#[trigger] fs[i].0).len() < chunk_limit()
            && encode_utf8(fs[i].1).len() < chunk_limit(),
    ensures
        read_fields(fields_bytes(fs) + tail, fs.len()) == Some((fs, tail)),
    decreases fs.len(),
{
    if fs.len() > 0 {
        let init = fs.drop_last();
        let (name, value) = fs.last();
        let rest = text_chunk(name) + text_chunk(value) + tail;
        assert(fields_bytes(fs) + tail =~= fields_bytes(init) + rest);
        assert forall|i: int| 0 <= i < init.len() implies encode_utf8(#[trigger] init[i].0).len() < chunk_limit()
            && encode_utf8(init[i].1).len() < chunk_limit() by {
            assert(init[i] == fs[i]);
        }
        lemma_read_fields(init, rest);
        assert(fs[fs.len() - 1] == fs.last());
        assert(text_chunk(name) + text_chunk(value) + tail =~= text_chunk(name) + (text_chunk(value) + tail));
        lemma_read_text(name, text_chunk(value) + tail);
        lemma_read_text(value, tail);
        assert(init.push((name, value)) =~= fs);
    } else {
        assert(fields_bytes(fs) + tail =~= tail);
        assert(fs =~= Seq::empty());
    }
}

/// Parsing the wire form of an encodable value gives the value back.
pub proof fn lemma_value_round_trip(v: ValueModel)
    requires
        encodable(v),
    ensures
        parse_value(value_bytes(v)) == Some(v),
{
    let b = value_bytes(v);
    match v {
        ValueModel::Unit => {
            assert(b.skip(1).len() == 0);
        },
        ValueModel::Bytes(p) => {
            assert(b.skip(1) =~= chunk(p) + Seq::empty());
            lemma_read_chunk(p, Seq::empty());
        },
        ValueModel::Text(s) => {
            assert(b.skip(1) =~= text_chunk(s) + Seq::empty());
            lemma_read_text(s, Seq::empty());
        },
        ValueModel::Record(fs) => {
            let rest = b.skip(1);
            lemma_le32(fs.len());
            assert(rest.take(4) =~= le32_bytes(fs.len()));
            assert(rest.skip(4) =~= fields_bytes(fs) + Seq::empty());
            lemma_read_fields(fs, Seq::empty());
        },
    }
}


/// Relies on String::from_utf8: it accepts exactly the byte sequences that are
/// valid UTF-8, and the string then holds the characters they encode.
#[verifier::external_body]
fn string_from_utf8(b: Vec<u8>) -> (r: Option<String>)
    ensures
        r is Some <==> valid_utf8(b@),
        r is Some ==> r->0@ == decode_utf8(b@),
{
    String::from_utf8(b).ok()
}

/// The UTF-8 bytes of a string.
fn utf8_of(s: &String) -> (r: &[u8])
    ensures
        r@ == encode_utf8(s@),
{
    s.as_str().as_bytes()
}

/// Appends the four little-endian bytes of `n` to `out`.
fn push_le32(out: &mut Vec<u8>, n: u32)
    ensures
        final(out)@ == old(out)@ + le32_bytes(n as nat),
{
    out.push((n % 256) as u8);
    out.push((n / 256 % 256) as u8);
    out.push((n / 65536 % 256) as u8);
    out.push((n / 16777216) as u8);
    assert(final(out)@ =~= old(out)@ + le32_bytes(n as nat));
}

/// The number spelled by the four bytes of `b` at `pos`.
fn read_le32(b: &[u8], pos: usize) -> (r: u32)
    requires
        pos + 4 <= b@.len(),
    ensures
        r as nat == le32(b@.subrange(pos as int, pos + 4)),
{
    b[pos] as u32 + 256 * b[pos + 1] as u32 + 65536 * b[pos + 2] as u32 + 16777216 * b[pos + 3] as u32
}

/// Appends the chunk of `b` to `out`.
fn push_chunk(out: &mut Vec<u8>, b: &[u8])
    requires
        b@.len() < chunk_limit(),
    ensures
        final(out)@ == old(out)@ + chunk(b@),
{
    push_le32(out, b.len() as u32);
    let mut body = slice_to_vec(b);
    out.append(&mut body);
    assert(final(out)@ =~= old(out)@ + chunk(b@));
}

/// The wire form of a value; fails with a serialization error exactly when a
/// length inside it does not fit in 32 bits.
pub fn convert(v: &Value) -> (r: Result<Vec<u8>, WasmError>)
    ensures
        r is Ok <==> encodable(v@),
        r is Ok ==> r->Ok_0@ == value_bytes(v@),
        r is Err ==> r->Err_0 is Serialization,
{
    let mut out: Vec<u8> = Vec::new();
    match v {
        Value::Unit => {
            out.push(0u8);
            assert(out@ =~= seq![0u8]);
        },
        Value::Bytes(b) => {
            if b.len() as u64 >= 0x1_0000_0000u64 {
                return Err(too_long());
            }
            out.push(1u8);
            push_chunk(&mut out, b.as_slice());
        },
        Value::Text(s) => {
            let u = utf8_of(s);
            if u.len() as u64 >= 0x1_0000_0000u64 {
                return Err(too_long());
            }
            out.push(2u8);
            push_chunk(&mut out, u);
        },
        Value::Record(fs) => {
            if fs.len() as u64 >= 0x1_0000_0000u64 {
                return Err(too_long());
            }
            out.push(3u8);
            push_le32(&mut out, fs.len() as u32);
            let ghost m = fields_model(fs@);
            let ghost head = out@;
            let mut i: usize = 0;
            while i < fs.len()
                invariant
                    0 <= i <= fs@.len(),
                    m == fields_model(fs@),
                    v@ == ValueModel::Record(m),
                    fs@.len() < chunk_limit(),
                    out@ == head + fields_bytes(m.take(i as int)),
                    forall|j: int| 0 <= j < i ==> encode_utf8(#[trigger] m[j].0).len() < chunk_limit()
                        && encode_utf8(m[j].1).len() < chunk_limit(),
                decreases fs.len() - i,
            {
                assert(m[i as int] == fs@[i as int]@);
                let name = utf8_of(&fs[i].name);
                let value = utf8_of(&fs[i].value);
                assert(name@ == encode_utf8(m[i as int].0));
                assert(value@ == encode_utf8(m[i as int].1));
                if name.len() as u64 >= 0x1_0000_0000u64 || value.len() as u64 >= 0x1_0000_0000u64 {
                    assert(!encodable(v@));
                    return Err(too_long());
                }
                push_chunk(&mut out, name);
                push_chunk(&mut out, value);
                proof {
                    assert(m.take(i + 1).drop_last() =~= m.take(i as int));
                    assert(m.take(i + 1).last() == fs@[i as int]@);
                    assert forall|j: int| 0 <= j < i + 1 implies encode_utf8(#[trigger] m[j].0).len() < chunk_limit()
                        && encode_utf8(m[j].1).len() < chunk_limit() by {
                        if j < i {
                        }
                    }
                }
                i = i + 1;
            }
            assert(m.take(fs@.len() as int) =~= m);
            assert(out@ =~= seq![3u8] + le32_bytes(fs@.len()) + fields_bytes(m));
        },
    }
    Ok(out)
}

fn too_long() -> (r: WasmError)
    ensures
        r is Serialization,
{
    WasmError::Serialization(String::from_str("a length does not fit in 32 bits"))
}

fn malformed() -> (r: WasmError)
    ensures
        r is Deserialization,
{
    WasmError::Deserialization(String::from_str("bytes are not the wire form of a value"))
}

/// Reads the chunk that starts at `pos`: its payload and the position after it.
fn read_chunk_at(b: &[u8], pos: usize) -> (r: Option<(Vec<u8>, usize)>)
    requires
        pos <= b@.len(),
    ensures
        match read_chunk(b@.skip(pos as int)) {
            None => r is None,
            Some((p, rest)) => r is Some && r.unwrap().0@ == p && pos <= r.unwrap().1 <= b@.len()
                && b@.skip(r.unwrap().1 as int) == rest,
        },
{
    let ghost t = b@.skip(pos as int);
    if b.len() - pos < 4 {
        return None;
    }
    let n = read_le32(b, pos);
    assert(b@.subrange(pos as int, pos + 4) =~= t.take(4));
    if b.len() - pos - 4 < n as usize {
        return None;
    }
    let end = pos + 4 + n as usize;
    let p = slice_to_vec(slice_subrange(b, pos + 4, end));
    assert(p@ =~= t.subrange(4, 4 + n as int));
    assert(b@.skip(end as int) =~= t.skip(4 + n as int));
    Some((p, end))
}

/// Reads the UTF-8 text chunk that starts at `pos`.
pub(crate) fn read_text_at(b: &[u8], pos: usize) -> (r: Option<(String, usize)>)
    requires
        pos <= b@.len(),
    ensures
        match read_text(b@.skip(pos as int)) {
            None => r is None,
            Some((s, rest)) => r is Some && r.unwrap().0@ == s && pos <= r.unwrap().1 <= b@.len()
                && b@.skip(r.unwrap().1 as int) == rest,
        },
{
    match read_chunk_at(b, pos) {
        None => None,
        Some((p, end)) => match string_from_utf8(p) {
            None => None,
            Some(s) => Some((s, end)),
        },
    }
}

proof fn lemma_read_fields_stays_none(b: Seq<u8>, i: nat, n: nat)
    requires
        i <= n,
        read_fields(b, i) is None,
    ensures
        read_fields(b, n) is None,
    decreases n - i,
{
    if i < n {
        lemma_read_fields_stays_none(b, i + 1, n);
    }
}

/// The value whose wire form is exactly `b`; fails with a deserialization
/// error when `b` is the wire form of no value.
pub fn parse(b: &[u8]) -> (r: Result<Value, WasmError>)
    ensures
        r is Ok <==> parse_value(b@) is Some,
        r is Ok ==> parse_value(b@) == Some(r->Ok_0@),
        r is Err ==> r->Err_0 is Deserialization,
{
    if b.len() == 0 {
        return Err(malformed());
    }
    let tag = b[0];
    let ghost rest = b@.skip(1);
    if tag == 0 {
        if b.len() == 1 {
            Ok(Value::Unit)
        } else {
            Err(malformed())
        }
    } else if tag == 1 {
        match read_chunk_at(b, 1) {
            Some((p, end)) => if end == b.len() {
                Ok(Value::Bytes(p))
            } else {
                Err(malformed())
            },
            None => Err(malformed()),
        }
    } else if tag == 2 {
        match read_text_at(b, 1) {
            Some((s, end)) => if end == b.len() {
                Ok(Value::Text(s))
            } else {
                Err(malformed())
            },
            None => Err(malformed()),
        }
    } else if tag == 3 && b.len() >= 5 {
        let n = read_le32(b, 1);
        assert(b@.subrange(1, 5) =~= rest.take(4));
        let ghost b5 = rest.skip(4);
        assert(b5 =~= b@.skip(5));
        let mut fields: Vec<Field> = Vec::new();
        let mut pos: usize = 5;
        let mut i: u32 = 0;
        while i < n
            invariant
                5 <= pos <= b@.len(),
                i <= n,
                b5 == b@.skip(5),
                b@.len() >= 5,
                b@[0] == 3,
                rest == b@.skip(1),
                b5 == rest.skip(4),
                n == le32(rest.take(4)),
                read_fields(b5, i as nat) == Some((fields_model(fields@), b@.skip(pos as int))),
            decreases n - i,
        {
            let ghost before = fields@;
            let name = read_text_at(b, pos);
            match name {
                None => {
                    proof {
                        assert(read_fields(b5, (i + 1) as nat) is None);
                        lemma_read_fields_stays_none(b5, (i + 1) as nat, n as nat);
                    }
                    return Err(malformed());
                },
                Some((name, after_name)) => {
                    let value = read_text_at(b, after_name);
                    match value {
                        None => {
                            proof {
                        assert(read_fields(b5, (i + 1) as nat) is None);
                        lemma_read_fields_stays_none(b5, (i + 1) as nat, n as nat);
                    }
                            return Err(malformed());
                        },
                        Some((value, after_value)) => {
                            fields.push(Field { name, value });
                            assert(fields_model(fields@) =~= fields_model(before).push((name@, value@)));
                            pos = after_value;
                        },
                    }
                },
            }
            i = i + 1;
        }
        if pos == b.len() {
            Ok(Value::Record(fields))
        } else {
            Err(malformed())
        }
    } else {
        Err(malformed())
    }
}

} // verus!
