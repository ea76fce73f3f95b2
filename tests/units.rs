use guest_bridge::bridge::{Action, Call, Event, FreePolicy, Phase};
use guest_bridge::codec::{decode, encode, handle_for, pack, unpack, Codec, Handle};
use guest_bridge::error::WasmError;
use guest_bridge::imports::{debug, pages, CallContext, DuplicateImport, HostFn, ImportTable};
use guest_bridge::memory::{read_bytes, write_bytes};
use guest_bridge::outcome::{decode_outcome, encode_outcome};
use guest_bridge::wire::{convert, parse, Field, Value};

#[test]
fn packed_handle_puts_offset_high() {
    assert_eq!(pack(1, 2), 0x1_0000_0002);
    assert_eq!(unpack(0x1_0000_0002), (1, 2));
    assert_eq!(pack(u32::MAX, u32::MAX), u64::MAX);
    assert_eq!(unpack(u64::MAX), (u32::MAX, u32::MAX));
}

#[test]
fn codec_round_trips_under_both_conventions() {
    for (o, l) in [(0u64, 0u64), (7, 9), (u32::MAX as u64, 1), (65536, u32::MAX as u64)] {
        let p = encode(Codec::Packed, o, l).unwrap();
        assert!(matches!(p, Handle::Packed(_)));
        assert_eq!(decode(p), (o as u32, l as u32));
        let q = encode(Codec::Pair, o, l).unwrap();
        assert_eq!(q, Handle::Pair(o as u32, l as u32));
        assert_eq!(decode(q), (o as u32, l as u32));
    }
    assert_eq!(handle_for(Codec::Packed, 3, 4), Handle::Packed(0x3_0000_0004));
}

#[test]
fn codec_refuses_values_over_32_bits() {
    assert!(matches!(encode(Codec::Packed, 1 << 32, 0), Err(WasmError::Memory(_))));
    assert!(matches!(encode(Codec::Pair, 0, 1 << 32), Err(WasmError::Memory(_))));
}

#[test]
fn wire_forms_are_exact() {
    assert_eq!(convert(&Value::Unit).unwrap(), vec![0]);
    assert_eq!(convert(&Value::Bytes(vec![9, 8])).unwrap(), vec![1, 2, 0, 0, 0, 9, 8]);
    assert_eq!(convert(&Value::Text("é".to_string())).unwrap(), vec![2, 2, 0, 0, 0, 0xc3, 0xa9]);
    let r = Value::Record(vec![Field { name: "a".to_string(), value: "bc".to_string() }]);
    assert_eq!(
        convert(&r).unwrap(),
        vec![3, 1, 0, 0, 0, 1, 0, 0, 0, b'a', 2, 0, 0, 0, b'b', b'c']
    );
}

#[test]
fn values_round_trip() {
    let values = vec![
        Value::Unit,
        Value::Bytes(vec![]),
        Value::Bytes((0..=255).collect()),
        Value::Text(String::new()),
        Value::Text("╰▐ ✖ 〜 ✖ ▐╯".repeat(10_000)),
        Value::Record(vec![]),
        Value::Record(vec![
            Field { name: "inner".to_string(), value: "foo".to_string() },
            Field { name: "other".to_string(), value: "ü".to_string() },
        ]),
    ];
    for v in values {
        assert_eq!(parse(&convert(&v).unwrap()).unwrap(), v);
    }
}

#[test]
fn parse_refuses_what_no_value_encodes() {
    let bad: Vec<Vec<u8>> = vec![
        vec![],
        vec![0, 0],
        vec![4],
        vec![1, 5, 0, 0, 0, 1],
        vec![1, 1, 0, 0, 0, 1, 2],
        vec![2, 2, 0, 0, 0, 0xff, 0xfe],
        vec![3, 1, 0, 0, 0],
        vec![3, 0, 0],
    ];
    for b in bad {
        assert!(matches!(parse(&b), Err(WasmError::Deserialization(_))), "{:?}", b);
    }
}

#[test]
fn text_is_decoded_from_utf8() {
    assert_eq!(parse(&[2, 3, 0, 0, 0, 0xe2, 0x9c, 0x96]).unwrap(), Value::Text("✖".to_string()));
}

#[test]
fn outcome_carries_both_branches() {
    let ok = encode_outcome(&Ok(Value::Unit)).unwrap();
    assert_eq!(ok, vec![0, 0]);
    assert_eq!(decode_outcome(&ok), Ok(Value::Unit));
    let err = encode_outcome(&Err("oh no!".to_string())).unwrap();
    assert_eq!(err, vec![1, 6, 0, 0, 0, b'o', b'h', b' ', b'n', b'o', b'!']);
    assert_eq!(decode_outcome(&err), Err(WasmError::GuestReported("oh no!".to_string())));
}

#[test]
fn malformed_outcomes_are_deserialization_errors() {
    for b in [vec![], vec![2], vec![1, 1, 0, 0, 0], vec![1, 0, 0, 0, 0, 7], vec![0]] {
        assert!(matches!(decode_outcome(&b), Err(WasmError::Deserialization(_))), "{:?}", b);
    }
}

#[test]
fn fixed_imports() {
    assert_eq!(debug(42), 0);
    assert_eq!(pages(0), 0);
    assert_eq!(pages(65536 * 3 + 5), 3);
    assert_eq!(pages(1 << 32), 65536);
}

#[test]
fn context_slot_holds_the_last_payload() {
    let mut ctx = CallContext::new();
    assert_eq!(ctx.take(), None);
    assert_eq!(ctx.set_context_data(vec![1, 2, 3]), Ok(3));
    assert_eq!(ctx.set_context_data(vec![4]), Ok(1));
    assert_eq!(ctx.take(), Some(vec![4]));
    assert_eq!(ctx.take(), None);
}

#[test]
fn import_table_refuses_duplicates() {
    let ns = "env".to_string();
    let mut t = ImportTable::with_required(&ns);
    assert_eq!(t.lookup(&ns, &"pages".to_string()), Some(HostFn::Pages));
    assert_eq!(t.lookup(&ns, &"set_context_data".to_string()), Some(HostFn::SetContextData));
    assert_eq!(t.lookup(&"other".to_string(), &"pages".to_string()), None);
    assert_eq!(
        t.register(ns.clone(), "debug".to_string(), HostFn::Application(1)),
        Err(DuplicateImport { namespace: ns.clone(), name: "debug".to_string() })
    );
    assert_eq!(t.lookup(&ns, &"debug".to_string()), Some(HostFn::Debug));
    assert_eq!(t.register("app".to_string(), "debug".to_string(), HostFn::Application(1)), Ok(()));
    assert_eq!(t.lookup(&"app".to_string(), &"debug".to_string()), Some(HostFn::Application(1)));
    let mut e = ImportTable::new();
    assert_eq!(e.lookup(&ns, &"debug".to_string()), None);
    assert_eq!(e.register(ns.clone(), "x".to_string(), HostFn::Application(7)), Ok(()));
}

#[test]
fn memory_copies_are_bounds_checked() {
    let mut mem = vec![0u8; 8];
    assert_eq!(write_bytes(&mut mem, 6, &[1, 2]), Ok(()));
    assert_eq!(mem, vec![0, 0, 0, 0, 0, 0, 1, 2]);
    assert!(matches!(write_bytes(&mut mem, 7, &[1, 2]), Err(WasmError::Memory(_))));
    assert!(matches!(write_bytes(&mut mem, 9, &[]), Err(WasmError::Memory(_))));
    assert_eq!(mem, vec![0, 0, 0, 0, 0, 0, 1, 2]);
    assert_eq!(read_bytes(&mem, 5, 3), Ok(vec![0, 1, 2]));
    assert_eq!(read_bytes(&mem, 8, 0), Ok(vec![]));
    assert!(matches!(read_bytes(&mem, 5, 4), Err(WasmError::Memory(_))));
}

#[test]
fn allocation_failure_ends_the_call() {
    let (mut c, a) = Call::start(Codec::Packed, FreePolicy::Explicit, &Value::Unit);
    assert!(matches!(a, Action::Allocate(1)));
    assert!(!c.accepts(&Event::Written));
    let a = c.step(Event::AllocationFailed);
    assert!(matches!(a, Action::Finish(Err(WasmError::AllocationFailed))));
    assert_eq!(c.phase, Phase::Done);
}

#[test]
fn write_failure_frees_the_argument_then_fails() {
    let (mut c, _) = Call::start(Codec::Pair, FreePolicy::Explicit, &Value::Unit);
    assert!(matches!(c.step(Event::Allocated(16)), Action::Write(16, _)));
    assert!(matches!(c.step(Event::WriteFailed), Action::Free(16, 1)));
    assert!(matches!(c.step(Event::Freed), Action::Finish(Err(WasmError::Memory(_)))));
    assert_eq!((c.acquired, c.released), (1, 1));
}

#[test]
fn read_failure_frees_both_buffers_then_fails() {
    let (mut c, _) = Call::start(Codec::Packed, FreePolicy::Explicit, &Value::Unit);
    c.step(Event::Allocated(0));
    match c.step(Event::Written) {
        Action::Invoke(h) => assert_eq!(h, Handle::Packed(1)),
        _ => unreachable!(),
    }
    assert!(matches!(c.step(Event::Returned(Handle::Packed(0x40_0000_0005))), Action::Read(0x40, 5)));
    assert!(matches!(c.step(Event::ReadFailed), Action::Free(0, 1)));
    assert!(matches!(c.step(Event::FreeFailed), Action::Free(0x40, 5)));
    assert!(matches!(c.step(Event::Freed), Action::Finish(Err(WasmError::Memory(_)))));
    assert_eq!((c.acquired, c.released, c.failed_frees), (2, 2, 1));
}

#[test]
fn failed_free_keeps_the_received_result() {
    let (mut c, _) = Call::start(Codec::Pair, FreePolicy::Explicit, &Value::Unit);
    c.step(Event::Allocated(0));
    c.step(Event::Written);
    c.step(Event::Returned(Handle::Pair(8, 2)));
    assert!(matches!(c.step(Event::ReadDone(vec![0, 0])), Action::Free(0, 1)));
    assert!(matches!(c.step(Event::FreeFailed), Action::Free(8, 2)));
    assert!(matches!(c.step(Event::FreeFailed), Action::Finish(Ok(Value::Unit))));
    assert_eq!(c.failed_frees, 2);
}

#[test]
fn bump_policy_finishes_without_frees() {
    let (mut c, _) = Call::start(Codec::Pair, FreePolicy::BumpReset, &Value::Unit);
    c.step(Event::Allocated(0));
    c.step(Event::Written);
    c.step(Event::Returned(Handle::Pair(8, 2)));
    assert!(matches!(
        c.step(Event::ReadDone(vec![1, 1, 0, 0, 0, b'x'])),
        Action::Finish(Err(WasmError::GuestReported(ref m))) if m == "x"
    ));
    assert_eq!(c.released, 0);
}

#[test]
fn stashed_result_needs_no_read() {
    let (mut c, _) = Call::start(Codec::Packed, FreePolicy::Explicit, &Value::Unit);
    c.step(Event::Allocated(4));
    c.step(Event::Written);
    let mut ctx = CallContext::new();
    ctx.set_context_data(encode_outcome(&Ok(Value::Text("hi".to_string()))).unwrap()).unwrap();
    assert!(matches!(c.step(Event::Stashed(ctx.take().unwrap())), Action::Free(4, 1)));
    match c.step(Event::Freed) {
        Action::Finish(r) => assert_eq!(r, Ok(Value::Text("hi".to_string()))),
        _ => unreachable!(),
    }
    assert_eq!((c.acquired, c.released), (1, 1));
}
