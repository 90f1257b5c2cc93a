use wit_bindgen_js::classify::{classify, Classification};
use wit_bindgen_js::errors::{GenError, MarshalError};
use wit_bindgen_js::lists::{elem_layout, load_list, store_list};
use wit_bindgen_js::memory::LinearMemory;
use wit_bindgen_js::text::{decode_text, encode_text, validate_utf8};
use wit_bindgen_js::ty::{ElemKind, FuncResults, FunctionSignature, TypeDef, TypeGraph, TypeRef};
use wit_bindgen_js::wrapper::{
    begin_call, plan_function, Binding, CallOutcome, ParamLowering, ResultLifting, Value,
};

fn sig(params: Vec<(&str, TypeRef)>, results: FuncResults) -> FunctionSignature {
    FunctionSignature {
        params: params.into_iter().map(|(n, t)| (n.to_string(), t)).collect(),
        results,
    }
}

fn empty_graph() -> TypeGraph {
    TypeGraph { defs: Vec::new() }
}

#[test]
fn scalar_signature_classifies_scalar() {
    let s = sig(
        vec![("x", TypeRef::S32), ("y", TypeRef::S32)],
        FuncResults::Anon(TypeRef::S32),
    );
    assert_eq!(classify(&s), Classification::Scalar);
}

#[test]
fn scalar_named_results_classify_scalar() {
    let s = sig(
        vec![("a", TypeRef::Bool), ("b", TypeRef::Float64)],
        FuncResults::Named(vec![
            ("lo".to_string(), TypeRef::U8),
            ("hi".to_string(), TypeRef::Char),
        ]),
    );
    assert_eq!(classify(&s), Classification::Scalar);
}

#[test]
fn text_param_forces_marshaled() {
    let s = sig(
        vec![("x", TypeRef::S32), ("name", TypeRef::Text)],
        FuncResults::Anon(TypeRef::S32),
    );
    assert_eq!(classify(&s), Classification::Marshaled);
}

#[test]
fn text_result_alone_forces_marshaled() {
    let s = sig(vec![("x", TypeRef::S32)], FuncResults::Anon(TypeRef::Text));
    assert_eq!(classify(&s), Classification::Marshaled);
}

#[test]
fn list_type_forces_marshaled() {
    let g = TypeGraph { defs: vec![TypeDef::List(TypeRef::U8)] };
    let s = sig(vec![("bytes", TypeRef::Id(0))], FuncResults::Anon(TypeRef::U32));
    assert_eq!(classify(&s), Classification::Marshaled);
    // the plan lowers the list parameter to a pointer/length pair
    match plan_function(&g, &s) {
        Ok(Binding::Wrapped(p)) => {
            assert_eq!(p.lowerings, vec![ParamLowering::ListPtrLen(ElemKind::U8)]);
            assert_eq!(p.lifting, ResultLifting::Direct);
        }
        other => panic!("expected a wrapper plan, got {:?}", other),
    }
}

#[test]
fn scalar_fast_path_produces_direct_binding() {
    // add(x: s32, y: s32) -> s32 is bound directly, with no wrapper
    let g = empty_graph();
    let s = sig(
        vec![("x", TypeRef::S32), ("y", TypeRef::S32)],
        FuncResults::Anon(TypeRef::S32),
    );
    assert_eq!(classify(&s), Classification::Scalar);
    assert!(matches!(plan_function(&g, &s), Ok(Binding::Direct)));
}

#[test]
fn alias_parameter_is_reported_unsupported() {
    // a nominal alias is not scalar, and the engine cannot flatten it yet
    let g = TypeGraph { defs: vec![TypeDef::Alias(TypeRef::U32)] };
    let s = sig(vec![("v", TypeRef::Id(0))], FuncResults::Anon(TypeRef::U32));
    assert_eq!(classify(&s), Classification::Marshaled);
    match plan_function(&g, &s) {
        Err(GenError::UnsupportedParam { index, ty }) => {
            assert_eq!(index, 0);
            assert_eq!(ty, TypeRef::Id(0));
        }
        other => panic!("expected an unsupported-parameter error, got {:?}", other),
    }
}

#[test]
fn named_results_of_marshaled_function_are_unsupported() {
    let g = empty_graph();
    let s = sig(
        vec![("name", TypeRef::Text)],
        FuncResults::Named(vec![("n".to_string(), TypeRef::U32)]),
    );
    assert!(matches!(plan_function(&g, &s), Err(GenError::UnsupportedResult)));
}

#[test]
fn empty_text_uses_sentinel_and_never_allocates() {
    let mut mem = LinearMemory::new();
    let before = mem.size();
    let (ptr, len) = encode_text(&mut mem, &Vec::new()).unwrap();
    assert_eq!(ptr, 1);
    assert_ne!(ptr, 0);
    assert_eq!(len, 0);
    assert_eq!(mem.size(), before);
}

#[test]
fn text_round_trip_plain() {
    let mut mem = LinearMemory::new();
    let text = b"hello".to_vec();
    let (ptr, len) = encode_text(&mut mem, &text).unwrap();
    assert_eq!(decode_text(&mem, ptr, len).unwrap(), text);
}

#[test]
fn text_round_trip_multibyte() {
    let mut mem = LinearMemory::new();
    let text = "héllo — ☃ 𐍈".as_bytes().to_vec();
    let (ptr, len) = encode_text(&mut mem, &text).unwrap();
    assert_eq!(decode_text(&mem, ptr, len).unwrap(), text);
}

#[test]
fn text_round_trip_embedded_nulls() {
    let mut mem = LinearMemory::new();
    let text = b"a\x00b\x00".to_vec();
    let (ptr, len) = encode_text(&mut mem, &text).unwrap();
    assert_eq!(decode_text(&mem, ptr, len).unwrap(), text);
}

#[test]
fn text_round_trip_empty() {
    let mut mem = LinearMemory::new();
    let (ptr, len) = encode_text(&mut mem, &Vec::new()).unwrap();
    assert_eq!(decode_text(&mem, ptr, len).unwrap(), Vec::<u8>::new());
}

#[test]
fn decode_rejects_invalid_utf8() {
    let mut mem = LinearMemory::new();
    let bad = vec![0xFF, 0xFE];
    let (ptr, len) = encode_text(&mut mem, &bad).unwrap();
    assert_eq!(decode_text(&mem, ptr, len), Err(MarshalError::InvalidUtf8));
}

#[test]
fn decode_rejects_out_of_bounds() {
    let mem = LinearMemory::new();
    assert_eq!(decode_text(&mem, 1000, 10), Err(MarshalError::OutOfBounds));
}

#[test]
fn utf8_validator_cases() {
    assert!(validate_utf8(&b"".to_vec()));
    assert!(validate_utf8(&"αβγ€𝄞".as_bytes().to_vec()));
    assert!(!validate_utf8(&vec![0xC0, 0xAF])); // overlong
    assert!(!validate_utf8(&vec![0xED, 0xA0, 0x80])); // surrogate
    assert!(!validate_utf8(&vec![0xF4, 0x90, 0x80, 0x80])); // beyond last scalar
    assert!(!validate_utf8(&vec![0xE2, 0x82])); // truncated
}

fn all_kinds() -> Vec<ElemKind> {
    vec![
        ElemKind::S8,
        ElemKind::U8,
        ElemKind::Bool,
        ElemKind::S16,
        ElemKind::U16,
        ElemKind::S32,
        ElemKind::U32,
        ElemKind::Char,
        ElemKind::S64,
        ElemKind::U64,
        ElemKind::Float32,
        ElemKind::Float64,
    ]
}

#[test]
fn list_round_trip_every_kind() {
    for k in all_kinds() {
        let (size, _align) = elem_layout(k);
        let max = if size == 8 { u64::MAX } else { (1u64 << (8 * size)) - 1 };
        let vals = vec![0, 1, max, max / 2];
        let mut mem = LinearMemory::new();
        let (ptr, len) = store_list(&mut mem, &vals, k).unwrap();
        assert_eq!(len as usize, vals.len());
        assert_ne!(ptr, 0);
        assert_eq!(load_list(&mem, ptr, len, k).unwrap(), vals);
    }
}

#[test]
fn list_round_trip_empty() {
    for k in all_kinds() {
        let mut mem = LinearMemory::new();
        let (ptr, len) = store_list(&mut mem, &Vec::new(), k).unwrap();
        assert_eq!(len, 0);
        assert_eq!(load_list(&mem, ptr, len, k).unwrap(), Vec::<u64>::new());
    }
}

#[test]
fn store_list_respects_alignment() {
    let mut mem = LinearMemory::new();
    // one byte first, so the next allocation base is unaligned
    encode_text(&mut mem, &b"x".to_vec()).unwrap();
    let (ptr, _len) = store_list(&mut mem, &vec![1, 2], ElemKind::U64).unwrap();
    assert_eq!(ptr % 8, 0);
}

#[test]
fn store_list_rejects_oversized_value() {
    let mut mem = LinearMemory::new();
    let before = mem.size();
    assert_eq!(
        store_list(&mut mem, &vec![300], ElemKind::U8),
        Err(MarshalError::ValueOutOfRange)
    );
    assert_eq!(mem.size(), before);
}

#[test]
fn load_list_rejects_out_of_bounds() {
    let mem = LinearMemory::new();
    assert_eq!(
        load_list(&mem, 0, 100, ElemKind::U32),
        Err(MarshalError::OutOfBounds)
    );
}

#[test]
fn little_endian_element_layout() {
    let mut mem = LinearMemory::new();
    let (ptr, _len) = store_list(&mut mem, &vec![0x0102_0304], ElemKind::U32).unwrap();
    assert_eq!(mem.read_byte(ptr), 0x04);
    assert_eq!(mem.read_byte(ptr + 1), 0x03);
    assert_eq!(mem.read_byte(ptr + 2), 0x02);
    assert_eq!(mem.read_byte(ptr + 3), 0x01);
}

/// Write a text payload into memory and the little-endian
/// (pointer, length) pair of 4-byte words an export would return.
fn fake_text_result(mem: &mut LinearMemory, text: &[u8]) -> u32 {
    let (p, l) = encode_text(mem, &text.to_vec()).unwrap();
    let raw = mem.allocate(4, 8).unwrap();
    mem.write_le(raw, p as u64, 4);
    mem.write_le(raw + 4, l as u64, 4);
    raw
}

#[test]
fn concat_end_to_end() {
    // concat(a: string, b: string) -> string
    let g = empty_graph();
    let s = sig(
        vec![("a", TypeRef::Text), ("b", TypeRef::Text)],
        FuncResults::Anon(TypeRef::Text),
    );
    assert_eq!(classify(&s), Classification::Marshaled);
    let plan = match plan_function(&g, &s) {
        Ok(Binding::Wrapped(p)) => p,
        other => panic!("expected a wrapper plan, got {:?}", other),
    };
    assert_eq!(
        plan.lowerings,
        vec![ParamLowering::TextPtrLen, ParamLowering::TextPtrLen]
    );
    assert_eq!(plan.lifting, ResultLifting::IndirectText);

    let mut mem = LinearMemory::new();
    let args = vec![Value::Text(b"foo".to_vec()), Value::Text(b"bar".to_vec())];
    let (call, flat) = begin_call(&plan, &args, &mut mem).unwrap();

    // two 3-byte payloads, four flattened scalar arguments (ptr_a, 3, ptr_b, 3)
    assert_eq!(flat.len(), 4);
    let (ptr_a, len_a, ptr_b, len_b) = (flat[0], flat[1], flat[2], flat[3]);
    assert_eq!(len_a, 3);
    assert_eq!(len_b, 3);
    assert_eq!(decode_text(&mem, ptr_a as u32, 3).unwrap(), b"foo".to_vec());
    assert_eq!(decode_text(&mem, ptr_b as u32, 3).unwrap(), b"bar".to_vec());

    // the export concatenates and returns a pointer to the result pair
    let raw = fake_text_result(&mut mem, b"foobar");

    // a release hook is declared: it must run exactly once, with the raw
    // handle, after decoding and before the value is delivered
    let mut release_calls = 0;
    let outcome = call.export_returned(raw as u64, true, &mem).unwrap();
    let value = match outcome {
        CallOutcome::NeedsRelease(handle, pending) => {
            assert_eq!(handle, raw as u64);
            release_calls += 1; // the host runs cabi_post_<name>(handle) here
            pending.release_done()
        }
        CallOutcome::Finished(_) => panic!("expected a release obligation"),
    };
    assert_eq!(release_calls, 1);
    match value {
        Value::Text(b) => assert_eq!(b, b"foobar".to_vec()),
        other => panic!("expected text, got {:?}", other),
    }
}

#[test]
fn single_text_result_without_hook_is_delivered_at_once() {
    let g = empty_graph();
    let s = sig(vec![], FuncResults::Anon(TypeRef::Text));
    let plan = match plan_function(&g, &s) {
        Ok(Binding::Wrapped(p)) => p,
        other => panic!("expected a wrapper plan, got {:?}", other),
    };
    let mut mem = LinearMemory::new();
    let (call, flat) = begin_call(&plan, &Vec::new(), &mut mem).unwrap();
    assert!(flat.is_empty());
    let raw = fake_text_result(&mut mem, b"hi");
    match call.export_returned(raw as u64, false, &mem).unwrap() {
        CallOutcome::Finished(Value::Text(b)) => assert_eq!(b, b"hi".to_vec()),
        other => panic!("expected an immediate text value, got {:?}", other),
    }
}

#[test]
fn lowering_rejects_wrong_value_kind() {
    let g = empty_graph();
    let s = sig(vec![("name", TypeRef::Text)], FuncResults::Anon(TypeRef::U32));
    let plan = match plan_function(&g, &s) {
        Ok(Binding::Wrapped(p)) => p,
        other => panic!("expected a wrapper plan, got {:?}", other),
    };
    let mut mem = LinearMemory::new();
    let args = vec![Value::Scalar(7)];
    assert!(matches!(
        begin_call(&plan, &args, &mut mem),
        Err(MarshalError::TypeMismatch)
    ));
}

#[test]
fn lifting_rejects_out_of_bounds_result_pointer() {
    let g = empty_graph();
    let s = sig(vec![], FuncResults::Anon(TypeRef::Text));
    let plan = match plan_function(&g, &s) {
        Ok(Binding::Wrapped(p)) => p,
        other => panic!("expected a wrapper plan, got {:?}", other),
    };
    let mut mem = LinearMemory::new();
    let (call, _flat) = begin_call(&plan, &Vec::new(), &mut mem).unwrap();
    assert!(matches!(
        call.export_returned(1_000_000, false, &mem),
        Err(MarshalError::OutOfBounds)
    ));
}

#[test]
fn mixed_scalar_and_list_lowering() {
    // sum(seed: u32, xs: list<u16>) -> u32: three flattened slots
    let g = TypeGraph { defs: vec![TypeDef::List(TypeRef::U16)] };
    let s = sig(
        vec![("seed", TypeRef::U32), ("xs", TypeRef::Id(0))],
        FuncResults::Anon(TypeRef::U32),
    );
    let plan = match plan_function(&g, &s) {
        Ok(Binding::Wrapped(p)) => p,
        other => panic!("expected a wrapper plan, got {:?}", other),
    };
    let mut mem = LinearMemory::new();
    let args = vec![Value::Scalar(41), Value::List(vec![10, 20, 30])];
    let (call, flat) = begin_call(&plan, &args, &mut mem).unwrap();
    assert_eq!(flat.len(), 3);
    assert_eq!(flat[0], 41);
    let (ptr, len) = (flat[1] as u32, flat[2] as u32);
    assert_eq!(len, 3);
    assert_eq!(load_list(&mem, ptr, len, ElemKind::U16).unwrap(), vec![10, 20, 30]);
    // scalar result lifted directly, no release hook declared
    match call.export_returned(60, false, &mem).unwrap() {
        CallOutcome::Finished(Value::Scalar(v)) => assert_eq!(v, 60),
        other => panic!("expected a scalar, got {:?}", other),
    }
}
