use wasm_vm::module::insts::{BlockType, I32Binop, I32Unop, Instruction, MemArg};
use wasm_vm::module::components::{ElementItems, ElementKind, FuncType, Import, TypeRef};
use wasm_vm::module::parse::{
    declare, elements_from, globals_from, import_counts, import_funcs, parse_code_body, sigs_from_groups, valtype_from_name,
    ParseError, Payload,
};
use wasm_vm::module::reader::{encode_f64, encode_i32leb, read_u8_at, DecodeError};
use wasm_vm::module::value_type::{ValType, WasmValue};
use wasm_vm::module::wasm_module::WasmModule;
use wasm_vm::vm::control::{find_closest_else, find_matching_end};

#[test]
fn encode_i32leb_gives_minimal_bytes() {
    assert_eq!(encode_i32leb(0), vec![0x00]);
    assert_eq!(encode_i32leb(63), vec![0x3f]);
    assert_eq!(encode_i32leb(64), vec![0xc0, 0x00]);
    assert_eq!(encode_i32leb(-1), vec![0x7f]);
    assert_eq!(encode_i32leb(-64), vec![0x40]);
    assert_eq!(encode_i32leb(-65), vec![0xbf, 0x7f]);
    assert_eq!(encode_i32leb(624485), vec![0xe5, 0x8e, 0x26]);
    assert_eq!(encode_i32leb(i32::MAX), vec![0xff, 0xff, 0xff, 0xff, 0x07]);
    assert_eq!(encode_i32leb(i32::MIN), vec![0x80, 0x80, 0x80, 0x80, 0x78]);
}

#[test]
fn encode_i32leb_reads_back() {
    for v in [0, 1, -1, 63, 64, -64, -65, 127, 128, -300, 624485, i32::MAX, i32::MIN, 1 << 20, -(1 << 27)] {
        let mut bytes = vec![0x41];
        bytes.extend(encode_i32leb(v));
        bytes.push(0x0b);
        assert_eq!(
            Instruction::from_code_bytes(bytes),
            Ok(vec![Instruction::I32Const { value: v }, Instruction::End])
        );
    }
}

#[test]
fn encode_f64_is_little_endian() {
    assert_eq!(encode_f64(1.0f64.to_bits()), 1.0f64.to_le_bytes().to_vec());
    assert_eq!(encode_f64(0x0102_0304_0506_0708), vec![8, 7, 6, 5, 4, 3, 2, 1]);
    let mut bytes = vec![0x44];
    bytes.extend(encode_f64((-2.5f64).to_bits()));
    bytes.push(0x0b);
    assert_eq!(
        Instruction::from_code_bytes(bytes),
        Ok(vec![Instruction::F64Const { value: (-2.5f64).to_bits() }, Instruction::End])
    );
}

#[test]
fn primitive_reads() {
    assert_eq!(read_u8_at(&[7, 8], 1), Ok((8, 1)));
    assert_eq!(read_u8_at(&[7, 8], 2), Err(DecodeError::Malformed));
    assert_eq!(
        Instruction::from_code_bytes(vec![0x20, 0xe5, 0x8e, 0x26, 0x0b]),
        Ok(vec![Instruction::LocalGet { local_idx: 624485 }, Instruction::End])
    );
    assert_eq!(Instruction::from_code_bytes(vec![0x20, 0x80]), Err(DecodeError::Malformed));
    assert_eq!(
        Instruction::from_code_bytes(vec![0x02, 0x40, 0x0b]),
        Ok(vec![Instruction::Block { ty: BlockType::Empty }, Instruction::End])
    );
    for (byte, ty) in [(0x7f, ValType::I32), (0x7c, ValType::F64), (0x70, ValType::Ref)] {
        assert_eq!(
            Instruction::from_code_bytes(vec![0x02, byte, 0x0b]),
            Ok(vec![Instruction::Block { ty: BlockType::Type(ty) }, Instruction::End])
        );
    }
}

#[test]
fn decode_instructions() {
    let code = vec![
        0x02, 0x40, 0x41, 0x2a, 0x20, 0x01, 0x6a, 0x45, 0x28, 0x02, 0x10, 0x44, 0, 0, 0, 0, 0, 0, 0xf0, 0x3f, 0x0b,
    ];
    let insts = Instruction::from_code_bytes(code).unwrap();
    assert_eq!(
        insts,
        vec![
            Instruction::Block { ty: BlockType::Empty },
            Instruction::I32Const { value: 42 },
            Instruction::LocalGet { local_idx: 1 },
            Instruction::I32Binop(I32Binop::Add),
            Instruction::I32Unop(I32Unop::Eqz),
            Instruction::I32Load { memarg: MemArg { offset: 16, align: 2 } },
            Instruction::F64Const { value: 1.0f64.to_bits() },
            Instruction::End,
        ]
    );
}

#[test]
fn decode_block_types() {
    let insts = Instruction::from_code_bytes(vec![0x04, 0x7f, 0x05, 0x0b, 0x02, 0x00, 0x0b]).unwrap();
    assert_eq!(insts[0], Instruction::If { ty: BlockType::Type(ValType::I32) });
    assert_eq!(insts[3], Instruction::Block { ty: BlockType::FuncType(0) });
}

#[test]
fn decode_refuses_unknown_opcode() {
    assert_eq!(Instruction::from_code_bytes(vec![0x41, 0x01, 0xd7]), Err(DecodeError::UnsupportedOpcode(0xd7)));
    assert_eq!(Instruction::from_code_bytes(vec![0x41]), Err(DecodeError::Malformed));
}

#[test]
fn block_starts_and_ends() {
    assert!(Instruction::is_control_block_start(&Instruction::Loop { ty: BlockType::Empty }));
    assert!(!Instruction::is_control_block_start(&Instruction::End));
    assert!(Instruction::is_control_block_end(&Instruction::End));
    assert!(!Instruction::is_control_block_end(&Instruction::Else));
}

#[test]
fn matching_end_and_else() {
    let insts = vec![
        Instruction::If { ty: BlockType::Empty },
        Instruction::Block { ty: BlockType::Empty },
        Instruction::End,
        Instruction::Else,
        Instruction::Nop,
        Instruction::End,
        Instruction::End,
    ];
    assert_eq!(find_matching_end(&insts, 0), Some(5));
    assert_eq!(find_matching_end(&insts, 1), Some(2));
    assert_eq!(find_closest_else(&insts, 0, 5), Some(3));
    assert_eq!(find_closest_else(&insts, 1, 2), None);
    let open = vec![Instruction::Block { ty: BlockType::Empty }, Instruction::Nop];
    assert_eq!(find_matching_end(&open, 0), None);
}

#[test]
fn code_body_with_locals() {
    let body = vec![0x02, 0x02, 0x7f, 0x01, 0x7c, 0x41, 0x00, 0x0b];
    let (locals, insts) = parse_code_body(&body).unwrap();
    assert_eq!(locals, vec![(2, ValType::I32), (1, ValType::F64)]);
    assert_eq!(insts, vec![Instruction::I32Const { value: 0 }, Instruction::End]);
}

#[test]
fn code_body_with_too_many_locals() {
    let body = vec![0x02, 0xff, 0xff, 0xff, 0xff, 0x0f, 0x7f, 0x01, 0x7f, 0x0b];
    assert_eq!(parse_code_body(&body), Err(ParseError::TooManyLocals));
}

#[test]
fn code_body_with_bad_instruction() {
    assert_eq!(parse_code_body(&vec![0x00, 0xd7]), Err(ParseError::Decode(DecodeError::UnsupportedOpcode(0xd7))));
}

#[test]
fn value_type_names() {
    assert_eq!(valtype_from_name(&"i32".to_string()), ValType::I32);
    assert_eq!(valtype_from_name(&"i64".to_string()), ValType::I64);
    assert_eq!(valtype_from_name(&"f32".to_string()), ValType::F32);
    assert_eq!(valtype_from_name(&"f64".to_string()), ValType::F64);
    assert_eq!(valtype_from_name(&"v128".to_string()), ValType::V128);
    assert_eq!(valtype_from_name(&"funcref".to_string()), ValType::Ref);
}

#[test]
fn empty_type_section_and_bad_magic() {
    // A type section with no entries: the module has no signatures.
    let bytes = vec![0x00, 0x61, 0x73, 0x6d, 0x01, 0x00, 0x00, 0x00, 0x01, 0x01, 0x00];
    let module = WasmModule::from_bytecode(&bytes).unwrap();
    assert_eq!(module.get_sigs().len(), 0);
    let mut bad = bytes.clone();
    bad[0] = 0x01;
    assert!(WasmModule::from_bytecode(&bad).is_err());
}

#[test]
fn payloads_drive_the_module() {
    // A header and an end alone make an empty module; a code section
    // announcing one body with no function declared is refused.
    let empty = WasmModule::from_payloads(&[], &vec![Payload::Version { component: false }, Payload::End]).unwrap();
    assert_eq!(empty.get_funcs().len(), 0);
    let bytes = vec![0x01, 0x02, 0x00, 0x0b];
    let r = WasmModule::from_payloads(&bytes, &vec![Payload::Section { id: 10, start: 0, end: 4 }]);
    assert!(matches!(r, Err(ParseError::FunctionNotFound)));
    let r = WasmModule::from_payloads(&bytes, &vec![Payload::Unknown { id: 40 }]);
    assert!(matches!(r, Err(ParseError::UnknownSection)));
    let r = WasmModule::from_payloads(&bytes, &vec![Payload::Section { id: 1, start: 3, end: 9 }]);
    assert!(matches!(r, Err(ParseError::Malformed)));
    // Sections of a component are skipped.
    let r = WasmModule::from_payloads(&bytes, &vec![
        Payload::Version { component: true },
        Payload::Section { id: 10, start: 0, end: 4 },
        Payload::End,
    ]);
    assert!(r.is_ok());
}

#[test]
fn values_and_defaults() {
    assert_eq!(WasmValue::I32(5).as_i32(), 5);
    assert_eq!(WasmValue::F64(3).as_f64(), 3);
    assert_eq!(WasmValue::default_value(&ValType::I32), WasmValue::I32(0));
    assert_eq!(WasmValue::default_value(&ValType::F64), WasmValue::F64(0));
}

fn names(v: &[&str]) -> Vec<String> {
    v.iter().map(|s| s.to_string()).collect()
}

fn import(ty: TypeRef) -> Import {
    Import { module: "env".to_string(), name: "x".to_string(), ty }
}

#[test]
fn signatures_from_type_groups() {
    let sigs = sigs_from_groups(&vec![(false, Some((names(&["i32", "f64"]), names(&["i32"]))))]).unwrap();
    assert_eq!(sigs.len(), 1);
    assert_eq!(sigs[0].params, vec![ValType::I32, ValType::F64]);
    assert_eq!(sigs[0].results, vec![ValType::I32]);
    let explicit = sigs_from_groups(&vec![(true, Some((names(&[]), names(&[]))))]);
    assert!(matches!(explicit, Err(ParseError::Unsupported)));
    let not_func = sigs_from_groups(&vec![(false, None)]);
    assert!(matches!(not_func, Err(ParseError::Unsupported)));
}

#[test]
fn imports_are_counted_and_declared() {
    let items = vec![import(TypeRef::Func(0)), import(TypeRef::Table), import(TypeRef::Global)];
    assert!(matches!(import_counts(&items), Ok((1, 1, 0, 1))));
    assert!(matches!(import_counts(&vec![import(TypeRef::Tag)]), Err(ParseError::Unsupported)));
    let sig = FuncType { params: vec![ValType::I32], results: vec![] };
    let fs = import_funcs(&vec![import(TypeRef::Func(0))], &vec![sig.clone()]).unwrap();
    assert_eq!(fs.len(), 1);
    assert_eq!(fs[0].get_sig().params, vec![ValType::I32]);
    assert!(matches!(import_funcs(&vec![import(TypeRef::Func(3))], &vec![sig.clone()]), Err(ParseError::SignatureNotFound)));
    assert!(matches!(import_funcs(&items, &vec![sig]), Err(ParseError::Unsupported)));
}

#[test]
fn function_section_declares_by_signature_index() {
    let sig = FuncType { params: vec![], results: vec![ValType::F64] };
    let fs = declare(&vec![0, 0], &vec![sig.clone()]).unwrap();
    assert_eq!(fs.len(), 2);
    assert_eq!(fs[1].get_sig().results, vec![ValType::F64]);
    assert!(matches!(declare(&vec![1], &vec![sig]), Err(ParseError::SignatureNotFound)));
}

#[test]
fn globals_and_elements_from_their_sections() {
    let gs = globals_from(&vec![("i32".to_string(), true, vec![0x41, 0x05, 0x0b])]);
    assert_eq!(gs.len(), 1);
    assert_eq!(gs[0].get_ty().content_type, ValType::I32);
    assert!(gs[0].get_ty().mutable);
    assert_eq!(gs[0].get_init_expr(), &vec![0x41, 0x05, 0x0b]);
    let es = elements_from(vec![ElementKind::Passive], vec![Some(vec![1, 2])]).unwrap();
    assert_eq!(es.len(), 1);
    assert!(matches!(es[0].kind, ElementKind::Passive));
    assert!(matches!(&es[0].items, ElementItems::Functions(v) if *v == vec![1, 2]));
    assert!(matches!(elements_from(vec![ElementKind::Passive], vec![]), Err(ParseError::Malformed)));
}
