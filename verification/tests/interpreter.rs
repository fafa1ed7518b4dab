use wasm_vm::module::components::{FuncDecl, FuncType};
use wasm_vm::module::insts::{F64Binop, I32Binop, Instruction, MemArg};
use wasm_vm::module::parse::ParseError;
use wasm_vm::module::value_type::{ValType, WasmValue};
use wasm_vm::module::wasm_module::WasmModule;
use wasm_vm::vm::func_exec::{ExecError, StepOutcome, WasmFunctionExecutorImpl};
use wasm_vm::vm::interpreter::{InstantiateError, LinearMemory, RunError, WasmInterpreter};

/// A section: its id, its size and its contents.
fn section(id: u8, contents: &[u8]) -> Vec<u8> {
    assert!(contents.len() < 128);
    let mut s = vec![id, contents.len() as u8];
    s.extend_from_slice(contents);
    s
}

/// A module binary made of the given sections.
fn binary(sections: &[Vec<u8>]) -> Vec<u8> {
    let mut b = vec![0x00, 0x61, 0x73, 0x6d, 0x01, 0x00, 0x00, 0x00];
    for s in sections {
        b.extend_from_slice(s);
    }
    b
}

/// A code section of the given function bodies (locals declarations included).
fn code(bodies: &[Vec<u8>]) -> Vec<u8> {
    let mut c = vec![bodies.len() as u8];
    for b in bodies {
        c.push(b.len() as u8);
        c.extend_from_slice(b);
    }
    section(10, &c)
}

fn export_main(index: u8) -> Vec<u8> {
    section(7, &[0x01, 0x04, b'm', b'a', b'i', b'n', 0x00, index])
}

/// Runs the machine to its end, doing the floating-point work it asks for.
fn run(exec: &mut WasmFunctionExecutorImpl) -> Result<WasmValue, ExecError> {
    for _ in 0..10_000 {
        match exec.step() {
            StepOutcome::Running => {}
            StepOutcome::Finished(v) => return Ok(v),
            StepOutcome::NeedF64Unop { .. } => panic!("no unary float operation expected"),
            StepOutcome::NeedF64Binop { op, a, b } => {
                let (a, b) = (f64::from_bits(a), f64::from_bits(b));
                let r = match op {
                    F64Binop::Add => WasmValue::F64((a + b).to_bits()),
                    F64Binop::Mul => WasmValue::F64((a * b).to_bits()),
                    F64Binop::Lt => WasmValue::I32((a < b) as i32),
                    _ => panic!("unexpected float operation"),
                };
                exec.resume_f64(r).unwrap();
            }
            StepOutcome::Trap(e) => return Err(e),
        }
    }
    panic!("did not finish")
}

fn run_main(bytes: &[u8], params: Vec<WasmValue>) -> Result<WasmValue, RunError> {
    let module = WasmModule::from_bytecode(bytes).unwrap();
    let vm = WasmInterpreter::from_module(module, false).unwrap();
    let mut exec = vm.main_executor(params)?;
    run(&mut exec).map_err(RunError::Exec)
}

#[test]
fn const_main_returns_its_value() {
    let bytes = binary(&[
        section(1, &[0x01, 0x60, 0x00, 0x01, 0x7f]),
        section(3, &[0x01, 0x00]),
        export_main(0),
        code(&[vec![0x00, 0x41, 0x2a, 0x0b]]),
    ]);
    assert_eq!(run_main(&bytes, vec![]), Ok(WasmValue::I32(42)));
}

#[test]
fn module_parts_are_read() {
    let bytes = binary(&[
        section(1, &[0x01, 0x60, 0x02, 0x7f, 0x7c, 0x01, 0x7f]),
        section(3, &[0x01, 0x00]),
        export_main(0),
        code(&[vec![0x01, 0x02, 0x7f, 0x20, 0x00, 0x0b]]),
    ]);
    let m = WasmModule::from_bytecode(&bytes).unwrap();
    let sig = m.get_sig(0).unwrap();
    assert_eq!(sig.params, vec![ValType::I32, ValType::F64]);
    assert_eq!(sig.results, vec![ValType::I32]);
    assert_eq!(m.get_funcs().len(), 1);
    let f = m.get_func(0).unwrap();
    assert_eq!(f.get_pure_locals(), &[(2, ValType::I32)][..]);
    assert_eq!(f.get_insts(), &vec![Instruction::LocalGet { local_idx: 0 }, Instruction::End]);
    assert_eq!(m.get_main_index(), Some(0));
    assert_eq!(m.get_num_imports(), 0);
}

#[test]
fn add_of_two_params() {
    let bytes = binary(&[
        section(1, &[0x01, 0x60, 0x02, 0x7f, 0x7f, 0x01, 0x7f]),
        section(3, &[0x01, 0x00]),
        export_main(0),
        code(&[vec![0x00, 0x20, 0x00, 0x20, 0x01, 0x6a, 0x0b]]),
    ]);
    let r = run_main(&bytes, vec![WasmValue::I32(3), WasmValue::I32(4)]);
    assert_eq!(r, Ok(WasmValue::I32(7)));
}

#[test]
fn if_else_picks_a_branch() {
    // local.get 0; if (result i32) i32.const 1 else i32.const 2 end; end
    let body = vec![0x00, 0x20, 0x00, 0x04, 0x7f, 0x41, 0x01, 0x05, 0x41, 0x02, 0x0b, 0x0b];
    let bytes = binary(&[
        section(1, &[0x01, 0x60, 0x01, 0x7f, 0x01, 0x7f]),
        section(3, &[0x01, 0x00]),
        export_main(0),
        code(&[body]),
    ]);
    assert_eq!(run_main(&bytes, vec![WasmValue::I32(5)]), Ok(WasmValue::I32(1)));
    assert_eq!(run_main(&bytes, vec![WasmValue::I32(0)]), Ok(WasmValue::I32(2)));
}

#[test]
fn call_returns_to_the_caller() {
    // func 0: (param i32) (result i32) local.get 0; i32.const 2; i32.mul
    // func 1 (main): i32.const 21; call 0
    let bytes = binary(&[
        section(1, &[0x02, 0x60, 0x01, 0x7f, 0x01, 0x7f, 0x60, 0x00, 0x01, 0x7f]),
        section(3, &[0x02, 0x00, 0x01]),
        export_main(1),
        code(&[
            vec![0x00, 0x20, 0x00, 0x41, 0x02, 0x6c, 0x0b],
            vec![0x00, 0x41, 0x15, 0x10, 0x00, 0x0b],
        ]),
    ]);
    assert_eq!(run_main(&bytes, vec![]), Ok(WasmValue::I32(42)));
}

#[test]
fn data_segment_is_copied_to_its_offset() {
    // (memory 1) (data (i32.const 10) "foo"); main: i32.const 10; i32.load8_u
    let bytes = binary(&[
        section(1, &[0x01, 0x60, 0x00, 0x01, 0x7f]),
        section(3, &[0x01, 0x00]),
        section(5, &[0x01, 0x00, 0x01]),
        export_main(0),
        code(&[vec![0x00, 0x41, 0x0a, 0x2d, 0x00, 0x00, 0x0b]]),
        section(11, &[0x01, 0x00, 0x41, 0x0a, 0x0b, 0x03, b'f', b'o', b'o']),
    ]);
    let module = WasmModule::from_bytecode(&bytes).unwrap();
    let vm = WasmInterpreter::from_module(module, false).unwrap();
    assert_eq!(vm.memory().size(), 65536);
    assert_eq!(&vm.memory().0[10..13], b"foo");
    assert_eq!(vm.memory().0[9], 0);
    let mut exec = vm.main_executor(vec![]).unwrap();
    assert_eq!(run(&mut exec), Ok(WasmValue::I32(102)));
}

#[test]
fn data_segment_past_the_memory_is_refused() {
    let bytes = binary(&[
        section(1, &[0x01, 0x60, 0x00, 0x01, 0x7f]),
        section(3, &[0x01, 0x00]),
        section(5, &[0x01, 0x00, 0x00]),
        export_main(0),
        code(&[vec![0x00, 0x41, 0x00, 0x0b]]),
        section(11, &[0x01, 0x00, 0x41, 0x0a, 0x0b, 0x03, b'f', b'o', b'o']),
    ]);
    let module = WasmModule::from_bytecode(&bytes).unwrap();
    assert!(matches!(WasmInterpreter::from_module(module, false), Err(InstantiateError::OutOfBounds)));
}

#[test]
fn global_set_then_get() {
    // (global (mut i32) (i32.const 5)); main: global.get 0; i32.const 1; i32.add; global.set 0; global.get 0
    let bytes = binary(&[
        section(1, &[0x01, 0x60, 0x00, 0x01, 0x7f]),
        section(3, &[0x01, 0x00]),
        section(6, &[0x01, 0x7f, 0x01, 0x41, 0x05, 0x0b]),
        export_main(0),
        code(&[vec![0x00, 0x23, 0x00, 0x41, 0x01, 0x6a, 0x24, 0x00, 0x23, 0x00, 0x0b]]),
    ]);
    assert_eq!(run_main(&bytes, vec![]), Ok(WasmValue::I32(6)));
}

#[test]
fn negative_global_round_trips() {
    // global.set then global.get of -300 goes through the signed LEB128 initializer
    let bytes = binary(&[
        section(1, &[0x01, 0x60, 0x00, 0x01, 0x7f]),
        section(3, &[0x01, 0x00]),
        section(6, &[0x01, 0x7f, 0x01, 0x41, 0x00, 0x0b]),
        export_main(0),
        code(&[vec![0x00, 0x41, 0xd4, 0x7d, 0x24, 0x00, 0x23, 0x00, 0x0b]]),
    ]);
    assert_eq!(run_main(&bytes, vec![]), Ok(WasmValue::I32(-300)));
}

#[test]
fn f64_add_is_handed_to_the_caller() {
    let bytes = binary(&[
        section(1, &[0x01, 0x60, 0x02, 0x7c, 0x7c, 0x01, 0x7c]),
        section(3, &[0x01, 0x00]),
        export_main(0),
        code(&[vec![0x00, 0x20, 0x00, 0x20, 0x01, 0xa0, 0x0b]]),
    ]);
    let module = WasmModule::from_bytecode(&bytes).unwrap();
    let vm = WasmInterpreter::from_module(module, false).unwrap();
    let mut exec = vm
        .main_executor(vec![WasmValue::F64(1.5f64.to_bits()), WasmValue::F64(2.25f64.to_bits())])
        .unwrap();
    let mut outcome = exec.step();
    while outcome == StepOutcome::Running {
        outcome = exec.step();
    }
    assert_eq!(
        outcome,
        StepOutcome::NeedF64Binop { op: F64Binop::Add, a: 1.5f64.to_bits(), b: 2.25f64.to_bits() }
    );
    assert!(exec.is_waiting());
    assert_eq!(exec.step(), StepOutcome::Trap(ExecError::AwaitingFloatResult));
    exec.resume_f64(WasmValue::F64(3.75f64.to_bits())).unwrap();
    assert_eq!(exec.resume_f64(WasmValue::F64(0)), Err(ExecError::NotAwaitingFloatResult));
    assert_eq!(run(&mut exec), Ok(WasmValue::F64(3.75f64.to_bits())));
    assert!(exec.is_finished());
    assert_eq!(exec.step(), StepOutcome::Trap(ExecError::Finished));
}

#[test]
fn unreachable_traps() {
    let bytes = binary(&[
        section(1, &[0x01, 0x60, 0x00, 0x01, 0x7f]),
        section(3, &[0x01, 0x00]),
        export_main(0),
        code(&[vec![0x00, 0x00, 0x0b]]),
    ]);
    assert_eq!(run_main(&bytes, vec![]), Err(RunError::Exec(ExecError::Unreachable)));
}

#[test]
fn missing_main_is_reported() {
    let bytes = binary(&[
        section(1, &[0x01, 0x60, 0x00, 0x01, 0x7f]),
        section(3, &[0x01, 0x00]),
        code(&[vec![0x00, 0x41, 0x00, 0x0b]]),
    ]);
    let module = WasmModule::from_bytecode(&bytes).unwrap();
    let vm = WasmInterpreter::from_module(module, false).unwrap();
    assert!(matches!(vm.main_executor(vec![]), Err(RunError::MainNotFound)));
}

#[test]
fn out_of_bounds_load_traps() {
    let bytes = binary(&[
        section(1, &[0x01, 0x60, 0x00, 0x01, 0x7f]),
        section(3, &[0x01, 0x00]),
        section(5, &[0x01, 0x00, 0x01]),
        export_main(0),
        code(&[vec![0x00, 0x41, 0xfe, 0xff, 0x03, 0x28, 0x02, 0x00, 0x0b]]),
    ]);
    assert_eq!(run_main(&bytes, vec![]), Err(RunError::Exec(ExecError::OutOfBoundsMemoryAccess)));
}

#[test]
fn store_then_load_reads_back() {
    // i32.const 8; i32.const -123456; i32.store; i32.const 8; i32.load
    let bytes = binary(&[
        section(1, &[0x01, 0x60, 0x00, 0x01, 0x7f]),
        section(3, &[0x01, 0x00]),
        section(5, &[0x01, 0x00, 0x01]),
        export_main(0),
        code(&[vec![
            0x00, 0x41, 0x08, 0x41, 0xc0, 0xbb, 0x78, 0x36, 0x02, 0x00, 0x41, 0x08, 0x28, 0x02, 0x00, 0x0b,
        ]]),
    ]);
    assert_eq!(run_main(&bytes, vec![]), Ok(WasmValue::I32(-123456)));
}

#[test]
fn memory_grow_and_size_report_bytes() {
    // (memory 1); main: i32.const 1; memory.grow; drop; memory.size
    let bytes = binary(&[
        section(1, &[0x01, 0x60, 0x00, 0x01, 0x7f]),
        section(3, &[0x01, 0x00]),
        section(5, &[0x01, 0x00, 0x01]),
        export_main(0),
        code(&[vec![0x00, 0x41, 0x01, 0x40, 0x00, 0x1a, 0x3f, 0x00, 0x0b]]),
    ]);
    assert_eq!(run_main(&bytes, vec![]), Ok(WasmValue::I32(131072)));
}

#[test]
fn unknown_section_is_refused() {
    let mut bytes = binary(&[section(1, &[0x00])]);
    bytes.extend_from_slice(&[0x20, 0x01, 0x00]);
    assert!(matches!(WasmModule::from_bytecode(&bytes), Err(ParseError::UnknownSection)));
}

#[test]
fn malformed_binary_is_refused() {
    assert!(matches!(WasmModule::from_bytecode(&[0x00, 0x61, 0x73]), Err(ParseError::Malformed)));
}

#[test]
fn second_memory_is_refused() {
    let bytes = binary(&[section(5, &[0x02, 0x00, 0x01, 0x00, 0x01])]);
    assert!(matches!(WasmModule::from_bytecode(&bytes), Err(ParseError::MultipleMemories)));
}

#[test]
fn function_without_signature_is_refused() {
    let bytes = binary(&[
        section(1, &[0x01, 0x60, 0x00, 0x01, 0x7f]),
        section(3, &[0x01, 0x05]),
    ]);
    assert!(matches!(WasmModule::from_bytecode(&bytes), Err(ParseError::Malformed) | Err(ParseError::SignatureNotFound)));
}

#[test]
fn executor_over_a_built_function() {
    let mut f = FuncDecl::new(FuncType { params: vec![], results: vec![ValType::I32] });
    f.add_func_body((
        vec![],
        vec![
            Instruction::I32Const { value: 6 },
            Instruction::I32Const { value: 7 },
            Instruction::I32Binop(I32Binop::Mul),
            Instruction::End,
        ],
    ));
    let mut exec = WasmFunctionExecutorImpl::new(f, WasmModule::new(), LinearMemory(vec![]), None).unwrap();
    assert_eq!(run(&mut exec), Ok(WasmValue::I32(42)));
}

#[test]
fn memory_size_goes_to_the_stack_bottom() {
    let mut f = FuncDecl::new(FuncType { params: vec![], results: vec![ValType::I32] });
    f.add_func_body((
        vec![],
        vec![
            Instruction::Block { ty: wasm_vm::module::insts::BlockType::Empty },
            Instruction::I32Const { value: 9 },
            Instruction::MemorySize { mem: 0 },
            Instruction::End,
            Instruction::End,
        ],
    ));
    let mut exec = WasmFunctionExecutorImpl::new(f, WasmModule::new(), LinearMemory(vec![0; 16]), None).unwrap();
    // memory.size places 16 under the constant, so the constant is still on top
    assert_eq!(run(&mut exec), Ok(WasmValue::I32(9)));
}

#[test]
fn load_of_a_float_reads_eight_bytes() {
    let bits = 2.5f64.to_bits();
    let mut mem = vec![0u8; 16];
    mem[4..12].copy_from_slice(&bits.to_le_bytes());
    let mut f = FuncDecl::new(FuncType { params: vec![], results: vec![ValType::F64] });
    f.add_func_body((
        vec![],
        vec![
            Instruction::I32Const { value: 4 },
            Instruction::F64Load { memarg: MemArg { offset: 0, align: 3 } },
            Instruction::End,
        ],
    ));
    let mut exec = WasmFunctionExecutorImpl::new(f, WasmModule::new(), LinearMemory(mem), None).unwrap();
    assert_eq!(run(&mut exec), Ok(WasmValue::F64(bits)));
}
