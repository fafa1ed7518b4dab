use wasm_vm::jit::compiler::X86JitCompiler;
use wasm_vm::jit::mem::JitLinearMemory;
use wasm_vm::jit::regalloc::register::{Register, X86FpRegister, X86Register};
use wasm_vm::jit::setup::WasmJitCompiler;
use wasm_vm::jit::utils::get_stack_size_in_byte;
use wasm_vm::jit::x86::{emit_mov_reg_to_reg, AluOp, Cond, Label, X86Inst};
use wasm_vm::jit::JitError;
use wasm_vm::module::insts::{F64Binop, I32Binop};
use wasm_vm::module::value_type::WasmValue;
use wasm_vm::module::wasm_module::WasmModule;

use X86Register::{Rax, Rbp, Rbx, Rcx, Rdi, Rdx, Rsi, Rsp, R12, R13, R14, R15};

/// A section: its id, its size and its contents.
fn section(id: u8, contents: &[u8]) -> Vec<u8> {
    assert!(contents.len() < 128);
    let mut s = vec![id, contents.len() as u8];
    s.extend_from_slice(contents);
    s
}

/// A module binary made of the given sections.
fn binary(sections: &[Vec<u8>]) -> Vec<u8> {
    let mut b = vec![0x00, 0x61, 0x73, 0x6d, 0x01, 0x00, 0x00, 0x00];
    for s in sections {
        b.extend_from_slice(s);
    }
    b
}

/// A code section of the given function bodies (locals declarations included).
fn code(bodies: &[Vec<u8>]) -> Vec<u8> {
    let mut c = vec![bodies.len() as u8];
    for b in bodies {
        c.push(b.len() as u8);
        c.extend_from_slice(b);
    }
    section(10, &c)
}

fn export_main(index: u8) -> Vec<u8> {
    section(7, &[0x01, 0x04, b'm', b'a', b'i', b'n', 0x00, index])
}

/// A module of one function of type `sig` (type section contents) and body
/// `body`, exported as `main`, with `extra` sections placed after the
/// function section.
fn one_function(sig: &[u8], body: Vec<u8>, extra: Vec<Vec<u8>>) -> WasmModule {
    let mut sections = vec![section(1, sig), section(3, &[0x01, 0x00])];
    sections.extend(extra);
    sections.push(export_main(0));
    sections.push(code(&[body]));
    WasmModule::from_bytecode(&binary(&sections)).unwrap()
}

const VOID_TO_I32: [u8; 5] = [0x01, 0x60, 0x00, 0x01, 0x7f];
const VOID_TO_VOID: [u8; 4] = [0x01, 0x60, 0x00, 0x00];

fn r(x: X86Register) -> Register {
    Register::Reg(x)
}

fn prologue(label: Label, stack_size: u64) -> Vec<X86Inst> {
    vec![
        X86Inst::Bind { label },
        X86Inst::Push { src: Rbp },
        X86Inst::Mov { dst: r(Rbp), src: r(Rsp) },
        X86Inst::SubImm { dst: Rsp, value: stack_size },
        X86Inst::Push { src: Rbx },
        X86Inst::Push { src: R12 },
        X86Inst::Push { src: R13 },
        X86Inst::Push { src: R14 },
        X86Inst::Push { src: R15 },
    ]
}

fn epilogue_and_ret(stack_size: u64) -> Vec<X86Inst> {
    vec![
        X86Inst::Pop { dst: R15 },
        X86Inst::Pop { dst: R14 },
        X86Inst::Pop { dst: R13 },
        X86Inst::Pop { dst: R12 },
        X86Inst::Pop { dst: Rbx },
        X86Inst::AddImm { dst: Rsp, value: stack_size },
        X86Inst::Pop { dst: Rbp },
        X86Inst::Ret,
    ]
}

#[test]
fn moves_between_locations() {
    let mut v = Vec::new();
    emit_mov_reg_to_reg(&mut v, r(Rax), r(Rax));
    assert!(v.is_empty());
    emit_mov_reg_to_reg(&mut v, r(Rbx), r(Rcx));
    assert_eq!(v, vec![X86Inst::Mov { dst: r(Rbx), src: r(Rcx) }]);
    let mut w = Vec::new();
    emit_mov_reg_to_reg(&mut w, Register::Stack(8), Register::Stack(16));
    assert_eq!(
        w,
        vec![
            X86Inst::Mov { dst: r(R13), src: Register::Stack(16) },
            X86Inst::Mov { dst: Register::Stack(8), src: r(R13) },
        ]
    );
}

#[test]
fn new_compiler_hands_out_labels() {
    // block; i32.const 0; br_table [0] 0; end; end
    let body = vec![0x00, 0x02, 0x40, 0x41, 0x00, 0x0e, 0x01, 0x00, 0x00, 0x0b, 0x0b];
    let module = one_function(&VOID_TO_VOID, body, vec![]);
    let c = X86JitCompiler::new(module);
    assert_eq!(c.trap_label(), Label(0));
    assert_eq!(c.func_labels(), &vec![Label(1)]);
    assert_eq!(c.func_sig_indices(), &vec![0]);
    assert!(c.code().is_empty());
}

#[test]
fn i32_add_on_two_registers() {
    let mut c = X86JitCompiler::new(WasmModule::new());
    c.alloc_gp();
    c.alloc_gp();
    c.emit_i32_binop(I32Binop::Add);
    assert_eq!(
        c.code(),
        &vec![
            X86Inst::Mov { dst: r(R13), src: r(Rax) },
            X86Inst::Mov { dst: r(R14), src: r(Rdi) },
            X86Inst::Alu { op: AluOp::Add, dst: R13, src: R14 },
            X86Inst::Mov { dst: r(Rax), src: r(R13) },
        ]
    );
    assert_eq!(c.regs_len(), 1);
}

#[test]
fn i32_signed_division_checks_for_traps() {
    let mut c = X86JitCompiler::new(WasmModule::new());
    c.alloc_gp();
    c.alloc_gp();
    c.emit_i32_binop(I32Binop::DivS);
    let ok = Label(1);
    let trap = Label(0);
    assert_eq!(
        c.code(),
        &vec![
            X86Inst::Mov { dst: r(R13), src: r(Rax) },
            X86Inst::Mov { dst: r(R14), src: r(Rdi) },
            X86Inst::Test { a: R14, b: R14 },
            X86Inst::Jcc { cond: Cond::Zero, target: trap },
            X86Inst::Push { src: Rax },
            X86Inst::Push { src: Rdx },
            X86Inst::MovImm { dst: r(Rax), value: 0xFFFF_FFFF_8000_0000 },
            X86Inst::Compare { a: R13, b: Rax },
            X86Inst::Jcc { cond: Cond::NotEqual, target: ok },
            X86Inst::MovImm { dst: r(Rax), value: 0xFFFF_FFFF_FFFF_FFFF },
            X86Inst::Compare { a: R14, b: Rax },
            X86Inst::Jcc { cond: Cond::NotEqual, target: ok },
            X86Inst::Jmp { target: trap },
            X86Inst::Bind { label: ok },
            X86Inst::Mov { dst: r(Rax), src: r(R13) },
            X86Inst::Cqo,
            X86Inst::Idiv { src: R14 },
            X86Inst::Mov { dst: r(R13), src: r(Rax) },
            X86Inst::Pop { dst: Rdx },
            X86Inst::Pop { dst: Rax },
            X86Inst::Mov { dst: r(Rax), src: r(R13) },
        ]
    );
}

#[test]
fn f64_comparison_pushes_its_result_twice() {
    let mut c = X86JitCompiler::new(WasmModule::new());
    c.alloc_fp();
    c.alloc_fp();
    c.emit_f64_binop(F64Binop::Lt);
    assert_eq!(
        c.code(),
        &vec![
            X86Inst::Mov { dst: Register::FpReg(X86FpRegister::Xmm14), src: Register::FpReg(X86FpRegister::Xmm0) },
            X86Inst::Mov { dst: Register::FpReg(X86FpRegister::Xmm15), src: Register::FpReg(X86FpRegister::Xmm1) },
            X86Inst::Ucomisd { a: X86FpRegister::Xmm14, b: X86FpRegister::Xmm15 },
            X86Inst::SetCc { cond: Cond::Less, dst: R13 },
            X86Inst::Mov { dst: r(Rax), src: r(R13) },
        ]
    );
    assert_eq!(c.regs_len(), 2);
}

#[test]
fn const_main_compiles_to_prologue_body_and_return() {
    let module = one_function(&VOID_TO_I32, vec![0x00, 0x41, 0x2a, 0x0b], vec![]);
    let ss = get_stack_size_in_byte(&module.get_funcs()[0]);
    assert_eq!(ss, 16);
    let mut c = X86JitCompiler::new(module);
    let entry = c.compile(vec![]).unwrap();
    assert_eq!(entry, Label(2));
    let code = c.code();
    assert_eq!(
        &code[..3],
        &[
            X86Inst::Bind { label: Label(0) },
            X86Inst::MovImm { dst: r(Rax), value: 0 },
            X86Inst::StoreImm { base: Rax, disp: 0, value: 1 },
        ]
    );
    assert_eq!(code[3], X86Inst::Bind { label: Label(2) });
    let jmp = code.iter().position(|i| *i == X86Inst::Jmp { target: Label(1) }).unwrap();
    let mut expected = prologue(Label(1), ss);
    expected.push(X86Inst::MovImm { dst: r(Rax), value: 42 });
    expected.push(X86Inst::Jmp { target: Label(3) });
    expected.push(X86Inst::Bind { label: Label(3) });
    expected.push(X86Inst::Bind { label: Label(3) });
    expected.extend(epilogue_and_ret(ss));
    assert_eq!(&code[jmp + 1..], &expected[..]);
}

#[test]
fn memory_setup_rounds_up_to_pages() {
    let mem = JitLinearMemory::new();
    let mut code = Vec::new();
    mem.init_size(&mut code, 65537);
    assert_eq!(code[9], X86Inst::MovImm { dst: r(R13), value: 2 });
    assert_eq!(code[7], X86Inst::Syscall);
    assert_eq!(code[8], X86Inst::Mov { dst: r(R15), src: r(Rax) });
    let mut code2 = Vec::new();
    mem.init_size(&mut code2, 65536);
    assert_eq!(code2[9], X86Inst::MovImm { dst: r(R13), value: 1 });
    let mut code3 = Vec::new();
    mem.init_size(&mut code3, 0);
    assert_eq!(code3[9], X86Inst::MovImm { dst: r(R13), value: 0 });
}

#[test]
fn main_params_go_to_argument_registers() {
    let sig = [0x01, 0x60, 0x02, 0x7f, 0x7c, 0x01, 0x7f];
    let module = one_function(&sig, vec![0x00, 0x20, 0x00, 0x0b], vec![]);
    let mut c = X86JitCompiler::new(module);
    c.compile(vec![WasmValue::I32(-1), WasmValue::F64(0x4000_0000_0000_0000)]).unwrap();
    let code = c.code();
    let jmp = code.iter().position(|i| *i == X86Inst::Jmp { target: Label(1) }).unwrap();
    assert_eq!(code[jmp - 2], X86Inst::MovImm { dst: r(Rdi), value: 0xFFFF_FFFF_FFFF_FFFF });
    assert_eq!(code[jmp - 1], X86Inst::MovImm { dst: r(Rsi), value: 0x4000_0000_0000_0000 });
}

#[test]
fn params_and_locals_get_spill_slots() {
    // (func (param i32 f64) (local i32) local.get 0 end)
    let sig = [0x01, 0x60, 0x02, 0x7f, 0x7c, 0x01, 0x7f];
    let module = one_function(&sig, vec![0x01, 0x01, 0x7f, 0x20, 0x00, 0x0b], vec![]);
    let ss = get_stack_size_in_byte(&module.get_funcs()[0]);
    let mut c = X86JitCompiler::new(module);
    c.compile_func(0).unwrap();
    let code = c.code();
    assert_eq!(&code[..9], &prologue(Label(1), ss)[..]);
    assert_eq!(
        &code[9..15],
        &[
            X86Inst::Mov { dst: r(R12), src: r(Rbp) },
            X86Inst::SubImm { dst: R12, value: 8 },
            X86Inst::Mov { dst: Register::Stack(8), src: r(Rdi) },
            X86Inst::Mov { dst: Register::Stack(16), src: r(Rsi) },
            X86Inst::MovImm { dst: Register::Stack(24), value: 0 },
            X86Inst::Mov { dst: r(R13), src: r(R12) },
        ]
    );
    assert_eq!(code[15], X86Inst::Load { dst: r(R13), base: R13, disp: 0 });
    assert_eq!(code[16], X86Inst::Mov { dst: r(Rax), src: r(R13) });
}

#[test]
fn branch_out_of_a_block_jumps_to_its_end() {
    // block; br 0; end; i32.const 7; end
    let body = vec![0x00, 0x02, 0x40, 0x0c, 0x00, 0x0b, 0x41, 0x07, 0x0b];
    let module = one_function(&VOID_TO_I32, body, vec![]);
    let ss = get_stack_size_in_byte(&module.get_funcs()[0]);
    let mut c = X86JitCompiler::new(module);
    c.compile_func(0).unwrap();
    let mut expected = prologue(Label(1), ss);
    expected.extend(vec![
        X86Inst::Bind { label: Label(4) },
        X86Inst::Jmp { target: Label(2) },
        X86Inst::Jmp { target: Label(2) },
        X86Inst::Bind { label: Label(2) },
        X86Inst::MovImm { dst: r(Rax), value: 7 },
        X86Inst::Jmp { target: Label(3) },
        X86Inst::Bind { label: Label(3) },
        X86Inst::Bind { label: Label(3) },
    ]);
    expected.extend(epilogue_and_ret(ss));
    assert_eq!(c.code(), &expected);
}

#[test]
fn branch_table_jumps_through_its_labels() {
    // block; i32.const 0; br_table [0] 0; end; end
    let body = vec![0x00, 0x02, 0x40, 0x41, 0x00, 0x0e, 0x01, 0x00, 0x00, 0x0b, 0x0b];
    let module = one_function(&VOID_TO_VOID, body, vec![]);
    let mut c = X86JitCompiler::new(module);
    c.compile_func(0).unwrap();
    let code = c.code();
    let start = code.iter().position(|i| *i == X86Inst::Bind { label: Label(5) }).unwrap();
    assert_eq!(
        &code[start..start + 13],
        &[
            X86Inst::Bind { label: Label(5) },
            X86Inst::MovImm { dst: r(Rax), value: 0 },
            X86Inst::Mov { dst: r(R13), src: r(Rax) },
            X86Inst::CompareImm { a: R13, value: 0 },
            X86Inst::Jcc { cond: Cond::Sign, target: Label(6) },
            X86Inst::CompareImm { a: R13, value: 1 },
            X86Inst::Jcc { cond: Cond::AboveEqual, target: Label(6) },
            X86Inst::MovBrTargets { dst: R14, func: 0, table: 0 },
            X86Inst::JmpIndexed { base: R14, index: R13 },
            X86Inst::Bind { label: Label(2) },
            X86Inst::Jmp { target: Label(3) },
            X86Inst::Bind { label: Label(6) },
            X86Inst::Jmp { target: Label(3) },
        ]
    );
}

#[test]
fn loop_is_not_compiled() {
    // loop; end; i32.const 1; end
    let body = vec![0x00, 0x03, 0x40, 0x0b, 0x41, 0x01, 0x0b];
    let module = one_function(&VOID_TO_I32, body, vec![]);
    let mut c = X86JitCompiler::new(module);
    assert_eq!(c.compile_func(0), Err(JitError::Unsupported));
}

#[test]
fn branch_to_an_if_is_not_compiled() {
    // i32.const 1; if; br 0; end; i32.const 0; end
    let body = vec![0x00, 0x41, 0x01, 0x04, 0x40, 0x0c, 0x00, 0x0b, 0x41, 0x00, 0x0b];
    let module = one_function(&VOID_TO_I32, body, vec![]);
    let mut c = X86JitCompiler::new(module);
    assert_eq!(c.compile_func(0), Err(JitError::UnsupportedBranchTarget));
}

#[test]
fn branch_beyond_the_blocks_is_refused() {
    let body = vec![0x00, 0x0c, 0x05, 0x0b];
    let module = one_function(&VOID_TO_VOID, body, vec![]);
    let mut c = X86JitCompiler::new(module);
    assert_eq!(c.compile_func(0), Err(JitError::InvalidBranchDepth));
}

#[test]
fn add_with_one_operand_is_an_underflow() {
    let body = vec![0x00, 0x41, 0x01, 0x6a, 0x0b];
    let module = one_function(&VOID_TO_I32, body, vec![]);
    let mut c = X86JitCompiler::new(module);
    assert_eq!(c.compile_func(0), Err(JitError::StackUnderflow));
}

#[test]
fn missing_function_is_reported() {
    let mut c = X86JitCompiler::new(WasmModule::new());
    assert_eq!(c.compile_func(0), Err(JitError::FunctionNotFound));
}

#[test]
fn memory_other_than_zero_is_refused() {
    // memory.size 1
    let body = vec![0x00, 0x3f, 0x01, 0x0b];
    let module = one_function(&VOID_TO_I32, body, vec![]);
    let mut c = X86JitCompiler::new(module);
    assert_eq!(c.compile_func(0), Err(JitError::InvalidMemoryIndex));
}

#[test]
fn globals_are_set_from_their_initializers() {
    // (global (mut i32) (i32.const -5))
    let globals = section(6, &[0x01, 0x7f, 0x01, 0x41, 0x7b, 0x0b]);
    let module = one_function(&VOID_TO_I32, vec![0x00, 0x23, 0x00, 0x0b], vec![globals]);
    let mut c = X86JitCompiler::new(module);
    assert_eq!(c.globals(), &vec![0]);
    c.compile(vec![]).unwrap();
    assert_eq!(c.globals(), &vec![0xFFFF_FFFF_FFFF_FFFB]);
    let code = c.code();
    let at = code.iter().position(|i| *i == X86Inst::MovGlobalAddr { dst: R13, index: 0 }).unwrap();
    assert_eq!(code[at + 1], X86Inst::Load { dst: r(R13), base: R13, disp: 0 });
    assert_eq!(code[at + 2], X86Inst::Mov { dst: r(Rax), src: r(R13) });
}

#[test]
fn element_segments_fill_the_tables() {
    let bytes = binary(&[
        section(1, &VOID_TO_I32),
        section(3, &[0x01, 0x00]),
        section(4, &[0x01, 0x70, 0x00, 0x02]),
        export_main(0),
        section(9, &[0x01, 0x00, 0x41, 0x00, 0x0b, 0x01, 0x00]),
        code(&[vec![0x00, 0x41, 0x00, 0x0b]]),
    ]);
    let module = WasmModule::from_bytecode(&bytes).unwrap();
    let mut c = X86JitCompiler::new(module);
    c.compile(vec![]).unwrap();
    assert_eq!(c.tables(), &vec![vec![0]]);
    assert_eq!(c.table_len(), &vec![1]);
}

#[test]
fn missing_main_is_refused() {
    let bytes = binary(&[
        section(1, &VOID_TO_I32),
        section(3, &[0x01, 0x00]),
        code(&[vec![0x00, 0x41, 0x00, 0x0b]]),
    ]);
    let module = WasmModule::from_bytecode(&bytes).unwrap();
    let mut c = X86JitCompiler::new(module);
    assert_eq!(WasmJitCompiler::compile(&mut c, vec![]), Err(JitError::MainNotFound));
}

#[test]
fn load_addresses_its_bytes_below_the_end_of_the_access() {
    // i32.const 8; i32.load offset=16; end
    let body = vec![0x00, 0x41, 0x08, 0x28, 0x02, 0x10, 0x0b];
    let module = one_function(&VOID_TO_I32, body, vec![]);
    let mut c = X86JitCompiler::new(module);
    c.compile_func(0).unwrap();
    let code = c.code();
    assert_eq!(
        &code[9..15],
        &[
            X86Inst::MovImm { dst: r(Rax), value: 8 },
            X86Inst::Mov { dst: r(R13), src: r(Rax) },
            X86Inst::AddImm { dst: R13, value: 20 },
            X86Inst::Alu { op: AluOp::Add, dst: R13, src: R15 },
            X86Inst::LoadMem { dst: R13, addr: R13, disp: -4, width: 4 },
            X86Inst::Mov { dst: r(Rax), src: r(R13) },
        ]
    );
}

#[test]
fn store_addresses_its_bytes_below_the_end_of_the_access() {
    // i32.const 8; i32.const 65; i32.store8 offset=1; i32.const 0; end
    let body = vec![0x00, 0x41, 0x08, 0x41, 0xc1, 0x00, 0x3a, 0x00, 0x01, 0x41, 0x00, 0x0b];
    let module = one_function(&VOID_TO_I32, body, vec![]);
    let mut c = X86JitCompiler::new(module);
    c.compile_func(0).unwrap();
    let code = c.code();
    assert_eq!(
        &code[11..16],
        &[
            X86Inst::Mov { dst: r(R13), src: r(Rax) },
            X86Inst::AddImm { dst: R13, value: 2 },
            X86Inst::Alu { op: AluOp::Add, dst: R13, src: R15 },
            X86Inst::Mov { dst: r(R14), src: r(Rdi) },
            X86Inst::StoreMem { addr: R13, disp: -1, src: R14, width: 1 },
        ]
    );
}
