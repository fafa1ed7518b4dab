use wasm_vm::jit::regalloc::allocator::{RegWithType, X86RegisterAllocator};
use wasm_vm::jit::regalloc::register::{Register, X86FpRegister, X86Register, REG_TEMP};
use wasm_vm::jit::utils::get_stack_size_in_byte;
use wasm_vm::jit::ValueType;
use wasm_vm::module::components::{FuncDecl, FuncType};
use wasm_vm::module::insts::{BlockType, I32Binop, Instruction};
use wasm_vm::module::value_type::ValType;

#[test]
fn register_numbers() {
    assert_eq!(X86Register::Rax.as_index(), 0);
    assert_eq!(X86Register::Rcx.as_index(), 1);
    assert_eq!(X86Register::Rbx.as_index(), 3);
    assert_eq!(X86Register::Rdi.as_index(), 7);
    assert_eq!(X86Register::R15.as_index(), 15);
    assert_eq!(REG_TEMP.as_index(), 13);
    assert_eq!(X86FpRegister::Xmm0.as_index(), 0);
    assert_eq!(X86FpRegister::Xmm15.as_index(), 15);
}

#[test]
fn argument_registers() {
    assert_eq!(Register::from_ith_argument(0), Register::Reg(X86Register::Rdi));
    assert_eq!(Register::from_ith_argument(1), Register::Reg(X86Register::Rsi));
    assert_eq!(Register::from_ith_argument(3), Register::Reg(X86Register::Rcx));
    assert_eq!(Register::from_ith_argument(5), Register::Reg(X86Register::R9));
    for i in 0..6 {
        assert!(Register::from_ith_argument(i).is_caller_saved());
    }
}

#[test]
fn caller_saved_registers() {
    assert!(Register::Reg(X86Register::Rax).is_caller_saved());
    assert!(Register::Reg(X86Register::R11).is_caller_saved());
    assert!(!Register::Reg(X86Register::Rbx).is_caller_saved());
    assert!(!Register::Reg(X86Register::R12).is_caller_saved());
    assert!(Register::FpReg(X86FpRegister::Xmm3).is_caller_saved());
    assert!(!Register::Stack(8).is_caller_saved());
}

#[test]
fn allocator_hands_out_the_pool_in_order() {
    let mut a = X86RegisterAllocator::new();
    assert_eq!(a.next().reg, Register::Reg(X86Register::Rax));
    assert_eq!(a.next().reg, Register::Reg(X86Register::Rdi));
    assert_eq!(a.next_xmm().reg, Register::FpReg(X86FpRegister::Xmm0));
    assert_eq!(a.size(), 3);
    let top = a.pop_noopt();
    assert_eq!(top, RegWithType::new(Register::FpReg(X86FpRegister::Xmm0), ValueType::F64));
    // a freed register is handed out again
    a.pop_noopt();
    assert_eq!(a.next().reg, Register::Reg(X86Register::Rdi));
}

#[test]
fn allocator_spills_when_the_pool_is_used_up() {
    let mut a = X86RegisterAllocator::new();
    for _ in 0..10 {
        a.next();
    }
    assert_eq!(a.next().reg, Register::Stack(8));
    assert_eq!(a.next().reg, Register::Stack(16));
    assert_eq!(a.new_spill(ValueType::F64).reg, Register::Stack(24));
}

#[test]
fn allocator_callee_saved_and_caller_saved() {
    let mut a = X86RegisterAllocator::new();
    assert_eq!(a.next_not_caller_saved().reg, Register::Reg(X86Register::Rbx));
    assert_eq!(a.next_not_caller_saved().reg, Register::Stack(8));
    a.next();
    a.next_xmm();
    assert_eq!(
        a.get_used_caller_saved_registers(),
        vec![Register::Reg(X86Register::Rax), Register::FpReg(X86FpRegister::Xmm0)]
    );
    assert!(a.pop_opt().is_some());
    a.clear_vec();
    assert_eq!(a.size(), 0);
    assert!(a.pop_opt().is_none());
    assert_eq!(a.top(), None);
    a.reset();
    assert_eq!(a.next_not_caller_saved().reg, Register::Reg(X86Register::Rbx));
}

fn func(params: usize, insts: Vec<Instruction>) -> FuncDecl {
    let mut f = FuncDecl::new(FuncType { params: vec![ValType::I32; params], results: vec![ValType::I32] });
    f.add_func_body((vec![(3, ValType::I32)], insts));
    f
}

#[test]
fn stack_size_counts_locals_and_depth() {
    // two parameters, one local declaration, depth two: (2 + 1 + 2 + 1) * 8 = 48
    let f = func(
        2,
        vec![
            Instruction::LocalGet { local_idx: 0 },
            Instruction::LocalGet { local_idx: 1 },
            Instruction::I32Binop(I32Binop::Add),
            Instruction::End,
        ],
    );
    assert_eq!(get_stack_size_in_byte(&f), 48);
}

#[test]
fn stack_size_rounds_up_to_16() {
    // no parameters, one local declaration, depth one: (1 + 1 + 1) * 8 = 24, rounded to 32
    let f = func(0, vec![Instruction::I32Const { value: 1 }, Instruction::End]);
    assert_eq!(get_stack_size_in_byte(&f), 32);
}

#[test]
fn stack_size_takes_the_deeper_branch() {
    // depth 1 before the if, 3 inside: (0 + 1 + 3 + 1) * 8 = 40, rounded to 48
    let f = func(
        0,
        vec![
            Instruction::I32Const { value: 1 },
            Instruction::If { ty: BlockType::Empty },
            Instruction::I32Const { value: 1 },
            Instruction::I32Const { value: 1 },
            Instruction::Else,
            Instruction::Drop,
            Instruction::End,
            Instruction::End,
        ],
    );
    assert_eq!(get_stack_size_in_byte(&f), 48);
}
