# wasm_vm

A small WebAssembly virtual machine written in Verus: a decoder of binary
modules, a stack interpreter and the code generator of an x86-64 JIT back end,
each with its behaviour stated in contracts and proved.

## Layout

- `src/module/`: the binary format. `reader.rs` reads LEB128 numbers and the
  other primitive encodings, `insts.rs` decodes function bodies into
  instructions, `parse.rs` turns the sections of a module into a `WasmModule`
  (`wasm_module.rs`, `components.rs`). Sections are split by `wasmparser`,
  called through a few trusted wrappers whose contracts name what they read.
- `src/vm/`: the interpreter. `func_exec.rs` is a step machine for one call
  stack; `step` agrees with the spec function `spec_step`, which states the
  semantics of every supported instruction, and, after a trap, the module,
  memory, callers and operand stack the failed instruction leaves. `interpreter.rs` instantiates a
  module (linear memory, data segments) and finds `main`. `laws.rs` proves
  properties across steps: a store read back by a load, a global set then
  read, a call that returns to its caller.
- `src/jit/`: the back end. `regalloc/` maps the operand stack to registers
  and spill slots; `x86.rs` is the instruction set the generator emits;
  `compiler.rs`, `control.rs`, `access.rs`, `function.rs`, `emit.rs` and
  `setup.rs` compile a module to that code, each step against a spec
  function of the whole generator state; `laws.rs` proves that compilation
  only ever appends code and that the labels it hands out are apart, and
  `semantics.rs` gives the moves, integer instructions, comparisons and
  jumps a meaning on registers and spill slots (`rbp - o`) and proves what
  the move, effective-address, integer-operator, `if`, `select` and
  `call_indirect` code do. Nothing in the
  crate encodes the instruction list as machine code or runs it.
- `app/`: the command line program: it reads the module file and the
  arguments of `main`, runs the interpreter and does the floating-point
  arithmetic the interpreter hands out.
- `tests/`: tests of all three parts on hand-built binaries.

Floating-point values are kept as their IEEE-754 bits inside the library; the
interpreter stops and asks its caller for the result of each floating-point
operation.
