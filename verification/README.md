# x86_rs

A low-level i386 PC core, written in Rust and verified with Verus.

- `src/cpu.rs`, `src/mem.rs`, `src/mmu.rs`: CPU state, physical memory map,
  segmentation and paging. `CpuState` and `MemState` are the mathematical models
  that all contracts speak of.
- `src/opcode.rs`, `src/decode.rs`: the opcode map and the decoder.
- `src/sem/`: the semantics of the instructions, and interrupts.
- `src/interp.rs`: the interpreter.
- `src/jit/`: the block compiler. `plan` traces a block, `lower` turns it into
  statements, `code` says what the statements do, `correct` proves that they do
  what the interpreter does, `engine` decides what runs when, and `helpers` are
  the functions that compiled code calls back. Compiled code differs from the
  interpreter in three cases: string operations go on over faults, on which the
  interpreter stops; a near call through a register or memory goes to its operand,
  where the interpreter goes on behind the call; and a write whose fault the
  interpreter drops (of XCHG) leaves the block behind what was written up to the
  fault.
- `src/device/`, `src/pc.rs`: the chipset and the PC around the core.
- `src/laws/`: what holds of the core as a whole; `src/laws/engine.rs` states that a
  run of the block engine leaves the state that the interpreter leaves.
- `app/`: the emulator program. It turns the statements of a block into machine
  code with Cranelift, and does the input and output. Firmware images are read
  from the files that `--bios` and `--vgabios` name.

A device that is connected to the bus records in `exchanges` what it was asked and
what it answered; the model of memory takes that record over. Contracts of
functions that talk to the device are stated for every log that continues it; see
`src/interp.rs`.
