//! A low-level i386 PC core whose behaviour is stated and proved.
//!
//! The crate holds a 386-class CPU (real mode, 16- and 32-bit protected mode,
//! segmentation and paging), its decoder and instruction semantics, the physical
//! memory map, and the chipset devices of a PC. Two engines work over the same
//! decoder and state: the interpreter, and a block compiler. The code of a block is
//! proved to do what the interpreter does, but for three cases: string operations
//! go on over faults, a near call through a register or memory goes to its operand,
//! and a write whose fault the interpreter drops leaves the block behind what was
//! written. Every executable function carries a contract over a mathematical model
//! of the machine.

use vstd::prelude::*;

pub mod bits;
pub mod cpu;
pub mod decode;
pub mod device;
pub mod flag;
pub mod interp;
pub mod jit;
pub mod laws;
pub mod mem;
pub mod mmu;
pub mod opcode;
pub mod pc;
pub mod sem;
pub mod text;

pub use crate::cpu::{
    AccessKind, Desc, DescProt, DescType, Error, Mode, Reg, Seg, SegVal, StepOut, Trip, Tss, X86,
};
pub use crate::interp::Interpreter;
pub use crate::jit::Jit;
pub use crate::mem::{Mem, Ram, VgaMem};

verus! {

/// Version of the emulated CPU.
pub const CPU_STRING: &'static str = "i386 (486-class subset)";

/// A core with 16 MB RAM, no devices and no firmware.
pub fn new_core() -> (cpu: X86)
    ensures
        cpu@ == cpu::CpuState::reset_state(cpu::default_memory(), false),
{
    X86::new()
}

} // verus!
