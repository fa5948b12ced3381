//! Instruction semantics, shared by the interpreter and (as the slow path) the
//! block compiler.
//!
//! Everything here is pure CPU + `Mem` state; no firmware or device logic.

pub mod arith;
pub mod compute;
pub mod control;
pub mod exec;
pub mod interrupt;
pub mod misc;
pub mod operand;
pub mod segment;
pub mod string;

pub use crate::sem::arith::{
    alu, cond_true, inc_dec, neg_op, set_af, set_cf, set_flags_zsp, set_of, shift, test_flags,
};
pub use crate::sem::exec::{deliver_maskable_interrupt, exec, step};
pub use crate::sem::interrupt::{dispatch_interrupt, real_mode_int};
pub use crate::sem::operand::{eff, pop_public, push_public};
pub use crate::sem::string::string_op;
