//! Block compiler.
//!
//! Straight-line basic blocks are lowered to a small code that a host turns into
//! machine code. Architectural subtleties (flag math, memory translation, port
//! I/O, stack ops, string ops) call back into the shared `sem` layer.
//! Instructions that are not compiled end the trace and are executed by one
//! interpreter step; because those are exactly the instructions that can change
//! segmentation/paging/descriptor state, the block cache is keyed on a state
//! signature and stale blocks are recompiled.

pub mod code;
pub mod correct;
pub mod engine;
pub mod helpers;
pub mod laws;
pub mod lower;
pub mod plan;

pub use crate::jit::engine::{Block, BlockEntry, Jit, JitAction};
