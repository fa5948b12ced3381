//! What holds of the core as a whole.

pub mod addressing;
pub mod arith;
pub mod bitwise;
pub mod clock;
pub mod compiling;
pub mod computing;
pub mod decimal;
pub mod decoding;
pub mod devices;
pub mod engine;
pub mod flow;
pub mod machine;
pub mod memory;
pub mod moving;
pub mod numbers;
pub mod places;
pub mod run;
pub mod segments;
pub mod shifts;
pub mod stack;
pub mod strings;
