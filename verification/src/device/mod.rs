//! Chipset devices: dual 8259 PIC, 8254 PIT, MC146818 CMOS + NMI mask, 8237
//! DMA, floppy controller, 8042 keyboard controller, UART16550 serial, and the
//! debug-readout port of the Bochs BIOS.

pub mod cmos;
pub mod fdc;
pub mod machine;
pub mod pic;
pub mod pit;
pub mod ps2;
pub mod serial;

pub use crate::device::cmos::{Cmos, Dma};
pub use crate::device::fdc::Fdc;
pub use crate::device::machine::{Machine, MachineDebug};
pub use crate::device::pic::{Irq, Pic, PicChip};
pub use crate::device::pit::Pit;
pub use crate::device::ps2::Ps2Kbd;
pub use crate::device::serial::Serial;
