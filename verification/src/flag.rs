//! Flag bits in EFLAGS.

use vstd::prelude::*;

verus! {

pub const CF: u32 = 0x0000_0001;
pub const PF: u32 = 0x0000_0004;
pub const AF: u32 = 0x0000_0010;
pub const ZF: u32 = 0x0000_0040;
pub const SF: u32 = 0x0000_0080;
pub const TF: u32 = 0x0000_0100;
pub const IF: u32 = 0x0000_0200;
pub const DF: u32 = 0x0000_0400;
pub const OF: u32 = 0x0000_0800;
pub const IOPL: u32 = 0x0000_3000;
pub const NT: u32 = 0x0000_4000;
pub const RF: u32 = 0x0001_0000;
pub const VM: u32 = 0x0002_0000;
pub const AC: u32 = 0x0004_0000;

/// `flags` with the bits of `bit` set or cleared.
pub open spec fn put(flags: u32, bit: u32, on: bool) -> u32 {
    if on {
        flags | bit
    } else {
        flags & !bit
    }
}

/// Whether any of the bits of `bit` is set in `flags`.
pub open spec fn on(flags: u32, bit: u32) -> bool {
    flags & bit != 0
}

/// A flag that was put reads back as it was put.
pub proof fn put_reads_back(flags: u32, bit: u32, v: bool)
    requires
        bit != 0,
    ensures
        on(put(flags, bit, v), bit) == v,
{
    assert((bit != 0 ==> (flags | bit) & bit != 0) && (flags & !bit) & bit == 0) by (bit_vector);
}

/// Putting one flag leaves every flag that shares no bit with it.
pub proof fn put_keeps_others(flags: u32, bit: u32, v: bool, other: u32)
    requires
        bit & other == 0,
    ensures
        on(put(flags, bit, v), other) == on(flags, other),
{
    assert(bit & other == 0 ==> (flags | bit) & other == flags & other && (flags & !bit) & other
        == flags & other) by (bit_vector);
}

} // verus!
