//! Laws of address translation.

use vstd::prelude::*;

use crate::bits::lemma_turns;
use crate::bits::lemma_word_facts;
use crate::cpu::{AccessKind, CpuState, ErrorView, Seg};
use crate::mem::{MemState, lemma_word_parts, word};
use crate::mmu::Translate;
use crate::sem::segment::desc_of;

verus! {

/// Where an offset lands in real mode.
pub open spec fn real_place(s: CpuState, seg: Seg, off: u32) -> u32 {
    ((s.segment(seg).desc.base + off) % 0x10_0000) as u32
}

/// The two bytes of the word at an offset are mapped.
pub open spec fn word_mapped(s: CpuState, m: MemState, seg: Seg, off: u32) -> bool {
    &&& m.bytes.dom().contains(real_place(s, seg, off))
    &&& m.bytes.dom().contains(real_place(s, seg, off.wrapping_add(1)))
}

/// The four bytes of the doubleword at an offset are mapped.
pub open spec fn dword_mapped(s: CpuState, m: MemState, seg: Seg, off: u32) -> bool {
    &&& word_mapped(s, m, seg, off)
    &&& word_mapped(s, m, seg, off.wrapping_add(2))
}

/// In real mode every access lands in the first megabyte; none faults.
pub proof fn real_mode_never_faults(s: CpuState, seg: Seg, off: u32, size: u32, kind: AccessKind)
    requires
        !s.protected(),
    ensures
        s.located(seg, off, size, kind) == Ok::<u32, ErrorView>(real_place(s, seg, off)),
        real_place(s, seg, off) < 0x10_0000,
{
}

/// Where a write is allowed a read is too, and lands at the same address.
pub proof fn writable_is_readable(s: CpuState, seg: Seg, off: u32, size: u32)
    ensures
        s.located(seg, off, size, AccessKind::Write) matches Ok(p) ==> s.located(
            seg,
            off,
            size,
            AccessKind::Read,
        ) == Ok::<u32, ErrorView>(p),
        s.located(seg, off, size, AccessKind::Write) == s.located(
            seg,
            off,
            size,
            AccessKind::Rmw,
        ),
{
}

/// Protected mode without paging: an access within the limit lands at base plus
/// offset, and one beyond the limit is a segment fault.
pub proof fn limit_is_enforced(s: CpuState, seg: Seg, off: u32, kind: AccessKind)
    requires
        s.protected(),
        s.cr[0] & 0x8000_0000 == 0,
    ensures
        off <= s.segment(seg).desc.last_offset() ==> s.translated(seg, off, 1, kind)
            == Translate::Phys(((s.segment(seg).desc.base + off) % 0x1_0000_0000) as u32),
        off > s.segment(seg).desc.last_offset() ==> s.translated(seg, off, 1, kind) == (
        Translate::SegFault { ss: seg == Seg::Ss, addr: off }),
{
}

/// A real-mode word access in terms of physical bytes.
pub proof fn lemma_real_word(s: CpuState, seg: Seg, off: u32, v: u16, kind: AccessKind)
    requires
        !s.protected(),
    ensures
        s.load16(seg, off, kind) == Ok::<u16, ErrorView>(
            word(
                s.mem.read8(real_place(s, seg, off)),
                s.mem.read8(real_place(s, seg, off.wrapping_add(1))),
            ),
        ),
        s.store16(seg, off, v, kind) == (
            s.with_mem(
                s.mem.write8(real_place(s, seg, off), v as u8).write8(
                    real_place(s, seg, off.wrapping_add(1)),
                    (v >> 8) as u8,
                ),
            ),
            Ok::<(), ErrorView>(()),
        ),
{
    real_mode_never_faults(s, seg, off, 1, kind);
    real_mode_never_faults(s, seg, off.wrapping_add(1), 1, kind);
    let t = s.with_mem(s.mem.write8(real_place(s, seg, off), v as u8));
    real_mode_never_faults(t, seg, off.wrapping_add(1), 1, kind);
}

/// Two offsets that are not a multiple of a megabyte apart land at different
/// addresses.
pub proof fn lemma_places_differ(s: CpuState, seg: Seg, a: u32, b: u32)
    requires
        (a - b) % 0x10_0000 != 0,
    ensures
        real_place(s, seg, a) != real_place(s, seg, b),
{
    let x = s.segment(seg).desc.base + a;
    let y = s.segment(seg).desc.base + b;
    if x % 0x10_0000 == y % 0x10_0000 {
        let d = x / 0x10_0000 - y / 0x10_0000;
        assert(x - y == 0 + d * 0x10_0000);
        lemma_turns(0, d, 0x10_0000);
    }
}

/// In real mode a mapped word reads back what was written.
pub proof fn real_word_reads_back(s: CpuState, seg: Seg, off: u32, v: u16)
    requires
        !s.protected(),
        word_mapped(s, s.mem, seg, off),
    ensures
        s.store16(seg, off, v, AccessKind::Write).0.load16(seg, off, AccessKind::Read) == Ok::<
            u16,
            ErrorView,
        >(v),
{
    lemma_real_word(s, seg, off, v, AccessKind::Write);
    let t = s.store16(seg, off, v, AccessKind::Write).0;
    lemma_real_word(t, seg, off, v, AccessKind::Read);
    lemma_places_differ(s, seg, off, off.wrapping_add(1));
    lemma_word_parts(v, 0);
}

/// A descriptor's base and limit are put together from their parts in its two
/// doublewords.
pub proof fn descriptor_parts(lo: u32, hi: u32)
    ensures
        desc_of(lo, hi).base == lo / 0x1_0000 + hi % 0x100 * 0x1_0000 + hi / 0x100_0000
            * 0x100_0000,
        desc_of(lo, hi).limit == lo % 0x1_0000 + hi / 0x1_0000 % 16 * 0x1_0000,
        desc_of(lo, hi).dpl < 4,
{
    lemma_word_facts(lo, hi, 0, 0, 0, 0);
}

/// In protected mode the data segment registers but SS take a null selector; what
/// they cache is not present.
pub proof fn null_selector_is_accepted(s: CpuState, seg: Seg, sel: u16)
    requires
        s.protected(),
        sel < 4,
        seg != Seg::Cs,
        seg != Seg::Ss,
    ensures
        s.segment_value(seg, sel) matches Ok(v) && v.sel == sel && !v.desc.p,
{
}

/// In real mode every selector is accepted, and stands for the 64 KB at sixteen
/// times its value.
pub proof fn real_mode_segments(s: CpuState, seg: Seg, sel: u16)
    requires
        !s.protected(),
    ensures
        s.segment_value(seg, sel) matches Ok(v) && v.sel == sel && v.desc.base == sel * 16
            && v.desc.last_offset() == 0xFFFF,
{
}

} // verus!
