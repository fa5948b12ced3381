//! Laws of where things are: pages, segments, the bytes of numbers and the
//! parts of registers.

use vstd::prelude::*;

use crate::bits::{lemma_low_number_bits, lemma_turns, lemma_word_facts};
use crate::cpu::{AccessKind, CpuState, Desc, Mode, Seg};
use crate::mem::{MemState, dword, word};
use crate::mmu::Translate;

verus! {

/// The bits of an entry that the walk looks at, as digits.
proof fn lemma_entry_bits(e: u32)
    ensures
        e & 1 == 0 <==> e % 2 == 0,
        e & 2 == 0 <==> e / 2 % 2 == 0,
        e & 4 == 0 <==> e / 4 % 2 == 0,
        e & 0x8000_0000 == 0 <==> e < 0x8000_0000,
{
    lemma_word_facts(e, 0, 0, 0, 0, 0);
}

/// A linear address by its digits.
proof fn lemma_digits(dir: int, table: int, offset: int)
    requires
        0 <= dir < 1024,
        0 <= table < 1024,
        0 <= offset < 4096,
    ensures
        ({
            let lin = dir * 0x40_0000 + table * 4096 + offset;
            &&& 0 <= lin < 0x1_0000_0000
            &&& lin / 0x40_0000 == dir
            &&& lin / 4096 % 1024 == table
            &&& lin % 4096 == offset
        }),
{
    let lin = dir * 0x40_0000 + table * 4096 + offset;
    lemma_turns(table * 4096 + offset, dir, 0x40_0000);
    lemma_turns(offset, dir * 1024 + table, 4096);
    lemma_turns(table, dir, 1024);
    assert((dir * 1024 + table) * 4096 == dir * 0x40_0000 + table * 4096) by (nonlinear_arith);
}

/// The page walk uses every bit of the linear address: ten for the directory,
/// ten for the table and twelve for the offset in the page. The directory entry
/// is the dword number `dir` of the page that CR3 names, the table entry the
/// dword number `table` of the page that the directory entry names, and the
/// address is `offset` bytes into the page that the table entry names. An entry
/// that is absent, a write where an entry forbids it and an access from outside
/// level 0 where an entry forbids that give page faults, in this order.
pub proof fn page_walk_uses_every_bit(
    s: CpuState,
    dir: int,
    table: int,
    offset: int,
    kind: AccessKind,
)
    requires
        0 <= dir < 1024,
        0 <= table < 1024,
        0 <= offset < 4096,
    ensures
        ({
            let lin = (dir * 0x40_0000 + table * 4096 + offset) as u32;
            let pde = s.mem.read32((s.cr[3] - s.cr[3] % 4096 + 4 * dir) as u32);
            let pte = s.mem.read32((pde - pde % 4096 + 4 * table) as u32);
            let present = pde % 2 == 1 && pte % 2 == 1;
            let writable = pde / 2 % 2 == 1 && pte / 2 % 2 == 1;
            let open = pde / 4 % 2 == 1 && pte / 4 % 2 == 1;
            let write = kind == AccessKind::Write || kind == AccessKind::Rmw;
            let outside = s.cr[0] % 2 == 1 && s.seg[1].desc.dpl != 0;
            &&& lin == dir * 0x40_0000 + table * 4096 + offset
            &&& present && (write ==> writable) && (outside ==> open) ==> s.paged(lin, kind)
                == Translate::Phys((pte - pte % 4096 + offset) as u32)
            &&& !present ==> s.paged(lin, kind) == (Translate::PageFault {
                present: false,
                write: false,
                addr: lin,
            })
            &&& present && write && !writable ==> s.paged(lin, kind) == (Translate::PageFault {
                present: true,
                write: true,
                addr: lin,
            })
            &&& present && (write ==> writable) && outside && !open ==> s.paged(lin, kind) == (
            Translate::PageFault { present: true, write, addr: lin })
        }),
{
    let lin = (dir * 0x40_0000 + table * 4096 + offset) as u32;
    lemma_digits(dir, table, offset);
    let pde = s.page_dir_entry(lin);
    let pte = s.page_table_entry(lin);
    lemma_entry_bits(pde);
    lemma_entry_bits(pte);
    lemma_entry_bits(s.cr[0]);
    assert(s.cr[3] as int / 4096 * 4096 == s.cr[3] - s.cr[3] % 4096);
    assert(pde as int / 4096 * 4096 == pde - pde % 4096);
    assert(pte as int / 4096 * 4096 == pte - pte % 4096);
}

/// Where an access lands. Real mode: base and offset, modulo 1 MB. Protected
/// mode: a segment fault where a byte of the access lies beyond the segment's
/// last offset, else the linear address, base and offset modulo 4 GB, which the
/// page walk takes where paging is on. The last offset is the limit, or in
/// pages of 4 KB the last byte of the last page.
pub proof fn accesses_are_translated(
    s: CpuState,
    seg: Seg,
    off: u32,
    size: u32,
    kind: AccessKind,
)
    requires
        1 <= size <= 4,
    ensures
        ({
            let d = s.seg[seg.number() as int].desc;
            let last: int = if d.g {
                d.limit * 4096 + 4095
            } else {
                d.limit as int
            };
            let lin = ((d.base + off) % 0x1_0000_0000) as u32;
            let t = s.translated(seg, off, size, kind);
            &&& s.cr[0] % 2 == 0 ==> t == Translate::Phys(((d.base + off) % 0x10_0000) as u32)
            &&& s.cr[0] % 2 == 1 && size - 1 <= last < 0x1_0000_0000 ==> {
                &&& off + size - 1 > last ==> t == (Translate::SegFault {
                    ss: seg == Seg::Ss,
                    addr: off,
                })
                &&& off + size - 1 <= last && s.cr[0] < 0x8000_0000 ==> t == Translate::Phys(lin)
                &&& off + size - 1 <= last && s.cr[0] >= 0x8000_0000 ==> t == s.paged(lin, kind)
            }
        }),
{
    let d = s.seg[seg.number() as int].desc;
    lemma_entry_bits(s.cr[0]);
    lemma_last_offset(d);
}

/// The last offset of a segment in numbers.
pub proof fn lemma_last_offset(d: Desc)
    ensures
        !d.g ==> d.last_offset() == d.limit,
        d.g && d.limit <= 0xF_FFFF ==> d.last_offset() == d.limit * 4096 + 4095,
{
    lemma_word_facts(d.limit, 0, 0, 0, 0, 0);
}

/// Where an instruction byte comes from. Real mode: the low 16 bits of the
/// offset in the code segment, modulo 1 MB. Protected mode: base and offset
/// modulo 4 GB, unless the offset lies beyond the segment.
pub proof fn code_is_fetched(s: CpuState, off: u32)
    ensures
        ({
            let d = s.seg[1].desc;
            let last: int = if d.g {
                d.limit * 4096 + 4095
            } else {
                d.limit as int
            };
            &&& s.cr[0] % 2 == 0 ==> s.fetch8(off) == Ok::<u8, Seq<char>>(
                s.mem.read8(((d.base + off % 0x1_0000) % 0x10_0000) as u32),
            )
            &&& s.cr[0] % 2 == 1 && last < 0x1_0000_0000 ==> {
                &&& off <= last ==> s.fetch8(off) == Ok::<u8, Seq<char>>(
                    s.mem.read8(((d.base + off) % 0x1_0000_0000) as u32),
                )
                &&& off > last ==> s.fetch8(off) is Err
            }
        }),
{
    lemma_entry_bits(s.cr[0]);
    lemma_last_offset(s.seg[1].desc);
}

/// Numbers of two and four bytes as sums.
pub proof fn lemma_joined(lo: u8, hi: u8, w: u16, h: u16, v: u32)
    ensures
        word(lo, hi) == lo + 0x100 * hi,
        dword(w, h) == w + 0x1_0000 * h,
        w as u8 == w % 0x100,
        (w >> 8) as u8 == w / 0x100,
        v as u16 == v % 0x1_0000,
        (v >> 16) as u16 == v / 0x1_0000,
        v as u8 == v % 0x100,
        (v >> 8) as u8 == v / 0x100 % 0x100,
{
    lemma_word_facts(v, 0, lo, hi, w, h);
}

/// Memory holds numbers with the low byte first, at addresses that wrap at 4 GB.
pub proof fn memory_holds_the_low_byte_first(m: MemState, addr: u32)
    ensures
        m.read16(addr) == m.read8(addr) + 0x100 * m.read8(((addr + 1) % 0x1_0000_0000) as u32),
        m.read32(addr) == m.read8(addr) + 0x100 * m.read8(((addr + 1) % 0x1_0000_0000) as u32)
            + 0x1_0000 * m.read8(((addr + 2) % 0x1_0000_0000) as u32) + 0x100_0000 * m.read8(
            ((addr + 3) % 0x1_0000_0000) as u32,
        ),
{
    let a1 = addr.wrapping_add(1);
    let a2 = addr.wrapping_add(2);
    let a3 = a2.wrapping_add(1);
    assert(a1 == (addr + 1) % 0x1_0000_0000 && a2 == (addr + 2) % 0x1_0000_0000 && a3 == (addr + 3)
        % 0x1_0000_0000);
    lemma_joined(m.read8(addr), m.read8(a1), m.read16(addr), m.read16(a2), 0);
    lemma_joined(m.read8(a2), m.read8(a3), 0, 0, 0);
}

/// Instructions are read with the low byte first: a word is its two bytes, a
/// dword its four, each at an offset of its own, and the first byte that cannot
/// be read tells why.
#[verifier::spinoff_prover]
#[verifier::rlimit(50)]
pub proof fn code_is_read_byte_by_byte(s: CpuState, off: u32)
    ensures
        ({
            let o1 = ((off + 1) % 0x1_0000_0000) as u32;
            let o2 = ((off + 2) % 0x1_0000_0000) as u32;
            let o3 = ((off + 3) % 0x1_0000_0000) as u32;
            let (c0, c1, c2, c3) = (s.fetch8(off), s.fetch8(o1), s.fetch8(o2), s.fetch8(o3));
            &&& s.fetch16(off) is Ok <==> c0 is Ok && c1 is Ok
            &&& s.fetch16(off) is Ok ==> s.fetch16(off)->Ok_0 == c0->Ok_0 + 0x100 * c1->Ok_0
            &&& s.fetch32(off) is Ok <==> c0 is Ok && c1 is Ok && c2 is Ok && c3 is Ok
            &&& s.fetch32(off) is Ok ==> s.fetch32(off)->Ok_0 == c0->Ok_0 + 0x100 * c1->Ok_0
                + 0x1_0000 * c2->Ok_0 + 0x100_0000 * c3->Ok_0
            &&& c0 is Err ==> s.fetch32(off)->Err_0 == c0->Err_0 && s.fetch16(off)->Err_0
                == c0->Err_0
        }),
{
    let a1 = off.wrapping_add(1);
    let a2 = off.wrapping_add(2);
    let a3 = a2.wrapping_add(1);
    lemma_next_offsets(off);
    let (c0, c1, c2, c3) = (s.fetch8(off), s.fetch8(a1), s.fetch8(a2), s.fetch8(a3));
    lemma_joined(c0->Ok_0, c1->Ok_0, s.fetch16(off)->Ok_0, s.fetch16(a2)->Ok_0, 0);
    lemma_joined(c2->Ok_0, c3->Ok_0, 0, 0, 0);
}

/// The offsets behind an offset.
proof fn lemma_next_offsets(off: u32)
    ensures
        off.wrapping_add(1) == ((off + 1) % 0x1_0000_0000) as u32,
        off.wrapping_add(2) == ((off + 2) % 0x1_0000_0000) as u32,
        off.wrapping_add(2).wrapping_add(1) == ((off + 3) % 0x1_0000_0000) as u32,
{
}

/// Data is read as code is.
#[verifier::spinoff_prover]
#[verifier::rlimit(50)]
pub proof fn data_is_read_byte_by_byte(s: CpuState, seg: Seg, off: u32, kind: AccessKind)
    ensures
        ({
            let b0 = s.load8(seg, off, kind);
            let b1 = s.load8(seg, ((off + 1) % 0x1_0000_0000) as u32, kind);
            let b2 = s.load8(seg, ((off + 2) % 0x1_0000_0000) as u32, kind);
            let b3 = s.load8(seg, ((off + 3) % 0x1_0000_0000) as u32, kind);
            &&& s.load16(seg, off, kind) is Ok <==> b0 is Ok && b1 is Ok
            &&& s.load16(seg, off, kind) is Ok ==> s.load16(seg, off, kind)->Ok_0 == b0->Ok_0
                + 0x100 * b1->Ok_0
            &&& s.load32(seg, off, kind) is Ok <==> b0 is Ok && b1 is Ok && b2 is Ok && b3 is Ok
            &&& s.load32(seg, off, kind) is Ok ==> s.load32(seg, off, kind)->Ok_0 == b0->Ok_0
                + 0x100 * b1->Ok_0 + 0x1_0000 * b2->Ok_0 + 0x100_0000 * b3->Ok_0
            &&& b0 is Err ==> s.load32(seg, off, kind)->Err_0 == b0->Err_0 && s.load16(
                seg,
                off,
                kind,
            )->Err_0 == b0->Err_0
        }),
{
    lemma_next_offsets(off);
    let a1 = off.wrapping_add(1);
    let a2 = off.wrapping_add(2);
    let a3 = a2.wrapping_add(1);
    lemma_load16(s, seg, off, kind);
    lemma_load16(s, seg, a2, kind);
    let w = s.load16(seg, off, kind);
    let h = s.load16(seg, a2, kind);
    lemma_joined(0, 0, w->Ok_0, h->Ok_0, 0);
}

/// A word of data by its bytes.
proof fn lemma_load16(s: CpuState, seg: Seg, off: u32, kind: AccessKind)
    ensures
        ({
            let b0 = s.load8(seg, off, kind);
            let b1 = s.load8(seg, off.wrapping_add(1), kind);
            let w = s.load16(seg, off, kind);
            &&& w is Ok <==> b0 is Ok && b1 is Ok
            &&& w is Ok ==> w->Ok_0 == b0->Ok_0 + 0x100 * b1->Ok_0
            &&& b0 is Err ==> w->Err_0 == b0->Err_0
        }),
{
    let b0 = s.load8(seg, off, kind);
    let b1 = s.load8(seg, off.wrapping_add(1), kind);
    lemma_joined(b0->Ok_0, b1->Ok_0, 0, 0, 0);
}

/// `load` by its size: one byte, a word or a dword, zero-extended.
pub proof fn loads_by_size(s: CpuState, seg: Seg, off: u32, kind: AccessKind)
    ensures
        s.load(seg, off, 1, kind) is Ok <==> s.load8(seg, off, kind) is Ok,
        s.load(seg, off, 1, kind) is Ok ==> s.load(seg, off, 1, kind)->Ok_0 == s.load8(
            seg,
            off,
            kind,
        )->Ok_0,
        s.load(seg, off, 2, kind) is Ok <==> s.load16(seg, off, kind) is Ok,
        s.load(seg, off, 2, kind) is Ok ==> s.load(seg, off, 2, kind)->Ok_0 == s.load16(
            seg,
            off,
            kind,
        )->Ok_0,
        s.load(seg, off, 4, kind) == s.load32(seg, off, kind),
{
    reveal(CpuState::load);
}

/// A word is written with the low byte first, each byte at an offset of its
/// own; where the first cannot be written, the second is not.
proof fn lemma_store16(s: CpuState, seg: Seg, off: u32, w: u16, kind: AccessKind)
    ensures
        ({
            let w0 = s.store8(seg, off, (w % 0x100) as u8, kind);
            let w1 = w0.0.store8(seg, ((off + 1) % 0x1_0000_0000) as u32, (w / 0x100) as u8, kind);
            s.store16(seg, off, w, kind) == (if w0.1 is Err {
                w0
            } else {
                w1
            })
        }),
{
    lemma_next_offsets(off);
    lemma_joined(0, 0, w, 0, 0);
    assert(w as u8 == (w % 0x100) as u8 && (w >> 8) as u8 == (w / 0x100) as u8);
}

/// The low byte of a number is written, or its low word byte by byte, each at
/// an offset of its own; where the first cannot be written, the second is not.
pub proof fn words_are_written_byte_by_byte(
    s: CpuState,
    seg: Seg,
    off: u32,
    val: u32,
    kind: AccessKind,
)
    ensures
        ({
            let w0 = s.store8(seg, off, (val % 0x100) as u8, kind);
            let w1 = w0.0.store8(
                seg,
                ((off + 1) % 0x1_0000_0000) as u32,
                (val / 0x100 % 0x100) as u8,
                kind,
            );
            &&& s.store(seg, off, 1, val, kind) == w0
            &&& s.store(seg, off, 2, val, kind) == (if w0.1 is Err {
                w0
            } else {
                w1
            })
        }),
{
    reveal(CpuState::store);
    lemma_low_bytes(val);
    lemma_store16(s, seg, off, val as u16, kind);
}

/// The two low bytes of a number.
proof fn lemma_low_bytes(val: u32)
    ensures
        val as u8 == (val % 0x100) as u8,
        ((val as u16) % 0x100) as u8 == (val % 0x100) as u8,
        ((val as u16) / 0x100) as u8 == (val / 0x100 % 0x100) as u8,
{
    lemma_joined(0, 0, 0, 0, val);
}

/// A dword is written as two words, the low one first; where it cannot be
/// written, the high one is not.
pub proof fn dwords_are_written_word_by_word(
    s: CpuState,
    seg: Seg,
    off: u32,
    val: u32,
    kind: AccessKind,
)
    ensures
        ({
            let low = s.store16(seg, off, (val % 0x1_0000) as u16, kind);
            let high = low.0.store16(
                seg,
                ((off + 2) % 0x1_0000_0000) as u32,
                (val / 0x1_0000) as u16,
                kind,
            );
            s.store(seg, off, 4, val, kind) == (if low.1 is Err {
                low
            } else {
                high
            })
        }),
{
    reveal(CpuState::store);
    lemma_next_offsets(off);
    lemma_joined(0, 0, 0, 0, val);
    assert(val as u16 == (val % 0x1_0000) as u16 && (val >> 16) as u16 == (val / 0x1_0000) as u16);
    let a = s.store16(seg, off, val as u16, kind);
    assert(s.store32(seg, off, val, kind) == (if a.1 is Err {
        a
    } else {
        a.0.store16(seg, off.wrapping_add(2), (val >> 16) as u16, kind)
    }));
}

/// A byte is read and written where the access lands, and nothing else changes.
/// Stores to unmapped addresses are lost.
pub proof fn a_byte_is_where_it_lands(
    s: CpuState,
    seg: Seg,
    off: u32,
    val: u8,
    kind: AccessKind,
    other: u32,
)
    ensures
        match s.translated(seg, off, 1, kind) {
            Translate::Phys(p) => {
                let (t, r) = s.store8(seg, off, val, kind);
                &&& s.load8(seg, off, kind) is Ok
                &&& s.load8(seg, off, kind)->Ok_0 == s.mem.read8(p)
                &&& r is Ok
                &&& t == (CpuState { mem: t.mem, ..s })
                &&& t.mem.dev == s.mem.dev
                &&& t.mem.bytes.dom() == s.mem.bytes.dom()
                &&& s.mem.bytes.dom().contains(p) ==> t.mem.read8(p) == val
                &&& !s.mem.bytes.dom().contains(p) ==> t.mem.read8(p) == 0xFF
                &&& other != p ==> t.mem.read8(other) == s.mem.read8(other)
            },
            _ => {
                &&& s.load8(seg, off, kind) is Err
                &&& s.store8(seg, off, val, kind).0 == s
                &&& s.store8(seg, off, val, kind).1 is Err
            },
        },
{
    match s.translated(seg, off, 1, kind) {
        Translate::Phys(p) => {
            assert(s.mem.write8(p, val).bytes.dom() =~= s.mem.bytes.dom());
        },
        _ => {},
    }
}

/// The parts of a register as digits.
proof fn lemma_register_parts(g: u32, b: u8, w: u16)
    ensures
        g as u8 == g % 0x100,
        (g >> 8) as u8 == g / 0x100 % 0x100,
        g as u16 == g % 0x1_0000,
        (g & 0xFFFF_FF00) | b as u32 == g - g % 0x100 + b,
        (g & 0xFFFF_00FF) | (b as u32) << 8 == g - 0x100 * (g / 0x100 % 0x100) + 0x100 * b,
        (g & 0xFFFF_0000) | w as u32 == g - g % 0x1_0000 + w,
{
    lemma_word_facts(g, 0, b, 0, w, 0);
}

/// Byte registers 0 to 3 are the low bytes of the first four registers, 4 to 7
/// the bytes above these; word registers are the low halves. Writing one
/// changes these digits of its register and nothing else.
pub proof fn registers_have_parts(s: CpuState, r: u8, b: u8, w: u16, v: u32)
    requires
        s.wf(),
        r < 8,
    ensures
        ({
            let i = r as i8;
            let g = s.gpr[r as int] as int;
            let n = r as int % 4;
            let h = s.gpr[n] as int;
            &&& s.reg32(i) == g
            &&& s.reg16(i) == g % 0x1_0000
            &&& s.reg8(i) == (if r < 4 {
                h % 0x100
            } else {
                h / 0x100 % 0x100
            })
            &&& s.with_reg32(i, v).gpr == s.gpr.update(r as int, v)
            &&& s.with_reg16(i, w).gpr == s.gpr.update(r as int, (g - g % 0x1_0000 + w) as u32)
            &&& s.with_reg8(i, b).gpr == s.gpr.update(
                n,
                (if r < 4 {
                    h - h % 0x100 + b
                } else {
                    h - 0x100 * (h / 0x100 % 0x100) + 0x100 * b
                }) as u32,
            )
            &&& s.with_reg32(i, v) == (CpuState { gpr: s.with_reg32(i, v).gpr, ..s })
            &&& s.with_reg16(i, w) == (CpuState { gpr: s.with_reg16(i, w).gpr, ..s })
            &&& s.with_reg8(i, b) == (CpuState { gpr: s.with_reg8(i, b).gpr, ..s })
        }),
{
    let i = r as i8;
    lemma_low_number_bits(i, r);
    lemma_register_parts(s.gpr[r as int], b, w);
    lemma_register_parts(s.gpr[r as int % 4], b, w);
}

/// Outside protected mode, and in a code segment without the D bit, code has 16
/// bits.
pub proof fn modes_follow_pe_and_d(s: CpuState)
    ensures
        s.mode() == Mode::Real <==> s.cr[0] % 2 == 0,
        s.mode() == Mode::Protected32 <==> s.cr[0] % 2 == 1 && s.seg[1].desc.db,
        s.mode() == Mode::Protected16 <==> s.cr[0] % 2 == 1 && !s.seg[1].desc.db,
        s.default16() <==> s.cr[0] % 2 == 0 || !s.seg[1].desc.db,
        s.cr[0] % 2 == 0 ==> s.cpl() == 0,
        s.cr[0] % 2 == 1 ==> s.cpl() == s.seg[1].desc.dpl,
{
    lemma_entry_bits(s.cr[0]);
}

} // verus!
