//! Descriptor handling, segment and system registers.

use vstd::prelude::*;

use crate::cpu::{
    AccessKind, CpuState, Desc, DescReg, Error, ErrorView, Seg, SegVal, StepOut, Tss, X86, outcome,
};
use crate::decode::{Decoded, Insn, Op, Opnd};
use crate::flag::{CF, ZF, put};
use crate::mmu::{peek16, peek32, write16, write32};
use crate::sem::arith::{arith_flags, set_af, set_cf, set_flags_zsp, set_of};
use crate::sem::operand::{
    Outcome, eff, ended, failed, go, goes_on, leaving, next_eip, or_leave, or_left, pop, read_opnd,
    write_and_go, write_gpr, write_opnd,
};

verus! {

// ---------------------------------------------------------------------------
// Descriptors
// ---------------------------------------------------------------------------

/// The segment descriptor that the doublewords `lo` and `hi` encode.
pub open spec fn desc_of(lo: u32, hi: u32) -> Desc {
    Desc {
        base: (lo >> 16) | ((hi & 0xFF) << 16) | ((hi >> 24) << 24),
        limit: (lo & 0xFFFF) | (((hi >> 16) & 0xF) << 16),
        g: hi & 0x80_0000 != 0,
        db: hi & 0x40_0000 != 0,
        p: hi & 0x8000 != 0,
        typ: ((hi >> 8) & 0x1F) as u8,
        dpl: ((hi >> 13) & 3) as u8,
        avl: hi & 0x10_0000 != 0,
    }
}

impl CpuState {
    /// Base and limit of the table that the selector `sel` points into.
    pub open spec fn desc_table(self, sel: u16) -> (u32, u32) {
        if sel & 4 != 0 {
            (self.ldtr.desc.base, self.ldtr.desc.limit)
        } else {
            (self.gdtr.base, self.gdtr.limit as u32)
        }
    }

    /// The descriptor that the selector `sel` points to.
    pub open spec fn descriptor(self, sel: u16) -> Result<Desc, ErrorView> {
        let (base, limit) = self.desc_table(sel);
        let at = sel as int / 8 * 8;
        let addr = base.wrapping_add(at as u32);
        if at + 7 > limit {
            Err(ErrorView::Internal("descriptor out of range"@))
        } else {
            Ok(desc_of(self.mem.read32(addr), self.mem.read32(addr.wrapping_add(4))))
        }
    }

    /// What loading the selector `sel` into the register `seg` caches. In
    /// protected mode the data segment registers but SS take a null selector.
    pub open spec fn segment_value(self, seg: Seg, sel: u16) -> Result<SegVal, ErrorView> {
        if !self.protected() {
            Ok(SegVal::real_spec(sel))
        } else if sel < 4 && !(seg is Cs) && !(seg is Ss) {
            Ok(SegVal { sel, desc: Desc::null_spec() })
        } else {
            match self.descriptor(sel) {
                Err(e) => Err(e),
                Ok(d) => if d.p {
                    Ok(SegVal { sel, desc: d })
                } else {
                    Err(ErrorView::Internal("segment not present"@))
                },
            }
        }
    }

    /// The register `seg` takes the selector `sel`.
    pub open spec fn segment_loaded(self, seg: Seg, sel: u16) -> (CpuState, Result<(), ErrorView>) {
        match self.segment_value(seg, sel) {
            Err(e) => (self, Err(e)),
            Ok(v) => (self.with_seg(seg, v), Ok(())),
        }
    }

    /// A segment register is loaded, then execution goes on at `eip`.
    pub open spec fn load_and_go(self, seg: Seg, sel: u16, eip: u32) -> Outcome {
        match self.segment_value(seg, sel) {
            Err(e) => failed(self, e),
            Ok(v) => goes_on(self.with_seg(seg, v), eip),
        }
    }
}

fn make_desc(lo: u32, hi: u32) -> (d: Desc)
    ensures
        d == desc_of(lo, hi),
{
    Desc {
        base: (lo >> 16) | ((hi & 0xFF) << 16) | ((hi >> 24) << 24),
        limit: (lo & 0xFFFF) | (((hi >> 16) & 0xF) << 16),
        g: hi & 0x80_0000 != 0,
        db: hi & 0x40_0000 != 0,
        p: hi & 0x8000 != 0,
        typ: ((hi >> 8) & 0x1F) as u8,
        dpl: ((hi >> 13) & 3) as u8,
        avl: hi & 0x10_0000 != 0,
    }
}

fn load_descriptor(cpu: &X86, sel: u16) -> (r: Result<Desc, Error>)
    ensures
        outcome(r) == cpu@.descriptor(sel),
{
    let (base, limit) = if sel & 4 != 0 {
        (cpu.ldtr.desc.base, cpu.ldtr.desc.limit)
    } else {
        (cpu.gdtr.base, cpu.gdtr.limit as u32)
    };
    let at: u32 = (sel / 8 * 8) as u32;
    if at + 7 > limit {
        return Err(Error::Internal("descriptor out of range".to_owned()));
    }
    let addr = base.wrapping_add(at);
    let lo = cpu.mem.phys_read32(addr);
    let hi = cpu.mem.phys_read32(addr.wrapping_add(4));
    Ok(make_desc(lo, hi))
}

/// The register `seg` takes the selector `sel`.
pub(crate) fn load_segment(cpu: &mut X86, seg: Seg, sel: u16) -> (r: Result<(), StepOut>)
    ensures
        final(cpu)@ == old(cpu)@.segment_loaded(seg, sel).0,
        or_left(r) == leaving(old(cpu)@.segment_loaded(seg, sel).1),
        final(cpu)@.mem.dev == old(cpu)@.mem.dev,
{
    if cpu.cr[0] & 1 == 0 {
        cpu.seg[seg.index()] = SegVal::real_mode(sel);
        return Ok(());
    }
    if sel < 4 && !matches!(seg, Seg::Cs | Seg::Ss) {
        cpu.seg[seg.index()] = SegVal { sel, desc: Desc::null() };
        return Ok(());
    }
    let d = or_leave(load_descriptor(cpu, sel))?;
    if !d.p {
        return Err(StepOut::Error(Error::Internal("segment not present".to_owned())));
    }
    cpu.seg[seg.index()] = SegVal { sel, desc: d };
    Ok(())
}

/// A segment register is loaded, then execution goes on at `eip`.
pub(crate) fn load_and_go(cpu: &mut X86, seg: Seg, sel: u16, eip: u32) -> (r: Result<
    StepOut,
    StepOut,
>)
    ensures
        ended(final(cpu)@, r) == old(cpu)@.load_and_go(seg, sel, eip),
        final(cpu)@.mem.dev == old(cpu)@.mem.dev,
{
    load_segment(cpu, seg, sel)?;
    cpu.eip = eip;
    Ok(StepOut::Continue)
}

// ---------------------------------------------------------------------------
// Segment registers
// ---------------------------------------------------------------------------

/// MOV Sreg, r/m16.
#[verifier::opaque]
pub open spec fn do_mov_to_sreg(s: CpuState, i: Insn) -> Outcome {
    match s.operand(i.o1, AccessKind::Read) {
        Err(e) => failed(s, e),
        Ok(v) => match i.o0 {
            Opnd::Sreg(seg) => s.load_and_go(seg, v as u16, s.next(i)),
            _ => failed(s, ErrorView::Internal("sreg"@)),
        },
    }
}

pub(crate) fn exec_mov_to_sreg(cpu: &mut X86, d: &Decoded) -> (r: Result<StepOut, StepOut>)
    requires
        d@.wf(),
    ensures
        ended(final(cpu)@, r) == do_mov_to_sreg(old(cpu)@, d@),
        final(cpu)@.mem.dev == old(cpu)@.mem.dev,
{
    proof {
        reveal(do_mov_to_sreg);
    }
    let next = next_eip(cpu, d);
    let v = read_opnd(cpu, &d.ops[1], AccessKind::Read)?;
    match d.ops[0] {
        Opnd::Sreg(seg) => load_and_go(cpu, seg, v as u16, next),
        _ => Err(StepOut::Error(Error::Internal("sreg".to_owned()))),
    }
}

/// MOV r/m16, Sreg.
#[verifier::opaque]
pub open spec fn do_mov_from_sreg(s: CpuState, i: Insn) -> Outcome {
    let sel = match i.o1 {
        Opnd::Sreg(seg) => s.segment(seg).sel as u32,
        _ => 0,
    };
    s.assign_and_go(i.o0, sel, s.next(i))
}

pub(crate) fn exec_mov_from_sreg(cpu: &mut X86, d: &Decoded) -> (r: Result<StepOut, StepOut>)
    requires
        d@.wf(),
    ensures
        ended(final(cpu)@, r) == do_mov_from_sreg(old(cpu)@, d@),
        final(cpu)@.mem.dev == old(cpu)@.mem.dev,
{
    proof {
        reveal(do_mov_from_sreg);
    }
    let next = next_eip(cpu, d);
    let sel: u32 = match d.ops[1] {
        Opnd::Sreg(seg) => cpu.seg[seg.index()].sel as u32,
        _ => 0,
    };
    write_and_go(cpu, &d.ops[0], sel, next)
}

/// POP Sreg.
#[verifier::opaque]
pub open spec fn do_pop_seg(s: CpuState, i: Insn, seg: Seg) -> Outcome {
    let (t, r) = s.popped(i.size().size());
    match r {
        Err(e) => failed(t, e),
        Ok(v) => t.load_and_go(seg, v as u16, s.next(i)),
    }
}

pub(crate) fn exec_pop_seg(cpu: &mut X86, d: &Decoded, seg: Seg) -> (r: Result<StepOut, StepOut>)
    ensures
        ended(final(cpu)@, r) == do_pop_seg(old(cpu)@, d@, seg),
        final(cpu)@.mem.dev == old(cpu)@.mem.dev,
{
    proof {
        reveal(do_pop_seg);
    }
    let next = next_eip(cpu, d);
    let v = pop(cpu, d.size().bytes())?;
    load_and_go(cpu, seg, v as u16, next)
}

/// The segment register that a far pointer load fills.
pub open spec fn far_load_seg(op: Op) -> Seg {
    match op {
        Op::Lss => Seg::Ss,
        Op::Lds => Seg::Ds,
        Op::Les => Seg::Es,
        Op::Lfs => Seg::Fs,
        _ => Seg::Gs,
    }
}

impl CpuState {
    /// A far pointer in memory: the offset, of `size` bytes, and the selector
    /// behind it.
    pub open spec fn far_pointer(self, seg: Seg, off: u32, size: u32) -> Result<
        (u32, u16),
        ErrorView,
    > {
        match (
            self.load(seg, off, size, AccessKind::Read),
            self.load16(seg, off.wrapping_add(size), AccessKind::Read),
        ) {
            (Err(e), _) => Err(e),
            (Ok(v), Err(e)) => Err(e),
            (Ok(v), Ok(sel)) => Ok((v, sel)),
        }
    }
}

/// Read a far pointer from memory.
pub(crate) fn read_far_pointer(cpu: &X86, seg: Seg, off: u32, size: u32) -> (r: Result<
    (u32, u16),
    StepOut,
>)
    ensures
        or_left(r) == leaving(cpu@.far_pointer(seg, off, size)),
{
    let v = or_leave(crate::mmu::peek(cpu, seg, off, size, AccessKind::Read))?;
    let sel = or_leave(peek16(cpu, seg, off.wrapping_add(size), AccessKind::Read))?;
    Ok((v, sel))
}

/// LDS, LES, LSS, LFS and LGS.
#[verifier::opaque]
pub open spec fn do_far_load(s: CpuState, i: Insn) -> Outcome {
    match i.o1 {
        Opnd::Mem(m, _) => match s.far_pointer(m.seg, s.ea(m), i.size().size()) {
            Err(e) => failed(s, e),
            Ok((v, sel)) => match i.o0 {
                Opnd::Reg(r, bits) => s.with_gpr_at(r, bits, v).load_and_go(
                    far_load_seg(i.op),
                    sel,
                    s.next(i),
                ),
                _ => failed(s, ErrorView::Internal("lds reg"@)),
            },
        },
        _ => failed(s, ErrorView::Internal("lds mem"@)),
    }
}

pub(crate) fn exec_far_load(cpu: &mut X86, d: &Decoded) -> (r: Result<StepOut, StepOut>)
    requires
        d@.wf(),
    ensures
        ended(final(cpu)@, r) == do_far_load(old(cpu)@, d@),
        final(cpu)@.mem.dev == old(cpu)@.mem.dev,
{
    proof {
        reveal(do_far_load);
    }
    let next = next_eip(cpu, d);
    let m = match d.ops[1] {
        Opnd::Mem(m, _) => m,
        _ => {
            return Err(StepOut::Error(Error::Internal("lds mem".to_owned())));
        },
    };
    let (v, sel) = read_far_pointer(cpu, m.seg, eff(cpu, &m), d.size().bytes())?;
    let seg = match d.op {
        Op::Lss => Seg::Ss,
        Op::Lds => Seg::Ds,
        Op::Les => Seg::Es,
        Op::Lfs => Seg::Fs,
        _ => Seg::Gs,
    };
    match d.ops[0] {
        Opnd::Reg(r, bits) => {
            write_gpr(cpu, r, bits, v);
            load_and_go(cpu, seg, sel, next)
        },
        _ => Err(StepOut::Error(Error::Internal("lds reg".to_owned()))),
    }
}

// ---------------------------------------------------------------------------
// Descriptor inspection
// ---------------------------------------------------------------------------

/// What LAR (`lar`) or LSL reads out of a descriptor; `None` where the
/// descriptor is of a kind that they refuse.
pub open spec fn inspected(d: Desc, lar: bool) -> Option<u32> {
    if d.typ & 0x08 != 0 || d.typ & 0x0C == 0 {
        if lar {
            Some(
                ((d.dpl as u32) << 8) | (if d.db {
                    0x40_0000u32
                } else {
                    0
                }) | (if d.g {
                    0x80_0000u32
                } else {
                    0
                }),
            )
        } else {
            Some(d.last_offset())
        }
    } else {
        None
    }
}

/// LAR and LSL; CF tells that the descriptor was refused.
#[verifier::opaque]
pub open spec fn do_inspect(s: CpuState, i: Insn) -> Outcome {
    match s.operand(i.o1, AccessKind::Read) {
        Err(e) => failed(s, e),
        Ok(sel) => {
            let v = match s.descriptor(sel as u16) {
                Ok(d) => inspected(d, i.op is Lar),
                Err(_) => None,
            };
            match v {
                Some(v) => {
                    let t = s.assign(i.o0, v, AccessKind::Write).0;
                    goes_on(
                        t.with_flags(
                            arith_flags(t.eflags, v, 0xFFFF_FFFF, false, false, false),
                        ),
                        s.next(i),
                    )
                },
                None => goes_on(
                    s.with_flags(
                        put(arith_flags(s.eflags, 0, 0xFFFF_FFFF, false, false, false), CF, true),
                    ),
                    s.next(i),
                ),
            }
        },
    }
}

fn inspect(d: &Desc, lar: bool) -> (r: Option<u32>)
    ensures
        r == inspected(*d, lar),
{
    if d.typ & 0x08 != 0 || (d.typ & 0x0C) == 0 {
        if lar {
            let db: u32 = if d.db {
                0x40_0000
            } else {
                0
            };
            let g: u32 = if d.g {
                0x80_0000
            } else {
                0
            };
            Some(((d.dpl as u32) << 8) | db | g)
        } else {
            Some(d.eff_limit())
        }
    } else {
        None
    }
}

fn set_inspect_flags(cpu: &mut X86, v: u32)
    ensures
        final(cpu)@ == old(cpu)@.with_flags(
            arith_flags(old(cpu)@.eflags, v, 0xFFFF_FFFF, false, false, false),
        ),
        final(cpu)@.mem.dev == old(cpu)@.mem.dev,
{
    set_flags_zsp(cpu, v, 0xFFFF_FFFF);
    set_cf(cpu, false);
    set_of(cpu, false);
    set_af(cpu, false);
}

pub(crate) fn exec_inspect(cpu: &mut X86, d: &Decoded) -> (r: Result<StepOut, StepOut>)
    requires
        d@.wf(),
    ensures
        ended(final(cpu)@, r) == do_inspect(old(cpu)@, d@),
        final(cpu)@.mem.dev == old(cpu)@.mem.dev,
{
    proof {
        reveal(do_inspect);
    }
    let next = next_eip(cpu, d);
    let sel = read_opnd(cpu, &d.ops[1], AccessKind::Read)?;
    let v = match load_descriptor(cpu, sel as u16) {
        Ok(desc) => inspect(&desc, matches!(d.op, Op::Lar)),
        Err(_) => None,
    };
    match v {
        Some(v) => {
            let _ = write_opnd(cpu, &d.ops[0], v);
            set_inspect_flags(cpu, v);
        },
        None => {
            set_inspect_flags(cpu, 0);
            set_cf(cpu, true);
        },
    }
    go(cpu, next)
}

impl CpuState {
    /// The value of an operand, 0 where it cannot be read.
    pub open spec fn operand_or_0(self, o: Opnd, kind: AccessKind) -> u32 {
        match self.operand(o, kind) {
            Ok(v) => v,
            Err(_) => 0,
        }
    }
}

/// The value of an operand, 0 where it cannot be read.
pub(crate) fn read_or_0(cpu: &X86, o: &Opnd, kind: AccessKind) -> (v: u32)
    requires
        o.wf(),
    ensures
        v == cpu@.operand_or_0(*o, kind),
{
    match read_opnd(cpu, o, kind) {
        Ok(v) => v,
        Err(_) => 0,
    }
}

/// VERR (`read`) and VERW: ZF tells that the descriptor's type is readable or
/// writable.
#[verifier::opaque]
pub open spec fn do_verify(s: CpuState, i: Insn, read: bool) -> Outcome {
    let ok = match s.descriptor(s.operand_or_0(i.o0, AccessKind::Read) as u16) {
        Ok(d) => if read {
            d.typ & 0x08 != 0
        } else {
            d.typ & 0x0C == 0x02
        },
        Err(_) => false,
    };
    goes_on(s.with_flags(put(s.eflags, ZF, ok)), s.next(i))
}

fn set_zf(cpu: &mut X86, v: bool)
    ensures
        final(cpu)@ == old(cpu)@.with_flags(put(old(cpu)@.eflags, ZF, v)),
        final(cpu)@.mem.dev == old(cpu)@.mem.dev,
{
    if v {
        cpu.eflags = cpu.eflags | ZF;
    } else {
        cpu.eflags = cpu.eflags & !ZF;
    }
}

pub(crate) fn exec_verify(cpu: &mut X86, d: &Decoded, read: bool) -> (r: Result<StepOut, StepOut>)
    requires
        d@.wf(),
    ensures
        ended(final(cpu)@, r) == do_verify(old(cpu)@, d@, read),
        final(cpu)@.mem.dev == old(cpu)@.mem.dev,
{
    proof {
        reveal(do_verify);
    }
    let next = next_eip(cpu, d);
    let sel = read_or_0(cpu, &d.ops[0], AccessKind::Read);
    let ok = match load_descriptor(cpu, sel as u16) {
        Ok(desc) => if read {
            desc.typ & 0x08 != 0
        } else {
            (desc.typ & 0x0C) == 0x02
        },
        Err(_) => false,
    };
    set_zf(cpu, ok);
    go(cpu, next)
}

/// ARPL r/m16, r16: raises the RPL field to that of the second operand; ZF tells
/// that it did.
#[verifier::opaque]
pub open spec fn do_arpl(s: CpuState, i: Insn) -> Outcome {
    let a = s.operand_or_0(i.o0, AccessKind::Rmw) as u16;
    let b = s.operand_or_0(i.o1, AccessKind::Read) as u16;
    let raised = a % 4 < b % 4;
    let v = if raised {
        (a - a % 4 + b % 4) as u32
    } else {
        a as u32
    };
    let t = s.assign(i.o0, v, AccessKind::Write).0;
    goes_on(t.with_flags(put(t.eflags, ZF, raised)), s.next(i))
}

pub(crate) fn exec_arpl(cpu: &mut X86, d: &Decoded) -> (r: Result<StepOut, StepOut>)
    requires
        d@.wf(),
    ensures
        ended(final(cpu)@, r) == do_arpl(old(cpu)@, d@),
        final(cpu)@.mem.dev == old(cpu)@.mem.dev,
{
    proof {
        reveal(do_arpl);
    }
    let next = next_eip(cpu, d);
    let a = read_or_0(cpu, &d.ops[0], AccessKind::Rmw) as u16;
    let b = read_or_0(cpu, &d.ops[1], AccessKind::Read) as u16;
    let raised = a % 4 < b % 4;
    let v: u32 = if raised {
        (a - a % 4 + b % 4) as u32
    } else {
        a as u32
    };
    let _ = write_opnd(cpu, &d.ops[0], v);
    set_zf(cpu, raised);
    go(cpu, next)
}

// ---------------------------------------------------------------------------
// System registers
// ---------------------------------------------------------------------------

impl CpuState {
    /// The limit and base of a descriptor table in memory; what cannot be read
    /// is 0.
    pub open spec fn table_operand(self, seg: Seg, off: u32) -> DescReg {
        DescReg {
            limit: match self.load16(seg, off, AccessKind::Read) {
                Ok(v) => v,
                Err(_) => 0,
            },
            base: match self.load32(seg, off.wrapping_add(2), AccessKind::Read) {
                Ok(v) => v,
                Err(_) => 0,
            },
        }
    }

    /// The limit and base of a descriptor table go to memory; what cannot be
    /// written is dropped.
    pub open spec fn table_stored(self, seg: Seg, off: u32, t: DescReg) -> CpuState {
        self.store16(seg, off, t.limit, AccessKind::Write).0.store32(
            seg,
            off.wrapping_add(2),
            t.base,
            AccessKind::Write,
        ).0
    }
}

/// LGDT and LIDT.
#[verifier::opaque]
pub open spec fn do_load_table(s: CpuState, i: Insn) -> Outcome {
    match i.o0 {
        Opnd::Mem(m, _) => {
            let t = s.table_operand(m.seg, s.ea(m));
            if i.op is Lgdt {
                goes_on(CpuState { gdtr: t, ..s }, s.next(i))
            } else {
                goes_on(CpuState { idtr: t, ..s }, s.next(i))
            }
        },
        _ => failed(s, ErrorView::Internal("lgdt mem"@)),
    }
}

pub(crate) fn exec_load_table(cpu: &mut X86, d: &Decoded) -> (r: Result<StepOut, StepOut>)
    requires
        d@.wf(),
    ensures
        ended(final(cpu)@, r) == do_load_table(old(cpu)@, d@),
        final(cpu)@.mem.dev == old(cpu)@.mem.dev,
{
    proof {
        reveal(do_load_table);
    }
    let next = next_eip(cpu, d);
    let m = match d.ops[0] {
        Opnd::Mem(m, _) => m,
        _ => {
            return Err(StepOut::Error(Error::Internal("lgdt mem".to_owned())));
        },
    };
    let off = eff(cpu, &m);
    let limit = match peek16(cpu, m.seg, off, AccessKind::Read) {
        Ok(v) => v,
        Err(_) => 0,
    };
    let base = match peek32(cpu, m.seg, off.wrapping_add(2), AccessKind::Read) {
        Ok(v) => v,
        Err(_) => 0,
    };
    if matches!(d.op, Op::Lgdt) {
        cpu.gdtr = DescReg { base, limit };
    } else {
        cpu.idtr = DescReg { base, limit };
    }
    go(cpu, next)
}

/// SGDT and SIDT.
#[verifier::opaque]
pub open spec fn do_store_table(s: CpuState, i: Insn) -> Outcome {
    match i.o0 {
        Opnd::Mem(m, _) => {
            let t = if i.op is Sgdt {
                s.gdtr
            } else {
                s.idtr
            };
            goes_on(s.table_stored(m.seg, s.ea(m), t), s.next(i))
        },
        _ => failed(s, ErrorView::Internal("sgdt mem"@)),
    }
}

pub(crate) fn exec_store_table(cpu: &mut X86, d: &Decoded) -> (r: Result<StepOut, StepOut>)
    requires
        d@.wf(),
    ensures
        ended(final(cpu)@, r) == do_store_table(old(cpu)@, d@),
        final(cpu)@.mem.dev == old(cpu)@.mem.dev,
{
    proof {
        reveal(do_store_table);
    }
    let next = next_eip(cpu, d);
    let m = match d.ops[0] {
        Opnd::Mem(m, _) => m,
        _ => {
            return Err(StepOut::Error(Error::Internal("sgdt mem".to_owned())));
        },
    };
    let off = eff(cpu, &m);
    let t = if matches!(d.op, Op::Sgdt) {
        cpu.gdtr
    } else {
        cpu.idtr
    };
    let _ = write16(cpu, m.seg, off, t.limit, AccessKind::Write);
    let _ = write32(cpu, m.seg, off.wrapping_add(2), t.base, AccessKind::Write);
    go(cpu, next)
}

/// LLDT.
#[verifier::opaque]
pub open spec fn do_lldt(s: CpuState, i: Insn) -> Outcome {
    let sel = s.operand_or_0(i.o0, AccessKind::Read) as u16;
    match s.descriptor(sel) {
        Err(e) => failed(s, e),
        Ok(d) => if d.typ == 0x02 {
            goes_on(CpuState { ldtr: SegVal { sel, desc: d }, ..s }, s.next(i))
        } else {
            failed(s, ErrorView::Internal("LLDT of non-LDT"@))
        },
    }
}

pub(crate) fn exec_lldt(cpu: &mut X86, d: &Decoded) -> (r: Result<StepOut, StepOut>)
    requires
        d@.wf(),
    ensures
        ended(final(cpu)@, r) == do_lldt(old(cpu)@, d@),
        final(cpu)@.mem.dev == old(cpu)@.mem.dev,
{
    proof {
        reveal(do_lldt);
    }
    let next = next_eip(cpu, d);
    let sel = read_or_0(cpu, &d.ops[0], AccessKind::Read) as u16;
    let desc = or_leave(load_descriptor(cpu, sel))?;
    if desc.typ != 0x02 {
        return Err(StepOut::Error(Error::Internal("LLDT of non-LDT".to_owned())));
    }
    cpu.ldtr = SegVal { sel, desc };
    go(cpu, next)
}

/// LTR; SS0, ESP0 and CR3 are read from the task state segment.
#[verifier::opaque]
pub open spec fn do_ltr(s: CpuState, i: Insn) -> Outcome {
    let sel = s.operand_or_0(i.o0, AccessKind::Read) as u16;
    match s.descriptor(sel) {
        Err(e) => failed(s, e),
        Ok(d) => if d.typ == 0x09 || d.typ == 0x0B {
            let tss = Tss {
                ss0: s.mem.read16(d.base.wrapping_add(8)),
                esp0: s.mem.read32(d.base.wrapping_add(4)),
                cr3: s.mem.read32(d.base),
                ..s.tss
            };
            goes_on(CpuState { tr: SegVal { sel, desc: d }, tss, ..s }, s.next(i))
        } else {
            failed(s, ErrorView::Internal("LTR of non-TSS"@))
        },
    }
}

pub(crate) fn exec_ltr(cpu: &mut X86, d: &Decoded) -> (r: Result<StepOut, StepOut>)
    requires
        d@.wf(),
    ensures
        ended(final(cpu)@, r) == do_ltr(old(cpu)@, d@),
        final(cpu)@.mem.dev == old(cpu)@.mem.dev,
{
    proof {
        reveal(do_ltr);
    }
    let next = next_eip(cpu, d);
    let sel = read_or_0(cpu, &d.ops[0], AccessKind::Read) as u16;
    let desc = or_leave(load_descriptor(cpu, sel))?;
    if desc.typ != 0x09 && desc.typ != 0x0B {
        return Err(StepOut::Error(Error::Internal("LTR of non-TSS".to_owned())));
    }
    // Load ESP0/SS0 from the TSS (helpful for ring transitions).
    cpu.tss = Tss {
        ss0: cpu.mem.phys_read16(desc.base.wrapping_add(8)),
        esp0: cpu.mem.phys_read32(desc.base.wrapping_add(4)),
        cr3: cpu.mem.phys_read32(desc.base),
        ..cpu.tss
    };
    cpu.tr = SegVal { sel, desc };
    go(cpu, next)
}

/// SLDT, STR and SMSW; a write that faults is dropped.
#[verifier::opaque]
pub open spec fn do_store_system(s: CpuState, i: Insn) -> Outcome {
    let v = match i.op {
        Op::Sldt => s.ldtr.sel as u32,
        Op::Str => s.tr.sel as u32,
        _ => (s.cr[0] % 0x1_0000) as u32,
    };
    goes_on(s.assign(i.o0, v, AccessKind::Write).0, s.next(i))
}

pub(crate) fn exec_store_system(cpu: &mut X86, d: &Decoded) -> (r: Result<StepOut, StepOut>)
    requires
        d@.wf(),
    ensures
        ended(final(cpu)@, r) == do_store_system(old(cpu)@, d@),
        final(cpu)@.mem.dev == old(cpu)@.mem.dev,
{
    proof {
        reveal(do_store_system);
    }
    let next = next_eip(cpu, d);
    let v: u32 = match d.op {
        Op::Sldt => cpu.ldtr.sel as u32,
        Op::Str => cpu.tr.sel as u32,
        _ => cpu.cr[0] % 0x1_0000,
    };
    let _ = write_opnd(cpu, &d.ops[0], v);
    go(cpu, next)
}

impl CpuState {
    pub open spec fn with_cr(self, n: int, v: u32) -> CpuState {
        CpuState { cr: self.cr.update(n, v), ..self }
    }
}

/// LMSW writes the low four bits of CR0.
#[verifier::opaque]
pub open spec fn do_lmsw(s: CpuState, i: Insn) -> Outcome {
    let v = s.operand_or_0(i.o0, AccessKind::Read);
    goes_on(s.with_cr(0, (s.cr[0] & !0xF) | (v & 0xF)), s.next(i))
}

pub(crate) fn exec_lmsw(cpu: &mut X86, d: &Decoded) -> (r: Result<StepOut, StepOut>)
    requires
        d@.wf(),
    ensures
        ended(final(cpu)@, r) == do_lmsw(old(cpu)@, d@),
        final(cpu)@.mem.dev == old(cpu)@.mem.dev,
{
    proof {
        reveal(do_lmsw);
    }
    let next = next_eip(cpu, d);
    let v = read_or_0(cpu, &d.ops[0], AccessKind::Read);
    cpu.cr[0] = (cpu.cr[0] & !0xF) | (v & 0xF);
    go(cpu, next)
}

/// MOV to and from a control register. There is no CR4; a write to CR2 or to one
/// beyond CR4 is dropped, and a read beyond CR3 gives CR3.
#[verifier::opaque]
pub open spec fn do_mov_cr(s: CpuState, i: Insn) -> Outcome {
    match (i.o0, i.o1) {
        (Opnd::Imm(n), Opnd::Reg(r, _)) => {
            let to_cr = match i.o2 {
                Opnd::Imm(v) => v != 0,
                _ => false,
            };
            if to_cr {
                if n == 4 {
                    failed(s, ErrorView::Unsupported("CR4"@))
                } else if n == 0 || n == 1 || n == 3 {
                    goes_on(s.with_cr(n as int, s.gpr[r as int]), s.next(i))
                } else {
                    goes_on(s, s.next(i))
                }
            } else {
                let k = if n < 3 {
                    n as int
                } else {
                    3
                };
                goes_on(s.with_gpr(r as int, s.cr[k]), s.next(i))
            }
        },
        _ => failed(s, ErrorView::Internal("movcr"@)),
    }
}

pub(crate) fn exec_mov_cr(cpu: &mut X86, d: &Decoded) -> (r: Result<StepOut, StepOut>)
    requires
        d@.wf(),
    ensures
        ended(final(cpu)@, r) == do_mov_cr(old(cpu)@, d@),
        final(cpu)@.mem.dev == old(cpu)@.mem.dev,
{
    proof {
        reveal(do_mov_cr);
    }
    let next = next_eip(cpu, d);
    let n = match d.ops[0] {
        Opnd::Imm(v) => v as usize,
        _ => {
            return Err(StepOut::Error(Error::Internal("movcr".to_owned())));
        },
    };
    let r = match d.ops[1] {
        Opnd::Reg(r, _) => r as usize,
        _ => {
            return Err(StepOut::Error(Error::Internal("movcr".to_owned())));
        },
    };
    let to_cr = match d.ops[2] {
        Opnd::Imm(v) => v != 0,
        _ => false,
    };
    if to_cr {
        if n == 4 {
            return Err(StepOut::Error(Error::Unsupported("CR4".to_owned())));
        }
        if n == 0 || n == 1 || n == 3 {
            cpu.cr[n] = cpu.gpr[r];
        }
    } else {
        let k: usize = if n < 3 {
            n
        } else {
            3
        };
        cpu.gpr[r] = cpu.cr[k];
    }
    go(cpu, next)
}

/// MOV to and from a debug register: DR0 shares the storage of CR3, the others
/// read as 0.
#[verifier::opaque]
pub open spec fn do_mov_dr(s: CpuState, i: Insn) -> Outcome {
    let n = match i.o0 {
        Opnd::Imm(v) => v,
        _ => 0,
    };
    match i.o1 {
        Opnd::Reg(r, _) => {
            let to_dr = match i.o2 {
                Opnd::Imm(v) => v != 0,
                _ => false,
            };
            if to_dr {
                goes_on(
                    if n == 0 {
                        s.with_cr(3, s.gpr[r as int])
                    } else {
                        s
                    },
                    s.next(i),
                )
            } else {
                goes_on(
                    s.with_gpr(
                        r as int,
                        if n == 0 {
                            s.cr[3]
                        } else {
                            0
                        },
                    ),
                    s.next(i),
                )
            }
        },
        _ => failed(s, ErrorView::Internal("movdr"@)),
    }
}

pub(crate) fn exec_mov_dr(cpu: &mut X86, d: &Decoded) -> (r: Result<StepOut, StepOut>)
    requires
        d@.wf(),
    ensures
        ended(final(cpu)@, r) == do_mov_dr(old(cpu)@, d@),
        final(cpu)@.mem.dev == old(cpu)@.mem.dev,
{
    proof {
        reveal(do_mov_dr);
    }
    let next = next_eip(cpu, d);
    let n: u32 = match d.ops[0] {
        Opnd::Imm(v) => v,
        _ => 0,
    };
    let r = match d.ops[1] {
        Opnd::Reg(r, _) => r as usize,
        _ => {
            return Err(StepOut::Error(Error::Internal("movdr".to_owned())));
        },
    };
    let to_dr = match d.ops[2] {
        Opnd::Imm(v) => v != 0,
        _ => false,
    };
    if to_dr {
        if n == 0 {
            cpu.cr[3] = cpu.gpr[r];
        }
    } else {
        cpu.gpr[r] = if n == 0 {
            cpu.cr[3]
        } else {
            0
        };
    }
    go(cpu, next)
}

} // verus!
