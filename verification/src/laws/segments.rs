//! Laws of selectors, descriptors and the system registers.

use vstd::prelude::*;

use crate::bits::{lemma_casts, lemma_word_facts};
use crate::cpu::{AccessKind, CpuState, Desc, DescReg, ErrorView, Seg, SegVal, Tss};
use crate::decode::{Bits, Insn, Op, Opnd};
use crate::flag::{CF, ZF, put};
use crate::laws::computing::{behind, completes, gives_up, writes_and_completes};
use crate::laws::flow::{loads_and_goes, operand_bytes, real_segment};
use crate::mem::DevLog;
use crate::sem::arith::arith_flags;
use crate::sem::exec::performed;
use crate::sem::segment::{
    desc_of, do_arpl, do_far_load, do_inspect, do_lldt, do_lmsw, do_load_table, do_ltr, do_mov_cr,
    do_mov_dr, do_mov_from_sreg, do_mov_to_sreg, do_pop_seg, do_store_system, do_store_table,
    do_verify, inspected,
};

verus! {

/// The number of an operand, 0 where it cannot be read.
pub open spec fn value_or_zero(s: CpuState, o: Opnd, kind: AccessKind) -> u32 {
    match s.operand(o, kind) {
        Ok(v) => v,
        Err(_) => 0,
    }
}

/// Where a descriptor is: eight bytes times the upper thirteen bits of the
/// selector into the table that its bit 2 names, the local one where it is set;
/// all eight bytes lie within the limit of the table.
pub proof fn descriptors_are_found(s: CpuState, sel: u16)
    ensures
        ({
            let (base, limit) = if sel as int / 4 % 2 == 1 {
                (s.ldtr.desc.base, s.ldtr.desc.limit as int)
            } else {
                (s.gdtr.base, s.gdtr.limit as int)
            };
            let at = 8 * (sel as int / 8);
            let addr = ((base + at) % 0x1_0000_0000) as u32;
            let second = ((base + at + 4) % 0x1_0000_0000) as u32;
            match s.descriptor(sel) {
                Ok(d) => at + 8 <= limit + 1 && d
                    == desc_of(s.mem.read32(addr), s.mem.read32(second)),
                Err(e) => at + 8 > limit + 1 && e == ErrorView::Internal("descriptor out of range"@),
            }
        }),
{
    lemma_word_facts(0, 0, 0, 0, sel, 0);
    let (base, limit) = s.desc_table(sel);
    let at = (sel as int / 8 * 8) as u32;
    let addr = base.wrapping_add(at);
    assert(addr == (base + at) % 0x1_0000_0000);
    assert(addr.wrapping_add(4) == (base + at + 4) % 0x1_0000_0000);
}

/// The parts of a descriptor: base and limit are gathered from both dwords, and
/// the access and attribute bits are bits 8 to 15 and 20 to 23 of the second.
pub proof fn descriptors_are_gathered(lo: u32, hi: u32)
    ensures
        ({
            let d = desc_of(lo, hi);
            &&& d.base == lo / 0x1_0000 + 0x1_0000 * (hi % 0x100) + 0x100_0000 * (hi / 0x100_0000)
            &&& d.limit == lo % 0x1_0000 + 0x1_0000 * (hi / 0x1_0000 % 16)
            &&& d.typ == hi / 0x100 % 32
            &&& d.dpl == hi / 0x2000 % 4
            &&& d.p <==> hi / 0x8000 % 2 == 1
            &&& d.avl <==> hi / 0x10_0000 % 2 == 1
            &&& d.db <==> hi / 0x40_0000 % 2 == 1
            &&& d.g <==> hi / 0x80_0000 % 2 == 1
        }),
{
    lemma_word_facts(lo, hi, 0, 0, 0, 0);
}

/// What a segment register keeps of a selector. Real mode: 64 KB at sixteen
/// times the selector. Protected mode: the descriptor that it points to, which
/// has to be present; the selectors below 4 give a segment without a byte but
/// the first, except to CS and SS.
pub proof fn segment_registers_are_loaded(s: CpuState, seg: Seg, sel: u16)
    ensures
        s.cr[0] & 1 == 0 ==> s.segment_value(seg, sel) is Ok && real_segment(
            sel,
            s.segment_value(seg, sel)->Ok_0,
        ),
        s.cr[0] & 1 != 0 ==> ({
            let r = s.segment_value(seg, sel);
            if sel < 4 && seg != Seg::Cs && seg != Seg::Ss {
                &&& r is Ok
                &&& r->Ok_0.sel == sel
                &&& r->Ok_0.desc.base == 0 && r->Ok_0.desc.limit == 0 && !r->Ok_0.desc.g
                    && !r->Ok_0.desc.p
            } else {
                match s.descriptor(sel) {
                    Err(e) => r is Err && r->Err_0 == e,
                    Ok(d) => if d.p {
                        r is Ok && r->Ok_0.sel == sel && r->Ok_0.desc == d
                    } else {
                        r is Err && r->Err_0 == ErrorView::Internal("segment not present"@)
                    },
                }
            }
        }),
{
}

/// MOV to a segment register loads it with the low word of the operand; MOV
/// from one writes its selector. POP pops into one.
pub proof fn segment_moves(s: CpuState, i: Insn, log: DevLog)
    requires
        i.op is MovRm2Sreg || i.op is MovSreg2Rm || i.op is PopSeg,
    ensures
        ({
            let o = performed(s, i, log);
            let a = s.operand(i.o1, AccessKind::Read);
            let (t, r) = s.popped(operand_bytes(i));
            match (i.op, i.o0, i.o1) {
                (Op::MovRm2Sreg, Opnd::Sreg(seg), _) => if a is Err {
                    gives_up(o, s, a->Err_0)
                } else {
                    loads_and_goes(o, s, seg, (a->Ok_0 % 0x1_0000) as u16, behind(s, i))
                },
                (Op::MovSreg2Rm, _, Opnd::Sreg(seg)) => writes_and_completes(
                    o,
                    s,
                    i.o0,
                    s.seg[seg.number() as int].sel as u32,
                    i,
                ),
                (Op::PopSeg(seg), _, _) => if r is Err {
                    gives_up(o, t, r->Err_0)
                } else {
                    loads_and_goes(o, t, seg, (r->Ok_0 % 0x1_0000) as u16, behind(s, i))
                },
                _ => true,
            }
        }),
{
    reveal(performed);
    reveal(do_mov_to_sreg);
    reveal(do_mov_from_sreg);
    reveal(do_pop_seg);
    lemma_casts(0, 0, s.operand(i.o1, AccessKind::Read)->Ok_0);
    lemma_casts(0, 0, s.popped(operand_bytes(i)).1->Ok_0);
}

/// LDS, LES, LFS, LGS and LSS load the register with the offset in memory and
/// the segment register of their name with the selector behind it.
pub proof fn far_pointer_loads(s: CpuState, i: Insn, log: DevLog)
    requires
        i.op is Lds || i.op is Les || i.op is Lfs || i.op is Lgs || i.op is Lss,
    ensures
        ({
            let o = performed(s, i, log);
            let seg = if i.op is Lds {
                Seg::Ds
            } else if i.op is Les {
                Seg::Es
            } else if i.op is Lfs {
                Seg::Fs
            } else if i.op is Lgs {
                Seg::Gs
            } else {
                Seg::Ss
            };
            let n = operand_bytes(i);
            match (i.o0, i.o1) {
                (Opnd::Reg(r, bits), Opnd::Mem(m, _)) => {
                    let off = s.load(m.seg, s.ea(m), n, AccessKind::Read);
                    let sel = s.load16(m.seg, s.ea(m).wrapping_add(n), AccessKind::Read);
                    if off is Err {
                        gives_up(o, s, off->Err_0)
                    } else if sel is Err {
                        gives_up(o, s, sel->Err_0)
                    } else {
                        loads_and_goes(
                            o,
                            s.assign(i.o0, off->Ok_0, AccessKind::Write).0,
                            seg,
                            sel->Ok_0,
                            behind(s, i),
                        )
                    }
                },
                _ => true,
            }
        }),
{
    reveal(performed);
    reveal(do_far_load);
    assert forall|t: CpuState, r: u8, b: Bits, v: u32| #[trigger]
        t.assign(Opnd::Reg(r, b), v, AccessKind::Write).0 == t.with_gpr_at(r, b, v) by {
        reveal(CpuState::assign);
    }
}

/// LGDT and LIDT take a limit of 16 bits and a base of 32 from memory, SGDT and
/// SIDT write them there; what cannot be read counts as 0.
#[verifier::rlimit(40)]
#[verifier::spinoff_prover]
pub proof fn table_registers_move(s: CpuState, i: Insn, log: DevLog)
    requires
        i.op is Lgdt || i.op is Lidt || i.op is Sgdt || i.op is Sidt,
        i.o0 is Mem,
    ensures
        ({
            let o = performed(s, i, log);
            match i.o0 {
                Opnd::Mem(m, _) => {
                    let at = s.ea(m);
                    let limit = s.load16(m.seg, at, AccessKind::Read);
                    let base = s.load32(m.seg, at.wrapping_add(2), AccessKind::Read);
                    let t = DescReg {
                        limit: if limit is Ok {
                            limit->Ok_0
                        } else {
                            0
                        },
                        base: if base is Ok {
                            base->Ok_0
                        } else {
                            0
                        },
                    };
                    if i.op is Lgdt {
                        completes(o, CpuState { gdtr: t, ..s }, behind(s, i))
                    } else if i.op is Lidt {
                        completes(o, CpuState { idtr: t, ..s }, behind(s, i))
                    } else {
                        let v = if i.op is Sgdt {
                            s.gdtr
                        } else {
                            s.idtr
                        };
                        let (u, _) = s.store16(m.seg, at, v.limit, AccessKind::Write);
                        let (w, _) = u.store32(
                            m.seg,
                            at.wrapping_add(2),
                            v.base,
                            AccessKind::Write,
                        );
                        completes(o, w, behind(s, i))
                    }
                },
                _ => true,
            }
        }),
{
    reveal(performed);
    if i.op is Lgdt || i.op is Lidt {
        reveal(do_load_table);
    } else {
        reveal(do_store_table);
    }
}

/// LLDT takes a descriptor of type 2 into LDTR; LTR one of type 9 or 11 into
/// TR, and with it CR3, ESP0 and SS0 of the task state that it describes.
/// Others are refused.
pub proof fn system_segments_are_loaded(s: CpuState, i: Insn, log: DevLog)
    requires
        i.op is Lldt || i.op is Ltr,
    ensures
        ({
            let o = performed(s, i, log);
            let sel = (value_or_zero(s, i.o0, AccessKind::Read) % 0x1_0000) as u16;
            match s.descriptor(sel) {
                Err(e) => gives_up(o, s, e),
                Ok(d) => if i.op is Lldt {
                    if d.typ == 2 {
                        completes(
                            o,
                            CpuState { ldtr: SegVal { sel, desc: d }, ..s },
                            behind(s, i),
                        )
                    } else {
                        gives_up(o, s, ErrorView::Internal("LLDT of non-LDT"@))
                    }
                } else if d.typ == 9 || d.typ == 11 {
                    completes(
                        o,
                        CpuState {
                            tr: SegVal { sel, desc: d },
                            tss: Tss {
                                cr3: s.mem.read32(d.base),
                                esp0: s.mem.read32(((d.base + 4) % 0x1_0000_0000) as u32),
                                ss0: s.mem.read16(((d.base + 8) % 0x1_0000_0000) as u32),
                                ..s.tss
                            },
                            ..s
                        },
                        behind(s, i),
                    )
                } else {
                    gives_up(o, s, ErrorView::Internal("LTR of non-TSS"@))
                },
            }
        }),
{
    reveal(performed);
    reveal(do_lldt);
    reveal(do_ltr);
    lemma_casts(0, 0, value_or_zero(s, i.o0, AccessKind::Read));
    assert forall|b: u32| #[trigger] b.wrapping_add(4) == (b + 4) % 0x1_0000_0000 by {}
    assert forall|b: u32| #[trigger] b.wrapping_add(8) == (b + 8) % 0x1_0000_0000 by {}
}

/// SLDT, STR and SMSW write the selectors of LDTR and TR and the low word of
/// CR0; LMSW takes the low four bits of CR0 from its operand.
pub proof fn system_words_move(s: CpuState, i: Insn, log: DevLog)
    requires
        i.op is Sldt || i.op is Str || i.op is Smsw || i.op is Lmsw,
    ensures
        ({
            let o = performed(s, i, log);
            let v = value_or_zero(s, i.o0, AccessKind::Read);
            if i.op is Lmsw {
                completes(
                    o,
                    CpuState {
                        cr: s.cr.update(0, (s.cr[0] - s.cr[0] % 16 + v % 16) as u32),
                        ..s
                    },
                    behind(s, i),
                )
            } else {
                let w = if i.op is Sldt {
                    s.ldtr.sel as u32
                } else if i.op is Str {
                    s.tr.sel as u32
                } else {
                    (s.cr[0] % 0x1_0000) as u32
                };
                completes(o, s.assign(i.o0, w, AccessKind::Write).0, behind(s, i))
            }
        }),
{
    reveal(performed);
    reveal(do_store_system);
    reveal(do_lmsw);
    lemma_word_facts(s.cr[0], value_or_zero(s, i.o0, AccessKind::Read), 0, 0, 0, 0);
}

/// MOV to CR0, CR1 and CR3 writes them from the register; other numbers but 4,
/// which is refused, are ignored. MOV from a control register reads it into the
/// register, numbers above 2 as CR3. MOV to DR0 and from it goes to CR3; other
/// debug registers read 0 and ignore writes.
pub proof fn control_registers_move(s: CpuState, i: Insn, log: DevLog)
    requires
        i.op is MovCr || i.op is MovDr,
    ensures
        ({
            let o = performed(s, i, log);
            match (i.o0, i.o1, i.o2) {
                (Opnd::Imm(n), Opnd::Reg(r, _), Opnd::Imm(to)) => {
                    let v = s.gpr[r as int];
                    if i.op is MovCr && to != 0 {
                        if n == 4 {
                            gives_up(o, s, ErrorView::Unsupported("CR4"@))
                        } else if n == 0 || n == 1 || n == 3 {
                            completes(
                                o,
                                CpuState { cr: s.cr.update(n as int, v), ..s },
                                behind(s, i),
                            )
                        } else {
                            completes(o, s, behind(s, i))
                        }
                    } else if i.op is MovCr {
                        let k = if n <= 2 {
                            n as int
                        } else {
                            3
                        };
                        completes(
                            o,
                            CpuState { gpr: s.gpr.update(r as int, s.cr[k]), ..s },
                            behind(s, i),
                        )
                    } else if to != 0 {
                        if n == 0 {
                            completes(o, CpuState { cr: s.cr.update(3, v), ..s }, behind(s, i))
                        } else {
                            completes(o, s, behind(s, i))
                        }
                    } else {
                        let w = if n == 0 {
                            s.cr[3]
                        } else {
                            0
                        };
                        completes(
                            o,
                            CpuState { gpr: s.gpr.update(r as int, w), ..s },
                            behind(s, i),
                        )
                    }
                },
                _ => true,
            }
        }),
{
    reveal(performed);
    reveal(do_mov_cr);
    reveal(do_mov_dr);
}

/// ARPL raises the low two bits of its first operand to those of the second
/// where they are smaller, and sets ZF exactly then; the operand is written as
/// a word either way.
pub proof fn privilege_is_adjusted(s: CpuState, i: Insn, log: DevLog)
    requires
        i.op is Arpl,
    ensures
        ({
            let o = performed(s, i, log);
            let a = value_or_zero(s, i.o0, AccessKind::Rmw) as int % 0x1_0000;
            let b = value_or_zero(s, i.o1, AccessKind::Read) as int % 0x1_0000;
            let raised = a % 4 < b % 4;
            let v = if raised {
                a - a % 4 + b % 4
            } else {
                a
            };
            let t = s.assign(i.o0, v as u32, AccessKind::Write).0;
            completes(o, CpuState { eflags: put(t.eflags, ZF, raised), ..t }, behind(s, i))
        }),
{
    reveal(performed);
    reveal(do_arpl);
    lemma_casts(0, 0, value_or_zero(s, i.o0, AccessKind::Rmw));
    lemma_casts(0, 0, value_or_zero(s, i.o1, AccessKind::Read));
}

/// VERR sets ZF exactly for a descriptor whose type has bit 3 set, VERW exactly
/// for one of whose type bits 2 and 3 are clear and bit 1 is set; a selector
/// without a descriptor clears it.
pub proof fn segments_are_verified(s: CpuState, i: Insn, log: DevLog)
    requires
        i.op is VErr,
    ensures
        ({
            let o = performed(s, i, log);
            let sel = (value_or_zero(s, i.o0, AccessKind::Read) % 0x1_0000) as u16;
            let good = match s.descriptor(sel) {
                Ok(d) => if i.op == Op::VErr(true) {
                    d.typ & 8 != 0
                } else {
                    d.typ & 12 == 2
                },
                Err(_) => false,
            };
            completes(o, CpuState { eflags: put(s.eflags, ZF, good), ..s }, behind(s, i))
        }),
{
    reveal(performed);
    reveal(do_verify);
    lemma_casts(0, 0, value_or_zero(s, i.o0, AccessKind::Read));
}

/// LAR and LSL write what a descriptor says, with the flags of the number and
/// CF clear: LAR its level in bits 8 and 9 and its D and G bits in bits 22 and
/// 23, LSL its last offset. A descriptor that they refuse, and a selector
/// without one, leave the destination, set ZF and CF.
pub proof fn descriptors_are_inspected(s: CpuState, i: Insn, log: DevLog)
    requires
        i.op is Lar || i.op is Lsl,
    ensures
        ({
            let o = performed(s, i, log);
            let a = s.operand(i.o1, AccessKind::Read);
            let d = s.descriptor((a->Ok_0 % 0x1_0000) as u16);
            if a is Err {
                gives_up(o, s, a->Err_0)
            } else if d is Ok && inspected(d->Ok_0, i.op is Lar) is Some {
                let v = inspected(d->Ok_0, i.op is Lar)->Some_0;
                let t = s.assign(i.o0, v, AccessKind::Write).0;
                completes(
                    o,
                    CpuState {
                        eflags: arith_flags(t.eflags, v, 0xFFFF_FFFF, false, false, false),
                        ..t
                    },
                    behind(s, i),
                )
            } else {
                completes(
                    o,
                    CpuState {
                        eflags: put(
                            arith_flags(s.eflags, 0, 0xFFFF_FFFF, false, false, false),
                            CF,
                            true,
                        ),
                        ..s
                    },
                    behind(s, i),
                )
            }
        }),
{
    reveal(performed);
    reveal(do_inspect);
    lemma_casts(0, 0, s.operand(i.o1, AccessKind::Read)->Ok_0);
}

/// What LAR and LSL read out of a descriptor.
pub proof fn inspection_reads_the_descriptor(d: Desc)
    requires
        d.dpl < 4,
    ensures
        ({
            let seen = d.typ & 8 != 0 || d.typ & 12 == 0;
            &&& inspected(d, true) is Some <==> seen
            &&& inspected(d, false) is Some <==> seen
            &&& seen ==> inspected(d, true)->Some_0 == 0x100 * d.dpl + (if d.db {
                0x40_0000int
            } else {
                0
            }) + (if d.g {
                0x80_0000int
            } else {
                0
            })
            &&& seen ==> inspected(d, false)->Some_0 == d.last_offset()
        }),
{
    let l = d.dpl as u32;
    assert(l < 4 ==> (l << 8) | 0u32 | 0u32 == 0x100 * l && (l << 8) | 0x40_0000u32 | 0u32
        == 0x100 * l
        + 0x40_0000 && (l << 8) | 0u32 | 0x80_0000u32 == 0x100 * l + 0x80_0000 && (l << 8)
            | 0x40_0000u32
        | 0x80_0000u32 == 0x100 * l + 0xC0_0000) by (bit_vector);
}

/// Loading a segment register changes that register alone, and nothing where the
/// selector is refused.
pub proof fn one_segment_register_changes(s: CpuState, seg: Seg, sel: u16, other: int)
    requires
        s.wf(),
        0 <= other < 6,
        other != seg.number(),
    ensures
        ({
            let (t, r) = s.segment_loaded(seg, sel);
            match s.segment_value(seg, sel) {
                Ok(v) => {
                    &&& r is Ok
                    &&& t == (CpuState { seg: t.seg, ..s })
                    &&& t.seg.len() == 6
                    &&& t.seg[seg.number() as int] == v
                    &&& t.seg[other] == s.seg[other]
                },
                Err(e) => t == s && r is Err && r->Err_0 == e,
            }
        }),
{
}

/// A word of the interrupt table is read through ES at its address; what cannot
/// be read is 0.
pub proof fn gate_words(s: CpuState, addr: u32)
    ensures
        match s.load16(Seg::Es, addr, AccessKind::Read) {
            Ok(v) => s.gate_word(addr) == v,
            Err(_) => s.gate_word(addr) == 0,
        },
{
}

} // verus!
