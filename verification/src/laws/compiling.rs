//! Laws of the block compiler: what a block is, and how the engine keeps and
//! enters blocks.

use vstd::prelude::*;

use crate::bits::lemma_word_facts;
use crate::cpu::{AccessKind, CpuState, OutView};
use crate::decode::{AluOp, Bits, Cond, Insn, Op, Rep, ShiftKind};
use crate::interp::stepped;
use crate::jit::code::{Expr, Frame, eval};
use crate::jit::engine::{ActionView, BlockEntry, JitState, Turn, Wait};
use crate::jit::helpers::{
    alu_numbered, bits_numbered, cond_numbered, kind_numbered, rep_numbered, shift_numbered,
};
use crate::jit::lower::following;
use crate::jit::plan::{NatKind, key_of, part_of_block, signature, traced};
use crate::mem::{DevEvent, DevLog};

verus! {

/// Which instructions a block takes: jumps, calls and returns within the
/// segment and string instructions end it; far ones, interrupts, arithmetic
/// that can fault and system instructions are left to the interpreter; and an
/// instruction under a repeat prefix that does not end the block is left to it
/// too.
pub proof fn parts_of_blocks(i: Insn)
    ensures
        i.op is Jcc || i.op is Loop || i.op is Jcxz || i.op is Movs || i.op is Stos || i.op is Lods
            || i.op is Cmps || i.op is Scas || i.op is Ins || i.op is Outs ==> part_of_block(i)
            == NatKind::Terminal,
        i.op == (Op::Jump { far: false }) || i.op == (Op::Call { far: false }) ==> part_of_block(i)
            == NatKind::Terminal,
        i.op == (Op::Jump { far: true }) || i.op == (Op::Call { far: true }) ==> part_of_block(i)
            == NatKind::Fallback,
        i.op is Ret ==> part_of_block(i) == (if i.op->Ret_far {
            NatKind::Fallback
        } else {
            NatKind::Terminal
        }),
        i.op is Int || i.op is Int3 || i.op is Into || i.op is Iret || i.op is Hlt
            || i.op is Div || i.op is Idiv
            || i.op is Mul || i.op is Imul || i.op is Imul1 || i.op is Bound || i.op is MovCr
                || i.op is Lgdt
            || i.op is Lidt || i.op is MovRm2Sreg || i.op is PopSeg || i.op is PushF || i.op is PopF
            || i.op is PushA || i.op is PopA || i.op is Enter || i.op is Leave
                || i.op is Unsupported
            || i.op is TwoByte ==> part_of_block(i) == NatKind::Fallback,
        i.rep == Rep::Single && (i.op is Alu || i.op is Mov || i.op is Test || i.op is Inc
            || i.op is Dec
            || i.op is Lea || i.op is Shift || i.op is Xchg) ==> part_of_block(i)
                == NatKind::Native,
        i.rep == Rep::Single && (i.op is Push || i.op is Pop) ==> (part_of_block(i)
            == NatKind::Native <==> i.o0
            is Reg || i.o0 is Mem || i.o0 is Imm || i.o0 is ImmSext),
        i.rep != Rep::Single ==> part_of_block(i) != NatKind::Native,
{
}

/// What a block is: instructions that follow each other, all of them native but
/// for a last one that may end it. It has status 0 exactly when its last
/// instruction ends it, and at most 256 instructions.
pub proof fn blocks_are_straight_lines(s: CpuState, cur: u32, n: nat)
    requires
        n <= 255,
    ensures
        match traced(s, cur, n) {
            None => true,
            Some((p, tail, status)) => {
                &&& p.len() + n <= 256
                &&& forall|k: int|
                    0 <= k < p.len() - 1 ==> part_of_block(#[trigger] p[k]) == NatKind::Native
                &&& status == 0 || status == 1
                &&& status == 0 <==> p.len() > 0 && part_of_block(p.last()) == NatKind::Terminal
                &&& status == 1 && p.len() > 0 ==> part_of_block(p.last()) == NatKind::Native
                &&& p.len() > 0 ==> CpuState { eip: cur, ..s }.decoded() is Ok && CpuState {
                    eip: cur,
                    ..s
                }.decoded()->Ok_0 == p[0]
            },
        },
    decreases 255 - n,
{
    assert(s.with_eip(cur) == (CpuState { eip: cur, ..s }));
    match s.with_eip(cur).decoded() {
        Ok(i) => {
            if part_of_block(i) == NatKind::Native && n < 255 {
                let next = following(cur, i.len, !s.default16());
                blocks_are_straight_lines(s, next, n + 1);
                if let Some((rest, tail, status)) = traced(s, next, n + 1) {
                    let p = seq![i] + rest;
                    assert(p[0] == i);
                    assert forall|k: int| 0 <= k < p.len() - 1 implies part_of_block(
                        #[trigger] p[k],
                    ) == NatKind::Native by {
                        if k > 0 {
                            assert(p[k] == rest[k - 1]);
                        }
                    }
                    if rest.len() > 0 {
                        assert(p.last() == rest.last());
                    } else {
                        assert(p.last() == i);
                    }
                }
            }
        },
        Err(_) => {},
    }
}

/// Blocks are kept by where they start: two places have one key exactly when
/// selector and offset are the same.
pub proof fn keys_tell_places_apart(s: CpuState, t: CpuState)
    ensures
        key_of(s) == key_of(t) <==> s.seg[1].sel == t.seg[1].sel && s.eip == t.eip,
        key_of(s) == s.seg[1].sel * 0x1_0000_0000 + s.eip,
{
    lemma_key(s.seg[1].sel, s.eip);
    lemma_key(t.seg[1].sel, t.eip);
}

/// A selector above an offset.
proof fn lemma_key(sel: u16, eip: u32)
    ensures
        ((sel as u64) << 32) | eip as u64 == sel * 0x1_0000_0000 + eip,
{
    assert(((sel as u64) << 32) | eip as u64 == sel * 0x1_0000_0000 + eip) by (bit_vector);
}

/// A block is of no use once CR0, the base of the global descriptor table or
/// the low 24 bits of the base of the interrupt table alone have changed: its
/// signature is another.
pub proof fn signatures_tell_states_apart(s: CpuState, t: CpuState)
    requires
        s.idtr.limit == t.idtr.limit,
        s.gdtr.limit == t.gdtr.limit,
    ensures
        s.gdtr.base == t.gdtr.base && s.idtr.base == t.idtr.base && s.cr[0] != t.cr[0]
            ==> signature(s)
            != signature(t),
        s.gdtr.base != t.gdtr.base && s.idtr.base == t.idtr.base && s.cr[0] == t.cr[0]
            ==> signature(s)
            != signature(t),
        s.gdtr.base == t.gdtr.base && s.idtr.base % 0x100_0000 != t.idtr.base % 0x100_0000
            && s.cr[0]
            == t.cr[0] ==> signature(s) != signature(t),
{
    let (a, b) = (s.cr[0], t.cr[0]);
    let (g, h) = (s.gdtr.base, t.gdtr.base);
    let (p, q) = (s.idtr.base, t.idtr.base);
    let l = (s.gdtr.limit as u32) << 16;
    let il = s.idtr.limit as u32;
    let m = (il << 24) | (il >> 8);
    let x = ((p ^ m) as u64) << 40;
    let c = (a as u64) ^ (((g ^ l) as u64) << 16);
    assert((a != b ==> (a as u64) ^ (((g ^ l) as u64) << 16) ^ x != (b as u64) ^ (((g
        ^ l) as u64) << 16) ^ x)
        && (g != h ==> (a as u64) ^ (((g ^ l) as u64) << 16) ^ x != (a as u64) ^ (((h
            ^ l) as u64) << 16)
        ^ x) && (p % 0x100_0000 != q % 0x100_0000 ==> c ^ (((p ^ m) as u64) << 40) != c ^ (((q
            ^ m) as u64)
        << 40))) by (bit_vector);
}

/// A block that is due is called where it fits into what is left of the run;
/// else the interpreter takes one step, and the devices run for an extra cycle.
pub proof fn blocks_are_entered_where_they_fit(j: JitState, s: CpuState, e: BlockEntry, log: DevLog)
    requires
        j.count < j.limit,
    ensures
        ({
            let turn = j.entered(s, e, log);
            let (t, out) = stepped(s, log);
            if j.count + e.len <= j.limit {
                turn == Turn::Act(
                    JitState { wait: Wait::Returned { len: e.len }, ..j },
                    s,
                    ActionView::Call(e.func),
                )
            } else {
                let k = JitState { count: (j.count + 1) as u64, wait: Wait::Nothing, ..j };
                match out {
                    OutView::Error(x) => turn == Turn::Act(k, t, ActionView::Done(Err(x))),
                    _ => turn == Turn::Again(
                        k,
                        CpuState { mem: t.mem.record(DevEvent::Tick { cycles: 1 }), ..t },
                    ),
                }
            }
        }),
{
}

/// A block that returned counts its instructions towards the run, the cycles
/// and the engine's total, and the devices run for as many cycles.
pub proof fn returned_blocks_are_counted(j: JitState, s: CpuState, log: DevLog, len: u32)
    requires
        j.wait == (Wait::Returned { len }),
        j.count + len <= j.limit,
    ensures
        j.on_returned(s, 0, log) == Turn::Again(
            JitState {
                count: (j.count + len) as u64,
                instructions_run: j.instructions_run.wrapping_add(len as u64),
                wait: Wait::Nothing,
                ..j
            },
            CpuState {
                cycles: s.cycles.wrapping_add(len as u64),
                mem: s.mem.record(DevEvent::Tick { cycles: len as u64 }),
                ..s
            },
        ),
{
}

/// A block that was compiled is found again under its place while the state is
/// the same, and not under another state; the count of compiled blocks goes up
/// by one. Where more than 32768 blocks are kept they all go, else the others
/// stay.
pub proof fn compiled_blocks_are_kept(j: JitState, key: u64, e: BlockEntry, other: u64)
    ensures
        j.compiled.dom().len() > 32768 ==> j.cached(key, e).compiled.dom() == set![key],
        j.cached(key, e).fresh(key, e.state) == Some(e),
        other != e.state ==> j.cached(key, e).fresh(key, other) is None,
        j.cached(key, e).blocks_compiled == j.blocks_compiled.wrapping_add(1),
        j.compiled.dom().len() <= 32768 && other != key && j.compiled.contains_key(other)
            ==> j.cached(key, e)
            .compiled.contains_key(other) && j.cached(key, e).compiled[other] == j.compiled[other],
{
    assert(Map::<u64, BlockEntry>::empty().insert(key, e).dom() =~= set![key]);
}

/// What the expressions of compiled code stand for: registers, slots and
/// constants, sums and products modulo 2^32, bits in common and together, shifts,
/// all other bits, signed readings of the low byte and word, and a choice by a
/// number that is not 0.
pub proof fn expressions_compute(a: Box<Expr>, b: Box<Expr>, c: Box<Expr>, f: Frame, v: u32, r: u8)
    ensures
        ({
            let (x, y, z) = (eval(*a, f), eval(*b, f), eval(*c, f));
            &&& eval(Expr::Const(v), f) == v
            &&& eval(Expr::Reg(r), f) == f.regs[r as int]
            &&& eval(Expr::Slot(r), f) == f.slots[r as int]
            &&& eval(Expr::Add(a, b), f) == (x + y) % 0x1_0000_0000
            &&& eval(Expr::Mul(a, b), f) == (x * y) % 0x1_0000_0000
            &&& eval(Expr::And(a, b), f) == x & y
            &&& eval(Expr::Or(a, b), f) == x | y
            &&& eval(Expr::Shl(a, v), f) == x << v
            &&& eval(Expr::Shr(a, v), f) == x >> v
            &&& eval(Expr::Not(a), f) == 0xFFFF_FFFF - x
            &&& eval(Expr::Sext8(a), f) == (if x % 0x100 < 0x80 {
                (x % 0x100) as int
            } else {
                x % 0x100 + 0xFFFF_FF00
            })
            &&& eval(Expr::Sext16(a), f) == (if x % 0x1_0000 < 0x8000 {
                (x % 0x1_0000) as int
            } else {
                x % 0x1_0000 + 0xFFFF_0000
            })
            &&& eval(Expr::Select(c, a, b), f) == (if z == 0 {
                y
            } else {
                x
            })
        }),
{
    reveal_with_fuel(eval, 2);
    lemma_word_facts(eval(*a, f), 0, 0, 0, 0, 0);
    let (x, y) = (eval(*a, f), eval(*b, f));
    assert(x.wrapping_add(y) == (x + y) % 0x1_0000_0000);
    assert(x.wrapping_mul(y) == (x * y) % 0x1_0000_0000);
}

/// The numbers of widths, operations, conditions, shifts, accesses and prefixes in
/// helper calls.
pub proof fn helper_calls_are_numbered(n: u64)
    ensures
        bits_numbered(0) == Bits::B8 && bits_numbered(1) == Bits::B16 && bits_numbered(2) == Bits::B32,
        alu_numbered(0) == AluOp::Add && alu_numbered(1) == AluOp::Or && alu_numbered(2) == AluOp::Adc
            && alu_numbered(3) == AluOp::Sbb && alu_numbered(4) == AluOp::And && alu_numbered(5)
            == AluOp::Sub && alu_numbered(6) == AluOp::Xor && alu_numbered(7) == AluOp::Cmp,
        n < 16 ==> cond_numbered(n) == Cond::of(n as u8),
        shift_numbered(0) == ShiftKind::Rol && shift_numbered(1) == ShiftKind::Ror && shift_numbered(2)
            == ShiftKind::Rcl && shift_numbered(3) == ShiftKind::Rcr && shift_numbered(4)
            == ShiftKind::Shl && shift_numbered(5) == ShiftKind::Shr && shift_numbered(6)
            == ShiftKind::Sar,
        kind_numbered(0) == AccessKind::Read && kind_numbered(1) == AccessKind::Write
            && kind_numbered(2) == AccessKind::Rmw,
        rep_numbered(0) == Rep::Single && rep_numbered(1) == Rep::Z && rep_numbered(2) == Rep::NZ,
{
}

} // verus!
