//! Arithmetic and moves.

use vstd::prelude::*;

use crate::cpu::{AccessKind, CpuState};
use crate::decode::{AluOp, BitOp, Bits, Insn, ShiftBy, ShiftKind};
use crate::laws::clock::{clock_interrupted, clock_operand, group_operands, group_registers};
use crate::sem::arith::{values, wrapped};
use crate::sem::compute::{
    divided, dividend, do_alu, do_bit, do_div, do_dshift, do_imul, do_mov, do_movx, do_mul,
    do_shift, do_test, do_unary, multiplied, product,
};
use crate::sem::operand::width_of;

verus! {

pub proof fn clock_alu(s: CpuState, c: u64, i: Insn, op: AluOp)
    requires
        i.wf(),
    ensures
        do_alu(s.clocked(c), i, op) == do_alu(s, i, op).clocked(c),
        s.carries(do_alu(s, i, op).s),
{
    broadcast use group_operands;

    reveal(do_alu);
}

pub proof fn clock_unary(s: CpuState, c: u64, i: Insn)
    requires
        i.wf(),
    ensures
        do_unary(s.clocked(c), i) == do_unary(s, i).clocked(c),
        s.carries(do_unary(s, i).s),
{
    broadcast use group_operands;

    reveal(do_unary);
}

pub proof fn clock_test(s: CpuState, c: u64, i: Insn)
    requires
        i.wf(),
    ensures
        do_test(s.clocked(c), i) == do_test(s, i).clocked(c),
        s.carries(do_test(s, i).s),
{
    broadcast use group_operands;

    reveal(do_test);
}

proof fn clock_pair(s: CpuState, c: u64, sz: Bits, lo: u32, hi: u32)
    ensures
        s.clocked(c).with_pair(sz, lo, hi) == s.with_pair(sz, lo, hi).clocked(c),
        s.carries(s.with_pair(sz, lo, hi)),
{
    broadcast use group_registers;

}

proof fn clock_multiplied(s: CpuState, c: u64, v: u32, sz: Bits, sgn: bool)
    ensures
        multiplied(s.clocked(c), v, sz, sgn) == multiplied(s, v, sz, sgn).clocked(c),
        s.carries(multiplied(s, v, sz, sgn)),
{
    let p = product(s.gpr_at(0, sz), v, sz, sgn);
    clock_pair(s, c, sz, wrapped(p, sz), wrapped(p / values(sz), sz));
}

pub proof fn clock_mul(s: CpuState, c: u64, i: Insn, sgn: bool)
    requires
        i.wf(),
    ensures
        do_mul(s.clocked(c), i, sgn) == do_mul(s, i, sgn).clocked(c),
        s.carries(do_mul(s, i, sgn).s),
{
    reveal(do_mul);
    clock_operand(s, c, i.o0, AccessKind::Read);
    if let Ok(v) = s.operand(i.o0, AccessKind::Read) {
        clock_multiplied(s, c, v, width_of(i.o0, i.size()), sgn);
    }
}

proof fn clock_divided(s: CpuState, c: u64, v: u32, sz: Bits, sgn: bool)
    ensures
        divided(s.clocked(c), v, sz, sgn) == divided(s, v, sz, sgn),
{
    assert(dividend(s.clocked(c), sz, sgn) == dividend(s, sz, sgn));
}

pub proof fn clock_div(s: CpuState, c: u64, i: Insn, sgn: bool)
    requires
        i.wf(),
    ensures
        do_div(s.clocked(c), i, sgn) == do_div(s, i, sgn).clocked(c),
        s.carries(do_div(s, i, sgn).s),
{
    reveal(do_div);
    clock_operand(s, c, i.o0, AccessKind::Read);
    if let Ok(v) = s.operand(i.o0, AccessKind::Read) {
        let sz = width_of(i.o0, i.size());
        clock_divided(s, c, v, sz, sgn);
        clock_interrupted(s, c, 0, false, 0);
        if let Some((q, r)) = divided(s, v, sz, sgn) {
            clock_pair(s, c, sz, q, r);
        }
    }
}

pub proof fn clock_imul(s: CpuState, c: u64, i: Insn)
    requires
        i.wf(),
    ensures
        do_imul(s.clocked(c), i) == do_imul(s, i).clocked(c),
        s.carries(do_imul(s, i).s),
{
    broadcast use group_operands;

    reveal(do_imul);
}

pub proof fn clock_shift(s: CpuState, c: u64, i: Insn, kind: ShiftKind, by: ShiftBy)
    requires
        i.wf(),
    ensures
        do_shift(s.clocked(c), i, kind, by) == do_shift(s, i, kind, by).clocked(c),
        s.carries(do_shift(s, i, kind, by).s),
{
    broadcast use group_operands;

    reveal(do_shift);
}

pub proof fn clock_dshift(s: CpuState, c: u64, i: Insn, left: bool, by: ShiftBy)
    requires
        i.wf(),
    ensures
        do_dshift(s.clocked(c), i, left, by) == do_dshift(s, i, left, by).clocked(c),
        s.carries(do_dshift(s, i, left, by).s),
{
    broadcast use group_operands;

    reveal(do_dshift);
}

pub proof fn clock_bit(s: CpuState, c: u64, i: Insn, op: BitOp)
    requires
        i.wf(),
    ensures
        do_bit(s.clocked(c), i, op) == do_bit(s, i, op).clocked(c),
        s.carries(do_bit(s, i, op).s),
{
    broadcast use group_operands;

    reveal(do_bit);
}

pub proof fn clock_mov(s: CpuState, c: u64, i: Insn)
    requires
        i.wf(),
    ensures
        do_mov(s.clocked(c), i) == do_mov(s, i).clocked(c),
        s.carries(do_mov(s, i).s),
{
    broadcast use group_operands;

    reveal(do_mov);
}

pub proof fn clock_movx(s: CpuState, c: u64, i: Insn, from8: bool, sgn: bool)
    requires
        i.wf(),
    ensures
        do_movx(s.clocked(c), i, from8, sgn) == do_movx(s, i, from8, sgn).clocked(c),
        s.carries(do_movx(s, i, from8, sgn).s),
{
    broadcast use group_operands;

    reveal(do_movx);
}

} // verus!
