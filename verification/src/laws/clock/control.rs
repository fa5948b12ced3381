//! The stack, jumps and interrupts.

use vstd::prelude::*;

use crate::cpu::{AccessKind, CpuState};
use crate::decode::{Cond, Insn, Opnd};
use crate::flag::{IF, on};
use crate::laws::clock::{
    clock_frame_links, clock_interrupted, clock_load, clock_operand, clock_popped_all,
    clock_pushed_all, group_memory, group_operands,
};
use crate::sem::control::{
    do_bound, do_call, do_cmov, do_enter, do_hlt, do_int, do_into, do_iret, do_jcc, do_jcxz,
    do_jump, do_lea, do_leave, do_loop, do_pop, do_popa, do_popf, do_push, do_pusha, do_pushf,
    do_ret, do_setcc, do_xchg,
};

verus! {

pub proof fn clock_lea(s: CpuState, c: u64, i: Insn)
    requires
        i.wf(),
    ensures
        do_lea(s.clocked(c), i) == do_lea(s, i).clocked(c),
        s.carries(do_lea(s, i).s),
{
    broadcast use group_operands;

    reveal(do_lea);
}

pub proof fn clock_xchg(s: CpuState, c: u64, i: Insn)
    requires
        i.wf(),
    ensures
        do_xchg(s.clocked(c), i) == do_xchg(s, i).clocked(c),
        s.carries(do_xchg(s, i).s),
{
    broadcast use group_operands;

    reveal(do_xchg);
}

pub proof fn clock_cmov(s: CpuState, c: u64, i: Insn, k: Cond)
    requires
        i.wf(),
    ensures
        do_cmov(s.clocked(c), i, k) == do_cmov(s, i, k).clocked(c),
        s.carries(do_cmov(s, i, k).s),
{
    broadcast use group_operands;

    reveal(do_cmov);
}

pub proof fn clock_setcc(s: CpuState, c: u64, i: Insn, k: Cond)
    requires
        i.wf(),
    ensures
        do_setcc(s.clocked(c), i, k) == do_setcc(s, i, k).clocked(c),
        s.carries(do_setcc(s, i, k).s),
{
    broadcast use group_operands;

    reveal(do_setcc);
}

pub proof fn clock_push(s: CpuState, c: u64, i: Insn)
    requires
        i.wf(),
    ensures
        do_push(s.clocked(c), i) == do_push(s, i).clocked(c),
        s.carries(do_push(s, i).s),
{
    broadcast use group_operands;

    reveal(do_push);
}

pub proof fn clock_pop(s: CpuState, c: u64, i: Insn)
    requires
        i.wf(),
    ensures
        do_pop(s.clocked(c), i) == do_pop(s, i).clocked(c),
        s.carries(do_pop(s, i).s),
{
    broadcast use group_operands;

    reveal(do_pop);
}

pub proof fn clock_pushf(s: CpuState, c: u64, i: Insn)
    requires
        i.wf(),
    ensures
        do_pushf(s.clocked(c), i) == do_pushf(s, i).clocked(c),
        s.carries(do_pushf(s, i).s),
{
    broadcast use group_operands;

    reveal(do_pushf);
}

pub proof fn clock_popf(s: CpuState, c: u64, i: Insn)
    requires
        i.wf(),
    ensures
        do_popf(s.clocked(c), i) == do_popf(s, i).clocked(c),
        s.carries(do_popf(s, i).s),
{
    broadcast use group_operands;

    reveal(do_popf);
}

pub proof fn clock_pusha(s: CpuState, c: u64, i: Insn)
    requires
        i.wf(),
    ensures
        do_pusha(s.clocked(c), i) == do_pusha(s, i).clocked(c),
        s.carries(do_pusha(s, i).s),
{
    broadcast use {group_operands, clock_pushed_all};

    reveal(do_pusha);
}

pub proof fn clock_popa(s: CpuState, c: u64, i: Insn)
    requires
        i.wf(),
    ensures
        do_popa(s.clocked(c), i) == do_popa(s, i).clocked(c),
        s.carries(do_popa(s, i).s),
{
    broadcast use {group_operands, clock_popped_all};

    reveal(do_popa);
}

pub proof fn clock_enter(s: CpuState, c: u64, i: Insn, frame: u16, level: u8)
    requires
        i.wf(),
    ensures
        do_enter(s.clocked(c), i, frame, level) == do_enter(s, i, frame, level).clocked(c),
        s.carries(do_enter(s, i, frame, level).s),
{
    broadcast use {group_operands, clock_frame_links};

    reveal(do_enter);
}

pub proof fn clock_leave(s: CpuState, c: u64, i: Insn)
    requires
        i.wf(),
    ensures
        do_leave(s.clocked(c), i) == do_leave(s, i).clocked(c),
        s.carries(do_leave(s, i).s),
{
    broadcast use group_operands;

    reveal(do_leave);
}

pub proof fn clock_call(s: CpuState, c: u64, i: Insn, far: bool)
    requires
        i.wf(),
    ensures
        do_call(s.clocked(c), i, far) == do_call(s, i, far).clocked(c),
        s.carries(do_call(s, i, far).s),
{
    broadcast use group_operands;

    reveal(do_call);
}

pub proof fn clock_jump(s: CpuState, c: u64, i: Insn, far: bool)
    requires
        i.wf(),
    ensures
        do_jump(s.clocked(c), i, far) == do_jump(s, i, far).clocked(c),
        s.carries(do_jump(s, i, far).s),
{
    broadcast use {group_operands, group_memory};

    reveal(do_jump);
}

pub proof fn clock_ret(s: CpuState, c: u64, i: Insn, far: bool, imm: Option<u16>)
    requires
        i.wf(),
    ensures
        do_ret(s.clocked(c), i, far, imm) == do_ret(s, i, far, imm).clocked(c),
        s.carries(do_ret(s, i, far, imm).s),
{
    broadcast use group_operands;

    reveal(do_ret);
}

pub proof fn clock_jcc(s: CpuState, c: u64, i: Insn, k: Cond)
    requires
        i.wf(),
    ensures
        do_jcc(s.clocked(c), i, k) == do_jcc(s, i, k).clocked(c),
        s.carries(do_jcc(s, i, k).s),
{
    broadcast use group_operands;

    reveal(do_jcc);
}

pub proof fn clock_loop(s: CpuState, c: u64, i: Insn, kind: Option<u8>)
    requires
        i.wf(),
    ensures
        do_loop(s.clocked(c), i, kind) == do_loop(s, i, kind).clocked(c),
        s.carries(do_loop(s, i, kind).s),
{
    broadcast use group_operands;

    reveal(do_loop);
}

pub proof fn clock_jcxz(s: CpuState, c: u64, i: Insn)
    requires
        i.wf(),
    ensures
        do_jcxz(s.clocked(c), i) == do_jcxz(s, i).clocked(c),
        s.carries(do_jcxz(s, i).s),
{
    broadcast use group_operands;

    reveal(do_jcxz);
}

pub proof fn clock_int(s: CpuState, c: u64, i: Insn, vector: u8)
    requires
        i.wf(),
    ensures
        do_int(s.clocked(c), i, vector) == do_int(s, i, vector).clocked(c),
        s.carries(do_int(s, i, vector).s),
{
    broadcast use {group_operands, clock_interrupted};

    reveal(do_int);
}

pub proof fn clock_into(s: CpuState, c: u64, i: Insn)
    requires
        i.wf(),
    ensures
        do_into(s.clocked(c), i) == do_into(s, i).clocked(c),
        s.carries(do_into(s, i).s),
{
    broadcast use group_operands;

    reveal(do_into);
    clock_int(s, c, i, 4);
}

pub proof fn clock_bound(s: CpuState, c: u64, i: Insn)
    requires
        i.wf(),
    ensures
        do_bound(s.clocked(c), i) == do_bound(s, i).clocked(c),
        s.carries(do_bound(s, i).s),
{
    reveal(do_bound);
    clock_operand(s, c, i.o0, AccessKind::Read);
    clock_interrupted(s, c, 5, false, 0);
    if let Opnd::Mem(m, _) = i.o1 {
        let size = i.size().size();
        let at = s.ea(m);
        clock_load(s, c, m.seg, at, size, AccessKind::Read);
        clock_load(s, c, m.seg, at.wrapping_add(size), size, AccessKind::Read);
    }
}

pub proof fn clock_iret(s: CpuState, c: u64, i: Insn)
    requires
        i.wf(),
    ensures
        do_iret(s.clocked(c), i) == do_iret(s, i).clocked(c),
        s.carries(do_iret(s, i).s),
{
    broadcast use {group_operands, clock_popped_all};

    reveal(do_iret);
}

pub proof fn clock_hlt(s: CpuState, c: u64, i: Insn)
    requires
        i.wf(),
    ensures
        do_hlt(s.clocked(c), i) == do_hlt(s, i).clocked(c),
        ({
            let t = do_hlt(s, i).s;
            s.carries(CpuState { halted: s.halted, ..t }) && (t.halted ==> s.halted || on(
                t.eflags,
                IF,
            ))
        }),
{
    broadcast use group_operands;

    reveal(do_hlt);
}

} // verus!
