//! Segments and system registers.

use vstd::prelude::*;

use crate::cpu::{CpuState, Seg};
use crate::decode::{Insn};
use crate::laws::clock::{group_memory, group_operands};
use crate::sem::segment::{
    do_arpl, do_far_load, do_inspect, do_lldt, do_lmsw, do_load_table, do_ltr, do_mov_cr,
    do_mov_dr, do_mov_from_sreg, do_mov_to_sreg, do_pop_seg, do_store_system, do_store_table,
    do_verify,
};

verus! {

pub proof fn clock_mov_to_sreg(s: CpuState, c: u64, i: Insn)
    requires
        i.wf(),
    ensures
        do_mov_to_sreg(s.clocked(c), i) == do_mov_to_sreg(s, i).clocked(c),
        s.carries(do_mov_to_sreg(s, i).s),
{
    broadcast use group_operands;

    reveal(do_mov_to_sreg);
}

pub proof fn clock_mov_from_sreg(s: CpuState, c: u64, i: Insn)
    requires
        i.wf(),
    ensures
        do_mov_from_sreg(s.clocked(c), i) == do_mov_from_sreg(s, i).clocked(c),
        s.carries(do_mov_from_sreg(s, i).s),
{
    broadcast use group_operands;

    reveal(do_mov_from_sreg);
}

pub proof fn clock_pop_seg(s: CpuState, c: u64, i: Insn, seg: Seg)
    requires
        i.wf(),
    ensures
        do_pop_seg(s.clocked(c), i, seg) == do_pop_seg(s, i, seg).clocked(c),
        s.carries(do_pop_seg(s, i, seg).s),
{
    broadcast use group_operands;

    reveal(do_pop_seg);
}

pub proof fn clock_far_load(s: CpuState, c: u64, i: Insn)
    requires
        i.wf(),
    ensures
        do_far_load(s.clocked(c), i) == do_far_load(s, i).clocked(c),
        s.carries(do_far_load(s, i).s),
{
    broadcast use {group_operands, group_memory};

    reveal(do_far_load);
}

pub proof fn clock_inspect(s: CpuState, c: u64, i: Insn)
    requires
        i.wf(),
    ensures
        do_inspect(s.clocked(c), i) == do_inspect(s, i).clocked(c),
        s.carries(do_inspect(s, i).s),
{
    broadcast use group_operands;

    reveal(do_inspect);
}

pub proof fn clock_verify(s: CpuState, c: u64, i: Insn, read: bool)
    requires
        i.wf(),
    ensures
        do_verify(s.clocked(c), i, read) == do_verify(s, i, read).clocked(c),
        s.carries(do_verify(s, i, read).s),
{
    broadcast use group_operands;

    reveal(do_verify);
}

pub proof fn clock_arpl(s: CpuState, c: u64, i: Insn)
    requires
        i.wf(),
    ensures
        do_arpl(s.clocked(c), i) == do_arpl(s, i).clocked(c),
        s.carries(do_arpl(s, i).s),
{
    broadcast use group_operands;

    reveal(do_arpl);
}

pub proof fn clock_load_table(s: CpuState, c: u64, i: Insn)
    requires
        i.wf(),
    ensures
        do_load_table(s.clocked(c), i) == do_load_table(s, i).clocked(c),
        s.carries(do_load_table(s, i).s),
{
    broadcast use {group_operands, group_memory};

    reveal(do_load_table);
}

pub proof fn clock_store_table(s: CpuState, c: u64, i: Insn)
    requires
        i.wf(),
    ensures
        do_store_table(s.clocked(c), i) == do_store_table(s, i).clocked(c),
        s.carries(do_store_table(s, i).s),
{
    broadcast use {group_operands, group_memory};

    reveal(do_store_table);
}

pub proof fn clock_lldt(s: CpuState, c: u64, i: Insn)
    requires
        i.wf(),
    ensures
        do_lldt(s.clocked(c), i) == do_lldt(s, i).clocked(c),
        s.carries(do_lldt(s, i).s),
{
    broadcast use group_operands;

    reveal(do_lldt);
}

pub proof fn clock_ltr(s: CpuState, c: u64, i: Insn)
    requires
        i.wf(),
    ensures
        do_ltr(s.clocked(c), i) == do_ltr(s, i).clocked(c),
        s.carries(do_ltr(s, i).s),
{
    broadcast use group_operands;

    reveal(do_ltr);
}

pub proof fn clock_store_system(s: CpuState, c: u64, i: Insn)
    requires
        i.wf(),
    ensures
        do_store_system(s.clocked(c), i) == do_store_system(s, i).clocked(c),
        s.carries(do_store_system(s, i).s),
{
    broadcast use group_operands;

    reveal(do_store_system);
}

pub proof fn clock_lmsw(s: CpuState, c: u64, i: Insn)
    requires
        i.wf(),
    ensures
        do_lmsw(s.clocked(c), i) == do_lmsw(s, i).clocked(c),
        s.carries(do_lmsw(s, i).s),
{
    broadcast use group_operands;

    reveal(do_lmsw);
}

pub proof fn clock_mov_cr(s: CpuState, c: u64, i: Insn)
    requires
        i.wf(),
    ensures
        do_mov_cr(s.clocked(c), i) == do_mov_cr(s, i).clocked(c),
        s.carries(do_mov_cr(s, i).s),
{
    broadcast use group_operands;

    reveal(do_mov_cr);
}

pub proof fn clock_mov_dr(s: CpuState, c: u64, i: Insn)
    requires
        i.wf(),
    ensures
        do_mov_dr(s.clocked(c), i) == do_mov_dr(s, i).clocked(c),
        s.carries(do_mov_dr(s, i).s),
{
    broadcast use group_operands;

    reveal(do_mov_dr);
}

} // verus!
