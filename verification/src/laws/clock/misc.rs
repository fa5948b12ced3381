//! Strings, ports and register instructions.

use vstd::prelude::*;

use crate::cpu::CpuState;
use crate::decode::{Bits, Insn, Op};
use crate::laws::clock::{
    clock_string_once, clock_string_rounds, group_memory, group_operands, group_registers,
};
use crate::mem::DevLog;
use crate::sem::misc::{
    decimal_op, do_bswap, do_exchange_if_equal, do_in, do_out, do_xadd, do_xlat, register_op,
};
use crate::sem::string::{StrOp, do_string};

verus! {

pub proof fn clock_bswap(s: CpuState, c: u64, i: Insn)
    requires
        i.wf(),
    ensures
        do_bswap(s.clocked(c), i) == do_bswap(s, i).clocked(c),
        s.carries(do_bswap(s, i).s),
{
    broadcast use group_operands;

    reveal(do_bswap);
}

pub proof fn clock_xadd(s: CpuState, c: u64, i: Insn)
    requires
        i.wf(),
    ensures
        do_xadd(s.clocked(c), i) == do_xadd(s, i).clocked(c),
        s.carries(do_xadd(s, i).s),
{
    broadcast use group_operands;

    reveal(do_xadd);
}

pub proof fn clock_exchange_if_equal(s: CpuState, c: u64, i: Insn)
    requires
        i.wf(),
    ensures
        do_exchange_if_equal(s.clocked(c), i) == do_exchange_if_equal(s, i).clocked(c),
        s.carries(do_exchange_if_equal(s, i).s),
{
    broadcast use group_operands;

    reveal(do_exchange_if_equal);
}

pub proof fn clock_xlat(s: CpuState, c: u64, i: Insn)
    requires
        i.wf(),
    ensures
        do_xlat(s.clocked(c), i) == do_xlat(s, i).clocked(c),
        s.carries(do_xlat(s, i).s),
{
    broadcast use {group_operands, group_memory};

    reveal(do_xlat);
}

pub proof fn clock_in(s: CpuState, c: u64, i: Insn, log: DevLog)
    requires
        i.wf(),
    ensures
        do_in(s.clocked(c), i, log) == do_in(s, i, log).clocked(c),
        s.carries(do_in(s, i, log).s),
{
    broadcast use group_operands;

    reveal(do_in);
}

pub proof fn clock_out(s: CpuState, c: u64, i: Insn)
    requires
        i.wf(),
    ensures
        do_out(s.clocked(c), i) == do_out(s, i).clocked(c),
        s.carries(do_out(s, i).s),
{
    broadcast use group_operands;

    reveal(do_out);
}

pub proof fn clock_string(s: CpuState, c: u64, i: Insn, op: StrOp, bits: Bits, log: DevLog)
    requires
        i.wf(),
    ensures
        do_string(s.clocked(c), i, op, bits, log) == do_string(s, i, op, bits, log).clocked(c),
        s.carries(do_string(s, i, op, bits, log).s),
{
    broadcast use {clock_string_once, clock_string_rounds};

}

pub proof fn clock_decimal(s: CpuState, c: u64, op: Op)
    ensures
        decimal_op(s.clocked(c), op) == decimal_op(s, op).clocked(c),
        s.carries(decimal_op(s, op)),
{
    broadcast use group_registers;

}

pub proof fn clock_register(s: CpuState, c: u64, i: Insn)
    requires
        !(i.op is Rdtsc),
    ensures
        register_op(s.clocked(c), i) == register_op(s, i).clocked(c),
        s.carries(register_op(s, i)),
{
    broadcast use group_registers;

}

} // verus!
