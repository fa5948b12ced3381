//! Instructions, steps and runs at two times.

use vstd::prelude::*;

use crate::cpu::{AccessKind, CpuState, OutView};
use crate::decode::{Insn, Op, decoded_is_well_formed, decoding_depends_on_code_alone};
use crate::flag::{IF, on};
use crate::interp::{ran, stepped};
use crate::jit::correct::drops_fault;
use crate::laws::clock::compute::{
    clock_alu, clock_bit, clock_div, clock_dshift, clock_imul, clock_mov, clock_movx, clock_mul,
    clock_shift, clock_test, clock_unary,
};
use crate::laws::clock::control::{
    clock_bound, clock_call, clock_cmov, clock_enter, clock_hlt, clock_int, clock_into, clock_iret,
    clock_jcc, clock_jcxz, clock_jump, clock_lea, clock_leave, clock_loop, clock_pop, clock_popa,
    clock_popf, clock_push, clock_pusha, clock_pushf, clock_ret, clock_setcc, clock_xchg,
};
use crate::laws::clock::segment::{
    clock_arpl, clock_far_load, clock_inspect, clock_lldt, clock_lmsw, clock_load_table, clock_ltr,
    clock_mov_cr, clock_mov_dr, clock_mov_from_sreg, clock_mov_to_sreg, clock_pop_seg,
    clock_store_system, clock_store_table, clock_verify,
};
use crate::laws::clock::misc::{
    clock_bswap, clock_decimal, clock_exchange_if_equal, clock_in, clock_out, clock_register,
    clock_string, clock_xadd, clock_xlat,
};
use crate::laws::clock::{clock_assign, clock_operand};
use crate::mem::DevLog;
use crate::sem::exec::{delivered, instruction_done, performed};
use crate::sem::string::StrOp;

verus! {

/// An operation of arithmetic or a move.
spec fn computes(op: Op) -> bool {
    op is Alu || op is Inc || op is Dec || op is Neg || op is Not || op is Mul || op is Imul
    || op is Div || op is Idiv || op is Imul1 || op is Shift || op is Dshift || op is Test
    || op is Bit || op is Mov || op is Movzx || op is Movsx
}

proof fn computing_ignores_the_clock(s: CpuState, c: u64, i: Insn, log: DevLog)
    requires
        i.wf(),
        computes(i.op),
    ensures
        performed(s.clocked(c), i, log) == performed(s, i, log).clocked(c),
        s.carries(performed(s, i, log).s),
{
    reveal(performed);
    match i.op {
        Op::Alu(op) => clock_alu(s, c, i, op),
        Op::Inc | Op::Dec | Op::Neg | Op::Not => clock_unary(s, c, i),
        Op::Mul => clock_mul(s, c, i, false),
        Op::Imul => clock_mul(s, c, i, true),
        Op::Div => clock_div(s, c, i, false),
        Op::Idiv => clock_div(s, c, i, true),
        Op::Imul1 => clock_imul(s, c, i),
        Op::Shift(kind, by) => clock_shift(s, c, i, kind, by),
        Op::Dshift(left, by) => clock_dshift(s, c, i, left, by),
        Op::Test => clock_test(s, c, i),
        Op::Bit(op) => clock_bit(s, c, i, op),
        Op::Mov => clock_mov(s, c, i),
        Op::Movzx(from8) => clock_movx(s, c, i, from8, false),
        Op::Movsx(from8) => clock_movx(s, c, i, from8, true),
        _ => {},
    }
}

/// An operation of the stack, a jump or an interrupt.
spec fn transfers(op: Op) -> bool {
    op is Lea || op is Xchg || op is Cmov || op is Setcc || op is Push || op is Pop || op is PushF
    || op is PopF || op is PushA || op is PopA || op is Call || op is Jump || op is Ret || op is Jcc
    || op is Loop || op is Jcxz || op is Int || op is Int3 || op is Into || op is Bound
    || op is Iret || op is Hlt || op is Enter || op is Leave
}

proof fn transfers_ignore_the_clock(s: CpuState, c: u64, i: Insn, log: DevLog)
    requires
        i.wf(),
        transfers(i.op),
    ensures
        performed(s.clocked(c), i, log) == performed(s, i, log).clocked(c),
        !(i.op is Hlt) ==> s.carries(performed(s, i, log).s),
        s.keeps(performed(s, i, log).s),
{
    reveal(performed);
    match i.op {
        Op::Lea => clock_lea(s, c, i),
        Op::Xchg => clock_xchg(s, c, i),
        Op::Cmov(k) => clock_cmov(s, c, i, k),
        Op::Setcc(k) => clock_setcc(s, c, i, k),
        Op::Push => clock_push(s, c, i),
        Op::Pop => clock_pop(s, c, i),
        Op::PushF => clock_pushf(s, c, i),
        Op::PopF => clock_popf(s, c, i),
        Op::PushA => clock_pusha(s, c, i),
        Op::PopA => clock_popa(s, c, i),
        Op::Call { far } => clock_call(s, c, i, far),
        Op::Jump { far } => clock_jump(s, c, i, far),
        Op::Ret { far, imm } => clock_ret(s, c, i, far, imm),
        Op::Jcc(k) => clock_jcc(s, c, i, k),
        Op::Loop(kind) => clock_loop(s, c, i, kind),
        Op::Jcxz => clock_jcxz(s, c, i),
        Op::Int(v) => clock_int(s, c, i, v),
        Op::Int3 => clock_int(s, c, i, 3),
        Op::Into => clock_into(s, c, i),
        Op::Bound => clock_bound(s, c, i),
        Op::Iret => clock_iret(s, c, i),
        Op::Hlt => clock_hlt(s, c, i),
        Op::Enter(frame, level) => clock_enter(s, c, i, frame, level),
        Op::Leave => clock_leave(s, c, i),
        _ => {},
    }
}

/// An operation on segments or system registers.
spec fn segments(op: Op) -> bool {
    op is MovRm2Sreg || op is MovSreg2Rm || op is PopSeg || op is Lss || op is Lds || op is Les
    || op is Lfs || op is Lgs || op is Lar || op is Lsl || op is VErr || op is Arpl || op is Lgdt
    || op is Lidt || op is Sgdt || op is Sidt || op is Lldt || op is Ltr || op is Sldt || op is Str
    || op is Smsw || op is Lmsw || op is MovCr || op is MovDr
}

proof fn segments_ignore_the_clock(s: CpuState, c: u64, i: Insn, log: DevLog)
    requires
        i.wf(),
        segments(i.op),
    ensures
        performed(s.clocked(c), i, log) == performed(s, i, log).clocked(c),
        s.carries(performed(s, i, log).s),
{
    reveal(performed);
    match i.op {
        Op::MovRm2Sreg => clock_mov_to_sreg(s, c, i),
        Op::MovSreg2Rm => clock_mov_from_sreg(s, c, i),
        Op::PopSeg(seg) => clock_pop_seg(s, c, i, seg),
        Op::Lss | Op::Lds | Op::Les | Op::Lfs | Op::Lgs => clock_far_load(s, c, i),
        Op::Lar | Op::Lsl => clock_inspect(s, c, i),
        Op::VErr(read) => clock_verify(s, c, i, read),
        Op::Arpl => clock_arpl(s, c, i),
        Op::Lgdt | Op::Lidt => clock_load_table(s, c, i),
        Op::Sgdt | Op::Sidt => clock_store_table(s, c, i),
        Op::Lldt => clock_lldt(s, c, i),
        Op::Ltr => clock_ltr(s, c, i),
        Op::Sldt | Op::Str | Op::Smsw => clock_store_system(s, c, i),
        Op::Lmsw => clock_lmsw(s, c, i),
        Op::MovCr => clock_mov_cr(s, c, i),
        Op::MovDr => clock_mov_dr(s, c, i),
        _ => {},
    }
}

/// The other operations.
proof fn others_ignore_the_clock(s: CpuState, c: u64, i: Insn, log: DevLog)
    requires
        !computes(i.op),
        !transfers(i.op),
        !segments(i.op),
        i.wf(),
        !(i.op is Rdtsc),
    ensures
        performed(s.clocked(c), i, log) == performed(s, i, log).clocked(c),
        s.carries(performed(s, i, log).s),
{
    reveal(performed);
    match i.op {
        Op::Movs(bits) => clock_string(s, c, i, StrOp::Movs, bits, log),
        Op::Stos(bits) => clock_string(s, c, i, StrOp::Stos, bits, log),
        Op::Lods(bits) => clock_string(s, c, i, StrOp::Lods, bits, log),
        Op::Cmps(bits) => clock_string(s, c, i, StrOp::Cmps, bits, log),
        Op::Scas(bits) => clock_string(s, c, i, StrOp::Scas, bits, log),
        Op::Ins(bits) => clock_string(s, c, i, StrOp::Ins, bits, log),
        Op::Outs(bits) => clock_string(s, c, i, StrOp::Outs, bits, log),
        Op::Xlat => clock_xlat(s, c, i),
        Op::In => clock_in(s, c, i, log),
        Op::Out => clock_out(s, c, i),
        Op::Bswap => clock_bswap(s, c, i),
        Op::Xadd => clock_xadd(s, c, i),
        Op::CmpXchg => clock_exchange_if_equal(s, c, i),
        Op::Daa | Op::Das | Op::Aaa | Op::Aas | Op::Aam | Op::Aad => clock_decimal(s, c, i.op),
        Op::Cli | Op::Sti | Op::Cld | Op::Std | Op::Clc | Op::Stc | Op::Cmc => {},
        Op::Unsupported(_) | Op::TwoByte(_) => {},
        _ => clock_register(s, c, i),
    }
}

/// No instruction but RDTSC depends on the cycle counter, and none changes it.
pub proof fn instructions_ignore_the_clock(s: CpuState, c: u64, i: Insn, log: DevLog)
    requires
        i.wf(),
        !(i.op is Rdtsc),
    ensures
        performed(s.clocked(c), i, log) == performed(s, i, log).clocked(c),
        s.keeps(performed(s, i, log).s),
        !(i.op is Hlt) ==> s.carries(performed(s, i, log).s),
{
    if computes(i.op) {
        computing_ignores_the_clock(s, c, i, log);
    } else if transfers(i.op) {
        transfers_ignore_the_clock(s, c, i, log);
    } else if segments(i.op) {
        segments_ignore_the_clock(s, c, i, log);
    } else {
        others_ignore_the_clock(s, c, i, log);
    }
}

// ---------------------------------------------------------------------------
// Steps and runs
// ---------------------------------------------------------------------------

/// The log where there is no device.
pub open spec fn silent() -> DevLog {
    None
}

impl CpuState {
    /// The states are the same but for the cycle counter.
    pub open spec fn but_for_clock(self, t: CpuState) -> bool {
        t == self.clocked(t.cycles)
    }

    /// There is no device and no interrupt to come, and the CPU waits only where
    /// an interrupt could wake it.
    pub open spec fn quiet(self) -> bool {
        &&& self.wf()
        &&& self.mem.dev is None
        &&& self.pending_irq is None
        &&& self.halted ==> on(self.eflags, IF)
    }

    /// RDTSC is next.
    pub open spec fn reads_clock(self) -> bool {
        !self.halted && (self.decoded() matches Ok(i) && i.op is Rdtsc)
    }
}

/// What the next instruction does, at two times.
pub proof fn instruction_ignores_the_clock(s: CpuState, t: CpuState)
    requires
        s.but_for_clock(t),
        s.quiet(),
        !s.halted,
        !s.reads_clock(),
    ensures
        s.decoded() == t.decoded(),
        ({
            let (u, o) = instruction_done(s, silent());
            let (v, p) = instruction_done(t, silent());
            u.but_for_clock(v) && o == p && u.quiet() && u.cycles == s.cycles && v.cycles
                == t.cycles
        }),
{
    reveal(instruction_done);
    decoding_depends_on_code_alone(s, t);
    decoded_is_well_formed(s);
    if let Ok(i) = s.decoded() {
        instructions_ignore_the_clock(s, t.cycles, i, silent());
        instructions_ignore_the_clock(s, s.cycles, i, silent());
        assert(s.clocked(s.cycles) == s);
        assert(s.clocked(t.cycles) == t);
    }
}

/// Without a device and a pending interrupt nothing comes between instructions.
pub proof fn nothing_is_delivered(s: CpuState)
    requires
        s.quiet(),
    ensures
        delivered(s, silent()) == (
            s,
            if s.halted {
                Some(OutView::Continue)
            } else {
                None
            },
        ),
{
    reveal(delivered);
}

/// A step of the interpreter, at two times.
pub proof fn steps_ignore_the_clock(s: CpuState, t: CpuState)
    requires
        s.but_for_clock(t),
        s.quiet(),
        !s.reads_clock(),
    ensures
        ({
            let (u, o) = stepped(s, silent());
            let (v, p) = stepped(t, silent());
            u.but_for_clock(v) && o == p && u.quiet()
        }),
{
    reveal(stepped);
    nothing_is_delivered(s);
    nothing_is_delivered(t);
    if !s.halted {
        let s1 = CpuState { cycles: s.cycles.wrapping_add(1), ..s };
        let t1 = CpuState { cycles: t.cycles.wrapping_add(1), ..t };
        decoding_depends_on_code_alone(s, s1);
        instruction_ignores_the_clock(s1, t1);
    }
}

/// Runs of the interpreter at two times leave the same states but for the cycle
/// counter, if no instruction reads it.
pub proof fn runs_ignore_the_clock(s: CpuState, t: CpuState, n: nat)
    requires
        s.but_for_clock(t),
        s.quiet(),
        forall|k: nat| k < n ==> !(#[trigger] ran(s, k, silent())).0.reads_clock(),
    ensures
        ran(s, n, silent()).0.but_for_clock(ran(t, n, silent()).0),
        ran(s, n, silent()).1 == ran(t, n, silent()).1,
        ran(s, n, silent()).0.quiet(),
    decreases n,
{
    if n > 0 {
        assert(ran(s, 0, silent()).0 == s);
        steps_ignore_the_clock(s, t);
        let (u, o) = stepped(s, silent());
        if !(o is Error) {
            assert forall|k: nat| k < n - 1 implies !(#[trigger] ran(
                u,
                k,
                silent(),
            )).0.reads_clock() by {
                assert(ran(s, k + 1, silent()) == ran(u, k, silent()));
            }
            runs_ignore_the_clock(u, stepped(t, silent()).0, (n - 1) as nat);
        }
    }
}

/// Whether the fault of a write is dropped, at two times.
pub proof fn dropped_faults_ignore_the_clock(s: CpuState, c: u64, i: Insn)
    ensures
        drops_fault(s.clocked(c), i) == drops_fault(s, i),
{
    broadcast use {clock_operand, clock_assign};

    reveal(drops_fault);
    let o = i.o0;
    if exists|v: u32| (#[trigger] s.assign(o, v, AccessKind::Write)).1 is Err {
        let v = choose|v: u32| (#[trigger] s.assign(o, v, AccessKind::Write)).1 is Err;
        assert(s.clocked(c).assign(o, v, AccessKind::Write).1 is Err);
    }
}

} // verus!
