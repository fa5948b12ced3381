//! The main execution driver (one instruction).

use vstd::prelude::*;
use vstd::string::*;

use crate::cpu::{CpuState, Error, ErrorView, Mode, OutView, StepOut, X86};
use crate::decode::{Decoded, Insn, Op, fetch};
use crate::flag::{IF, on};
use crate::mem::{DevEvent, DevLog, continues, lemma_continues_trans};
use crate::sem::compute::{
    do_alu, do_bit, do_div, do_dshift, do_imul, do_mov, do_movx, do_mul, do_shift, do_test,
    do_unary, exec_alu, exec_bit, exec_div, exec_dshift, exec_imul, exec_mov, exec_movx, exec_mul,
    exec_shift, exec_test, exec_unary,
};
use crate::sem::control::{
    do_bound, do_call, do_cmov, do_enter, do_hlt, do_int, do_into, do_iret, do_jcc, do_jcxz,
    do_jump, do_lea, do_leave, do_loop, do_pop, do_popa, do_popf, do_push, do_pusha, do_pushf,
    do_ret, do_setcc, do_xchg, exec_bound, exec_call, exec_cmov, exec_enter, exec_hlt, exec_int,
    exec_into, exec_iret, exec_jcc, exec_jcxz, exec_jump, exec_lea, exec_leave, exec_loop,
    exec_pop, exec_popa, exec_popf, exec_push, exec_pusha, exec_pushf, exec_ret, exec_setcc,
    exec_xchg,
};
use crate::sem::misc::{
    decimal_op, do_bswap, do_exchange_if_equal, do_in, do_out, do_xadd, do_xlat, exec_bswap,
    exec_decimal, exec_exchange_if_equal, exec_flag, exec_in, exec_out, exec_register, exec_xadd,
    exec_xlat, flag_op, register_op,
};
use crate::sem::segment::{
    do_arpl, do_far_load, do_inspect, do_lldt, do_lmsw, do_load_table, do_ltr, do_mov_cr,
    do_mov_dr, do_mov_from_sreg, do_mov_to_sreg, do_pop_seg, do_store_system, do_store_table,
    do_verify, exec_arpl, exec_far_load, exec_inspect, exec_lldt, exec_lmsw, exec_load_table,
    exec_ltr, exec_mov_cr, exec_mov_dr, exec_mov_from_sreg, exec_mov_to_sreg, exec_pop_seg,
    exec_store_system, exec_store_table, exec_verify,
};
use crate::sem::string::{
    StrOp, do_string, exec_string,
};
use crate::sem::interrupt::dispatch_interrupt;
use crate::sem::operand::{Outcome, ended, goes_on};
use crate::text::{hex2_text, hex_text, to_hex, to_hex2};

verus! {

/// The text that reports an opcode that is not implemented.
pub open spec fn unsupported_text(b: u8, eip: u32) -> Seq<char> {
    "opcode "@ + hex2_text(b as nat) + " at eip "@ + hex_text(eip as nat)
}

/// An opcode that is not implemented.
pub open spec fn do_unsupported(s: CpuState, b: u8) -> Outcome {
    Outcome {
        s,
        out: OutView::Error(ErrorView::Unsupported(unsupported_text(b, s.eip))),
        early: false,
    }
}

fn exec_unsupported(cpu: &X86, b: u8) -> (r: Result<StepOut, StepOut>)
    ensures
        ended(cpu@, r) == do_unsupported(cpu@, b),
{
    let text = "opcode ".to_owned().concat(to_hex2(b as u32).as_str()).concat(" at eip ").concat(
        to_hex(cpu.eip).as_str(),
    );
    Ok(StepOut::Error(Error::Unsupported(text)))
}

/// What the instruction `i` does in the state `s`. Replies of the device are
/// taken from `log`.
#[verifier::opaque]
pub open spec fn performed(s: CpuState, i: Insn, log: DevLog) -> Outcome {
    match i.op {
        Op::Alu(op) => do_alu(s, i, op),
        Op::Inc | Op::Dec | Op::Neg | Op::Not => do_unary(s, i),
        Op::Mul => do_mul(s, i, false),
        Op::Imul => do_mul(s, i, true),
        Op::Div => do_div(s, i, false),
        Op::Idiv => do_div(s, i, true),
        Op::Imul1 => do_imul(s, i),
        Op::Shift(kind, by) => do_shift(s, i, kind, by),
        Op::Dshift(left, by) => do_dshift(s, i, left, by),
        Op::Test => do_test(s, i),
        Op::Bit(op) => do_bit(s, i, op),
        Op::Mov => do_mov(s, i),
        Op::Movzx(from8) => do_movx(s, i, from8, false),
        Op::Movsx(from8) => do_movx(s, i, from8, true),
        Op::Lea => do_lea(s, i),
        Op::Xchg => do_xchg(s, i),
        Op::Cmov(c) => do_cmov(s, i, c),
        Op::Setcc(c) => do_setcc(s, i, c),
        Op::Push => do_push(s, i),
        Op::Pop => do_pop(s, i),
        Op::PushF => do_pushf(s, i),
        Op::PopF => do_popf(s, i),
        Op::PushA => do_pusha(s, i),
        Op::PopA => do_popa(s, i),
        Op::Call { far } => do_call(s, i, far),
        Op::Jump { far } => do_jump(s, i, far),
        Op::Ret { far, imm } => do_ret(s, i, far, imm),
        Op::Jcc(c) => do_jcc(s, i, c),
        Op::Loop(kind) => do_loop(s, i, kind),
        Op::Jcxz => do_jcxz(s, i),
        Op::Movs(bits) => do_string(s, i, StrOp::Movs, bits, log),
        Op::Stos(bits) => do_string(s, i, StrOp::Stos, bits, log),
        Op::Lods(bits) => do_string(s, i, StrOp::Lods, bits, log),
        Op::Cmps(bits) => do_string(s, i, StrOp::Cmps, bits, log),
        Op::Scas(bits) => do_string(s, i, StrOp::Scas, bits, log),
        Op::Ins(bits) => do_string(s, i, StrOp::Ins, bits, log),
        Op::Outs(bits) => do_string(s, i, StrOp::Outs, bits, log),
        Op::Xlat => do_xlat(s, i),
        Op::In => do_in(s, i, log),
        Op::Out => do_out(s, i),
        Op::Int(v) => do_int(s, i, v),
        Op::Int3 => do_int(s, i, 3),
        Op::Into => do_into(s, i),
        Op::Bound => do_bound(s, i),
        Op::Iret => do_iret(s, i),
        Op::Hlt => do_hlt(s, i),
        Op::Cli | Op::Sti | Op::Cld | Op::Std | Op::Clc | Op::Stc | Op::Cmc => goes_on(
            s.with_flags(flag_op(s.eflags, i.op)),
            s.next(i),
        ),
        Op::MovRm2Sreg => do_mov_to_sreg(s, i),
        Op::MovSreg2Rm => do_mov_from_sreg(s, i),
        Op::PopSeg(seg) => do_pop_seg(s, i, seg),
        Op::Lss | Op::Lds | Op::Les | Op::Lfs | Op::Lgs => do_far_load(s, i),
        Op::Lar | Op::Lsl => do_inspect(s, i),
        Op::VErr(read) => do_verify(s, i, read),
        Op::Arpl => do_arpl(s, i),
        Op::Lgdt | Op::Lidt => do_load_table(s, i),
        Op::Sgdt | Op::Sidt => do_store_table(s, i),
        Op::Lldt => do_lldt(s, i),
        Op::Ltr => do_ltr(s, i),
        Op::Sldt | Op::Str | Op::Smsw => do_store_system(s, i),
        Op::Lmsw => do_lmsw(s, i),
        Op::MovCr => do_mov_cr(s, i),
        Op::MovDr => do_mov_dr(s, i),
        Op::Bswap => do_bswap(s, i),
        Op::Xadd => do_xadd(s, i),
        Op::CmpXchg => do_exchange_if_equal(s, i),
        Op::Daa | Op::Das | Op::Aaa | Op::Aas | Op::Aam | Op::Aad => goes_on(
            decimal_op(s, i.op),
            s.next(i),
        ),
        Op::Enter(frame, level) => do_enter(s, i, frame, level),
        Op::Leave => do_leave(s, i),
        Op::Unsupported(b) => do_unsupported(s, b),
        Op::TwoByte(b) => do_unsupported(s, b),
        _ => goes_on(register_op(s, i), s.next(i)),
    }
}

impl Outcome {
    /// The state and the result behind an instruction: EIP has 16 bits outside
    /// 32-bit code, unless the instruction was left early.
    pub open spec fn settled(self) -> (CpuState, OutView) {
        if self.early || self.s.mode() == Mode::Protected32 {
            (self.s, self.out)
        } else {
            (self.s.with_eip((self.s.eip % 0x1_0000) as u32), self.out)
        }
    }
}

/// The state and the result after the instruction `i`.
pub open spec fn executed(s: CpuState, i: Insn, log: DevLog) -> (CpuState, OutView) {
    performed(s, i, log).settled()
}

fn perform(cpu: &mut X86, d: &Decoded) -> (r: Result<StepOut, StepOut>)
    requires
        d@.wf(),
    ensures
        continues(final(cpu)@.mem.dev, old(cpu)@.mem.dev),
        forall|log: DevLog|
            continues(log, final(cpu)@.mem.dev) ==> (#[trigger] performed(old(cpu)@, d@, log))
                == ended(final(cpu)@, r),
{
    proof {
        reveal(performed);
    }
    match d.op {
        Op::Alu(op) => exec_alu(cpu, d, op),
        Op::Inc | Op::Dec | Op::Neg | Op::Not => exec_unary(cpu, d),
        Op::Mul => exec_mul(cpu, d, false),
        Op::Imul => exec_mul(cpu, d, true),
        Op::Div => exec_div(cpu, d, false),
        Op::Idiv => exec_div(cpu, d, true),
        Op::Imul1 => exec_imul(cpu, d),
        Op::Shift(kind, by) => exec_shift(cpu, d, kind, by),
        Op::Dshift(left, by) => exec_dshift(cpu, d, left, by),
        Op::Test => exec_test(cpu, d),
        Op::Bit(op) => exec_bit(cpu, d, op),
        Op::Mov => exec_mov(cpu, d),
        Op::Movzx(from8) => exec_movx(cpu, d, from8, false),
        Op::Movsx(from8) => exec_movx(cpu, d, from8, true),
        Op::Lea => exec_lea(cpu, d),
        Op::Xchg => exec_xchg(cpu, d),
        Op::Cmov(c) => exec_cmov(cpu, d, c),
        Op::Setcc(c) => exec_setcc(cpu, d, c),
        Op::Push => exec_push(cpu, d),
        Op::Pop => exec_pop(cpu, d),
        Op::PushF => exec_pushf(cpu, d),
        Op::PopF => exec_popf(cpu, d),
        Op::PushA => exec_pusha(cpu, d),
        Op::PopA => exec_popa(cpu, d),
        Op::Call { far } => exec_call(cpu, d, far),
        Op::Jump { far } => exec_jump(cpu, d, far),
        Op::Ret { far, imm } => exec_ret(cpu, d, far, imm),
        Op::Jcc(c) => exec_jcc(cpu, d, c),
        Op::Loop(kind) => exec_loop(cpu, d, kind),
        Op::Jcxz => exec_jcxz(cpu, d),
        Op::Movs(bits) => exec_string(cpu, d, StrOp::Movs, bits),
        Op::Stos(bits) => exec_string(cpu, d, StrOp::Stos, bits),
        Op::Lods(bits) => exec_string(cpu, d, StrOp::Lods, bits),
        Op::Cmps(bits) => exec_string(cpu, d, StrOp::Cmps, bits),
        Op::Scas(bits) => exec_string(cpu, d, StrOp::Scas, bits),
        Op::Ins(bits) => exec_string(cpu, d, StrOp::Ins, bits),
        Op::Outs(bits) => exec_string(cpu, d, StrOp::Outs, bits),
        Op::Xlat => exec_xlat(cpu, d),
        Op::In => exec_in(cpu, d),
        Op::Out => exec_out(cpu, d),
        Op::Int(v) => exec_int(cpu, d, v),
        Op::Int3 => exec_int(cpu, d, 3),
        Op::Into => exec_into(cpu, d),
        Op::Bound => exec_bound(cpu, d),
        Op::Iret => exec_iret(cpu, d),
        Op::Hlt => exec_hlt(cpu, d),
        Op::Cli | Op::Sti | Op::Cld | Op::Std | Op::Clc | Op::Stc | Op::Cmc => exec_flag(cpu, d),
        Op::MovRm2Sreg => exec_mov_to_sreg(cpu, d),
        Op::MovSreg2Rm => exec_mov_from_sreg(cpu, d),
        Op::PopSeg(seg) => exec_pop_seg(cpu, d, seg),
        Op::Lss | Op::Lds | Op::Les | Op::Lfs | Op::Lgs => exec_far_load(cpu, d),
        Op::Lar | Op::Lsl => exec_inspect(cpu, d),
        Op::VErr(read) => exec_verify(cpu, d, read),
        Op::Arpl => exec_arpl(cpu, d),
        Op::Lgdt | Op::Lidt => exec_load_table(cpu, d),
        Op::Sgdt | Op::Sidt => exec_store_table(cpu, d),
        Op::Lldt => exec_lldt(cpu, d),
        Op::Ltr => exec_ltr(cpu, d),
        Op::Sldt | Op::Str | Op::Smsw => exec_store_system(cpu, d),
        Op::Lmsw => exec_lmsw(cpu, d),
        Op::MovCr => exec_mov_cr(cpu, d),
        Op::MovDr => exec_mov_dr(cpu, d),
        Op::Bswap => exec_bswap(cpu, d),
        Op::Xadd => exec_xadd(cpu, d),
        Op::CmpXchg => exec_exchange_if_equal(cpu, d),
        Op::Daa | Op::Das | Op::Aaa | Op::Aas | Op::Aam | Op::Aad => exec_decimal(cpu, d),
        Op::Enter(frame, level) => exec_enter(cpu, d, frame, level),
        Op::Leave => exec_leave(cpu, d),
        Op::Unsupported(b) => exec_unsupported(cpu, b),
        Op::TwoByte(b) => exec_unsupported(cpu, b),
        _ => exec_register(cpu, d),
    }
}

/// Execute a decoded instruction.
pub fn exec(cpu: &mut X86, d: &Decoded) -> (out: StepOut)
    requires
        d@.wf(),
    ensures
        continues(final(cpu)@.mem.dev, old(cpu)@.mem.dev),
        forall|log: DevLog|
            continues(log, final(cpu)@.mem.dev) ==> (#[trigger] executed(old(cpu)@, d@, log)) == (
                final(cpu)@,
                out@,
            ),
{
    match perform(cpu, d) {
        Err(out) => out,
        Ok(out) => {
            if !matches!(cpu.mode(), Mode::Protected32) {
                cpu.eip = cpu.eip % 0x1_0000;
            }
            out
        },
    }
}

/// What the next instruction does, fetch and decoding included.
#[verifier::opaque]
pub open spec fn instruction_done(s: CpuState, log: DevLog) -> (CpuState, OutView) {
    match s.decoded() {
        Err(e) => (s, OutView::Error(ErrorView::Unsupported(e))),
        Ok(i) => executed(s, i, log),
    }
}

/// Fetch, decode and execute one instruction.
pub fn step(cpu: &mut X86) -> (out: StepOut)
    ensures
        continues(final(cpu)@.mem.dev, old(cpu)@.mem.dev),
        forall|log: DevLog|
            continues(log, final(cpu)@.mem.dev) ==> (#[trigger] instruction_done(old(cpu)@, log))
                == (final(cpu)@, out@),
{
    proof {
        reveal(instruction_done);
    }
    match fetch(cpu) {
        Ok(d) => exec(cpu, &d),
        Err(e) => StepOut::Error(Error::Unsupported(e)),
    }
}

/// The vector of the interrupt that is due, and the state once it is taken off:
/// the pending one, else what the device acknowledges.
pub open spec fn vector_taken(s: CpuState, log: DevLog) -> (CpuState, Option<u8>) {
    match s.pending_irq {
        Some(v) => (CpuState { pending_irq: None, ..s }, Some(v)),
        None => {
            let v = s.mem.ack_reply(log);
            (s.with_mem(s.mem.record(DevEvent::Ack { vector: v })), v)
        },
    }
}

/// Interrupt delivery between instructions. With IF set an interrupt that is due
/// is taken and wakes the CPU. A halted CPU otherwise waits, while the devices
/// run; with IF clear it can never wake. `None` where an instruction is next.
#[verifier::opaque]
pub open spec fn delivered(s: CpuState, log: DevLog) -> (CpuState, Option<OutView>) {
    if on(s.eflags, IF) {
        let (t, v) = vector_taken(s, log);
        match v {
            Some(vector) => {
                let (u, out) = CpuState { halted: false, ..t }.interrupted(vector, false, 0);
                (u, Some(out))
            },
            None => if s.halted {
                (t.with_mem(t.mem.record(DevEvent::Tick { cycles: 1 })), Some(OutView::Continue))
            } else {
                (t, None)
            },
        }
    } else if s.halted {
        (s, Some(OutView::Error(ErrorView::Halt)))
    } else {
        (s, None)
    }
}

/// An optional outcome by its view.
pub open spec fn maybe_out(o: Option<StepOut>) -> Option<OutView> {
    match o {
        Some(out) => Some(out@),
        None => None,
    }
}

fn take_vector(cpu: &mut X86) -> (v: Option<u8>)
    ensures
        continues(final(cpu)@.mem.dev, old(cpu)@.mem.dev),
        forall|log: DevLog|
            continues(log, final(cpu)@.mem.dev) ==> (#[trigger] vector_taken(old(cpu)@, log)) == (
                final(cpu)@,
                v,
            ),
{
    match cpu.pending_irq.take() {
        Some(v) => Some(v),
        None => cpu.mem.ack_irq(),
    }
}

/// Deliver a maskable interrupt that is due, or wait for one where the CPU is
/// halted. `None` where an instruction is next.
pub fn deliver_maskable_interrupt(cpu: &mut X86) -> (r: Option<StepOut>)
    ensures
        continues(final(cpu)@.mem.dev, old(cpu)@.mem.dev),
        forall|log: DevLog|
            continues(log, final(cpu)@.mem.dev) ==> (#[trigger] delivered(old(cpu)@, log)) == (
                final(cpu)@,
                maybe_out(r),
            ),
{
    proof {
        reveal(delivered);
    }
    if cpu.eflags & IF == 0 {
        if cpu.halted {
            return Some(StepOut::Error(Error::Halt));
        }
        return None;
    }
    let ghost s = cpu@;
    let v = take_vector(cpu);
    let ghost t = cpu@;
    match v {
        Some(vector) => {
            cpu.halted = false;
            let out = dispatch_interrupt(cpu, vector, false, 0);
            Some(out)
        },
        None => {
            if cpu.halted {
                cpu.mem.tick_device(1);
                proof {
                    lemma_continues_trans(cpu@.mem.dev, t.mem.dev, s.mem.dev);
                    assert forall|log: DevLog| continues(log, cpu@.mem.dev) implies (
                    #[trigger] delivered(s, log)) == (cpu@, Some(OutView::Continue)) by {
                        lemma_continues_trans(log, cpu@.mem.dev, t.mem.dev);
                        assert(vector_taken(s, log) == (t, v));
                    }
                }
                Some(StepOut::Continue)
            } else {
                None
            }
        },
    }
}

} // verus!
