//! Every compiled instruction does what the interpreter does, but for string
//! operations that meet a fault, near calls through a register or memory, and writes
//! whose fault the interpreter drops; see `agrees`.

pub mod block;
pub mod jump;
pub mod plain;
pub mod strings;
pub mod system;

use vstd::prelude::*;

use crate::cpu::{AccessKind, CpuState, OutView};
use crate::decode::{Insn, Op};
use crate::jit::code::{Frame, run};
use crate::jit::plan::part_of_block;
use crate::mem::DevLog;
use crate::jit::correct::jump::{
    lemma_call, lemma_jcc, lemma_jcxz, lemma_jump, lemma_loop, lemma_ret,
};
use crate::jit::correct::plain::{
    lemma_alu, lemma_cmov, lemma_lea, lemma_mov, lemma_movx, lemma_setcc, lemma_shift, lemma_test,
    lemma_unary, lemma_xchg,
};
use crate::jit::correct::strings::lemma_string;
use crate::jit::correct::system::{
    lemma_flag, lemma_in, lemma_nop, lemma_out, lemma_pop, lemma_push, lemma_salc, lemma_xlat,
};
use crate::jit::lower::{following, lowered, string_bits, string_number};
use crate::sem::exec::performed;
use crate::sem::operand::goes_on;
use crate::sem::string::{StrMode, StrOp};

verus! {

/// Whether an operation is a string operation.
pub open spec fn is_string(op: Op) -> bool {
    op is Movs || op is Stos || op is Lods || op is Cmps || op is Scas || op is Ins || op is Outs
}

/// Whether an instruction is a near call through a register or memory.
pub open spec fn calls_operand(i: Insn) -> bool {
    i.op == (Op::Call { far: false }) && (i.o0 is Reg || i.o0 is Mem)
}

/// The state that a near call through its operand leaves in compiled code: the
/// return address is pushed, and execution goes on at the operand. (The
/// interpreter goes on behind such a call.)
#[verifier::opaque]
pub open spec fn called_operand(s: CpuState, t: CpuState, i: Insn, wide: bool) -> bool {
    s.near_target(i) matches Ok(v) && {
        let (u, r) = s.pushed(i.size().size(), s.next(i));
        r is Ok && t == u.with_eip(
            if wide {
                v
            } else {
                (v % 0x1_0000) as u32
            },
        )
    }
}

/// Whether compiled code may leave an instruction to the interpreter although
/// the interpreter completes it: it drops the fault of some writes, and some
/// operands are not compiled.
pub open spec fn may_leave(i: Insn, wide: bool) -> bool {
    ||| i.o0 is Sreg
    ||| i.o1 is Sreg
    ||| (i.op is Xchg || i.op is Cmov || i.op is Movzx || i.op is Movsx || i.op is Lea) && (
    i.o0 is Mem || i.o1 is Mem)
    ||| i.op is In && i.o0 is Mem
    ||| i.op is Out && i.o1 is Mem
    ||| is_string(i.op) && i.a16 == wide
    ||| calls_operand(i)
}

/// Whether a write of the instruction faults and the interpreter goes on over the
/// fault.
#[verifier::opaque]
pub open spec fn drops_fault(s: CpuState, i: Insn) -> bool {
    match i.op {
        Op::Xchg => match (
            s.operand(i.o0, AccessKind::Rmw),
            s.operand(i.o1, AccessKind::Rmw),
        ) {
            (Ok(a), Ok(b)) => {
                let (t, r) = s.assign(i.o0, b, AccessKind::Write);
                r is Err || t.assign(i.o1, a, AccessKind::Write).1 is Err
            },
            _ => false,
        },
        Op::Movzx(_) | Op::Movsx(_) | Op::Lea => exists|v: u32|
            (#[trigger] s.assign(i.o0, v, AccessKind::Write)).1 is Err,
        _ => false,
    }
}

/// The frame `g` left the instruction `i` at `eip` to the interpreter. Either the
/// interpreter stops at the instruction too, and the frame stands for the state
/// that it leaves; or it is an instruction that may be left, and the frame stands
/// for the state before it, but for what a write that the interpreter would drop
/// has done up to its fault.
pub open spec fn left_as_it_was(
    s: CpuState,
    g: Frame,
    i: Insn,
    eip: u32,
    wide: bool,
    log: DevLog,
) -> bool {
    let r = performed(s, i, log);
    let t = g.at(eip);
    ||| r.early && r.out is Error && t == r.s
    ||| may_leave(i, wide) && t == s
    ||| {
        &&& may_leave(i, wide)
        &&& drops_fault(s, i)
        &&& t == (CpuState { gpr: t.gpr, mem: t.mem, ..s })
        &&& i.op is Xchg || t.gpr == s.gpr
    }
}

/// The state after a string instruction that goes on over faults.
pub open spec fn over_faults(s: CpuState, i: Insn, log: DevLog) -> CpuState {
    s.string_done(
        StrMode {
            op: StrOp::of(string_number(i.op)),
            bits: string_bits(i.op),
            a16: i.a16,
            strict: false,
        },
        i.rep,
        log,
    ).0
}

/// Neither the segments nor the protection bit have changed.
pub open spec fn same_mode(f: Frame, g: Frame) -> bool {
    g.s.seg == f.s.seg && g.s.cr[0] & 1 == f.s.cr[0] & 1
}

/// Running the code of the instruction `i` at `eip` took the frame `f` to `g`:
/// either the block goes on, or it has ended, with what the interpreter does, or
/// it was left for the interpreter to run the instruction. String operations go
/// on over faults, on which the interpreter stops, and a near call goes to its
/// operand, where the interpreter goes on behind it.
pub open spec fn agrees(f: Frame, g: Frame, i: Insn, eip: u32, wide: bool, log: DevLog) -> bool {
    let s = f.at(eip);
    let r = performed(s, i, log);
    &&& g.wf()
    &&& match g.done {
        None => part_of_block(i) is Native && same_mode(f, g) && r == goes_on(
            g.at(eip),
            s.next(i),
        ),
        Some((t, status)) => if status == 1 {
            t == eip && left_as_it_was(s, g, i, eip, wide, log)
        } else {
            &&& status == 0
            &&& part_of_block(i) is Terminal
            &&& (r.settled() == (g.at(t), OutView::Continue) && !r.early) || (is_string(i.op)
                && r.early && g.at(t) == over_faults(s, i, log).with_eip(
                following(eip, i.len, wide),
            )) || (calls_operand(i) && called_operand(s, g.at(t), i, wide))
        },
    }
}

/// What the lemmas about single instructions start from.
pub open spec fn ready(f: Frame, i: Insn, eip: u32, wide: bool) -> bool {
    f.wf() && f.done is None && i.wf() && wide == !f.at(eip).default16() && !(part_of_block(
        i,
    ) is Fallback)
}

/// The code of a compiled instruction does what the interpreter does, or leaves
/// the instruction to it.
pub proof fn lowered_instruction_matches_interpreter(
    f: Frame,
    i: Insn,
    eip: u32,
    wide: bool,
    log: DevLog,
)
    requires
        ready(f, i, eip, wide),
    ensures
        agrees(f, run(lowered(i, eip, wide), f, log), i, eip, wide, log),
{
    match i.op {
        Op::Alu(op) => lemma_alu(f, i, op, eip, wide, log),
        Op::Test => lemma_test(f, i, eip, wide, log),
        Op::Inc | Op::Dec | Op::Neg | Op::Not => lemma_unary(f, i, eip, wide, log),
        Op::Shift(kind, by) => lemma_shift(f, i, kind, by, eip, wide, log),
        Op::Mov => lemma_mov(f, i, eip, wide, log),
        Op::Movzx(from8) => lemma_movx(f, i, from8, false, eip, wide, log),
        Op::Movsx(from8) => lemma_movx(f, i, from8, true, eip, wide, log),
        Op::Lea => lemma_lea(f, i, eip, wide, log),
        Op::Xchg => lemma_xchg(f, i, eip, wide, log),
        Op::Setcc(c) => lemma_setcc(f, i, c, eip, wide, log),
        Op::Cmov(c) => lemma_cmov(f, i, c, eip, wide, log),
        Op::Push => lemma_push(f, i, eip, wide, log),
        Op::Pop => lemma_pop(f, i, eip, wide, log),
        Op::In => lemma_in(f, i, eip, wide, log),
        Op::Out => lemma_out(f, i, eip, wide, log),
        Op::Xlat => lemma_xlat(f, i, eip, wide, log),
        Op::Cli | Op::Sti | Op::Cld | Op::Std | Op::Clc | Op::Stc | Op::Cmc | Op::Clts => {
            lemma_flag(f, i, eip, wide, log);
        },
        Op::Salc => lemma_salc(f, i, eip, wide, log),
        Op::Nop | Op::Wait => lemma_nop(f, i, eip, wide, log),
        Op::Jcc(c) => lemma_jcc(f, i, c, eip, wide, log),
        Op::Jump { far: _ } => lemma_jump(f, i, eip, wide, log),
        Op::Call { far: _ } => lemma_call(f, i, eip, wide, log),
        Op::Ret { far: _, imm } => lemma_ret(f, i, imm, eip, wide, log),
        Op::Loop(kind) => lemma_loop(f, i, kind, eip, wide, log),
        Op::Jcxz => lemma_jcxz(f, i, eip, wide, log),
        _ => lemma_string(f, i, eip, wide, log),
    }
}

} // verus!
