//! The code of a compiled block: straight-line statements over the guest
//! registers and a few slots for intermediate results, and what they do.

use vstd::prelude::*;

use crate::bits::{signed16, signed8, wrap32};
use crate::cpu::{AccessKind, CpuState, Seg};
use crate::decode::{AluOp, Bits, Cond, Rep, ShiftKind};
use crate::mem::DevLog;
use crate::sem::arith::{alu_result, cond_holds, inc_dec_result, low, shift_result, wrapped};
use crate::sem::string::{StrMode, StrOp};

verus! {

/// A 32-bit value without side effects.
#[derive(Debug)]
pub enum Expr {
    Const(u32),
    /// A guest register, as the block holds it.
    Reg(u8),
    /// An intermediate result.
    Slot(u8),
    Add(Box<Expr>, Box<Expr>),
    Mul(Box<Expr>, Box<Expr>),
    And(Box<Expr>, Box<Expr>),
    Or(Box<Expr>, Box<Expr>),
    Shl(Box<Expr>, u32),
    Shr(Box<Expr>, u32),
    Not(Box<Expr>),
    /// The low byte, sign-extended.
    Sext8(Box<Expr>),
    /// The low word, sign-extended.
    Sext16(Box<Expr>),
    /// The second value where the first is not 0, else the third.
    Select(Box<Expr>, Box<Expr>, Box<Expr>),
}

/// A statement. Operands of helper calls are slots. A statement with an `eip`
/// leaves the block on a fault, for the interpreter to go on there.
#[derive(Debug)]
#[allow(inconsistent_fields)]
pub enum Stmt {
    /// A slot takes a value.
    Let(u8, Expr),
    /// A guest register takes a value.
    SetReg(u8, Expr),
    /// The registers of the CPU take what the block holds, and EIP the place of
    /// the instruction.
    Flush(u32),
    /// The block takes the registers of the CPU.
    Reload,
    Alu { op: AluOp, a: u8, b: u8, bits: Bits, to: u8 },
    Test { a: u8, b: u8, bits: Bits },
    IncDec { inc: bool, v: u8, bits: Bits, to: u8 },
    Neg { v: u8, bits: Bits, to: u8 },
    Shift { kind: ShiftKind, v: u8, count: u8, bits: Bits, to: u8 },
    /// 1 where the condition holds, else 0.
    Cond { c: Cond, to: u8 },
    Load { seg: Seg, off: u8, bits: Bits, kind: AccessKind, to: u8, eip: u32 },
    Store { seg: Seg, off: u8, bits: Bits, v: u8, eip: u32 },
    IoRead { port: u8, size: u8, to: u8 },
    IoWrite { port: u8, size: u8, v: u8 },
    Push { size: u32, v: u8, eip: u32 },
    Pop { size: u32, to: u8, eip: u32 },
    StackAdd(u32),
    Str { op: u8, rep: Rep, bits: Bits },
    /// A flag instruction by its number in helper calls.
    FlagOp(u64),
    /// The block ends; execution goes on at `eip`. Status 1 asks for one step of
    /// the interpreter there.
    Exit { eip: Expr, status: u32 },
}

/// How many slots there are.
pub const SLOTS: u8 = 8;

/// What a block works on: the CPU, the guest registers as the block holds them,
/// the slots, and, once the block has ended, EIP and status.
pub struct Frame {
    pub s: CpuState,
    pub regs: Seq<u32>,
    pub slots: Seq<u32>,
    pub done: Option<(u32, u32)>,
}

impl Frame {
    pub open spec fn wf(self) -> bool {
        self.s.wf() && self.regs.len() == 8 && self.slots.len() == SLOTS
    }

    /// The frame on entry.
    pub open spec fn entry(s: CpuState) -> Frame {
        Frame { s, regs: s.gpr, slots: Seq::new(SLOTS as nat, |i: int| 0u32), done: None }
    }

    /// The machine that the frame stands for at the instruction at `eip`.
    pub open spec fn at(self, eip: u32) -> CpuState {
        CpuState { gpr: self.regs, eip, ..self.s }
    }

    pub open spec fn with_slot(self, n: u8, v: u32) -> Frame {
        Frame { slots: self.slots.update(n as int, v), ..self }
    }

    pub open spec fn with_state(self, s: CpuState) -> Frame {
        Frame { s, ..self }
    }

    pub open spec fn left(self, eip: u32, status: u32) -> Frame {
        Frame { done: Some((eip, status)), ..self }
    }
}

/// The value of an expression.
pub open spec fn eval(e: Expr, f: Frame) -> u32
    decreases e,
{
    match e {
        Expr::Const(v) => v,
        Expr::Reg(r) => f.regs[r as int],
        Expr::Slot(n) => f.slots[n as int],
        Expr::Add(a, b) => eval(*a, f).wrapping_add(eval(*b, f)),
        Expr::Mul(a, b) => eval(*a, f).wrapping_mul(eval(*b, f)),
        Expr::And(a, b) => eval(*a, f) & eval(*b, f),
        Expr::Or(a, b) => eval(*a, f) | eval(*b, f),
        Expr::Shl(a, n) => eval(*a, f) << n,
        Expr::Shr(a, n) => eval(*a, f) >> n,
        Expr::Not(a) => !eval(*a, f),
        Expr::Sext8(a) => wrap32(signed8((eval(*a, f) % 0x100) as u8)),
        Expr::Sext16(a) => wrap32(signed16((eval(*a, f) % 0x1_0000) as u16)),
        Expr::Select(c, a, b) => if eval(*c, f) != 0 {
            eval(*a, f)
        } else {
            eval(*b, f)
        },
    }
}

/// What a statement does to a block that has not ended.
pub open spec fn effect(st: Stmt, f: Frame, log: DevLog) -> Frame {
    let flags = f.s.eflags;
    match st {
        Stmt::Let(n, e) => f.with_slot(n, eval(e, f)),
        Stmt::SetReg(r, e) => Frame { regs: f.regs.update(r as int, eval(e, f)), ..f },
        Stmt::Flush(eip) => f.with_state(f.at(eip)),
        Stmt::Reload => Frame { regs: f.s.gpr, ..f },
        Stmt::Alu { op, a, b, bits, to } => {
            let (r, fl) = alu_result(flags, op, f.slots[a as int], f.slots[b as int], bits);
            f.with_state(f.s.with_flags(fl)).with_slot(to, r)
        },
        Stmt::Test { a, b, bits } => f.with_state(
            f.s.with_flags(
                alu_result(flags, AluOp::And, f.slots[a as int], f.slots[b as int], bits).1,
            ),
        ),
        Stmt::IncDec { inc, v, bits, to } => {
            let (r, fl) = inc_dec_result(flags, f.slots[v as int], bits, inc);
            f.with_state(f.s.with_flags(fl)).with_slot(to, r)
        },
        Stmt::Neg { v, bits, to } => f.with_state(
            f.s.with_flags(alu_result(flags, AluOp::Sub, 0, f.slots[v as int], bits).1),
        ).with_slot(to, wrapped(-(low(f.slots[v as int], bits) as int), bits)),
        Stmt::Shift { kind, v, count, bits, to } => {
            let (r, fl) = shift_result(
                flags,
                kind,
                f.slots[v as int],
                f.slots[count as int],
                bits,
            );
            f.with_state(f.s.with_flags(fl)).with_slot(to, r)
        },
        Stmt::Cond { c, to } => f.with_slot(
            to,
            if cond_holds(flags, c) {
                1
            } else {
                0
            },
        ),
        Stmt::Load { seg, off, bits, kind, to, eip } => match f.s.load(
            seg,
            f.slots[off as int],
            bits.size(),
            kind,
        ) {
            Ok(v) => f.with_slot(to, v),
            Err(_) => f.left(eip, 1),
        },
        Stmt::Store { seg, off, bits, v, eip } => {
            let (s, r) = f.s.store(
                seg,
                f.slots[off as int],
                bits.size(),
                f.slots[v as int],
                AccessKind::Write,
            );
            match r {
                Ok(_) => f.with_state(s),
                Err(_) => f.with_state(s).left(eip, 1),
            }
        },
        Stmt::IoRead { port, size, to } => {
            let (s, v) = f.s.port_in(f.slots[port as int] as u16, size, log);
            f.with_state(s).with_slot(to, v)
        },
        Stmt::IoWrite { port, size, v } => f.with_state(
            f.s.port_out(f.slots[port as int] as u16, size, f.slots[v as int]),
        ),
        Stmt::Push { size, v, eip } => {
            let (s, r) = f.s.pushed(size, f.slots[v as int]);
            match r {
                Ok(_) => f.with_state(s),
                Err(_) => f.with_state(s).left(eip, 1),
            }
        },
        Stmt::Pop { size, to, eip } => {
            let (s, r) = f.s.popped(size);
            match r {
                Ok(v) => f.with_state(s).with_slot(to, v),
                Err(_) => f.with_state(s).left(eip, 1),
            }
        },
        Stmt::StackAdd(n) => f.with_state(f.s.with_gpr(4, f.s.gpr[4].wrapping_add(n))),
        Stmt::Str { op, rep, bits } => f.with_state(
            f.s.string_done(
                StrMode { op: StrOp::of(op), bits, a16: f.s.default16(), strict: false },
                rep,
                log,
            ).0,
        ),
        Stmt::FlagOp(n) => f.with_state(f.s.flag_changed(n)),
        Stmt::Exit { eip, status } => f.left(eval(eip, f), status),
    }
}

/// What a sequence of statements does; nothing runs behind the end of the block.
#[verifier::opaque]
pub open spec fn run(code: Seq<Stmt>, f: Frame, log: DevLog) -> Frame
    decreases code.len(),
{
    if code.len() == 0 || f.done is Some {
        f
    } else {
        run(code.skip(1), effect(code[0], f, log), log)
    }
}

/// Running two pieces of code one after the other.
pub proof fn lemma_run_concat(a: Seq<Stmt>, b: Seq<Stmt>, f: Frame, log: DevLog)
    ensures
        run(a + b, f, log) == run(b, run(a, f, log), log),
        run(a, f, log).done is Some ==> run(a + b, f, log) == run(a, f, log),
    decreases a.len(),
{
    reveal_with_fuel(run, 2);
    if a.len() == 0 {
        assert(a + b =~= b);
    } else if f.done is None {
        assert((a + b).skip(1) =~= a.skip(1) + b);
        assert((a + b)[0] == a[0]);
        lemma_run_concat(a.skip(1), b, effect(a[0], f, log), log);
    }
}

/// Running one statement.
pub proof fn lemma_run_one(st: Stmt, f: Frame, log: DevLog)
    requires
        f.done is None,
    ensures
        run(seq![st], f, log) == effect(st, f, log),
{
    reveal_with_fuel(run, 2);
    assert(seq![st].skip(1) =~= Seq::<Stmt>::empty());
}

} // verus!
