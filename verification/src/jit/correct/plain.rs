//! Arithmetic and moves.

use vstd::prelude::*;

use crate::bits::lemma_word_facts;
use crate::cpu::{AccessKind, CpuState, ErrorView};
use crate::decode::{AluOp, Bits, Cond, Insn, Op, Opnd, ShiftBy, ShiftKind};
use crate::jit::code::{Expr, Frame, Stmt, effect, eval, lemma_run_concat, run};
use crate::jit::correct::{agrees, drops_fault, ready};
use crate::jit::laws::{
    lemma_ea_expr, lemma_masks, lemma_read_code, lemma_reg_bits, lemma_reg_expr, lemma_run3,
    lemma_run4, lemma_run_empty, lemma_run_pair, lemma_run_single, lemma_store_changes_memory,
    lemma_write_code,
};
use crate::jit::lower::{
    A, B, R, and_spec, count_expr, ea_expr, plain_code, read_code, widen_expr, write_code,
};
use crate::mem::DevLog;
use crate::sem::arith::{cond_holds, low, mask_of};
use crate::sem::compute::{do_alu, do_mov, do_movx, do_shift, do_test, do_unary};
use crate::sem::control::{do_cmov, do_lea, do_setcc, do_xchg};
use crate::sem::exec::performed;
use crate::sem::operand::width_of;

verus! {

pub(crate) proof fn lemma_alu(f: Frame, i: Insn, op: AluOp, eip: u32, wide: bool, log: DevLog)
    requires
        ready(f, i, eip, wide),
        i.op == Op::Alu(op),
    ensures
        agrees(f, run(plain_code(i, eip), f, log), i, eip, wide, log),
{
    reveal(performed);
    reveal(do_alu);
    let bits = width_of(i.o0, i.size());
    let c0 = read_code(i.o0, AccessKind::Read, eip, A);
    let c1 = read_code(i.o1, AccessKind::Read, eip, B);
    let st = Stmt::Alu { op, a: A, b: B, bits, to: R };
    let c3 = if op is Cmp {
        Seq::empty()
    } else {
        write_code(i.o0, R, eip)
    };
    lemma_run4(c0, c1, seq![st], c3, f, log);
    lemma_read_code(i.o0, AccessKind::Read, eip, A, f, eip, log);
    let f1 = run(c0, f, log);
    if f1.done is None {
        lemma_read_code(i.o1, AccessKind::Read, eip, B, f1, eip, log);
        let f2 = run(c1, f1, log);
        if f2.done is None {
            lemma_run_single(st, f2, log);
            let f3 = effect(st, f2, log);
            if op is Cmp {
                lemma_run_empty(f3, log);
            } else {
                lemma_write_code(i.o0, R, eip, f3, eip, log);
            }
        }
    }
}

pub(crate) proof fn lemma_test(f: Frame, i: Insn, eip: u32, wide: bool, log: DevLog)
    requires
        ready(f, i, eip, wide),
        i.op is Test,
    ensures
        agrees(f, run(plain_code(i, eip), f, log), i, eip, wide, log),
{
    reveal(performed);
    reveal(do_test);
    let bits = width_of(i.o0, i.size());
    let c0 = read_code(i.o0, AccessKind::Read, eip, A);
    let c1 = read_code(i.o1, AccessKind::Read, eip, B);
    let st = Stmt::Test { a: A, b: B, bits };
    lemma_run3(c0, c1, seq![st], f, log);
    lemma_read_code(i.o0, AccessKind::Read, eip, A, f, eip, log);
    let f1 = run(c0, f, log);
    if f1.done is None {
        lemma_read_code(i.o1, AccessKind::Read, eip, B, f1, eip, log);
        lemma_run_single(st, run(c1, f1, log), log);
    }
}

/// The low bits of a word, by mask.
pub(crate) proof fn lemma_low_mask(v: u32, bits: Bits)
    ensures
        v & mask_of(bits) == low(v, bits),
{
    lemma_masks(v);
}

pub(crate) proof fn lemma_unary(f: Frame, i: Insn, eip: u32, wide: bool, log: DevLog)
    requires
        ready(f, i, eip, wide),
        i.op is Inc || i.op is Dec || i.op is Neg || i.op is Not,
    ensures
        agrees(f, run(plain_code(i, eip), f, log), i, eip, wide, log),
{
    reveal(performed);
    reveal(do_unary);
    let bits = width_of(i.o0, i.size());
    let c0 = read_code(i.o0, AccessKind::Rmw, eip, A);
    let st = match i.op {
        Op::Inc => Stmt::IncDec { inc: true, v: A, bits, to: R },
        Op::Dec => Stmt::IncDec { inc: false, v: A, bits, to: R },
        Op::Neg => Stmt::Neg { v: A, bits, to: R },
        _ => Stmt::Let(R, and_spec(Expr::Not(Box::new(Expr::Slot(A))), mask_of(bits))),
    };
    let c2 = write_code(i.o0, R, eip);
    lemma_run3(c0, seq![st], c2, f, log);
    lemma_read_code(i.o0, AccessKind::Rmw, eip, A, f, eip, log);
    let f1 = run(c0, f, log);
    if f1.done is None {
        reveal_with_fuel(eval, 4);
        lemma_low_mask(!f1.slots[A as int], bits);
        lemma_run_single(st, f1, log);
        lemma_write_code(i.o0, R, eip, effect(st, f1, log), eip, log);
    }
}

pub(crate) proof fn lemma_shift(
    f: Frame,
    i: Insn,
    kind: ShiftKind,
    by: ShiftBy,
    eip: u32,
    wide: bool,
    log: DevLog,
)
    requires
        ready(f, i, eip, wide),
        i.op == Op::Shift(kind, by),
    ensures
        agrees(f, run(plain_code(i, eip), f, log), i, eip, wide, log),
{
    reveal(performed);
    reveal(do_shift);
    let bits = width_of(i.o0, i.size());
    let c0 = read_code(i.o0, AccessKind::Rmw, eip, A);
    let count = Stmt::Let(B, count_expr(by));
    let st = Stmt::Shift { kind, v: A, count: B, bits, to: R };
    let c2 = write_code(i.o0, R, eip);
    lemma_run3(c0, seq![count, st], c2, f, log);
    lemma_read_code(i.o0, AccessKind::Rmw, eip, A, f, eip, log);
    let f1 = run(c0, f, log);
    if f1.done is None {
        lemma_run_pair(count, st, f1, log);
        lemma_reg_expr(1, Bits::B8, f1, eip);
        reveal_with_fuel(eval, 2);
        let f2 = effect(count, f1, log);
        lemma_write_code(i.o0, R, eip, effect(st, f2, log), eip, log);
    }
}

pub(crate) proof fn lemma_mov(f: Frame, i: Insn, eip: u32, wide: bool, log: DevLog)
    requires
        ready(f, i, eip, wide),
        i.op is Mov,
    ensures
        agrees(f, run(plain_code(i, eip), f, log), i, eip, wide, log),
{
    reveal(performed);
    reveal(do_mov);
    let c0 = read_code(i.o1, AccessKind::Read, eip, A);
    let c1 = write_code(i.o0, A, eip);
    lemma_run_concat(c0, c1, f, log);
    lemma_read_code(i.o1, AccessKind::Read, eip, A, f, eip, log);
    let f1 = run(c0, f, log);
    if f1.done is None {
        lemma_write_code(i.o0, A, eip, f1, eip, log);
    }
}

pub(crate) proof fn lemma_movx(
    f: Frame,
    i: Insn,
    from8: bool,
    sgn: bool,
    eip: u32,
    wide: bool,
    log: DevLog,
)
    requires
        ready(f, i, eip, wide),
        i.op == (if sgn {
            Op::Movsx(from8)
        } else {
            Op::Movzx(from8)
        }),
    ensures
        agrees(f, run(plain_code(i, eip), f, log), i, eip, wide, log),
{
    reveal(performed);
    reveal(do_movx);
    reveal(drops_fault);
    reveal(CpuState::assign);
    let c0 = read_code(i.o1, AccessKind::Read, eip, A);
    let st = Stmt::Let(R, widen_expr(i.o1, from8, sgn));
    let c2 = write_code(i.o0, R, eip);
    lemma_run3(c0, seq![st], c2, f, log);
    lemma_read_code(i.o1, AccessKind::Read, eip, A, f, eip, log);
    let f1 = run(c0, f, log);
    if f1.done is None {
        reveal_with_fuel(eval, 3);
        lemma_masks(f1.slots[A as int]);
        lemma_run_single(st, f1, log);
        let f2 = effect(st, f1, log);
        lemma_write_code(i.o0, R, eip, f2, eip, log);
        lemma_assign_shape(f.at(eip), i.o0, f2.slots[R as int]);
        lemma_unwritable(f.at(eip), i.o0, f2.slots[R as int]);
    }
}

pub(crate) proof fn lemma_lea(f: Frame, i: Insn, eip: u32, wide: bool, log: DevLog)
    requires
        ready(f, i, eip, wide),
        i.op is Lea,
    ensures
        agrees(f, run(plain_code(i, eip), f, log), i, eip, wide, log),
{
    reveal(performed);
    reveal(do_lea);
    reveal(drops_fault);
    match i.o1 {
        Opnd::Mem(m, _) => {
            let st = Stmt::Let(A, ea_expr(m));
            let c1 = write_code(i.o0, A, eip);
            lemma_run_concat(seq![st], c1, f, log);
            lemma_run_single(st, f, log);
            lemma_ea_expr(m, f, eip);
            let f1 = effect(st, f, log);
            lemma_write_code(i.o0, A, eip, f1, eip, log);
            lemma_assign_shape(f.at(eip), i.o0, f1.slots[A as int]);
            lemma_unwritable(f.at(eip), i.o0, f1.slots[A as int]);
        },
        _ => {
            lemma_run_single(Stmt::Exit { eip: Expr::Const(eip), status: 1 }, f, log);
        },
    }
}

pub(crate) proof fn lemma_xchg(f: Frame, i: Insn, eip: u32, wide: bool, log: DevLog)
    requires
        ready(f, i, eip, wide),
        i.op is Xchg,
    ensures
        agrees(f, run(plain_code(i, eip), f, log), i, eip, wide, log),
{
    reveal(performed);
    reveal(do_xchg);
    reveal(drops_fault);
    let c0 = read_code(i.o0, AccessKind::Rmw, eip, A);
    let c1 = read_code(i.o1, AccessKind::Rmw, eip, B);
    let c2 = write_code(i.o0, B, eip);
    let c3 = write_code(i.o1, A, eip);
    lemma_run4(c0, c1, c2, c3, f, log);
    lemma_read_code(i.o0, AccessKind::Rmw, eip, A, f, eip, log);
    let f1 = run(c0, f, log);
    if f1.done is None {
        lemma_read_code(i.o1, AccessKind::Rmw, eip, B, f1, eip, log);
        let f2 = run(c1, f1, log);
        if f2.done is None {
            lemma_write_code(i.o0, B, eip, f2, eip, log);
            let f3 = run(c2, f2, log);
            lemma_unwritable(f2.at(eip), i.o0, f2.slots[B as int]);
            lemma_assign_shape(f2.at(eip), i.o0, f2.slots[B as int]);
            if f3.done is None {
                lemma_write_code(i.o1, A, eip, f3, eip, log);
                lemma_unwritable(f3.at(eip), i.o1, f3.slots[A as int]);
                lemma_assign_shape(f3.at(eip), i.o1, f3.slots[A as int]);
            }
        }
    }
}

/// A write changes registers or memory alone.
pub(crate) proof fn lemma_assign_shape(s: CpuState, o: Opnd, v: u32)
    ensures
        ({
            let t = s.assign(o, v, AccessKind::Write).0;
            &&& t == (CpuState { gpr: t.gpr, mem: t.mem, ..s })
            &&& o is Mem ==> t.gpr == s.gpr
        }),
{
    reveal(CpuState::assign);
    if let Opnd::Mem(m, bits) = o {
        lemma_store_changes_memory(s, m.seg, s.ea(m), bits.size(), v, AccessKind::Write);
    }
}

/// Only a write to memory can fail.
pub(crate) proof fn lemma_unwritable(s: CpuState, o: Opnd, v: u32)
    ensures
        s.assign(o, v, AccessKind::Write).1 is Err ==> o is Mem,
{
    reveal(CpuState::assign);
}

pub(crate) proof fn lemma_setcc(f: Frame, i: Insn, c: Cond, eip: u32, wide: bool, log: DevLog)
    requires
        ready(f, i, eip, wide),
        i.op == Op::Setcc(c),
    ensures
        agrees(f, run(plain_code(i, eip), f, log), i, eip, wide, log),
{
    reveal(performed);
    reveal(do_setcc);
    let st = Stmt::Cond { c, to: A };
    let c1 = write_code(i.o0, A, eip);
    lemma_run_concat(seq![st], c1, f, log);
    lemma_run_single(st, f, log);
    lemma_write_code(i.o0, A, eip, effect(st, f, log), eip, log);
}

/// Writing back what an operand holds changes nothing.
pub(crate) proof fn lemma_write_back(s: CpuState, o: Opnd, v: u32)
    requires
        s.wf(),
        o.wf(),
        !(o is Mem),
        s.operand(o, AccessKind::Read) == Ok::<u32, ErrorView>(v),
    ensures
        s.assign(o, v, AccessKind::Write) == (s, Ok::<(), ErrorView>(())),
{
    reveal(CpuState::assign);
    reveal(CpuState::operand);
    match o {
        Opnd::Reg(r, bits) => {
            lemma_register_write_back(s, r, bits);
        },
        Opnd::Acc(bits) => {
            lemma_register_write_back(s, 0, bits);
        },
        _ => {},
    }
}

pub(crate) proof fn lemma_register_write_back(s: CpuState, r: u8, bits: Bits)
    requires
        s.wf(),
        r < 8,
    ensures
        s.with_gpr_at(r, bits, s.gpr_at(r, bits)) == s,
{
    lemma_reg_bits(r);
    let g = s.gpr[r as int];
    let h = s.gpr[r as int % 4];
    lemma_word_facts(g, 0, 0, 0, 0, 0);
    lemma_word_facts(h, 0, 0, 0, 0, 0);
    assert(s.gpr.update(r as int, g) =~= s.gpr);
    assert(s.gpr.update(r as int % 4, h) =~= s.gpr);
}

/// The end of CMOVcc, with what it writes in slot `R` of `g`.
pub(crate) proof fn lemma_cmov_end(
    f: Frame,
    g: Frame,
    i: Insn,
    c: Cond,
    x: u32,
    y: u32,
    eip: u32,
    wide: bool,
    log: DevLog,
)
    requires
        ready(f, i, eip, wide),
        i.op == Op::Cmov(c),
        !(i.o0 is Mem),
        g.wf(),
        g.done is None,
        g.at(eip) == f.at(eip),
        f.at(eip).operand(i.o1, AccessKind::Read) == Ok::<u32, ErrorView>(x),
        f.at(eip).operand(i.o0, AccessKind::Read) == Ok::<u32, ErrorView>(y),
        g.slots[R as int] == (if cond_holds(f.s.eflags, c) {
            x
        } else {
            y
        }),
    ensures
        agrees(f, run(write_code(i.o0, R, eip), g, log), i, eip, wide, log),
{
    reveal(performed);
    reveal(do_cmov);
    lemma_write_code(i.o0, R, eip, g, eip, log);
    lemma_unwritable(g.at(eip), i.o0, g.slots[R as int]);
    if !cond_holds(f.s.eflags, c) {
        lemma_write_back(f.at(eip), i.o0, y);
    }
}

pub(crate) proof fn lemma_cmov_register(
    f: Frame,
    i: Insn,
    c: Cond,
    eip: u32,
    wide: bool,
    log: DevLog,
)
    requires
        ready(f, i, eip, wide),
        i.op == Op::Cmov(c),
        !(i.o0 is Mem),
    ensures
        agrees(f, run(plain_code(i, eip), f, log), i, eip, wide, log),
{
    reveal(performed);
    let st = Stmt::Cond { c, to: R };
    let c1 = read_code(i.o1, AccessKind::Read, eip, A);
    let c2 = read_code(i.o0, AccessKind::Read, eip, B);
    let sel = Stmt::Let(
        R,
        Expr::Select(
            Box::new(Expr::Slot(R)),
            Box::new(Expr::Slot(A)),
            Box::new(Expr::Slot(B)),
        ),
    );
    let c4 = write_code(i.o0, R, eip);
    lemma_run_concat(seq![st] + c1 + c2 + seq![sel], c4, f, log);
    lemma_run4(seq![st], c1, c2, seq![sel], f, log);
    lemma_run_single(st, f, log);
    let f1 = effect(st, f, log);
    lemma_read_code(i.o1, AccessKind::Read, eip, A, f1, eip, log);
    lemma_readable(f1.at(eip), i.o1);
    let f2 = run(c1, f1, log);
    if f2.done is None {
        lemma_read_code(i.o0, AccessKind::Read, eip, B, f2, eip, log);
        lemma_readable(f2.at(eip), i.o0);
        let f3 = run(c2, f2, log);
        if f3.done is None {
            lemma_run_single(sel, f3, log);
            reveal_with_fuel(eval, 3);
            let f4 = effect(sel, f3, log);
            lemma_cmov_end(f, f4, i, c, f3.slots[A as int], f3.slots[B as int], eip, wide, log);
        }
    }
}

pub(crate) proof fn lemma_cmov(f: Frame, i: Insn, c: Cond, eip: u32, wide: bool, log: DevLog)
    requires
        ready(f, i, eip, wide),
        i.op == Op::Cmov(c),
    ensures
        agrees(f, run(plain_code(i, eip), f, log), i, eip, wide, log),
{
    reveal(performed);
    if i.o0 is Mem {
        lemma_run_single(Stmt::Exit { eip: Expr::Const(eip), status: 1 }, f, log);
    } else {
        lemma_cmov_register(f, i, c, eip, wide, log);
    }
}

/// Only memory can be unreadable.
pub(crate) proof fn lemma_readable(s: CpuState, o: Opnd)
    ensures
        s.operand(o, AccessKind::Read) is Err ==> o is Mem,
{
    reveal(CpuState::operand);
}

} // verus!
