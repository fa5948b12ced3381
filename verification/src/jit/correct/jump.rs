//! Instructions that end the block.

use vstd::prelude::*;

use crate::cpu::AccessKind;
use crate::decode::{Bits, Cond, Insn, Op, Opnd};
use crate::jit::code::{Expr, Frame, Stmt, effect, eval, lemma_run_concat, run};
use crate::jit::correct::system::{
    lemma_pop_code, lemma_popped_shape, lemma_push_code, lemma_pushed_shape,
};
use crate::jit::correct::{agrees, called_operand, ready};
use crate::jit::laws::{
    lemma_masks, lemma_read_code, lemma_reg_bits, lemma_reg_expr, lemma_run3, lemma_run4,
    lemma_run_empty, lemma_run_pair, lemma_run_single, lemma_set_reg,
};
use crate::jit::lower::{
    A, B, R, and_spec, choice, exit_stmt, jump_code, loop_expr, reg_expr, set_reg_stmt,
    target_code,
};
use crate::mem::DevLog;
use crate::sem::control::{do_call, do_jcc, do_jcxz, do_jump, do_loop, do_ret};
use crate::sem::exec::performed;

verus! {

/// Where an exit statement goes on.
pub(crate) proof fn lemma_exit(e: Expr, f: Frame, wide: bool, log: DevLog)
    requires
        f.done is None,
    ensures
        effect(exit_stmt(e, wide), f, log) == f.left(
            if wide {
                eval(e, f)
            } else {
                (eval(e, f) % 0x1_0000) as u32
            },
            0,
        ),
{
    reveal_with_fuel(eval, 2);
    lemma_masks(eval(e, f));
}

pub(crate) proof fn lemma_choice(c: u8, a: u32, b: u32, f: Frame)
    ensures
        eval(choice(c, a, b), f) == (if f.slots[c as int] != 0 {
            a
        } else {
            b
        }),
{
    reveal_with_fuel(eval, 3);
}

pub(crate) proof fn lemma_jcc(f: Frame, i: Insn, c: Cond, eip: u32, wide: bool, log: DevLog)
    requires
        ready(f, i, eip, wide),
        i.op == Op::Jcc(c),
    ensures
        agrees(f, run(jump_code(i, eip, wide), f, log), i, eip, wide, log),
{
    reveal(performed);
    reveal(do_jcc);
    let next = eip.wrapping_add(i.len as u32);
    let e = choice(A, i.target(next), next);
    let st = Stmt::Cond { c, to: A };
    lemma_run_pair(st, exit_stmt(e, wide), f, log);
    let f1 = effect(st, f, log);
    lemma_exit(e, f1, wide, log);
    lemma_choice(A, i.target(next), next, f1);
}

/// The target of a near jump or call.
pub(crate) proof fn lemma_target_code(i: Insn, f: Frame, eip: u32, log: DevLog)
    requires
        i.wf(),
        f.wf(),
        f.done is None,
    ensures
        ({
            let g = run(target_code(i, eip, eip.wrapping_add(i.len as u32)), f, log);
            &&& g.wf()
            &&& match f.at(eip).near_target(i) {
                Ok(v) => g == f.with_slot(A, v),
                Err(_) => g.done == Some((eip, 1u32)) && g.at(eip) == f.at(eip),
            }
        }),
{
    let next = eip.wrapping_add(i.len as u32);
    match i.o0 {
        Opnd::Reg(_, _) => {
            lemma_read_code(i.o0, AccessKind::Read, eip, A, f, eip, log);
        },
        Opnd::Mem(_, _) => {
            lemma_read_code(i.o0, AccessKind::Read, eip, A, f, eip, log);
        },
        _ => {
            lemma_run_single(Stmt::Let(A, Expr::Const(i.target(next))), f, log);
        },
    }
}

pub(crate) proof fn lemma_jump(f: Frame, i: Insn, eip: u32, wide: bool, log: DevLog)
    requires
        ready(f, i, eip, wide),
        i.op == (Op::Jump { far: false }),
    ensures
        agrees(f, run(jump_code(i, eip, wide), f, log), i, eip, wide, log),
{
    reveal(performed);
    reveal(do_jump);
    let next = eip.wrapping_add(i.len as u32);
    let c0 = target_code(i, eip, next);
    let st = exit_stmt(Expr::Slot(A), wide);
    lemma_run_concat(c0, seq![st], f, log);
    lemma_target_code(i, f, eip, log);
    let f1 = run(c0, f, log);
    if f1.done is None {
        lemma_run_single(st, f1, log);
        lemma_exit(Expr::Slot(A), f1, wide, log);
    }
}

pub(crate) proof fn lemma_call(f: Frame, i: Insn, eip: u32, wide: bool, log: DevLog)
    requires
        ready(f, i, eip, wide),
        i.op == (Op::Call { far: false }),
    ensures
        agrees(f, run(jump_code(i, eip, wide), f, log), i, eip, wide, log),
{
    reveal(performed);
    reveal(do_call);
    reveal(called_operand);
    let size = i.size().size();
    let next = eip.wrapping_add(i.len as u32);
    let c0 = target_code(i, eip, next);
    let ret = Stmt::Let(B, Expr::Const(next));
    let c2 = seq![Stmt::Flush(eip), Stmt::Push { size, v: B, eip }, Stmt::Reload];
    let st = exit_stmt(Expr::Slot(A), wide);
    assert(jump_code(i, eip, wide) =~= c0 + seq![ret] + c2 + seq![st]);
    lemma_run4(c0, seq![ret], c2, seq![st], f, log);
    lemma_target_code(i, f, eip, log);
    let f1 = run(c0, f, log);
    if f1.done is None {
        lemma_run_single(ret, f1, log);
        let f2 = effect(ret, f1, log);
        lemma_push_code(size, B, eip, f2, log);
        lemma_pushed_shape(f.at(eip), size, next);
        let f3 = run(c2, f2, log);
        if f3.done is None {
            lemma_run_single(st, f3, log);
            lemma_exit(Expr::Slot(A), f3, wide, log);
        }
    }
}

pub(crate) proof fn lemma_ret(
    f: Frame,
    i: Insn,
    imm: Option<u16>,
    eip: u32,
    wide: bool,
    log: DevLog,
)
    requires
        ready(f, i, eip, wide),
        i.op == (Op::Ret { far: false, imm }),
    ensures
        agrees(f, run(jump_code(i, eip, wide), f, log), i, eip, wide, log),
{
    reveal(performed);
    reveal(do_ret);
    let size = i.size().size();
    let c0 = seq![Stmt::Flush(eip), Stmt::Pop { size, to: A, eip }];
    let c1 = match imm {
        Some(n) => seq![Stmt::StackAdd(n as u32)],
        None => Seq::empty(),
    };
    let st = exit_stmt(Expr::Slot(A), wide);
    let c2 = seq![Stmt::Reload, st];
    lemma_run3(c0, c1, c2, f, log);
    lemma_pop_code(size, A, eip, f, log);
    lemma_popped_shape(f.at(eip), size);
    let f1 = run(c0, f, log);
    if f1.done is None {
        match imm {
            Some(n) => {
                lemma_run_single(Stmt::StackAdd(n as u32), f1, log);
            },
            None => {
                lemma_run_empty(f1, log);
            },
        }
        let f2 = run(c1, f1, log);
        lemma_run_pair(Stmt::Reload, st, f2, log);
        let f3 = effect(Stmt::Reload, f2, log);
        lemma_exit(Expr::Slot(A), f3, wide, log);
    }
}

/// Adding 2^32 - 1 takes one off.
pub(crate) proof fn lemma_minus_one(v: u32)
    ensures
        v.wrapping_add(0xFFFF_FFFF) == v.wrapping_sub(1),
{
}

pub(crate) proof fn lemma_loop(
    f: Frame,
    i: Insn,
    kind: Option<u8>,
    eip: u32,
    wide: bool,
    log: DevLog,
)
    requires
        ready(f, i, eip, wide),
        i.op == Op::Loop(kind),
    ensures
        agrees(f, run(jump_code(i, eip, wide), f, log), i, eip, wide, log),
{
    reveal(performed);
    reveal(do_loop);
    let next = eip.wrapping_add(i.len as u32);
    let target = i.target(next);
    let dec = Expr::Add(Box::new(Expr::Reg(1)), Box::new(Expr::Const(0xFFFF_FFFF)));
    let a = Stmt::Let(A, dec);
    let w = set_reg_stmt(1, i.size(), A);
    let left = if i.o16 {
        and_spec(Expr::Slot(A), 0xFFFF)
    } else {
        Expr::Slot(A)
    };
    let b = Stmt::Let(B, left);
    let z = Stmt::Cond { c: Cond::E, to: R };
    let e = loop_expr(kind, target, next);
    let x = exit_stmt(e, wide);
    assert(jump_code(i, eip, wide) =~= seq![a, w] + seq![b, z] + seq![x]);
    lemma_run3(seq![a, w], seq![b, z], seq![x], f, log);
    lemma_run_pair(a, w, f, log);
    lemma_minus_one(f.regs[1]);
    assert(eval(dec, f) == f.regs[1].wrapping_sub(1)) by {
        reveal_with_fuel(eval, 2);
    }
    let f1 = effect(a, f, log);
    lemma_set_reg(1, i.size(), A, f1, eip, log);
    let f2 = effect(w, f1, log);
    lemma_run_pair(b, z, f2, log);
    let f3 = effect(b, f2, log);
    let f4 = effect(z, f3, log);
    assert(f3.slots[B as int] == (if i.o16 {
        (f1.slots[A as int] % 0x1_0000) as u32
    } else {
        f1.slots[A as int]
    })) by {
        reveal_with_fuel(eval, 3);
        lemma_masks(f1.slots[A as int]);
    }
    lemma_run_single(x, f4, log);
    lemma_exit(e, f4, wide, log);
    lemma_choice(R, next, target, f4);
    lemma_choice(R, target, next, f4);
    assert(eval(e, f4) == (if f4.slots[B as int] == 0 {
        next
    } else {
        match kind {
            None => target,
            Some(k) => if k == 0xE0 {
                eval(choice(R, next, target), f4)
            } else {
                eval(choice(R, target, next), f4)
            },
        }
    })) by {
        reveal_with_fuel(eval, 2);
    }
}

pub(crate) proof fn lemma_jcxz(f: Frame, i: Insn, eip: u32, wide: bool, log: DevLog)
    requires
        ready(f, i, eip, wide),
        i.op is Jcxz,
    ensures
        agrees(f, run(jump_code(i, eip, wide), f, log), i, eip, wide, log),
{
    reveal(performed);
    reveal(do_jcxz);
    let next = eip.wrapping_add(i.len as u32);
    let target = i.target(next);
    let a = Stmt::Let(A, reg_expr(1, Bits::by_attribute(i.a16)));
    let e = choice(A, next, target);
    lemma_run_pair(a, exit_stmt(e, wide), f, log);
    lemma_reg_expr(1, Bits::by_attribute(i.a16), f, eip);
    lemma_reg_bits(1);
    lemma_masks(f.regs[1]);
    let f1 = effect(a, f, log);
    lemma_exit(e, f1, wide, log);
    lemma_choice(A, next, target, f1);
}

} // verus!
