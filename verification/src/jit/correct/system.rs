//! Stack, ports and flags.

use vstd::prelude::*;

use crate::bits::{lemma_casts, lemma_word_facts};
use crate::cpu::{AccessKind, CpuState, Seg};
use crate::decode::{Bits, Cond, Insn, Opnd};
use crate::jit::code::{Expr, Frame, SLOTS, Stmt, effect, eval, lemma_run_concat, run};
use crate::jit::correct::plain::{lemma_readable, lemma_unwritable};
use crate::jit::correct::{agrees, ready};
use crate::jit::laws::{
    lemma_access_ignores_gpr, lemma_masks, lemma_read_code, lemma_reg_bits, lemma_reg_expr,
    lemma_run3, lemma_run_empty, lemma_run_pair, lemma_run_single, lemma_run_triple, lemma_set_reg,
    lemma_store_changes_memory, lemma_write_code, replaced,
};
use crate::jit::lower::{
    A, B, flag_number, port_code, read_code, reg_expr, set_reg_stmt, system_code, write_code,
};
use crate::mem::DevLog;
use crate::sem::control::{do_pop, do_push};
use crate::sem::exec::performed;
use crate::sem::misc::{do_in, do_out, do_xlat, port_of, port_size};

verus! {

/// A push changes memory and ESP.
pub(crate) proof fn lemma_pushed_shape(s: CpuState, size: u32, v: u32)
    requires
        s.wf(),
    ensures
        ({
            let t = s.pushed(size, v).0;
            &&& t.wf()
            &&& t == (CpuState { gpr: t.gpr, mem: t.mem, ..s })
            &&& s.pushed(size, v).1 is Err ==> t.gpr == s.gpr
        }),
{
    lemma_store_changes_memory(s, Seg::Ss, s.sp_below(size), size, v, AccessKind::Write);
}

/// A pop changes ESP.
pub(crate) proof fn lemma_popped_shape(s: CpuState, size: u32)
    requires
        s.wf(),
    ensures
        ({
            let t = s.popped(size).0;
            t.wf() && t == (CpuState { gpr: t.gpr, ..s })
        }),
{
}

/// Flush, push and reload: the machine pushes.
pub(crate) proof fn lemma_push_code(size: u32, v: u8, eip: u32, f: Frame, log: DevLog)
    requires
        f.wf(),
        f.done is None,
        v < SLOTS,
    ensures
        ({
            let g = run(
                seq![Stmt::Flush(eip), Stmt::Push { size, v, eip }, Stmt::Reload],
                f,
                log,
            );
            let (s, r) = f.at(eip).pushed(size, f.slots[v as int]);
            &&& g.wf()
            &&& g.slots == f.slots
            &&& g.at(eip) == s
            &&& r is Ok ==> g.done is None
            &&& r is Err ==> g.done == Some((eip, 1u32))
        }),
{
    lemma_run_triple(Stmt::Flush(eip), Stmt::Push { size, v, eip }, Stmt::Reload, f, log);
    lemma_pushed_shape(f.at(eip), size, f.slots[v as int]);
}

/// Flush and pop: the machine pops.
pub(crate) proof fn lemma_pop_code(size: u32, to: u8, eip: u32, f: Frame, log: DevLog)
    requires
        f.wf(),
        f.done is None,
        to < SLOTS,
    ensures
        ({
            let g = run(seq![Stmt::Flush(eip), Stmt::Pop { size, to, eip }], f, log);
            let (s, r) = f.at(eip).popped(size);
            &&& g.wf()
            &&& match r {
                Ok(v) => g.done is None && g.s == s && g.slots[to as int] == v,
                Err(_) => g.done == Some((eip, 1u32)) && g.at(eip) == s,
            }
        }),
{
    lemma_run_pair(Stmt::Flush(eip), Stmt::Pop { size, to, eip }, f, log);
    lemma_popped_shape(f.at(eip), size);
}

pub(crate) proof fn lemma_push(f: Frame, i: Insn, eip: u32, wide: bool, log: DevLog)
    requires
        ready(f, i, eip, wide),
        i.op is Push,
    ensures
        agrees(f, run(system_code(i, eip), f, log), i, eip, wide, log),
{
    reveal(performed);
    reveal(do_push);
    let size = i.size().size();
    let c0 = read_code(i.o0, AccessKind::Read, eip, A);
    let c1 = seq![Stmt::Flush(eip), Stmt::Push { size, v: A, eip }, Stmt::Reload];
    lemma_run_concat(c0, c1, f, log);
    lemma_read_code(i.o0, AccessKind::Read, eip, A, f, eip, log);
    let f1 = run(c0, f, log);
    if f1.done is None {
        lemma_push_code(size, A, eip, f1, log);
        lemma_pushed_shape(f1.at(eip), size, f1.slots[A as int]);
    }
}

pub(crate) proof fn lemma_pop(f: Frame, i: Insn, eip: u32, wide: bool, log: DevLog)
    requires
        ready(f, i, eip, wide),
        i.op is Pop,
    ensures
        agrees(f, run(system_code(i, eip), f, log), i, eip, wide, log),
{
    reveal(performed);
    reveal(do_pop);
    let size = i.size().size();
    let c0 = seq![Stmt::Flush(eip), Stmt::Pop { size, to: A, eip }];
    let c1 = write_code(i.o0, A, eip);
    assert(seq![Stmt::Flush(eip), Stmt::Pop { size, to: A, eip }, Stmt::Reload] =~= c0 + seq![
        Stmt::Reload,
    ]);
    lemma_run3(c0, seq![Stmt::Reload], c1, f, log);
    lemma_pop_code(size, A, eip, f, log);
    lemma_popped_shape(f.at(eip), size);
    let f1 = run(c0, f, log);
    if f1.done is None {
        lemma_run_single(Stmt::Reload, f1, log);
        lemma_write_code(i.o0, A, eip, effect(Stmt::Reload, f1, log), eip, log);
    }
}

/// The port of IN and OUT.
pub(crate) proof fn lemma_port_code(o: Opnd, f: Frame, e: u32, log: DevLog)
    requires
        f.wf(),
        f.done is None,
    ensures
        exists|v: u32|
            run(port_code(o), f, log) == #[trigger] f.with_slot(A, v) && v as u16 == port_of(
                f.at(e),
                o,
            ),
{
    match o {
        Opnd::Port(p) => {
            lemma_run_single(Stmt::Let(A, Expr::Const(p as u32)), f, log);
            assert(run(port_code(o), f, log) == f.with_slot(A, p as u32));
        },
        Opnd::Dx => {
            lemma_reg_expr(2, Bits::B16, f, e);
            lemma_reg_bits(2);
            lemma_run_single(Stmt::Let(A, reg_expr(2, Bits::B16)), f, log);
            let v = f.at(e).gpr_at(2, Bits::B16);
            let g = f.regs[2];
            lemma_casts(g as u16, 0, 0);
            assert(run(port_code(o), f, log) == f.with_slot(A, v));
        },
        _ => {
            lemma_run_single(Stmt::Let(A, Expr::Const(0)), f, log);
            assert(run(port_code(o), f, log) == f.with_slot(A, 0));
        },
    }
}

pub(crate) proof fn lemma_in(f: Frame, i: Insn, eip: u32, wide: bool, log: DevLog)
    requires
        ready(f, i, eip, wide),
        i.op is In,
    ensures
        agrees(f, run(system_code(i, eip), f, log), i, eip, wide, log),
{
    reveal(performed);
    reveal(do_in);
    if i.o0 is Mem {
        lemma_run_single(Stmt::Exit { eip: Expr::Const(eip), status: 1 }, f, log);
    } else {
        let c0 = port_code(i.o1);
        let st = Stmt::IoRead { port: A, size: port_size(i.o0), to: B };
        let c2 = write_code(i.o0, B, eip);
        lemma_run3(c0, seq![st], c2, f, log);
        lemma_port_code(i.o1, f, eip, log);
        let f1 = run(c0, f, log);
        lemma_run_single(st, f1, log);
        let f2 = effect(st, f1, log);
        lemma_write_code(i.o0, B, eip, f2, eip, log);
        lemma_unwritable(f2.at(eip), i.o0, f2.slots[B as int]);
    }
}

pub(crate) proof fn lemma_out(f: Frame, i: Insn, eip: u32, wide: bool, log: DevLog)
    requires
        ready(f, i, eip, wide),
        i.op is Out,
    ensures
        agrees(f, run(system_code(i, eip), f, log), i, eip, wide, log),
{
    reveal(performed);
    reveal(do_out);
    if i.o1 is Mem || i.o1 is Sreg {
        lemma_run_single(Stmt::Exit { eip: Expr::Const(eip), status: 1 }, f, log);
    } else {
        let c0 = port_code(i.o0);
        let c1 = read_code(i.o1, AccessKind::Read, eip, B);
        let st = Stmt::IoWrite { port: A, size: port_size(i.o1), v: B };
        lemma_run3(c0, c1, seq![st], f, log);
        lemma_port_code(i.o0, f, eip, log);
        let f1 = run(c0, f, log);
        lemma_read_code(i.o1, AccessKind::Read, eip, B, f1, eip, log);
        lemma_readable(f1.at(eip), i.o1);
        lemma_run_single(st, run(c1, f1, log), log);
    }
}

pub(crate) proof fn lemma_xlat(f: Frame, i: Insn, eip: u32, wide: bool, log: DevLog)
    requires
        ready(f, i, eip, wide),
        i.op is Xlat,
    ensures
        agrees(f, run(system_code(i, eip), f, log), i, eip, wide, log),
{
    reveal(performed);
    reveal(do_xlat);
    let off = Expr::Add(Box::new(reg_expr(3, Bits::B16)), Box::new(reg_expr(0, Bits::B8)));
    let a = Stmt::Let(A, off);
    let l = Stmt::Load {
        seg: Seg::Ds,
        off: A,
        bits: Bits::B8,
        kind: AccessKind::Read,
        to: A,
        eip,
    };
    let w = set_reg_stmt(0, Bits::B8, A);
    lemma_run_triple(a, l, w, f, log);
    lemma_reg_expr(3, Bits::B16, f, eip);
    lemma_reg_expr(0, Bits::B8, f, eip);
    lemma_reg_bits(3);
    lemma_reg_bits(0);
    lemma_masks(f.regs[3]);
    let x = (f.at(eip).gpr[3] % 0x1_0000 + f.at(eip).reg8(0)) as u32;
    assert(eval(off, f) == x) by {
        reveal_with_fuel(eval, 2);
    }
    let f1 = f.with_slot(A, x);
    lemma_access_ignores_gpr(f.s, f.regs, eip, Seg::Ds, x, 1, 0, AccessKind::Read);
    assert(f.at(eip) == replaced(f.s, f.regs, eip));
    reveal(CpuState::load);
    let f2 = effect(l, f1, log);
    if f2.done is None {
        lemma_set_reg(0, Bits::B8, A, f2, eip, log);
        let v = f.at(eip).load8(Seg::Ds, x, AccessKind::Read)->Ok_0;
        lemma_casts(0, v, 0);
    }
}

pub(crate) proof fn lemma_flag(f: Frame, i: Insn, eip: u32, wide: bool, log: DevLog)
    requires
        ready(f, i, eip, wide),
        i.op is Cli || i.op is Sti || i.op is Cld || i.op is Std || i.op is Clc || i.op is Stc
            || i.op is Cmc || i.op is Clts,
    ensures
        agrees(f, run(system_code(i, eip), f, log), i, eip, wide, log),
{
    reveal(performed);
    let c = f.s.cr[0];
    lemma_word_facts(c, 0, 0, 0, 0, 0);
    lemma_run_single(Stmt::FlagOp(flag_number(i.op)), f, log);
}

pub(crate) proof fn lemma_salc(f: Frame, i: Insn, eip: u32, wide: bool, log: DevLog)
    requires
        ready(f, i, eip, wide),
        i.op is Salc,
    ensures
        agrees(f, run(system_code(i, eip), f, log), i, eip, wide, log),
{
    reveal(performed);
    let c = Stmt::Cond { c: Cond::B, to: A };
    let m = Stmt::Let(B, Expr::Mul(Box::new(Expr::Slot(A)), Box::new(Expr::Const(0xFF))));
    let w = set_reg_stmt(0, Bits::B8, B);
    lemma_run_triple(c, m, w, f, log);
    let f1 = effect(c, f, log);
    reveal_with_fuel(eval, 3);
    let f2 = effect(m, f1, log);
    lemma_set_reg(0, Bits::B8, B, f2, eip, log);
    lemma_reg_bits(0);
    lemma_casts(0, 0xFF, 0);
    lemma_casts(0, 0, 0);
}

pub(crate) proof fn lemma_nop(f: Frame, i: Insn, eip: u32, wide: bool, log: DevLog)
    requires
        ready(f, i, eip, wide),
        i.op is Nop || i.op is Wait,
    ensures
        agrees(f, run(system_code(i, eip), f, log), i, eip, wide, log),
{
    reveal(performed);
    lemma_run_empty(f, log);
}

} // verus!
