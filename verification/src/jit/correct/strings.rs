//! String instructions.

use vstd::prelude::*;

use crate::cpu::{AccessKind, CpuState, Seg};
use crate::decode::{Bits, Insn, Rep};
use crate::jit::code::{Expr, Frame, Stmt, lemma_run_concat, run};
use crate::jit::correct::jump::{lemma_exit};
use crate::jit::correct::{agrees, is_string, ready};
use crate::jit::laws::{
    lemma_reg_bits, lemma_run_single, lemma_run_triple, lemma_store_changes_memory,
};
use crate::jit::lower::{exit_stmt, jump_code, string_bits, string_number};
use crate::mem::DevLog;
use crate::sem::exec::performed;
use crate::sem::string::{StrMode, StrOp, do_string};

verus! {

/// A round of a string operation changes registers, flags and memory alone.
pub(crate) proof fn lemma_once_shape(s: CpuState, m: StrMode, log: DevLog)
    requires
        s.wf(),
    ensures
        ({
            let t = s.string_once(m, log).0;
            t.wf() && t == (CpuState { gpr: t.gpr, eflags: t.eflags, mem: t.mem, ..s })
        }),
{
    reveal(CpuState::string_once);
    lemma_reg_bits(0);
    lemma_reg_bits(6);
    lemma_reg_bits(7);
    let v = match m.op {
        StrOp::Movs => match s.element(Seg::Ds, 6, m) {
            Ok(v) => v,
            Err(_) => 0,
        },
        StrOp::Ins => s.port_in(s.gpr[2] as u16, m.bits.size() as u8, log).1,
        _ => s.gpr_at(0, m.bits),
    };
    let p = s.port_in(s.gpr[2] as u16, m.bits.size() as u8, log).0;
    lemma_store_changes_memory(
        s,
        Seg::Es,
        s.index_reg(7, m.a16),
        m.bits.size(),
        v,
        AccessKind::Write,
    );
    lemma_store_changes_memory(
        p,
        Seg::Es,
        p.index_reg(7, m.a16),
        m.bits.size(),
        v,
        AccessKind::Write,
    );
}

/// Where a round that stops at faults meets none, one that goes on over faults
/// does the same.
pub(crate) proof fn lemma_once_lenient(s: CpuState, m: StrMode, log: DevLog)
    requires
        m.strict,
        s.string_once(m, log).1 is Ok,
    ensures
        s.string_once(StrMode { strict: false, ..m }, log) == s.string_once(m, log),
{
    reveal(CpuState::string_once);
}

/// The same for all rounds, and what they leave alone.
pub(crate) proof fn lemma_rounds_lenient(s: CpuState, m: StrMode, rep: Rep, n: nat, log: DevLog)
    requires
        s.wf(),
        m.strict,
        s.string_rounds(m, rep, n, log).1 is Ok,
    ensures
        s.string_rounds(StrMode { strict: false, ..m }, rep, n, log) == s.string_rounds(
            m,
            rep,
            n,
            log,
        ),
    decreases n,
{
    if n > 0 {
        lemma_once_lenient(s, m, log);
        lemma_once_shape(s, m, log);
        let t = s.string_once(m, log).0.with_gpr_at(
            1,
            Bits::by_attribute(m.a16),
            (n - 1) as u32,
        );
        lemma_reg_bits(1);
        if !m.op.stops(rep, t.eflags) {
            lemma_rounds_lenient(t, m, rep, (n - 1) as nat, log);
        }
    }
}

pub(crate) proof fn lemma_rounds_shape(s: CpuState, m: StrMode, rep: Rep, n: nat, log: DevLog)
    requires
        s.wf(),
    ensures
        ({
            let t = s.string_rounds(m, rep, n, log).0;
            t.wf() && t == (CpuState { gpr: t.gpr, eflags: t.eflags, mem: t.mem, ..s })
        }),
    decreases n,
{
    if n > 0 {
        lemma_reg_bits(1);
        lemma_once_shape(s, m, log);
        let t = s.string_once(m, log).0.with_gpr_at(
            1,
            Bits::by_attribute(m.a16),
            (n - 1) as u32,
        );
        lemma_rounds_shape(t, m, rep, (n - 1) as nat, log);
    }
}

/// A string operation that goes on over faults: what it leaves alone, and that
/// it does what one that stops at faults does where there is none.
pub(crate) proof fn lemma_string_done(s: CpuState, m: StrMode, rep: Rep, log: DevLog)
    requires
        s.wf(),
        m.strict,
    ensures
        ({
            let t = s.string_done(StrMode { strict: false, ..m }, rep, log).0;
            &&& t.wf()
            &&& t == (CpuState { gpr: t.gpr, eflags: t.eflags, mem: t.mem, ..s })
            &&& s.string_done(m, rep, log).1 is Ok ==> t == s.string_done(m, rep, log).0
        }),
{
    let lenient = StrMode { strict: false, ..m };
    let n = s.index_reg(1, m.a16) as nat;
    if m.op.repeats(rep) {
        lemma_rounds_shape(s, lenient, rep, n, log);
        if s.string_done(m, rep, log).1 is Ok {
            lemma_rounds_lenient(s, m, rep, n, log);
        }
    } else {
        lemma_once_shape(s, lenient, log);
        if s.string_done(m, rep, log).1 is Ok {
            lemma_once_lenient(s, m, log);
        }
    }
}

/// Flush, a string operation and reload.
pub(crate) proof fn lemma_string_code(op: u8, rep: Rep, bits: Bits, f: Frame, eip: u32, log: DevLog)
    requires
        f.wf(),
        f.done is None,
    ensures
        ({
            let g = run(
                seq![Stmt::Flush(eip), Stmt::Str { op, rep, bits }, Stmt::Reload],
                f,
                log,
            );
            let m = StrMode {
                op: StrOp::of(op),
                bits,
                a16: f.at(eip).default16(),
                strict: false,
            };
            &&& g.wf()
            &&& g.done is None
            &&& g.at(eip) == f.at(eip).string_done(m, rep, log).0
        }),
{
    lemma_run_triple(Stmt::Flush(eip), Stmt::Str { op, rep, bits }, Stmt::Reload, f, log);
    let m = StrMode { op: StrOp::of(op), bits, a16: f.at(eip).default16(), strict: true };
    lemma_string_done(f.at(eip), m, rep, log);
}

pub(crate) proof fn lemma_string(f: Frame, i: Insn, eip: u32, wide: bool, log: DevLog)
    requires
        ready(f, i, eip, wide),
        is_string(i.op),
    ensures
        agrees(f, run(jump_code(i, eip, wide), f, log), i, eip, wide, log),
{
    let s = f.at(eip);
    let bits = string_bits(i.op);
    let n = string_number(i.op);
    let op = StrOp::of(n);
    assert(performed(s, i, log) == do_string(s, i, op, bits, log)) by {
        reveal(performed);
    }
    if i.a16 == wide {
        lemma_run_single(Stmt::Exit { eip: Expr::Const(eip), status: 1 }, f, log);
    } else {
        let next = eip.wrapping_add(i.len as u32);
        let c0 = seq![Stmt::Flush(eip), Stmt::Str { op: n, rep: i.rep, bits }, Stmt::Reload];
        let x = exit_stmt(Expr::Const(next), wide);
        assert(jump_code(i, eip, wide) =~= c0 + seq![x]);
        lemma_run_concat(c0, seq![x], f, log);
        lemma_string_code(n, i.rep, bits, f, eip, log);
        let f1 = run(c0, f, log);
        lemma_run_single(x, f1, log);
        lemma_exit(Expr::Const(next), f1, wide, log);
        lemma_string_done(s, StrMode { op, bits, a16: i.a16, strict: true }, i.rep, log);
    }
}

} // verus!
