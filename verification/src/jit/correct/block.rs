//! A compiled block does what the interpreter does on its instructions.

use vstd::prelude::*;

use crate::cpu::{CpuState, OutView};
use crate::decode::{Insn, decoded_is_well_formed};
use crate::jit::code::{Expr, Frame, Stmt, lemma_run_concat, run};
use crate::jit::correct::{
    called_operand, calls_operand, is_string, left_as_it_was,
    lowered_instruction_matches_interpreter, over_faults,
};
use crate::jit::laws::{lemma_run_empty, lemma_run_single};
use crate::jit::lower::{block_code, following, lowered, lowered_plan};
use crate::jit::plan::{part_of_block, plan_at, traced};
use crate::mem::DevLog;
use crate::sem::exec::{executed, performed};

verus! {

/// The EIP behind the instructions `plan`, the first of which is at `eip`.
pub open spec fn plan_end(plan: Seq<Insn>, eip: u32, wide: bool) -> u32
    decreases plan.len(),
{
    if plan.len() == 0 {
        eip
    } else {
        plan_end(plan.skip(1), following(eip, plan[0].len, wide), wide)
    }
}

/// Whether instructions make up a block: well-formed and compiled, and only the
/// last may end it.
pub open spec fn compilable(plan: Seq<Insn>) -> bool {
    &&& forall|k: int| 0 <= k < plan.len() ==> (#[trigger] plan[k]).wf()
    &&& forall|k: int|
        0 <= k < plan.len() ==> !(part_of_block(#[trigger] plan[k]) is Fallback)
    &&& forall|k: int| 0 <= k < plan.len() - 1 ==> part_of_block(#[trigger] plan[k]) is Native
}

/// The rest of a block is one.
pub proof fn lemma_rest_compilable(plan: Seq<Insn>)
    requires
        compilable(plan),
        plan.len() > 0,
    ensures
        compilable(plan.skip(1)),
{
    let rest = plan.skip(1);
    assert forall|k: int| 0 <= k < rest.len() implies (#[trigger] rest[k]).wf() by {
        assert(rest[k] == plan[k + 1]);
    }
    assert forall|k: int| 0 <= k < rest.len() implies !(part_of_block(
        #[trigger] rest[k],
    ) is Fallback) by {
        assert(rest[k] == plan[k + 1]);
    }
    assert forall|k: int| 0 <= k < rest.len() - 1 implies part_of_block(
        #[trigger] rest[k],
    ) is Native by {
        assert(rest[k] == plan[k + 1]);
    }
}

/// How running the code of `plan` in the frame `f` with the result `g` relates to
/// the interpreter, which runs the instructions from `s` on:
/// - the block goes on, or has ended with its last instruction, in the state of
///   the interpreter (but for a string operation that has gone on over a fault and
///   a near call through its operand), or
/// - some instruction was left, behind those that ran as in the interpreter.
pub open spec fn plan_agrees(
    s: CpuState,
    g: Frame,
    plan: Seq<Insn>,
    eip: u32,
    wide: bool,
    log: DevLog,
) -> bool
    decreases plan.len(),
{
    if plan.len() == 0 {
        g.done is None && g.wf() && g.at(eip) == s
    } else if g.done == Some((eip, 1u32)) && left_as_it_was(s, g, plan[0], eip, wide, log) {
        true
    } else if part_of_block(plan[0]) is Terminal {
        match g.done {
            Some((t, status)) => status == 0 && (executed(s, plan[0], log) == (
                g.at(t),
                OutView::Continue,
            ) || (is_string(plan[0].op) && performed(s, plan[0], log).early && g.at(t)
                == over_faults(s, plan[0], log).with_eip(following(eip, plan[0].len, wide))) || (
            calls_operand(plan[0]) && called_operand(s, g.at(t), plan[0], wide))),
            None => false,
        }
    } else {
        &&& executed(s, plan[0], log).1 is Continue
        &&& !performed(s, plan[0], log).early
        &&& plan_agrees(
            executed(s, plan[0], log).0,
            g,
            plan.skip(1),
            following(eip, plan[0].len, wide),
            wide,
            log,
        )
    }
}

/// The code of a plan does what the interpreter does, instruction by
/// instruction.
pub proof fn lowered_plan_matches_interpreter(
    f: Frame,
    plan: Seq<Insn>,
    eip: u32,
    wide: bool,
    log: DevLog,
)
    requires
        f.wf(),
        f.done is None,
        wide == !f.at(eip).default16(),
        compilable(plan),
    ensures
        plan_agrees(f.at(eip), run(lowered_plan(plan, eip, wide), f, log), plan, eip, wide, log),
    decreases plan.len(),
{
    if plan.len() == 0 {
        lemma_run_empty(f, log);
    } else {
        let i = plan[0];
        let next = following(eip, i.len, wide);
        let rest = plan.skip(1);
        let c0 = lowered(i, eip, wide);
        let f1 = run(c0, f, log);
        lemma_run_concat(c0, lowered_plan(rest, next, wide), f, log);
        lowered_instruction_matches_interpreter(f, i, eip, wide, log);
        if f1.done is None {
            assert(executed(f.at(eip), i, log) == (f1.at(next), OutView::Continue));
            lemma_rest_compilable(plan);
            lowered_plan_matches_interpreter(f1, rest, next, wide, log);
        }
    }
}

/// A compiled block that ends with status 0 has done what the interpreter does on
/// all of its instructions, unless a string operation at its end met a fault or a
/// near call at its end went to its operand; one that ends with status 1 at its tail
/// has done the same; else it ends with status 1 at an instruction that is left to
/// the interpreter, behind those that ran as in the interpreter.
pub proof fn block_matches_interpreter(
    s: CpuState,
    plan: Seq<Insn>,
    wide: bool,
    tail_eip: u32,
    tail_status: u32,
    log: DevLog,
)
    requires
        s.wf(),
        wide == !s.default16(),
        compilable(plan),
        plan.len() > 0,
        part_of_block(plan.last()) is Native ==> tail_status == 1 && tail_eip == plan_end(
            plan,
            s.eip,
            wide,
        ),
    ensures
        ({
            let g = run(
                block_code(plan, s.eip, wide, tail_eip, tail_status),
                Frame::entry(s),
                log,
            );
            &&& g.done is Some
            &&& block_outcome(s, g, plan, s.eip, wide, log)
        }),
{
    let f = Frame::entry(s);
    let x = Stmt::Exit { eip: Expr::Const(tail_eip), status: tail_status };
    let c0 = lowered_plan(plan, s.eip, wide);
    assert(f.at(s.eip) == s);
    lowered_plan_matches_interpreter(f, plan, s.eip, wide, log);
    lemma_run_concat(c0, seq![x], f, log);
    let g0 = run(c0, f, log);
    lemma_run_single(x, g0, log);
    lemma_block_end(s, g0, plan, s.eip, wide, log);
}

/// What a whole block has done, seen from the interpreter, which runs its
/// instructions from `s` on.
pub open spec fn block_outcome(
    s: CpuState,
    g: Frame,
    plan: Seq<Insn>,
    eip: u32,
    wide: bool,
    log: DevLog,
) -> bool
    decreases plan.len(),
{
    if plan.len() == 0 {
        g.done == Some((eip, 1u32)) && g.at(eip) == s
    } else if g.done == Some((eip, 1u32)) && left_as_it_was(s, g, plan[0], eip, wide, log) {
        true
    } else if part_of_block(plan[0]) is Terminal {
        match g.done {
            Some((t, status)) => status == 0 && (executed(s, plan[0], log) == (
                g.at(t),
                OutView::Continue,
            ) || (is_string(plan[0].op) && performed(s, plan[0], log).early && g.at(t)
                == over_faults(s, plan[0], log).with_eip(following(eip, plan[0].len, wide))) || (
            calls_operand(plan[0]) && called_operand(s, g.at(t), plan[0], wide))),
            None => false,
        }
    } else {
        &&& executed(s, plan[0], log).1 is Continue
        &&& block_outcome(
            executed(s, plan[0], log).0,
            g,
            plan.skip(1),
            following(eip, plan[0].len, wide),
            wide,
            log,
        )
    }
}

/// The tail of a block ends it where its instructions have not.
proof fn lemma_block_end(
    s: CpuState,
    g: Frame,
    plan: Seq<Insn>,
    eip: u32,
    wide: bool,
    log: DevLog,
)
    requires
        plan_agrees(s, g, plan, eip, wide, log),
        compilable(plan),
    ensures
        g.done is Some ==> block_outcome(s, g, plan, eip, wide, log),
        g.done is None ==> {
            &&& block_outcome(
                s,
                g.left(plan_end(plan, eip, wide), 1),
                plan,
                eip,
                wide,
                log,
            )
            &&& plan.len() > 0 ==> part_of_block(plan.last()) is Native
        },
    decreases plan.len(),
{
    if plan.len() > 0 && !(g.done == Some((eip, 1u32)) && left_as_it_was(
        s,
        g,
        plan[0],
        eip,
        wide,
        log,
    )) && !(part_of_block(plan[0]) is Terminal) {
        let rest = plan.skip(1);
        lemma_rest_compilable(plan);
        lemma_block_end(
            executed(s, plan[0], log).0,
            g,
            rest,
            following(eip, plan[0].len, wide),
            wide,
            log,
        );
        if rest.len() > 0 {
            assert(rest.last() == plan.last());
        }
    }
}

/// A traced block can be compiled, and its tail is where its instructions end.
pub proof fn lemma_traced(s: CpuState, cur: u32, n: nat)
    requires
        n <= 255,
    ensures
        traced(s, cur, n) matches Some((p, tail, status)) ==> {
            &&& compilable(p)
            &&& p.len() <= 256 - n
            &&& (p.len() > 0 && part_of_block(p.last()) is Terminal) ==> status == 0
            &&& (p.len() == 0 || part_of_block(p.last()) is Native) ==> status == 1 && tail
                == plan_end(p, cur, !s.default16())
        },
    decreases 255 - n,
{
    decoded_is_well_formed(s.with_eip(cur));
    if let Ok(i) = s.with_eip(cur).decoded() {
        if part_of_block(i) is Native && n < 255 {
            let next = following(cur, i.len, !s.default16());
            lemma_traced(s, next, n + 1);
            if let Some((rest, tail, status)) = traced(s, next, n + 1) {
                let p = seq![i] + rest;
                assert(p.skip(1) =~= rest);
                assert forall|k: int| 0 <= k < p.len() implies (#[trigger] p[k]).wf() by {
                    if k > 0 {
                        assert(p[k] == rest[k - 1]);
                    }
                }
                assert forall|k: int| 0 <= k < p.len() implies !(part_of_block(
                    #[trigger] p[k],
                ) is Fallback) by {
                    if k > 0 {
                        assert(p[k] == rest[k - 1]);
                    }
                }
                assert forall|k: int| 0 <= k < p.len() - 1 implies part_of_block(
                    #[trigger] p[k],
                ) is Native by {
                    if k > 0 {
                        assert(p[k] == rest[k - 1]);
                    }
                }
                if rest.len() > 0 {
                    assert(p.last() == rest.last());
                }
            }
        }
    }
}

/// The block that is compiled for a state does what the interpreter does from
/// that state on, in the sense of `block_outcome`.
pub proof fn compiled_block_matches_interpreter(s: CpuState, log: DevLog)
    requires
        s.wf(),
    ensures
        plan_at(s) matches Some((plan, tail, status)) ==> {
            let wide = !s.default16();
            let g = run(block_code(plan, s.eip, wide, tail, status), Frame::entry(s), log);
            g.done is Some && block_outcome(s, g, plan, s.eip, wide, log)
        },
{
    lemma_traced(s, s.eip, 0);
    if let Some((plan, tail, status)) = plan_at(s) {
        block_matches_interpreter(s, plan, !s.default16(), tail, status, log);
    }
}

} // verus!
