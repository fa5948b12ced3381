//! A run of the block engine leaves the state that the interpreter leaves.
//!
//! There is no device and no pending interrupt, and the host runs a block as
//! `jit::code::run` says. The cycle counter is set apart: the engine moves it on by
//! whole blocks.

use vstd::prelude::*;

use crate::cpu::{CpuState, ErrorView, OutView};
use crate::decode::{Insn, decoded_is_well_formed, decoding_depends_on_code_alone};
use crate::interp::{ran, stepped};
use crate::jit::code::{Frame, Stmt, run};
use crate::jit::correct::block::{
    block_outcome, compilable, compiled_block_matches_interpreter, lemma_rest_compilable,
    lemma_traced,
};
use crate::jit::correct::{calls_operand, drops_fault, is_string, left_as_it_was};
use crate::jit::engine::{ActionView, BlockEntry, JitState, Turn, Wait, block_at};
use crate::jit::lower::following;
use crate::jit::plan::{part_of_block, plan_at};
use crate::laws::clock::steps::{
    dropped_faults_ignore_the_clock, instruction_ignores_the_clock,
    instructions_ignore_the_clock, nothing_is_delivered, runs_ignore_the_clock, silent,
    steps_ignore_the_clock,
};
use crate::laws::run::{engine_keeps_to_the_limit, runs_add_up};
use crate::sem::exec::{executed, instruction_done, performed};

verus! {

// ---------------------------------------------------------------------------
// Instructions on which both engines agree
// ---------------------------------------------------------------------------

/// The instruction does the same when it is run again behind its own fault.
pub open spec fn repeatable(s: CpuState, i: Insn) -> bool {
    let r = performed(s, i, silent());
    r.s.decoded() == s.decoded() && performed(r.s, i, silent()) == r
}

impl CpuState {
    /// Compiled code does with the next instruction what the interpreter does. The
    /// instruction
    /// - is not RDTSC, which reads the cycle counter,
    /// - is no near call through a register or memory,
    /// - makes no write whose fault the interpreter drops, and,
    /// - if it is compiled and faults, is no string operation and can be repeated.
    pub open spec fn comparable(self) -> bool {
        !self.halted ==> (self.decoded() matches Ok(i) ==> {
            &&& !(i.op is Rdtsc)
            &&& !calls_operand(i)
            &&& !drops_fault(self, i)
            &&& !(part_of_block(i) is Fallback) && performed(self, i, silent()).early
                ==> !is_string(i.op) && repeatable(self, i)
        })
    }
}

/// All instructions that the interpreter comes to from `s` on are comparable.
pub open spec fn plain_path(s: CpuState) -> bool {
    forall|n: nat| (#[trigger] ran(s, n, silent())).0.comparable()
}

// ---------------------------------------------------------------------------
// The host
// ---------------------------------------------------------------------------

/// What the engine has asked the host to do, and in which state.
pub struct Round {
    pub j: JitState,
    pub s: CpuState,
    pub a: ActionView,
}

/// A round by its parts.
pub open spec fn round_of(t: (JitState, CpuState, ActionView)) -> Round {
    Round { j: t.0, s: t.1, a: t.2 }
}

/// What the block with the handle `f` does from `s` on, where `code_of` is the code
/// behind each handle.
pub open spec fn block_run(code_of: spec_fn(u64) -> Seq<Stmt>, f: u64, s: CpuState) -> Frame {
    run(code_of(f), Frame::entry(s), silent())
}

/// `next` is the round behind `r`: the host has compiled the block that it was
/// given, or could not, or it has run the block that it was to call.
pub open spec fn answered(code_of: spec_fn(u64) -> Seq<Stmt>, r: Round, next: Round) -> bool {
    match r.a {
        ActionView::Done(_) => false,
        ActionView::Compile(code, len) => exists|func: Option<u64>|
            {
                &&& func matches Some(f) ==> code_of(f) == code
                &&& next == round_of(
                    JitState::then_driven(
                        #[trigger] r.j.on_compiled(r.s, func, silent()),
                        silent(),
                    ),
                )
            },
        ActionView::Call(f) => {
            let g = block_run(code_of, f, r.s);
            g.done matches Some((eip, status)) && next == round_of(
                JitState::then_driven(
                    r.j.on_returned(g.at(eip), status as u64, silent()),
                    silent(),
                ),
            )
        },
    }
}

/// The rounds of a run of up to `limit` instructions.
pub open spec fn hosted(
    code_of: spec_fn(u64) -> Seq<Stmt>,
    j: JitState,
    s: CpuState,
    limit: u64,
    rounds: Seq<Round>,
) -> bool {
    &&& rounds.len() > 0
    &&& rounds[0] == round_of(j.started(limit).driven(s, silent()))
    &&& forall|k: int|
        0 < k < rounds.len() ==> answered(code_of, rounds[k - 1], #[trigger] rounds[k])
}

/// How many instructions of `plan` have run, where `g` is what the block with these
/// instructions has come to.
pub open spec fn block_steps(s: CpuState, g: Frame, plan: Seq<Insn>, eip: u32, wide: bool) -> nat
    decreases plan.len(),
{
    if plan.len() == 0 {
        0
    } else if g.done == Some((eip, 1u32)) && left_as_it_was(s, g, plan[0], eip, wide, silent()) {
        0
    } else {
        1 + block_steps(
            executed(s, plan[0], silent()).0,
            g,
            plan.skip(1),
            following(eip, plan[0].len, wide),
            wide,
        )
    }
}

/// The interpreter, from `s` on, decodes the instructions of `plan` as far as the
/// block comes: the block has not written over them.
pub open spec fn unchanged(s: CpuState, g: Frame, plan: Seq<Insn>, eip: u32, wide: bool) -> bool
    decreases plan.len(),
{
    if plan.len() == 0 {
        true
    } else {
        &&& s.decoded() == Ok::<Insn, Seq<char>>(plan[0])
        &&& (g.done == Some((eip, 1u32)) && left_as_it_was(
            s,
            g,
            plan[0],
            eip,
            wide,
            silent(),
        )) || unchanged(
            executed(s, plan[0], silent()).0,
            g,
            plan.skip(1),
            following(eip, plan[0].len, wide),
            wide,
        )
    }
}

/// A block that is called is that of the code as it stands.
pub open spec fn up_to_date(code_of: spec_fn(u64) -> Seq<Stmt>, r: Round) -> bool {
    match r.a {
        ActionView::Call(f) => {
            &&& block_at(r.s) matches Some((code, len)) && code == code_of(f) && r.j.wait == (
            Wait::Returned { len })
            &&& plan_at(r.s) matches Some((plan, tail, status)) && unchanged(
                r.s,
                block_run(code_of, f, r.s),
                plan,
                r.s.eip,
                !r.s.default16(),
            )
        },
        _ => true,
    }
}

/// How many instructions the engine counts in a round although they have not run:
/// it counts the whole of a block that is left early.
pub open spec fn skipped_in(code_of: spec_fn(u64) -> Seq<Stmt>, r: Round) -> int {
    match (r.a, r.j.wait, plan_at(r.s)) {
        (
            ActionView::Call(f),
            Wait::Returned { len },
            Some((plan, tail, status)),
        ) => len - block_steps(
            r.s,
            block_run(code_of, f, r.s),
            plan,
            r.s.eip,
            !r.s.default16(),
        ),
        _ => 0,
    }
}

/// How many instructions the engine has counted in all rounds but the last although
/// they have not run.
pub open spec fn skipped(code_of: spec_fn(u64) -> Seq<Stmt>, rounds: Seq<Round>) -> int
    decreases rounds.len(),
{
    if rounds.len() <= 1 {
        0
    } else {
        let before = rounds.drop_last();
        skipped(code_of, before) + skipped_in(code_of, before.last())
    }
}

/// Where the engine is in a round, seen from the interpreter that started in `s`:
/// `n` steps lead to the same state but for the cycle counter, or, where the run has
/// met an error, one more step to the same state and error.
pub open spec fn reached(s: CpuState, n: int, r: Round) -> bool {
    &&& n >= 0
    &&& match r.a {
        ActionView::Done(Err(e)) => {
            let (u, out) = ran(s, (n + 1) as nat, silent());
            out == Err::<(), _>(e) && u.but_for_clock(r.s)
        },
        _ => {
            let (u, out) = ran(s, n as nat, silent());
            out is Ok && u.but_for_clock(r.s)
        },
    }
}

// ---------------------------------------------------------------------------
// Paths
// ---------------------------------------------------------------------------

/// Comparing does not depend on the time.
proof fn lemma_comparable_clock(s: CpuState, t: CpuState)
    requires
        s.quiet(),
        s.but_for_clock(t),
        s.comparable(),
    ensures
        t.comparable(),
        !s.reads_clock(),
{
    decoding_depends_on_code_alone(s, t);
    decoded_is_well_formed(s);
    if let Ok(i) = s.decoded() {
        if !s.halted {
            let c = t.cycles;
            let r = performed(s, i, silent());
            dropped_faults_ignore_the_clock(s, c, i);
            instructions_ignore_the_clock(s, c, i, silent());
            instructions_ignore_the_clock(r.s, c, i, silent());
            decoding_depends_on_code_alone(r.s, r.s.clocked(c));
        }
    }
}

/// The path behind a step.
proof fn lemma_path_step(s: CpuState)
    requires
        plain_path(s),
        !(stepped(s, silent()).1 is Error),
    ensures
        plain_path(stepped(s, silent()).0),
{
    let t = stepped(s, silent()).0;
    assert forall|n: nat| (#[trigger] ran(t, n, silent())).0.comparable() by {
        assert(ran(s, n + 1, silent()) == ran(t, n, silent()));
    }
}

/// The path at another time.
proof fn lemma_path_clock(s: CpuState, t: CpuState)
    requires
        s.quiet(),
        s.but_for_clock(t),
        plain_path(s),
    ensures
        plain_path(t),
        t.quiet(),
{
    assert forall|n: nat| (#[trigger] ran(t, n, silent())).0.comparable() by {
        assert(ran(s, n, silent()).0.comparable());
        runs_ignore_the_clock(s, t, n);
        lemma_comparable_clock(ran(s, n, silent()).0, ran(t, n, silent()).0);
    }
}

/// The path behind `n` steps.
proof fn lemma_path_rest(s: CpuState, n: nat)
    requires
        s.quiet(),
        plain_path(s),
        ran(s, n, silent()).1 is Ok,
    ensures
        plain_path(ran(s, n, silent()).0),
        ran(s, n, silent()).0.quiet(),
{
    let u = ran(s, n, silent()).0;
    assert(s.but_for_clock(s));
    runs_ignore_the_clock(s, s, n);
    assert forall|m: nat| (#[trigger] ran(u, m, silent())).0.comparable() by {
        runs_add_up(s, n, m, silent());
        assert(ran(s, n + m, silent()).0.comparable());
    }
}

/// A step is the next instruction, but for the cycle counter.
proof fn lemma_step(s: CpuState, i: Insn)
    requires
        s.quiet(),
        !s.halted,
        s.decoded() == Ok::<Insn, Seq<char>>(i),
        !(i.op is Rdtsc),
    ensures
        stepped(s, silent()).1 == executed(s, i, silent()).1,
        executed(s, i, silent()).0.but_for_clock(stepped(s, silent()).0),
        stepped(s, silent()).0.quiet(),
        executed(s, i, silent()).0.quiet(),
{
    reveal(stepped);
    reveal(instruction_done);
    nothing_is_delivered(s);
    let s1 = s.clocked(s.cycles.wrapping_add(1));
    decoding_depends_on_code_alone(s, s1);
    instruction_ignores_the_clock(s, s1);
}

// ---------------------------------------------------------------------------
// Blocks
// ---------------------------------------------------------------------------

/// A block has ended in the state `t`, where the interpreter is in the state `u`:
/// either the states are the same but for the cycle counter, or the next step fails
/// in both, and leaves `t`.
spec fn landed(u: CpuState, t: CpuState, status: u32) -> bool {
    &&& status <= 1
    &&& t.quiet()
    &&& !t.reads_clock()
    &&& u.but_for_clock(t) || {
        let (v, o) = stepped(u, silent());
        let (w, p) = stepped(t, silent());
        status == 1 && o is Error && o == p && v.but_for_clock(t) && w.but_for_clock(t)
    }
}

/// An instruction that was left to the interpreter.
proof fn lemma_left(s: CpuState, g: Frame, i: Insn, eip: u32, wide: bool)
    requires
        s.quiet(),
        !s.halted,
        s.comparable(),
        s.decoded() == Ok::<Insn, Seq<char>>(i),
        !(part_of_block(i) is Fallback),
        left_as_it_was(s, g, i, eip, wide, silent()),
    ensures
        landed(s, g.at(eip), 1),
{
    let r = performed(s, i, silent());
    let t = g.at(eip);
    decoded_is_well_formed(s);
    if r.early && r.out is Error && t == r.s {
        instructions_ignore_the_clock(s, s.cycles, i, silent());
        lemma_step(s, i);
        lemma_step(t, i);
    } else {
        assert(t == s);
    }
}

/// A block of which the interpreter decodes the same instructions has done what the
/// interpreter does in as many steps.
proof fn lemma_block(s: CpuState, g: Frame, plan: Seq<Insn>, eip: u32, wide: bool)
    requires
        s.quiet(),
        !s.halted,
        plain_path(s),
        compilable(plan),
        block_outcome(s, g, plan, eip, wide, silent()),
        unchanged(s, g, plan, eip, wide),
    ensures
        ({
            let q = block_steps(s, g, plan, eip, wide);
            let (u, out) = ran(s, q, silent());
            &&& q <= plan.len()
            &&& out is Ok
            &&& g.done matches Some((e, status)) && landed(u, g.at(e), status)
        }),
    decreases plan.len(),
{
    assert(ran(s, 0, silent()).0 == s);
    assert(s.comparable());
    if plan.len() == 0 {
    } else {
        let i = plan[0];
        let left = g.done == Some((eip, 1u32)) && left_as_it_was(s, g, i, eip, wide, silent());
        if left {
            lemma_left(s, g, i, eip, wide);
        } else {
            let next = following(eip, i.len, wide);
            let rest = plan.skip(1);
            let t = executed(s, i, silent()).0;
            let v = stepped(s, silent()).0;
            decoded_is_well_formed(s);
            lemma_step(s, i);
            instructions_ignore_the_clock(s, s.cycles, i, silent());
            assert(executed(s, i, silent()).1 is Continue);
            assert(!t.halted);
            lemma_path_step(s);
            assert(v.but_for_clock(t));
            lemma_path_clock(v, t);
            lemma_rest_compilable(plan);
            if part_of_block(i) is Terminal {
                assert(rest.len() == 0);
                assert(block_steps(t, g, rest, next, wide) == 0);
                assert(ran(v, 0, silent()).0 == v);
                assert(ran(s, 1, silent()) == ran(v, 0, silent()));
                assert(ran(t, 0, silent()).0 == t);
                lemma_comparable_clock(t, t);
            } else {
                lemma_block(t, g, rest, next, wide);
                let q = block_steps(t, g, rest, next, wide);
                assert(ran(s, q + 1, silent()) == ran(v, q, silent()));
                lemma_same_landing(t, v, g, q);
            }
        }
    }
}

/// Where a block has landed, at another time.
proof fn lemma_same_landing(t: CpuState, v: CpuState, g: Frame, q: nat)
    requires
        t.quiet(),
        t.but_for_clock(v),
        plain_path(t),
        ran(t, q, silent()).1 is Ok,
        g.done matches Some((e, status)) && landed(ran(t, q, silent()).0, g.at(e), status),
    ensures
        ran(v, q, silent()).1 is Ok,
        g.done matches Some((e, status)) && landed(ran(v, q, silent()).0, g.at(e), status),
{
    assert forall|k: nat| k < q implies !(#[trigger] ran(t, k, silent())).0.reads_clock() by {
        assert(ran(t, k, silent()).0.comparable());
    }
    runs_ignore_the_clock(t, v, q);
    let u = ran(t, q, silent()).0;
    assert(u.comparable());
    steps_ignore_the_clock(u, ran(v, q, silent()).0);
}

// ---------------------------------------------------------------------------
// Turns of the engine
// ---------------------------------------------------------------------------

/// A turn from `s` on is a step of the interpreter, which is counted, or asks the
/// host to do something in the same state.
spec fn plain_turn(j: JitState, s: CpuState, turn: Turn) -> bool {
    let (t, out) = stepped(s, silent());
    match turn {
        Turn::Again(k, u) => {
            &&& k.limit == j.limit
            &&& k.count == j.count + 1
            &&& k.wait == Wait::Nothing
            &&& u == t
            &&& !(out is Error)
        },
        Turn::Act(k, u, ActionView::Done(Err(e))) => {
            &&& k.count == j.count + 1
            &&& u == t
            &&& out == OutView::Error(e)
        },
        Turn::Act(k, u, ActionView::Done(Ok(_))) => false,
        Turn::Act(k, u, _) => k.count == j.count && u == s && !s.halted,
    }
}

/// A step of the interpreter as a turn.
proof fn lemma_interpreted(j: JitState, s: CpuState, extra: bool)
    requires
        s.quiet(),
        s.comparable(),
        j.count < j.limit,
    ensures
        plain_turn(j, s, j.interpreted(s, extra, silent())),
{
    assert(s.but_for_clock(s));
    steps_ignore_the_clock(s, s);
}

/// A turn of a run.
proof fn lemma_turn(j: JitState, s: CpuState)
    requires
        s.quiet(),
        s.comparable(),
        j.wait == Wait::Nothing,
        j.count < j.limit,
    ensures
        plain_turn(j, s, j.turn(s, silent())),
{
    reveal(JitState::turn);
    nothing_is_delivered(s);
    if s.halted {
        reveal(stepped);
    } else {
        lemma_interpreted(j, s, true);
        lemma_interpreted(
            JitState { blocks_recompiled: j.blocks_recompiled.wrapping_add(1), ..j },
            s,
            false,
        );
        lemma_interpreted(j, s, false);
    }
}

/// The engine has gone from `s` to a round, with `m` instructions counted, as the
/// interpreter goes in `m` steps.
spec fn went(s: CpuState, m: int, r: Round) -> bool {
    &&& m >= 0
    &&& match r.a {
        ActionView::Done(Err(e)) => ran(s, m as nat, silent()) == (r.s, Err::<(), _>(e)),
        ActionView::Done(Ok(_)) => ran(s, m as nat, silent()) == (r.s, Ok::<(), ErrorView>(())),
        _ => ran(s, m as nat, silent()) == (r.s, Ok::<(), ErrorView>(())) && !r.s.halted,
    }
}

/// What the engine does from a turn on.
proof fn lemma_resumed(j: JitState, s: CpuState, turn: Turn)
    requires
        s.quiet(),
        plain_path(s),
        plain_turn(j, s, turn),
    ensures
        ({
            let r = round_of(JitState::then_driven(turn, silent()));
            went(s, r.j.count - j.count, r)
        }),
    decreases
            (if j.limit > j.count {
                j.limit - j.count
            } else {
                0
            }),
            0int,
{
    assert(ran(s, 0, silent()).0 == s);
    let t = stepped(s, silent()).0;
    assert(ran(t, 0, silent()) == (t, Ok::<(), ErrorView>(())));
    match turn {
        Turn::Again(k, u) => {
            assert(s.comparable());
            assert(s.but_for_clock(s));
            steps_ignore_the_clock(s, s);
            lemma_path_step(s);
            if j.count < j.limit {
                lemma_driven(k, t);
            } else {
                reveal(JitState::driven);
            }
            let m = k.driven(t, silent()).0.count - k.count;
            assert(ran(s, (m + 1) as nat, silent()) == ran(t, m as nat, silent()));
        },
        Turn::Act(k, u, a) => {
            if a is Done {
                assert(ran(s, 1, silent()) == (match stepped(s, silent()).1 {
                    OutView::Error(e) => (t, Err::<(), _>(e)),
                    _ => ran(t, 0, silent()),
                }));
            }
        },
    }
}

/// What the engine does until the host has something to do.
proof fn lemma_driven(j: JitState, s: CpuState)
    requires
        s.quiet(),
        plain_path(s),
        j.wait == Wait::Nothing,
    ensures
        ({
            let r = round_of(j.driven(s, silent()));
            went(s, r.j.count - j.count, r)
        }),
    decreases
            (if j.limit > j.count {
                j.limit - j.count
            } else {
                0
            }),
            1int,
{
    reveal(JitState::driven);
    assert(ran(s, 0, silent()).0 == s);
    if j.count < j.limit {
        assert(s.comparable());
        lemma_turn(j, s);
        lemma_resumed(j, s, j.turn(s, silent()));
    }
}

// ---------------------------------------------------------------------------
// Rounds
// ---------------------------------------------------------------------------

/// The engine goes on from a state that is that of the interpreter but for the
/// cycle counter.
proof fn lemma_goes_on(s: CpuState, n: int, t: CpuState, m: int, r: Round)
    requires
        s.quiet(),
        plain_path(s),
        n >= 0,
        ran(s, n as nat, silent()).1 is Ok,
        ran(s, n as nat, silent()).0.but_for_clock(t),
        went(t, m, r),
    ensures
        reached(s, n + m, r),
        !(r.a is Done) ==> !r.s.halted,
{
    let u = ran(s, n as nat, silent()).0;
    lemma_path_rest(s, n as nat);
    assert forall|k: nat| k < m implies !(#[trigger] ran(u, k, silent())).0.reads_clock() by {
        assert(ran(u, k, silent()).0.comparable());
    }
    runs_ignore_the_clock(u, t, m as nat);
    runs_add_up(s, n as nat, m as nat, silent());
    runs_add_up(s, (n + m) as nat, 1, silent());
}

/// What the engine is in a round of a run of up to `limit` instructions.
spec fn standing(limit: u64, r: Round) -> bool {
    &&& r.j.limit == limit
    &&& r.j.awaits(r.a)
    &&& match r.a {
        ActionView::Call(f) => r.j.wait matches Wait::Returned { len } && r.j.count + len <= limit,
        ActionView::Compile(code, len) => r.j.count < limit,
        ActionView::Done(Ok(n)) => n == r.j.count && n >= limit,
        ActionView::Done(Err(_)) => true,
    }
}

/// The round behind a turn that is a step or asks for a call.
proof fn lemma_standing(j: JitState, s: CpuState, extra: bool, e: BlockEntry)
    requires
        j.wait == Wait::Nothing,
        j.count < j.limit,
    ensures
        standing(
            j.limit,
            round_of(JitState::then_driven(j.interpreted(s, extra, silent()), silent())),
        ),
        standing(
            j.limit,
            round_of(JitState::then_driven(j.entered(s, e, silent()), silent())),
        ),
{
    if let Turn::Again(k, t) = j.interpreted(s, extra, silent()) {
        engine_keeps_to_the_limit(k, t, silent());
    }
    if let Turn::Again(k, t) = j.interpreted(s, true, silent()) {
        engine_keeps_to_the_limit(k, t, silent());
    }
}

/// The host was asked to compile a block.
proof fn lemma_compile_round(
    code_of: spec_fn(u64) -> Seq<Stmt>,
    s: CpuState,
    n: int,
    limit: u64,
    r: Round,
    next: Round,
)
    requires
        s.quiet(),
        plain_path(s),
        reached(s, n, r),
        standing(limit, r),
        r.a is Compile,
        !r.s.halted,
        answered(code_of, r, next),
    ensures
        reached(s, n + (next.j.count - r.j.count), next),
        standing(limit, next),
        !(next.a is Done) ==> !next.s.halted,
{
    let func = choose|func: Option<u64>|
        next == round_of(
            JitState::then_driven(#[trigger] r.j.on_compiled(r.s, func, silent()), silent()),
        );
    let turn = r.j.on_compiled(r.s, func, silent());
    lemma_path_rest(s, n as nat);
    lemma_path_clock(ran(s, n as nat, silent()).0, r.s);
    assert(ran(r.s, 0, silent()).0 == r.s);
    assert(r.s.comparable());
    match (r.j.wait, func) {
        (Wait::Compiled { key, state, len }, Some(f)) => {
            let e = BlockEntry { func: f, len, state };
            let j = JitState { wait: Wait::Nothing, ..r.j.cached(key, e) };
            lemma_interpreted(j, r.s, true);
            lemma_standing(j, r.s, true, e);
            assert(plain_turn(r.j, r.s, turn));
        },
        _ => {
            let j = JitState { wait: Wait::Nothing, ..r.j };
            let e = BlockEntry { func: 0, len: 0, state: 0 };
            lemma_interpreted(j, r.s, false);
            lemma_standing(j, r.s, false, e);
            assert(plain_turn(r.j, r.s, turn));
        },
    }
    lemma_resumed(r.j, r.s, turn);
    lemma_goes_on(s, n, r.s, next.j.count - r.j.count, next);
}

/// The interpreter takes `q` more steps, at another time.
proof fn lemma_more_steps(s: CpuState, n: int, t: CpuState, q: nat)
    requires
        s.quiet(),
        plain_path(s),
        n >= 0,
        ran(s, n as nat, silent()).1 is Ok,
        ran(s, n as nat, silent()).0.but_for_clock(t),
        ran(t, q, silent()).1 is Ok,
    ensures
        ran(s, (n + q) as nat, silent()).1 is Ok,
        ran(s, (n + q) as nat, silent()).0.but_for_clock(ran(t, q, silent()).0),
        ran(s, (n + q) as nat, silent()).0.quiet(),
        plain_path(ran(s, (n + q) as nat, silent()).0),
{
    let u = ran(s, n as nat, silent()).0;
    lemma_path_rest(s, n as nat);
    assert forall|k: nat| k < q implies !(#[trigger] ran(u, k, silent())).0.reads_clock() by {
        assert(ran(u, k, silent()).0.comparable());
    }
    runs_ignore_the_clock(u, t, q);
    runs_add_up(s, n as nat, q, silent());
    assert(n as nat + q == (n + q) as nat);
    lemma_path_rest(s, (n + q) as nat);
}

/// One more step, at another time.
proof fn lemma_one_step(s: CpuState, n: nat, t: CpuState)
    requires
        s.quiet(),
        plain_path(s),
        ran(s, n, silent()).1 is Ok,
        ran(s, n, silent()).0.but_for_clock(t),
    ensures
        ({
            let (w, out) = stepped(t, silent());
            let (u, r) = ran(s, n + 1, silent());
            &&& u.but_for_clock(w)
            &&& match out {
                OutView::Error(e) => r == Err::<(), _>(e),
                _ => r is Ok,
            }
        }),
{
    let u = ran(s, n, silent()).0;
    lemma_path_rest(s, n);
    assert(ran(u, 0, silent()).0 == u);
    assert(u.comparable());
    steps_ignore_the_clock(u, t);
    runs_add_up(s, n, 1, silent());
    let (v, out) = stepped(u, silent());
    assert(ran(v, 0, silent()) == (v, Ok::<(), ErrorView>(())));
    assert(ran(u, 1, silent()) == (match out {
        OutView::Error(e) => (v, Err::<(), _>(e)),
        _ => ran(v, 0, silent()),
    }));
}

/// Behind a block that has landed where the interpreter is after `n` steps.
proof fn lemma_returned(s: CpuState, n: nat, j: JitState, t: CpuState, status: u32, len: u32)
    requires
        s.quiet(),
        plain_path(s),
        ran(s, n, silent()).1 is Ok,
        landed(ran(s, n, silent()).0, t, status),
        j.wait == (Wait::Returned { len }),
        j.count + len <= j.limit,
        j.limit < u64::MAX,
    ensures
        ({
            let next = round_of(
                JitState::then_driven(j.on_returned(t, status as u64, silent()), silent()),
            );
            &&& reached(s, n + (next.j.count - j.count - len), next)
            &&& standing(j.limit, next)
            &&& !(next.a is Done) ==> !next.s.halted
        }),
{
    let u = ran(s, n, silent()).0;
    let t1 = t.clocked(t.cycles.wrapping_add(len as u64));
    let j1 = JitState {
        count: (j.count + len) as u64,
        instructions_run: j.instructions_run.wrapping_add(len as u64),
        wait: Wait::Nothing,
        ..j
    };
    lemma_path_rest(s, n);
    assert(ran(u, 0, silent()).0 == u);
    assert(u.comparable());
    let (w, out) = stepped(t1, silent());
    steps_ignore_the_clock(t, t1);
    if u.but_for_clock(t) {
        lemma_path_clock(u, t1);
        if status == 0 {
            let next = round_of(j1.driven(t1, silent()));
            lemma_driven(j1, t1);
            engine_keeps_to_the_limit(j1, t1, silent());
            lemma_goes_on(s, n as int, t1, next.j.count - j1.count, next);
        } else {
            lemma_one_step(s, n, t1);
            assert(t1.but_for_clock(t1));
            assert(ran(t1, 0, silent()).0 == t1);
            assert(t1.comparable());
            steps_ignore_the_clock(t1, t1);
            if !(out is Error) {
                let j2 = JitState { count: (j1.count + 1) as u64, ..j1 };
                let next = round_of(j2.driven(w, silent()));
                lemma_path_step(t1);
                lemma_driven(j2, w);
                engine_keeps_to_the_limit(j2, w, silent());
                lemma_goes_on(s, (n + 1) as int, w, next.j.count - j2.count, next);
            }
        }
    } else {
        assert(u.but_for_clock(u));
        lemma_one_step(s, n, u);
    }
}

/// The host was asked to call a block.
proof fn lemma_call_round(
    code_of: spec_fn(u64) -> Seq<Stmt>,
    s: CpuState,
    n: int,
    limit: u64,
    r: Round,
    next: Round,
)
    requires
        s.quiet(),
        plain_path(s),
        limit < u64::MAX,
        reached(s, n, r),
        standing(limit, r),
        r.a is Call,
        !r.s.halted,
        up_to_date(code_of, r),
        answered(code_of, r, next),
    ensures
        skipped_in(code_of, r) >= 0,
        reached(s, n + (next.j.count - r.j.count) - skipped_in(code_of, r), next),
        standing(limit, next),
        !(next.a is Done) ==> !next.s.halted,
{
    reveal(block_at);
    if let (ActionView::Call(f), Wait::Returned { len }, Some((plan, tail, status))) = (
        r.a,
        r.j.wait,
        plan_at(r.s),
    ) {
        let g = block_run(code_of, f, r.s);
        let wide = !r.s.default16();
        let q = block_steps(r.s, g, plan, r.s.eip, wide);
        lemma_path_rest(s, n as nat);
        lemma_path_clock(ran(s, n as nat, silent()).0, r.s);
        lemma_traced(r.s, r.s.eip, 0);
        compiled_block_matches_interpreter(r.s, silent());
        lemma_block(r.s, g, plan, r.s.eip, wide);
        lemma_more_steps(s, n, r.s, q);
        if let Some((e, st)) = g.done {
            let u = ran(r.s, q, silent()).0;
            let v = ran(s, (n + q) as nat, silent()).0;
            assert(ran(v, 0, silent()).0 == v);
            assert(v.comparable());
            steps_ignore_the_clock(v, u);
            assert(landed(v, g.at(e), st));
            lemma_returned(s, (n + q) as nat, r.j, g.at(e), st, len);
        }
    }
}

// ---------------------------------------------------------------------------
// The law
// ---------------------------------------------------------------------------

/// What is shown of each round of a run.
proof fn lemma_rounds(
    code_of: spec_fn(u64) -> Seq<Stmt>,
    j: JitState,
    s: CpuState,
    limit: u64,
    rounds: Seq<Round>,
)
    requires
        s.quiet(),
        plain_path(s),
        limit < u64::MAX,
        hosted(code_of, j, s, limit, rounds),
        forall|k: int|
            0 <= k < rounds.len() - 1 ==> up_to_date(code_of, #[trigger] rounds[k]),
    ensures
        ({
            let r = rounds.last();
            &&& skipped(code_of, rounds) >= 0
            &&& reached(s, r.j.count - skipped(code_of, rounds), r)
            &&& standing(limit, r)
            &&& !(r.a is Done) ==> !r.s.halted
        }),
    decreases rounds.len(),
{
    if rounds.len() == 1 {
        let k = j.started(limit);
        let r = rounds[0];
        assert(ran(s, 0, silent()) == (s, Ok::<(), ErrorView>(())));
        assert(s.but_for_clock(s));
        lemma_driven(k, s);
        engine_keeps_to_the_limit(k, s, silent());
        lemma_goes_on(s, 0, s, r.j.count as int, r);
    } else {
        let before = rounds.drop_last();
        let r = before.last();
        let next = rounds.last();
        assert(before[0] == rounds[0]);
        assert forall|k: int| 0 < k < before.len() implies answered(
            code_of,
            before[k - 1],
            #[trigger] before[k],
        ) by {
            assert(before[k] == rounds[k] && before[k - 1] == rounds[k - 1]);
        }
        assert forall|k: int| 0 <= k < before.len() - 1 implies up_to_date(
            code_of,
            #[trigger] before[k],
        ) by {
            assert(before[k] == rounds[k]);
        }
        lemma_rounds(code_of, j, s, limit, before);
        let n = r.j.count - skipped(code_of, before);
        assert(r == rounds[rounds.len() - 2]);
        assert(answered(code_of, rounds[rounds.len() - 2], rounds[rounds.len() - 1]));
        if r.a is Compile {
            lemma_compile_round(code_of, s, n, limit, r, next);
        } else {
            lemma_call_round(code_of, s, n, limit, r, next);
        }
    }
}

/// The engine leaves the state that the interpreter leaves.
///
/// The rounds are those of a run of up to `limit` instructions from `s` on, where
/// there is no device and no interrupt to come; the host runs a block as
/// `jit::code::run` says, and a block that is called is that of the code as it
/// stands. Then the state in the last round is that of the interpreter after as many
/// steps as the engine has counted, without those that it has counted in blocks that
/// were left early; only the cycle counter is set apart. Where the run has ended with
/// an error, the interpreter ends with the same error on its next step.
pub proof fn engine_leaves_the_state_of_the_interpreter(
    code_of: spec_fn(u64) -> Seq<Stmt>,
    j: JitState,
    s: CpuState,
    limit: u64,
    rounds: Seq<Round>,
)
    requires
        s.quiet(),
        plain_path(s),
        limit < u64::MAX,
        hosted(code_of, j, s, limit, rounds),
        forall|k: int|
            0 <= k < rounds.len() - 1 ==> up_to_date(code_of, #[trigger] rounds[k]),
    ensures
        ({
            let r = rounds.last();
            let n = r.j.count - skipped(code_of, rounds);
            &&& n <= r.j.count
            &&& reached(s, n, r)
            &&& r.a matches ActionView::Done(Ok(count)) ==> count == r.j.count && count >= limit
        }),
{
    lemma_rounds(code_of, j, s, limit, rounds);
}

} // verus!
