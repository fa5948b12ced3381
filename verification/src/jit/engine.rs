//! The engine's decisions: which block is due, when the interpreter steps in,
//! and what is counted. Turning code into machine code and calling it is left to
//! the host, which hands back what came of it.

use std::collections::HashMap;

use vstd::prelude::*;

use crate::cpu::{CpuState, Error, ErrorView, OutView, StepOut, X86};
use crate::interp::stepped;
use crate::jit::code::Stmt;
use crate::jit::lower::{block_code, emit_block, insns};
use crate::jit::plan::{block_key, key_of, plan_at, signature, state_sig, trace};
use crate::mem::{DevEvent, DevLog, continues, lemma_continues_self, lemma_continues_trans};
use crate::sem;
use crate::sem::exec::{delivered, maybe_out};

verus! {

/// A compiled basic block: the host's handle of its machine code, how many
/// instructions it holds, and the state it was compiled under.
#[derive(Debug, Clone, Copy, PartialEq, Eq, Structural)]
pub struct BlockEntry {
    pub func: u64,
    pub len: u32,
    pub state: u64,
}

/// A block for the host to compile.
pub struct Block {
    pub code: Vec<Stmt>,
    pub len: u32,
}

/// How many blocks are kept before the cache is emptied.
pub const CACHE_LIMIT: usize = 32_768;

/// The code and the length of the block for the state `s`; `None` where there is
/// nothing to compile.
#[verifier::opaque]
pub open spec fn block_at(s: CpuState) -> Option<(Seq<Stmt>, u32)> {
    match plan_at(s) {
        None => None,
        Some((plan, tail, status)) => Some(
            (block_code(plan, s.eip, !s.default16(), tail, status), plan.len() as u32),
        ),
    }
}

/// The code of the block at CS:EIP.
pub fn compile(cpu: &mut X86) -> (b: Option<Block>)
    ensures
        final(cpu)@ == old(cpu)@,
        match b {
            None => block_at(old(cpu)@) is None,
            Some(b) => block_at(old(cpu)@) == Some((b.code@, b.len)),
        },
{
    proof {
        reveal(block_at);
    }
    match trace(cpu) {
        None => None,
        Some(p) => {
            let code = emit_block(&p.insns, p.eip0, p.wide, p.tail_eip, p.tail_status);
            Some(Block { code, len: p.insns.len() as u32 })
        },
    }
}

/// What the engine waits for.
#[derive(Debug, Clone, Copy, PartialEq, Eq, Structural)]
pub enum Wait {
    Nothing,
    /// The host compiles a block.
    Compiled { key: u64, state: u64, len: u32 },
    /// The host runs a block of `len` instructions.
    Returned { len: u32 },
}

/// What the host has to do next.
pub enum JitAction {
    /// The run is over.
    Done(Result<u64, Error>),
    /// Compile a block and hand back its handle.
    Compile(Block),
    /// Call the machine code with this handle and hand back its status.
    Call(u64),
}

/// What a `JitAction` says.
pub enum ActionView {
    Done(Result<u64, ErrorView>),
    Compile(Seq<Stmt>, u32),
    Call(u64),
}

impl View for JitAction {
    type V = ActionView;

    open spec fn view(&self) -> ActionView {
        match self {
            JitAction::Done(Ok(n)) => ActionView::Done(Ok(*n)),
            JitAction::Done(Err(e)) => ActionView::Done(Err(e@)),
            JitAction::Compile(b) => ActionView::Compile(b.code@, b.len),
            JitAction::Call(f) => ActionView::Call(*f),
        }
    }
}

/// The block engine.
pub struct Jit {
    compiled: HashMap<u64, BlockEntry>,
    pub blocks_compiled: u64,
    pub blocks_recompiled: u64,
    pub instructions_run: u64,
    /// How many instructions the current run may take, and how many it has.
    limit: u64,
    count: u64,
    wait: Wait,
}

/// The state of a `Jit`.
pub struct JitState {
    pub compiled: Map<u64, BlockEntry>,
    pub blocks_compiled: u64,
    pub blocks_recompiled: u64,
    pub instructions_run: u64,
    pub limit: u64,
    pub count: u64,
    pub wait: Wait,
}

impl View for Jit {
    type V = JitState;

    closed spec fn view(&self) -> JitState {
        JitState {
            compiled: self.compiled@,
            blocks_compiled: self.blocks_compiled,
            blocks_recompiled: self.blocks_recompiled,
            instructions_run: self.instructions_run,
            limit: self.limit,
            count: self.count,
            wait: self.wait,
        }
    }
}

/// One turn of the engine: it goes round again, or the host has something to do.
pub enum Turn {
    Again(JitState, CpuState),
    Act(JitState, CpuState, ActionView),
}

impl CpuState {
    /// The devices run for some cycles.
    pub open spec fn device_ticked(self, cycles: u64) -> CpuState {
        self.with_mem(self.mem.record(DevEvent::Tick { cycles }))
    }
}

impl JitState {
    /// An engine that has compiled nothing.
    pub open spec fn initial() -> JitState {
        JitState {
            compiled: Map::empty(),
            blocks_compiled: 0,
            blocks_recompiled: 0,
            instructions_run: 0,
            limit: 0,
            count: 0,
            wait: Wait::Nothing,
        }
    }

    /// A run of up to `limit` instructions begins.
    pub open spec fn started(self, limit: u64) -> JitState {
        JitState { limit, count: 0, wait: Wait::Nothing, ..self }
    }

    /// The block of a place, if it was compiled under the same state.
    pub open spec fn fresh(self, key: u64, state: u64) -> Option<BlockEntry> {
        if self.compiled.contains_key(key) && self.compiled[key].state == state {
            Some(self.compiled[key])
        } else {
            None
        }
    }

    /// The interpreter takes one step. Where it only steps in because the block
    /// is too long for what is left of the run, the devices run for an extra
    /// cycle.
    pub open spec fn interpreted(self, s: CpuState, extra: bool, log: DevLog) -> Turn {
        let (t, out) = stepped(s, log);
        let j = JitState { count: (self.count + 1) as u64, wait: Wait::Nothing, ..self };
        match out {
            OutView::Error(e) => Turn::Act(j, t, ActionView::Done(Err(e))),
            _ => Turn::Again(
                j,
                if extra {
                    t.device_ticked(1)
                } else {
                    t
                },
            ),
        }
    }

    /// A block is due: it is called unless it is too long for what is left of the
    /// run.
    pub open spec fn entered(self, s: CpuState, e: BlockEntry, log: DevLog) -> Turn {
        if e.len > self.limit - self.count {
            self.interpreted(s, true, log)
        } else {
            Turn::Act(
                JitState { wait: Wait::Returned { len: e.len }, ..self },
                s,
                ActionView::Call(e.func),
            )
        }
    }

    /// One turn of a run that is not over: an interrupt that is due, a block that
    /// is due, a block to compile, or a step of the interpreter.
    #[verifier::opaque]
    pub open spec fn turn(self, s: CpuState, log: DevLog) -> Turn {
        let (t, out) = delivered(s, log);
        if out is Some {
            Turn::Again(JitState { count: (self.count + 1) as u64, ..self }, t)
        } else {
            let key = key_of(t);
            let state = signature(t);
            match self.fresh(key, state) {
                Some(e) => self.entered(t, e, log),
                None => {
                    let j = if self.compiled.contains_key(key) {
                        JitState {
                            blocks_recompiled: self.blocks_recompiled.wrapping_add(1),
                            ..self
                        }
                    } else {
                        self
                    };
                    match block_at(t) {
                        None => j.interpreted(t, false, log),
                        Some((code, len)) => Turn::Act(
                            JitState { wait: Wait::Compiled { key, state, len }, ..j },
                            t,
                            ActionView::Compile(code, len),
                        ),
                    }
                },
            }
        }
    }

    /// The engine goes on until the host has something to do.
    #[verifier::opaque]
    pub open spec fn driven(self, s: CpuState, log: DevLog) -> (JitState, CpuState, ActionView)
        decreases
            (if self.limit > self.count {
                self.limit - self.count
            } else {
                0
            }),
    {
        if self.count >= self.limit {
            (JitState { wait: Wait::Nothing, ..self }, s, ActionView::Done(Ok(self.count)))
        } else {
            match self.turn(s, log) {
                Turn::Act(j, t, a) => (j, t, a),
                Turn::Again(j, t) => if j.limit == self.limit && j.count > self.count {
                    j.driven(t, log)
                } else {
                    (j, t, ActionView::Done(Ok(j.count)))
                },
            }
        }
    }

    /// A turn, and what comes after it.
    pub open spec fn then_driven(t: Turn, log: DevLog) -> (JitState, CpuState, ActionView) {
        match t {
            Turn::Act(j, s, a) => (j, s, a),
            Turn::Again(j, s) => j.driven(s, log),
        }
    }

    /// A block is added to the cache, which is emptied first where it is full.
    pub open spec fn cached(self, key: u64, e: BlockEntry) -> JitState {
        let kept = if self.compiled.dom().len() > CACHE_LIMIT {
            Map::empty()
        } else {
            self.compiled
        };
        JitState {
            compiled: kept.insert(key, e),
            blocks_compiled: self.blocks_compiled.wrapping_add(1),
            ..self
        }
    }

    /// The host has compiled the block, or could not.
    pub open spec fn on_compiled(self, s: CpuState, func: Option<u64>, log: DevLog) -> Turn {
        match (self.wait, func) {
            (Wait::Compiled { key, state, len }, Some(f)) => {
                let e = BlockEntry { func: f, len, state };
                JitState { wait: Wait::Nothing, ..self.cached(key, e) }.entered(s, e, log)
            },
            _ => JitState { wait: Wait::Nothing, ..self }.interpreted(s, false, log),
        }
    }

    /// A block has returned with a status. Its instructions are counted, and the
    /// devices run for as many cycles; with status 1 the interpreter takes one
    /// step first.
    pub open spec fn on_returned(self, s: CpuState, status: u64, log: DevLog) -> Turn {
        let len = match self.wait {
            Wait::Returned { len } => len as u64,
            _ => 0,
        };
        let j = JitState {
            count: (self.count + len) as u64,
            instructions_run: self.instructions_run.wrapping_add(len),
            wait: Wait::Nothing,
            ..self
        };
        let t = CpuState { cycles: s.cycles.wrapping_add(len), ..s };
        if status == 1 {
            let (u, out) = stepped(t, log);
            match out {
                OutView::Error(e) => Turn::Act(j, u, ActionView::Done(Err(e))),
                _ => Turn::Again(
                    JitState {
                        count: if j.count == u64::MAX {
                            u64::MAX
                        } else {
                            (j.count + 1) as u64
                        },
                        ..j
                    },
                    u.device_ticked(1).device_ticked(len),
                ),
            }
        } else {
            Turn::Again(j, t.device_ticked(len))
        }
    }

    /// What the engine waits for fits what is left of the run.
    pub open spec fn wf(self) -> bool {
        match self.wait {
            Wait::Returned { len } => self.count + len <= self.limit,
            Wait::Compiled { key, state, len } => self.count < self.limit,
            Wait::Nothing => true,
        }
    }

    /// The engine waits for what the host is asked to do.
    pub open spec fn awaits(self, a: ActionView) -> bool {
        match a {
            ActionView::Done(_) => true,
            ActionView::Compile(_, _) => self.wait is Compiled,
            ActionView::Call(_) => self.wait is Returned,
        }
    }
}

/// A turn by what its function returned: an action, or none where the engine goes
/// round again.
pub open spec fn turn_view(j: JitState, s: CpuState, a: Option<JitAction>) -> Turn {
    match a {
        None => Turn::Again(j, s),
        Some(a) => Turn::Act(j, s, a@),
    }
}

impl Jit {
    pub fn new() -> (j: Jit)
        ensures
            j@ == JitState::initial(),
    {
        Jit {
            compiled: HashMap::new(),
            blocks_compiled: 0,
            blocks_recompiled: 0,
            instructions_run: 0,
            limit: 0,
            count: 0,
            wait: Wait::Nothing,
        }
    }

    /// One step of the interpreter.
    fn interpret(&mut self, cpu: &mut X86, extra: bool) -> (a: Option<JitAction>)
        requires
            old(self)@.count < old(self)@.limit,
        ensures
            continues(final(cpu)@.mem.dev, old(cpu)@.mem.dev),
            forall|log: DevLog|
                continues(log, final(cpu)@.mem.dev) ==> (#[trigger] old(self)@.interpreted(
                    old(cpu)@,
                    extra,
                    log,
                )) == turn_view(final(self)@, final(cpu)@, a),
            a is None ==> final(self)@.limit == old(self)@.limit && final(self)@.count
                == old(self)@.count + 1 && final(self)@.wait == Wait::Nothing,
            final(self)@.wf(),
            a matches Some(a) ==> final(self)@.awaits(a@),
    {
        let ghost s = cpu@;
        let ghost j = self@;
        let out = cpu.step();
        let ghost t = cpu@;
        self.count = self.count + 1;
        self.wait = Wait::Nothing;
        match out {
            StepOut::Error(e) => {
                let a = Some(JitAction::Done(Err(e)));
                a
            },
            _ => {
                if extra {
                    cpu.mem.tick_device(1);
                    proof {
                        lemma_continues_trans(cpu@.mem.dev, t.mem.dev, s.mem.dev);
                        assert forall|log: DevLog| continues(log, cpu@.mem.dev) implies (
                        #[trigger] j.interpreted(s, extra, log)) == Turn::Again(self@, cpu@) by {
                            lemma_continues_trans(log, cpu@.mem.dev, t.mem.dev);
                            assert(stepped(s, log) == (t, out@));
                        }
                    }
                }
                None
            },
        }
    }

    /// A block is due.
    fn enter(&mut self, cpu: &mut X86, e: BlockEntry) -> (a: Option<JitAction>)
        requires
            old(self)@.count < old(self)@.limit,
        ensures
            continues(final(cpu)@.mem.dev, old(cpu)@.mem.dev),
            forall|log: DevLog|
                continues(log, final(cpu)@.mem.dev) ==> (#[trigger] old(self)@.entered(
                    old(cpu)@,
                    e,
                    log,
                )) == turn_view(final(self)@, final(cpu)@, a),
            a is None ==> final(self)@.limit == old(self)@.limit && final(self)@.count
                == old(self)@.count + 1 && final(self)@.wait == Wait::Nothing,
            final(self)@.wf(),
            a matches Some(a) ==> final(self)@.awaits(a@),
    {
        if e.len as u64 > self.limit - self.count {
            return self.interpret(cpu, true);
        }
        self.wait = Wait::Returned { len: e.len };
        proof {
            lemma_continues_self(cpu@.mem.dev);
        }
        Some(JitAction::Call(e.func))
    }

    /// The block of a place, if it was compiled under the same state, and whether
    /// there is any block of the place.
    fn find(&self, key: u64, state: u64) -> (r: (Option<BlockEntry>, bool))
        ensures
            r.0 == self@.fresh(key, state),
            r.1 == self@.compiled.contains_key(key),
    {
        broadcast use vstd::std_specs::hash::group_hash_axioms;

        match self.compiled.get(&key) {
            Some(e) => if e.state == state {
                (Some(*e), true)
            } else {
                (None, true)
            },
            None => (None, false),
        }
    }

    /// One turn of a run that is not over.
    fn take_turn(&mut self, cpu: &mut X86) -> (a: Option<JitAction>)
        requires
            old(self)@.count < old(self)@.limit,
            old(self)@.wait == Wait::Nothing,
        ensures
            continues(final(cpu)@.mem.dev, old(cpu)@.mem.dev),
            forall|log: DevLog|
                continues(log, final(cpu)@.mem.dev) ==> (#[trigger] old(self)@.turn(
                    old(cpu)@,
                    log,
                )) == turn_view(final(self)@, final(cpu)@, a),
            a is None ==> final(self)@.limit == old(self)@.limit && final(self)@.count
                == old(self)@.count + 1 && final(self)@.wait == Wait::Nothing,
            final(self)@.wf(),
            a matches Some(a) ==> final(self)@.awaits(a@),
    {
        proof {
            reveal(JitState::turn);
        }
        let ghost s = cpu@;
        let ghost j = self@;
        let due = sem::deliver_maskable_interrupt(cpu);
        let ghost t = cpu@;
        if due.is_some() {
            self.count = self.count + 1;
            return None;
        }
        let key = block_key(cpu);
        let state = state_sig(cpu);
        let (entry, known) = self.find(key, state);
        let a = match entry {
            Some(e) => self.enter(cpu, e),
            None => {
                if known {
                    self.blocks_recompiled = self.blocks_recompiled.wrapping_add(1);
                }
                match compile(cpu) {
                    None => self.interpret(cpu, false),
                    Some(b) => {
                        self.wait = Wait::Compiled { key, state, len: b.len };
                        proof {
                            lemma_continues_self(cpu@.mem.dev);
                        }
                        Some(JitAction::Compile(b))
                    },
                }
            },
        };
        proof {
            lemma_continues_trans(cpu@.mem.dev, t.mem.dev, s.mem.dev);
            assert forall|log: DevLog| continues(log, cpu@.mem.dev) implies (#[trigger] j.turn(
                s,
                log,
            )) == turn_view(self@, cpu@, a) by {
                lemma_continues_trans(log, cpu@.mem.dev, t.mem.dev);
                assert(delivered(s, log) == (t, maybe_out(due)));
            }
        }
        a
    }

    /// Go on until the host has something to do.
    fn drive(&mut self, cpu: &mut X86) -> (a: JitAction)
        requires
            old(self)@.wait == Wait::Nothing,
        ensures
            continues(final(cpu)@.mem.dev, old(cpu)@.mem.dev),
            forall|log: DevLog|
                continues(log, final(cpu)@.mem.dev) ==> (#[trigger] old(self)@.driven(
                    old(cpu)@,
                    log,
                )) == (final(self)@, final(cpu)@, a@),
            final(self)@.wf(),
            final(self)@.awaits(a@),
    {
        proof {
            reveal(JitState::driven);
        }
        let ghost s = cpu@;
        let ghost j = self@;
        proof {
            lemma_continues_self(s.mem.dev);
        }
        while self.count < self.limit
            invariant
                s == old(cpu)@,
                j == old(self)@,
                self@.wait == Wait::Nothing,
                continues(cpu@.mem.dev, s.mem.dev),
                forall|log: DevLog|
                    continues(log, cpu@.mem.dev) ==> (#[trigger] j.driven(s, log)) == self@.driven(
                        cpu@,
                        log,
                    ),
            decreases self.limit - self.count,
        {
            let ghost s1 = cpu@;
            let ghost j1 = self@;
            let turn = self.take_turn(cpu);
            proof {
                reveal(JitState::driven);
                lemma_continues_trans(cpu@.mem.dev, s1.mem.dev, s.mem.dev);
                assert forall|log: DevLog| continues(log, cpu@.mem.dev) implies (
                #[trigger] j.driven(s, log)) == j1.driven(s1, log) && j1.turn(s1, log) == turn_view(
                    self@,
                    cpu@,
                    turn,
                ) by {
                    lemma_continues_trans(log, cpu@.mem.dev, s1.mem.dev);
                }
            }
            if let Some(a) = turn {
                return a;
            }
        }
        JitAction::Done(Ok(self.count))
    }

    /// Begin a run of up to `limit` instructions.
    pub fn begin(&mut self, cpu: &mut X86, limit: u64) -> (a: JitAction)
        ensures
            continues(final(cpu)@.mem.dev, old(cpu)@.mem.dev),
            forall|log: DevLog|
                continues(log, final(cpu)@.mem.dev) ==> (#[trigger] old(self)@.started(limit).driven(
                    old(cpu)@,
                    log,
                )) == (final(self)@, final(cpu)@, a@),
            final(self)@.wf(),
            final(self)@.awaits(a@),
    {
        self.limit = limit;
        self.count = 0;
        self.wait = Wait::Nothing;
        assert(self@ == old(self)@.started(limit));
        self.drive(cpu)
    }

    /// Take a turn's result on to the next action.
    fn resume(&mut self, cpu: &mut X86, turn: Option<JitAction>) -> (a: JitAction)
        requires
            turn is None ==> old(self)@.wait == Wait::Nothing,
            turn matches Some(a) ==> old(self)@.wf() && old(self)@.awaits(a@),
        ensures
            continues(final(cpu)@.mem.dev, old(cpu)@.mem.dev),
            forall|log: DevLog|
                continues(log, final(cpu)@.mem.dev) ==> (#[trigger] JitState::then_driven(
                    turn_view(old(self)@, old(cpu)@, turn),
                    log,
                )) == (final(self)@, final(cpu)@, a@),
            final(self)@.wf(),
            final(self)@.awaits(a@),
    {
        match turn {
            Some(a) => {
                proof {
                    lemma_continues_self(cpu@.mem.dev);
                }
                a
            },
            None => self.drive(cpu),
        }
    }

    /// Keep a compiled block.
    fn keep(&mut self, key: u64, e: BlockEntry)
        ensures
            final(self)@ == old(self)@.cached(key, e),
    {
        broadcast use vstd::std_specs::hash::group_hash_axioms;

        self.blocks_compiled = self.blocks_compiled.wrapping_add(1);
        if self.compiled.len() > CACHE_LIMIT {
            self.compiled.clear();
        }
        self.compiled.insert(key, e);
    }

    /// The host has compiled the block it was given, or could not.
    pub fn compiled(&mut self, cpu: &mut X86, func: Option<u64>) -> (a: JitAction)
        requires
            old(self)@.wait is Compiled,
            old(self)@.wf(),
        ensures
            continues(final(cpu)@.mem.dev, old(cpu)@.mem.dev),
            forall|log: DevLog|
                continues(log, final(cpu)@.mem.dev) ==> JitState::then_driven(
                    #[trigger] old(self)@.on_compiled(old(cpu)@, func, log),
                    log,
                ) == (final(self)@, final(cpu)@, a@),
            final(self)@.wf(),
            final(self)@.awaits(a@),
    {
        let ghost s = cpu@;
        let ghost j = self@;
        let turn = match (self.wait, func) {
            (Wait::Compiled { key, state, len }, Some(f)) => {
                let e = BlockEntry { func: f, len, state };
                self.keep(key, e);
                self.wait = Wait::Nothing;
                self.enter(cpu, e)
            },
            _ => {
                self.wait = Wait::Nothing;
                self.interpret(cpu, false)
            },
        };
        let ghost s1 = cpu@;
        let ghost j1 = self@;
        let ghost view = turn_view(j1, s1, turn);
        let a = self.resume(cpu, turn);
        proof {
            lemma_continues_trans(cpu@.mem.dev, s1.mem.dev, s.mem.dev);
            assert forall|log: DevLog| continues(log, cpu@.mem.dev) implies JitState::then_driven(
                #[trigger] j.on_compiled(s, func, log),
                log,
            ) == (self@, cpu@, a@) by {
                lemma_continues_trans(log, cpu@.mem.dev, s1.mem.dev);
                assert(j.on_compiled(s, func, log) == view);
            }
        }
        a
    }

    /// The status of the interpreter's step behind a block, if one is asked for.
    fn settle(&mut self, cpu: &mut X86, status: u64) -> (turn: Option<JitAction>)
        requires
            old(self)@.wait is Returned,
            old(self)@.wf(),
        ensures
            continues(final(cpu)@.mem.dev, old(cpu)@.mem.dev),
            forall|log: DevLog|
                continues(log, final(cpu)@.mem.dev) ==> (#[trigger] old(self)@.on_returned(
                    old(cpu)@,
                    status,
                    log,
                )) == turn_view(final(self)@, final(cpu)@, turn),
            final(self)@.wait == Wait::Nothing,
            turn matches Some(a) ==> a is Done,
    {
        let ghost s = cpu@;
        let ghost j = self@;
        let len: u64 = match self.wait {
            Wait::Returned { len } => len as u64,
            _ => 0,
        };
        self.count = self.count + len;
        self.instructions_run = self.instructions_run.wrapping_add(len);
        self.wait = Wait::Nothing;
        cpu.cycles = cpu.cycles.wrapping_add(len);
        let ghost t = cpu@;
        proof {
            lemma_continues_self(t.mem.dev);
        }
        if status == 1 {
            let out = cpu.step();
            let ghost u = cpu@;
            if let StepOut::Error(e) = out {
                return Some(JitAction::Done(Err(e)));
            }
            self.count = self.count.saturating_add(1);
            cpu.mem.tick_device(1);
            let ghost v = cpu@;
            cpu.mem.tick_device(len);
            proof {
                lemma_continues_trans(cpu@.mem.dev, v.mem.dev, u.mem.dev);
                lemma_continues_trans(cpu@.mem.dev, u.mem.dev, s.mem.dev);
                assert forall|log: DevLog| continues(log, cpu@.mem.dev) implies (
                #[trigger] j.on_returned(s, status, log)) == Turn::Again(self@, cpu@) by {
                    lemma_continues_trans(log, cpu@.mem.dev, u.mem.dev);
                    assert(stepped(t, log) == (u, out@));
                }
            }
        } else {
            cpu.mem.tick_device(len);
        }
        None
    }

    /// The block that the host called has returned.
    pub fn returned(&mut self, cpu: &mut X86, status: u64) -> (a: JitAction)
        requires
            old(self)@.wait is Returned,
            old(self)@.wf(),
        ensures
            continues(final(cpu)@.mem.dev, old(cpu)@.mem.dev),
            forall|log: DevLog|
                continues(log, final(cpu)@.mem.dev) ==> JitState::then_driven(
                    #[trigger] old(self)@.on_returned(old(cpu)@, status, log),
                    log,
                ) == (final(self)@, final(cpu)@, a@),
            final(self)@.wf(),
            final(self)@.awaits(a@),
    {
        let ghost s = cpu@;
        let ghost j = self@;
        let turn = self.settle(cpu, status);
        let ghost s1 = cpu@;
        let ghost view = turn_view(self@, s1, turn);
        let a = self.resume(cpu, turn);
        proof {
            lemma_continues_trans(cpu@.mem.dev, s1.mem.dev, s.mem.dev);
            assert forall|log: DevLog| continues(log, cpu@.mem.dev) implies JitState::then_driven(
                #[trigger] j.on_returned(s, status, log),
                log,
            ) == (self@, cpu@, a@) by {
                lemma_continues_trans(log, cpu@.mem.dev, s1.mem.dev);
                assert(j.on_returned(s, status, log) == view);
            }
        }
        a
    }
}

} // verus!
