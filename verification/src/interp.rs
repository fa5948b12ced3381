//! Interpreter: a conventional fetch-decode-execute loop over the shared `sem`
//! layer. This is also the fallback engine of the block compiler for any
//! instruction or mode it declines to compile.
//!
//! What the host device answers is the device's own affair. Each of its methods
//! adds the exchange, with the answer that it gave, to the device's `exchanges`,
//! which the model of memory takes over as its log. A function that may talk to
//! the device states its result for every log that continues the one at its end:
//! with the device's answers taken from such a log, the specification gives the
//! state that the function leaves. Without a device there is only one log, and
//! the result is a function of the state alone.

use vstd::prelude::*;

use crate::cpu::{CpuState, Error, ErrorView, OutView, StepOut, X86};
use crate::decode::{Decoded, decode_outcome, fetch};
use crate::mem::{DevEvent, DevLog, continues, lemma_continues_trans};
use crate::sem;
use crate::sem::exec::{delivered, instruction_done, maybe_out};

verus! {

/// Interpreter engine handle.
#[derive(Debug, Default, Clone, Copy)]
pub struct Interpreter;

/// One step: an interrupt that is due, else one instruction, behind which the
/// devices run for a cycle.
#[verifier::opaque]
pub open spec fn stepped(s: CpuState, log: DevLog) -> (CpuState, OutView) {
    let (t, out) = delivered(s, log);
    match out {
        Some(o) => (t, o),
        None => {
            let (u, o) = instruction_done(
                CpuState { cycles: t.cycles.wrapping_add(1), ..t },
                log,
            );
            if o is Continue {
                (u.with_mem(u.mem.record(DevEvent::Tick { cycles: 1 })), o)
            } else {
                (u, o)
            }
        },
    }
}

/// `n` steps, or as many as there are up to an error.
pub open spec fn ran(s: CpuState, n: nat, log: DevLog) -> (CpuState, Result<(), ErrorView>)
    decreases n,
{
    if n == 0 {
        (s, Ok(()))
    } else {
        let (t, out) = stepped(s, log);
        match out {
            OutView::Error(e) => (t, Err(e)),
            _ => ran(t, (n - 1) as nat, log),
        }
    }
}

/// Execute one instruction (including interrupt delivery between instructions).
pub fn step(cpu: &mut X86) -> (out: StepOut)
    ensures
        continues(final(cpu)@.mem.dev, old(cpu)@.mem.dev),
        forall|log: DevLog|
            continues(log, final(cpu)@.mem.dev) ==> (#[trigger] stepped(old(cpu)@, log)) == (
                final(cpu)@,
                out@,
            ),
{
    proof {
        reveal(stepped);
    }
    let ghost s = cpu@;
    let due = sem::deliver_maskable_interrupt(cpu);
    let ghost t = cpu@;
    if let Some(out) = due {
        return out;
    }
    cpu.cycles = cpu.cycles.wrapping_add(1);
    let ghost u = cpu@;
    let out = sem::step(cpu);
    let ghost v = cpu@;
    if matches!(out, StepOut::Continue) {
        cpu.mem.tick_device(1);
    }
    proof {
        lemma_continues_trans(v.mem.dev, t.mem.dev, s.mem.dev);
        lemma_continues_trans(cpu@.mem.dev, v.mem.dev, s.mem.dev);
        assert forall|log: DevLog| continues(log, cpu@.mem.dev) implies (
        #[trigger] stepped(s, log)) == (cpu@, out@) by {
            lemma_continues_trans(log, cpu@.mem.dev, v.mem.dev);
            lemma_continues_trans(log, v.mem.dev, t.mem.dev);
            assert(delivered(s, log) == (t, maybe_out(due)));
            assert(instruction_done(u, log) == (v, out@));
        }
    }
    out
}

/// Run `n` instructions (or until an `Error`); returns the number executed.
pub fn run(cpu: &mut X86, n: u64) -> (r: Result<u64, Error>)
    ensures
        continues(final(cpu)@.mem.dev, old(cpu)@.mem.dev),
        forall|log: DevLog|
            continues(log, final(cpu)@.mem.dev) ==> (#[trigger] ran(old(cpu)@, n as nat, log)) == (
                final(cpu)@,
                match r {
                    Ok(_) => Ok(()),
                    Err(e) => Err(e@),
                },
            ),
        r matches Ok(count) ==> count == n,
{
    let mut count: u64 = 0;
    let ghost s = cpu@;
    while count < n
        invariant
            count <= n,
            s == old(cpu)@,
            continues(cpu@.mem.dev, s.mem.dev),
            forall|log: DevLog|
                continues(log, cpu@.mem.dev) ==> (#[trigger] ran(s, n as nat, log)) == ran(
                    cpu@,
                    (n - count) as nat,
                    log,
                ),
        decreases n - count,
    {
        let ghost before = cpu@;
        let out = step(cpu);
        proof {
            lemma_continues_trans(cpu@.mem.dev, before.mem.dev, s.mem.dev);
            assert forall|log: DevLog| continues(log, cpu@.mem.dev) implies (
            #[trigger] ran(s, n as nat, log)) == ran(before, (n - count) as nat, log) && stepped(
                before,
                log,
            ) == (cpu@, out@) by {
                lemma_continues_trans(log, cpu@.mem.dev, before.mem.dev);
            }
        }
        match out {
            StepOut::Continue | StepOut::Interrupt => {
                count = count + 1;
            },
            StepOut::Error(e) => {
                return Err(e);
            },
        }
    }
    Ok(count)
}

/// Decode one instruction without executing (used by debugger/monitor).
pub fn decode(cpu: &X86) -> (r: Result<Decoded, String>)
    ensures
        decode_outcome(r) == cpu@.decoded(),
{
    fetch(cpu)
}

} // verus!
