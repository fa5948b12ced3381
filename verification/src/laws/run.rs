//! Laws of execution: steps, runs, waiting, repeated string operations and the
//! block engine.

use vstd::prelude::*;

use crate::bits::{lemma_casts, lemma_word_facts};
use crate::cpu::{CpuState, ErrorView, Mode, OutView, word_register_reads_back};
use crate::decode::{Bits, Insn, Rep};
use crate::flag::{DF, IF, on};
use crate::interp::{ran, stepped};
use crate::jit::correct::strings::lemma_once_shape;
use crate::jit::engine::{ActionView, BlockEntry, JitState, Turn, Wait};
use crate::jit::laws::lemma_reg_bits;
use crate::mem::{DevEvent, DevLog, MemState};
use crate::sem::exec::{delivered, executed, performed};
use crate::sem::string::StrMode;

verus! {

/// After reset the CPU is in real mode, with interrupts off, and the first
/// instruction byte comes from 16 bytes below 1 MB.
pub proof fn reset_starts_below_one_megabyte(mem: MemState, force_interp: bool)
    ensures
        ({
            let s = CpuState::reset_state(mem, force_interp);
            &&& s.wf()
            &&& s.mode() == Mode::Real
            &&& s.cpl() == 0
            &&& !on(s.eflags, IF)
            &&& !s.halted
            &&& s.fetch8(s.eip) == Ok::<u8, Seq<char>>(mem.read8(0xFFFF0))
        }),
{
    lemma_word_facts(0, 0, 0, 0, 0, 0);
}

/// An instruction that ran to its end leaves a 16-bit EIP outside 32-bit code.
pub proof fn eip_has_16_bits_outside_32_bit_code(s: CpuState, i: Insn, log: DevLog)
    requires
        !performed(s, i, log).early,
    ensures
        ({
            let t = executed(s, i, log).0;
            t.mode() != Mode::Protected32 ==> t.eip < 0x1_0000
        }),
{
}

/// A run of `a + b` steps is a run of `a` steps and, unless it met an error, one
/// of `b` steps.
pub proof fn runs_add_up(s: CpuState, a: nat, b: nat, log: DevLog)
    ensures
        ran(s, a, log).1 is Ok ==> ran(s, a + b, log) == ran(ran(s, a, log).0, b, log),
        ran(s, a, log).1 is Err ==> ran(s, a + b, log) == ran(s, a, log),
    decreases a,
{
    if a > 0 {
        let (t, out) = stepped(s, log);
        if !(out is Error) {
            runs_add_up(t, (a - 1) as nat, b, log);
            assert((a + b - 1) as nat == (a - 1) as nat + b);
        }
    }
}

/// With interrupts off nothing is delivered: a pending interrupt stays pending
/// and the device is not asked.
pub proof fn masked_interrupts_wait(s: CpuState, log: DevLog)
    requires
        !on(s.eflags, IF),
    ensures
        delivered(s, log).0 == s,
        delivered(s, log).1 is Some <==> s.halted,
{
    reveal(delivered);
}

/// A halted CPU with interrupts on waits where it is, while the devices run,
/// until an interrupt is due.
pub proof fn halted_cpu_waits_for_an_interrupt(s: CpuState, log: DevLog)
    requires
        s.halted,
        on(s.eflags, IF),
        s.pending_irq is None,
        s.mem.ack_reply(log) is None,
    ensures
        stepped(s, log) == (
            s.with_mem(
                s.mem.record(DevEvent::Ack { vector: None }).record(DevEvent::Tick { cycles: 1 }),
            ),
            OutView::Continue,
        ),
{
    reveal(stepped);
    reveal(delivered);
}

/// A pending interrupt is delivered before the next instruction, wakes a halted
/// CPU, and is no longer pending.
pub proof fn pending_interrupt_is_delivered(s: CpuState, log: DevLog, vector: u8)
    requires
        on(s.eflags, IF),
        s.pending_irq == Some(vector),
    ensures
        stepped(s, log) == (CpuState { pending_irq: None, halted: false, ..s }).interrupted(
            vector,
            false,
            0,
        ),
{
    reveal(stepped);
    reveal(delivered);
}

/// A halted CPU with interrupts off cannot be woken.
pub proof fn halted_cpu_without_interrupts_stops(s: CpuState, log: DevLog)
    requires
        s.halted,
        !on(s.eflags, IF),
    ensures
        stepped(s, log) == (s, OutView::Error(ErrorView::Halt)),
{
    reveal(stepped);
    reveal(delivered);
}

/// The count register as it reads after it was written.
proof fn lemma_count(s: CpuState, a16: bool, n: u32)
    requires
        s.wf(),
        a16 ==> n < 0x1_0000,
    ensures
        s.with_gpr_at(1, Bits::by_attribute(a16), n).index_reg(1, a16) == n,
        s.with_gpr_at(1, Bits::by_attribute(a16), n).wf(),
{
    lemma_reg_bits(1);
    if a16 {
        word_register_reads_back(s, 1, n as u16);
        lemma_casts(0, 0, n);
    }
}

/// A repeated string operation that meets no fault ends with a count of 0, or,
/// where it compares, with the flag that stops it.
pub proof fn repetition_ends(s: CpuState, m: StrMode, rep: Rep, n: nat, log: DevLog)
    requires
        s.wf(),
        n == s.index_reg(1, m.a16),
        s.string_rounds(m, rep, n, log).1 is Ok,
    ensures
        ({
            let t = s.string_rounds(m, rep, n, log).0;
            t.index_reg(1, m.a16) == 0 || m.op.stops(rep, t.eflags)
        }),
    decreases n,
{
    if n > 0 {
        let u = s.string_once(m, log).0;
        lemma_once_shape(s, m, log);
        let t = u.with_gpr_at(1, Bits::by_attribute(m.a16), (n - 1) as u32);
        lemma_count(u, m.a16, (n - 1) as u32);
        if !m.op.stops(rep, t.eflags) {
            repetition_ends(t, m, rep, (n - 1) as nat, log);
        }
    }
}

/// The engine calls a block only where the rest of the run has room for it, waits
/// for what it asks the host to do, and ends a run without an error only when its
/// instructions are used up.
pub proof fn engine_keeps_to_the_limit(j: JitState, s: CpuState, log: DevLog)
    requires
        j.wait == Wait::Nothing,
    ensures
        ({
            let (k, t, a) = j.driven(s, log);
            &&& k.limit == j.limit
            &&& k.count >= j.count
            &&& k.awaits(a)
            &&& match a {
                ActionView::Call(f) => k.wait matches Wait::Returned { len } && k.count + len
                    <= j.limit,
                ActionView::Compile(code, len) => k.count < j.limit,
                ActionView::Done(Ok(n)) => n == k.count && n >= j.limit,
                ActionView::Done(Err(_)) => true,
            }
        }),
    decreases
            (if j.limit > j.count {
                j.limit - j.count
            } else {
                0
            }),
{
    reveal(JitState::driven);
    reveal(JitState::turn);
    if j.count < j.limit {
        if let Turn::Again(k, t) = j.turn(s, log) {
            assert(k.limit == j.limit && k.count == j.count + 1 && k.wait == Wait::Nothing);
            engine_keeps_to_the_limit(k, t, log);
        }
    }
}

/// A block that was kept is found again under the same place and state, and no
/// longer once the state has changed.
pub proof fn kept_block_is_found(j: JitState, key: u64, e: BlockEntry, state: u64)
    ensures
        j.cached(key, e).fresh(key, state) == (if state == e.state {
            Some(e)
        } else {
            None
        }),
{
}

/// A string operation with 16-bit addresses moves its index registers within
/// their low halves.
pub proof fn string_index_wraps_within_16_bits(s: CpuState, r: u8, m: StrMode)
    requires
        s.wf(),
        r < 8,
        m.a16,
    ensures
        ({
            let t = s.advanced(r, m);
            &&& t.gpr[r as int] / 0x1_0000 == s.gpr[r as int] / 0x1_0000
            &&& !on(s.eflags, DF) ==> t.reg16(r as i8) == s.reg16(r as i8).wrapping_add(
                m.bits.size() as u16,
            )
        }),
{
    lemma_reg_bits(r);
    let v = s.index_reg(r, true);
    let n = m.bits.size();
    let w = if on(s.eflags, DF) {
        v.wrapping_sub(n)
    } else {
        v.wrapping_add(n)
    };
    word_register_reads_back(s, r as i8, w as u16);
    assert(v < 0x1_0000 && n <= 4 && w == v + n ==> w as u16 == (if v + n < 0x1_0000 {
        v + n
    } else {
        v + n - 0x1_0000
    })) by (bit_vector);
}

} // verus!
