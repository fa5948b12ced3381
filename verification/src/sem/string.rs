//! String instructions.

use vstd::prelude::*;

use crate::cpu::{AccessKind, CpuState, Error, ErrorView, Mode, Seg, StepOut, X86, outcome};
use crate::decode::{AluOp, Bits, Decoded, Insn, Rep};
use crate::flag::{DF, ZF, on};
use crate::mem::{DevLog, continues, lemma_continues_trans};
use crate::mmu::{peek, poke};
use crate::sem::arith::{alu, alu_result};
use crate::sem::misc::read_port;
use crate::sem::operand::{
    Outcome, ended, failed, go, goes_on, next_eip, read_gpr, write_gpr,
};

verus! {

/// The string operations.
#[derive(Debug, Clone, Copy, PartialEq, Eq, Structural)]
pub enum StrOp {
    Movs,
    Stos,
    Lods,
    Cmps,
    Scas,
    Ins,
    Outs,
}

impl StrOp {
    /// 0=movs, 1=stos, 2=lods, 3=cmps, 4=scas, 5=ins, 6=outs.
    pub open spec fn of(n: u8) -> StrOp {
        match n {
            0 => StrOp::Movs,
            1 => StrOp::Stos,
            2 => StrOp::Lods,
            3 => StrOp::Cmps,
            4 => StrOp::Scas,
            5 => StrOp::Ins,
            _ => StrOp::Outs,
        }
    }

    pub fn from_number(n: u8) -> (op: StrOp)
        ensures
            op == StrOp::of(n),
    {
        match n {
            0 => StrOp::Movs,
            1 => StrOp::Stos,
            2 => StrOp::Lods,
            3 => StrOp::Cmps,
            4 => StrOp::Scas,
            5 => StrOp::Ins,
            _ => StrOp::Outs,
        }
    }

    /// Whether it compares, so that REP stops by ZF.
    pub open spec fn compares(self) -> bool {
        self is Cmps || self is Scas
    }

    /// Whether a prefix repeats the operation: REPNE only a comparison.
    pub open spec fn repeats(self, rep: Rep) -> bool {
        rep == Rep::Z || (self.compares() && rep == Rep::NZ)
    }

    /// Whether a repetition ends before its count does.
    pub open spec fn stops(self, rep: Rep, flags: u32) -> bool {
        self.compares() && on(flags, ZF) == (rep == Rep::NZ)
    }
}

/// How a string operation runs: on elements of `bits`, with 16-bit index
/// registers under `a16`. A `strict` one stops at a fault; else a faulting read
/// gives 0 and a faulting write is dropped.
#[derive(Debug, Clone, Copy, PartialEq, Eq, Structural)]
pub struct StrMode {
    pub op: StrOp,
    pub bits: Bits,
    pub a16: bool,
    pub strict: bool,
}

impl CpuState {
    /// Index or count register `r` at the address size.
    pub open spec fn index_reg(self, r: u8, a16: bool) -> u32 {
        self.gpr_at(r, Bits::by_attribute(a16))
    }

    /// Index register `r` moves on by one element, down where DF is set.
    pub open spec fn advanced(self, r: u8, m: StrMode) -> CpuState {
        let v = self.index_reg(r, m.a16);
        self.with_gpr_at(
            r,
            Bits::by_attribute(m.a16),
            if on(self.eflags, DF) {
                v.wrapping_sub(m.bits.size())
            } else {
                v.wrapping_add(m.bits.size())
            },
        )
    }

    /// The element at DS:SI or ES:DI.
    pub open spec fn element(self, seg: Seg, r: u8, m: StrMode) -> Result<u32, ErrorView> {
        match self.load(seg, self.index_reg(r, m.a16), m.bits.size(), AccessKind::Read) {
            Err(e) => if m.strict {
                Err(e)
            } else {
                Ok(0)
            },
            Ok(v) => Ok(v),
        }
    }

    /// Write the element at ES:DI and move DI on.
    pub open spec fn element_stored(self, v: u32, m: StrMode) -> (CpuState, Result<(), ErrorView>) {
        let (s, r) = self.store(
            Seg::Es,
            self.index_reg(7, m.a16),
            m.bits.size(),
            v,
            AccessKind::Write,
        );
        match r {
            Err(e) => if m.strict {
                (s, Err(e))
            } else {
                (s.advanced(7, m), Ok(()))
            },
            Ok(_) => (s.advanced(7, m), Ok(())),
        }
    }

    /// One round of a string operation.
    #[verifier::opaque]
    pub open spec fn string_once(self, m: StrMode, log: DevLog) -> (
        CpuState,
        Result<(), ErrorView>,
    ) {
        let acc = self.gpr_at(0, m.bits);
        let at_si = self.element(Seg::Ds, 6, m);
        let at_di = self.element(Seg::Es, 7, m);
        let port = self.gpr[2] as u16;
        match m.op {
            StrOp::Movs => match at_si {
                Err(e) => (self, Err(e)),
                Ok(v) => {
                    let (s, r) = self.element_stored(v, m);
                    match r {
                        Err(e) => (s, Err(e)),
                        Ok(_) => (s.advanced(6, m), Ok(())),
                    }
                },
            },
            StrOp::Stos => self.element_stored(acc, m),
            StrOp::Lods => match at_si {
                Err(e) => (self, Err(e)),
                Ok(v) => (self.with_gpr_at(0, m.bits, v).advanced(6, m), Ok(())),
            },
            StrOp::Cmps => match (at_si, at_di) {
                (Err(e), _) => (self, Err(e)),
                (Ok(a), Err(e)) => (self, Err(e)),
                (Ok(a), Ok(b)) => (
                    self.with_flags(
                        alu_result(self.eflags, AluOp::Cmp, a, b, m.bits).1,
                    ).advanced(6, m).advanced(7, m),
                    Ok(()),
                ),
            },
            StrOp::Scas => match at_di {
                Err(e) => (self, Err(e)),
                Ok(b) => (
                    self.with_flags(
                        alu_result(self.eflags, AluOp::Cmp, acc, b, m.bits).1,
                    ).advanced(7, m),
                    Ok(()),
                ),
            },
            StrOp::Ins => {
                let (s, v) = self.port_in(port, m.bits.size() as u8, log);
                s.element_stored(v, m)
            },
            StrOp::Outs => match at_si {
                Err(e) => (self, Err(e)),
                Ok(v) => (self.port_out(port, m.bits.size() as u8, v).advanced(6, m), Ok(())),
            },
        }
    }

    /// Rounds of a string operation while the count lasts. Each counts CX or ECX
    /// down, so that after a fault the rest can still be done.
    pub open spec fn string_rounds(self, m: StrMode, rep: Rep, count: nat, log: DevLog) -> (
        CpuState,
        Result<(), ErrorView>,
    )
        decreases count,
    {
        if count == 0 {
            (self, Ok(()))
        } else {
            let (s, r) = self.string_once(m, log);
            match r {
                Err(e) => (s, Err(e)),
                Ok(_) => {
                    let t = s.with_gpr_at(1, Bits::by_attribute(m.a16), (count - 1) as u32);
                    if m.op.stops(rep, t.eflags) {
                        (t, Ok(()))
                    } else {
                        t.string_rounds(m, rep, (count - 1) as nat, log)
                    }
                },
            }
        }
    }

    /// A string operation under its REP prefix.
    pub open spec fn string_done(self, m: StrMode, rep: Rep, log: DevLog) -> (
        CpuState,
        Result<(), ErrorView>,
    ) {
        if m.op.repeats(rep) {
            self.string_rounds(m, rep, self.index_reg(1, m.a16) as nat, log)
        } else {
            self.string_once(m, log)
        }
    }
}

/// A string instruction.
pub open spec fn do_string(s: CpuState, i: Insn, op: StrOp, bits: Bits, log: DevLog) -> Outcome {
    let (t, r) = s.string_done(StrMode { op, bits, a16: i.a16, strict: true }, i.rep, log);
    match r {
        Err(e) => failed(t, e),
        Ok(_) => goes_on(t, s.next(i)),
    }
}

/// 16 bits under the attribute, else 32.
fn addr_bits(a16: bool) -> (b: Bits)
    ensures
        b == Bits::by_attribute(a16),
{
    if a16 {
        Bits::B16
    } else {
        Bits::B32
    }
}

fn advance(cpu: &mut X86, r: u8, m: StrMode)
    requires
        r < 8,
    ensures
        final(cpu)@ == old(cpu)@.advanced(r, m),
{
    let v = read_gpr(cpu, r, addr_bits(m.a16));
    let n = m.bits.bytes();
    let w = if cpu.eflags & DF != 0 {
        v.wrapping_sub(n)
    } else {
        v.wrapping_add(n)
    };
    write_gpr(cpu, r, addr_bits(m.a16), w);
}

fn read_element(cpu: &X86, seg: Seg, r: u8, m: StrMode) -> (v: Result<u32, Error>)
    requires
        r < 8,
    ensures
        outcome(v) == cpu@.element(seg, r, m),
{
    let off = read_gpr(cpu, r, addr_bits(m.a16));
    match peek(cpu, seg, off, m.bits.bytes(), AccessKind::Read) {
        Err(e) => if m.strict {
            Err(e)
        } else {
            Ok(0)
        },
        Ok(v) => Ok(v),
    }
}

fn write_element(cpu: &mut X86, v: u32, m: StrMode) -> (r: Result<(), Error>)
    ensures
        (final(cpu)@, outcome(r)) == old(cpu)@.element_stored(v, m),
        final(cpu)@.mem.dev == old(cpu)@.mem.dev,
{
    let off = read_gpr(cpu, 7, addr_bits(m.a16));
    if let Err(e) = poke(cpu, Seg::Es, off, m.bits.bytes(), v, AccessKind::Write) {
        if m.strict {
            return Err(e);
        }
    }
    advance(cpu, 7, m);
    Ok(())
}

/// One round of a string operation.
fn once(cpu: &mut X86, m: StrMode) -> (r: Result<(), Error>)
    ensures
        continues(final(cpu)@.mem.dev, old(cpu)@.mem.dev),
        forall|log: DevLog|
            continues(log, final(cpu)@.mem.dev) ==> (#[trigger] old(cpu)@.string_once(m, log)) == (
                final(cpu)@,
                outcome(r),
            ),
{
    proof {
        reveal(CpuState::string_once);
    }
    match m.op {
        StrOp::Movs => {
            let v = read_element(cpu, Seg::Ds, 6, m)?;
            write_element(cpu, v, m)?;
            advance(cpu, 6, m);
        },
        StrOp::Stos => {
            let acc = read_gpr(cpu, 0, m.bits);
            write_element(cpu, acc, m)?;
        },
        StrOp::Lods => {
            let v = read_element(cpu, Seg::Ds, 6, m)?;
            write_gpr(cpu, 0, m.bits, v);
            advance(cpu, 6, m);
        },
        StrOp::Cmps => {
            let a = read_element(cpu, Seg::Ds, 6, m)?;
            let b = read_element(cpu, Seg::Es, 7, m)?;
            alu(cpu, AluOp::Cmp, a, b, m.bits);
            advance(cpu, 6, m);
            advance(cpu, 7, m);
        },
        StrOp::Scas => {
            let acc = read_gpr(cpu, 0, m.bits);
            let b = read_element(cpu, Seg::Es, 7, m)?;
            alu(cpu, AluOp::Cmp, acc, b, m.bits);
            advance(cpu, 7, m);
        },
        StrOp::Ins => {
            let port = cpu.gpr[2] as u16;
            let v = read_port(cpu, port, m.bits.bytes() as u8);
            write_element(cpu, v, m)?;
        },
        StrOp::Outs => {
            let port = cpu.gpr[2] as u16;
            let v = read_element(cpu, Seg::Ds, 6, m)?;
            cpu.mem.io_write(port, m.bits.bytes() as u8, v);
            advance(cpu, 6, m);
        },
    }
    Ok(())
}

/// A string operation under its REP prefix.
pub(crate) fn run_string(cpu: &mut X86, m: StrMode, rep: Rep) -> (r: Result<(), Error>)
    ensures
        continues(final(cpu)@.mem.dev, old(cpu)@.mem.dev),
        forall|log: DevLog|
            continues(log, final(cpu)@.mem.dev) ==> (#[trigger] old(cpu)@.string_done(m, rep, log))
                == (final(cpu)@, outcome(r)),
{
    let compares = matches!(m.op, StrOp::Cmps | StrOp::Scas);
    let repeats = matches!(rep, Rep::Z) || (compares && matches!(rep, Rep::NZ));
    if !repeats {
        return once(cpu, m);
    }
    let mut left: u32 = read_gpr(cpu, 1, addr_bits(m.a16));
    let ghost s0 = cpu@;
    let ghost n0 = left as nat;
    while left > 0
        invariant
            compares == m.op.compares(),
            continues(cpu@.mem.dev, s0.mem.dev),
            forall|log: DevLog|
                continues(log, cpu@.mem.dev) ==> (#[trigger] s0.string_rounds(m, rep, n0, log))
                    == cpu@.string_rounds(m, rep, left as nat, log),
            s0 == old(cpu)@,
            n0 == s0.index_reg(1, m.a16) as nat,
            m.op.repeats(rep),
        decreases left,
    {
        let ghost before = cpu@;
        let r = once(cpu, m);
        let ghost mid = cpu@;
        proof {
            lemma_continues_trans(mid.mem.dev, before.mem.dev, s0.mem.dev);
            assert forall|log: DevLog| continues(log, mid.mem.dev) implies (
            #[trigger] s0.string_rounds(m, rep, n0, log)) == before.string_rounds(
                m,
                rep,
                left as nat,
                log,
            ) && before.string_once(m, log) == (mid, outcome(r)) by {
                lemma_continues_trans(log, mid.mem.dev, before.mem.dev);
            }
        }
        r?;
        left = left - 1;
        write_gpr(cpu, 1, addr_bits(m.a16), left);
        let zf = cpu.eflags & ZF != 0;
        if compares && zf == matches!(rep, Rep::NZ) {
            return Ok(());
        }
    }
    Ok(())
}

pub(crate) fn exec_string(cpu: &mut X86, d: &Decoded, op: StrOp, bits: Bits) -> (r: Result<
    StepOut,
    StepOut,
>)
    ensures
        continues(final(cpu)@.mem.dev, old(cpu)@.mem.dev),
        forall|log: DevLog|
            continues(log, final(cpu)@.mem.dev) ==> (#[trigger] do_string(
                old(cpu)@,
                d@,
                op,
                bits,
                log,
            )) == ended(final(cpu)@, r),
{
    let next = next_eip(cpu, d);
    let m = StrMode { op, bits, a16: d.a16, strict: true };
    match run_string(cpu, m, d.rep) {
        Err(e) => Err(StepOut::Error(e)),
        Ok(_) => go(cpu, next),
    }
}

/// Execute one string instruction outside the interpreter. `op`: 0=movs, 1=stos,
/// 2=lods, 3=cmps, 4=scas, 5=ins, 6=outs. Handles REP/REPE/REPNE over the whole
/// length, as the interpreter does, but goes on over faults: what cannot be read
/// is 0, what cannot be written is dropped.
pub fn string_op(cpu: &mut X86, op: u8, rep: Rep, bits: Bits, _eip: u32)
    ensures
        continues(final(cpu)@.mem.dev, old(cpu)@.mem.dev),
        forall|log: DevLog|
            continues(log, final(cpu)@.mem.dev) ==> (#[trigger] old(cpu)@.string_done(
                StrMode { op: StrOp::of(op), bits, a16: old(cpu)@.default16(), strict: false },
                rep,
                log,
            )) == (final(cpu)@, Ok::<(), ErrorView>(())),
{
    let a16 = !matches!(cpu.mode(), Mode::Protected32);
    let m = StrMode { op: StrOp::from_number(op), bits, a16, strict: false };
    let ghost s0 = cpu@;
    let r = run_string(cpu, m, rep);
    proof {
        assert forall|log: DevLog| continues(log, cpu@.mem.dev) implies (
        #[trigger] s0.string_done(m, rep, log)) == (cpu@, Ok::<(), ErrorView>(())) by {
            lemma_lenient_never_fails(s0, m, rep, s0.index_reg(1, a16) as nat, log);
        }
    }
}

/// A string operation that goes on over faults reports none.
pub proof fn lemma_lenient_never_fails(s: CpuState, m: StrMode, rep: Rep, n: nat, log: DevLog)
    requires
        !m.strict,
    ensures
        s.string_once(m, log).1 is Ok,
        s.string_rounds(m, rep, n, log).1 is Ok,
    decreases n,
{
    reveal(CpuState::string_once);
    if n > 0 {
        let t = s.string_once(m, log).0.with_gpr_at(1, Bits::by_attribute(m.a16), (n - 1) as u32);
        lemma_lenient_never_fails(t, m, rep, (n - 1) as nat, log);
    }
}

} // verus!
