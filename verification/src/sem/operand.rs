//! Operand access and the stack.

use vstd::prelude::*;

use crate::bits::{as_word, wrap32};
use crate::cpu::{AccessKind, CpuState, Error, ErrorView, OutView, Reg, Seg, StepOut, X86, outcome};
use crate::decode::{Bits, Decoded, Insn, MemRef, Opnd};
use crate::mmu;
use crate::mmu::effective;

verus! {

// ---------------------------------------------------------------------------
// What an instruction comes to
// ---------------------------------------------------------------------------

/// How an instruction ends. EIP of an instruction that ran to its end is cut to
/// 16 bits outside 32-bit code; one that was left early keeps its EIP.
pub struct Outcome {
    pub s: CpuState,
    pub out: OutView,
    pub early: bool,
}

/// The instruction was left with an error.
pub open spec fn failed(s: CpuState, e: ErrorView) -> Outcome {
    Outcome { s, out: OutView::Error(e), early: true }
}

/// The instruction is done; execution goes on at `eip`.
pub open spec fn goes_on(s: CpuState, eip: u32) -> Outcome {
    Outcome { s: s.with_eip(eip), out: OutView::Continue, early: false }
}

/// What an instruction function returned, together with the state it left.
pub open spec fn ended(s: CpuState, r: Result<StepOut, StepOut>) -> Outcome {
    match r {
        Ok(o) => Outcome { s, out: o@, early: false },
        Err(o) => Outcome { s, out: o@, early: true },
    }
}

/// A result whose error leaves the instruction.
pub open spec fn or_left<T>(r: Result<T, StepOut>) -> Result<T, OutView> {
    match r {
        Ok(v) => Ok(v),
        Err(o) => Err(o@),
    }
}

/// A result with its error as the step's outcome.
pub open spec fn leaving<T>(r: Result<T, ErrorView>) -> Result<T, OutView> {
    match r {
        Ok(v) => Ok(v),
        Err(e) => Err(OutView::Error(e)),
    }
}

/// Turn an error into the step's outcome.
pub fn or_leave<T>(r: Result<T, Error>) -> (l: Result<T, StepOut>)
    ensures
        or_left(l) == leaving(outcome(r)),
{
    match r {
        Ok(v) => Ok(v),
        Err(e) => Err(StepOut::Error(e)),
    }
}

// ---------------------------------------------------------------------------
// Operands
// ---------------------------------------------------------------------------

/// The width of an operand; `default` where it has none of its own.
pub open spec fn width_of(o: Opnd, default: Bits) -> Bits {
    match o {
        Opnd::Reg(_, b) => b,
        Opnd::Mem(_, b) => b,
        Opnd::Acc(b) => b,
        _ => default,
    }
}

/// The width of an operand.
pub fn opnd_width(o: &Opnd, default: Bits) -> (b: Bits)
    ensures
        b == width_of(*o, default),
{
    match *o {
        Opnd::Reg(_, b) => b,
        Opnd::Mem(_, b) => b,
        Opnd::Acc(b) => b,
        _ => default,
    }
}

impl CpuState {
    /// Register `r` at a width, zero-extended.
    pub open spec fn gpr_at(self, r: u8, bits: Bits) -> u32 {
        match bits {
            Bits::B8 => self.reg8(r as i8) as u32,
            Bits::B16 => self.reg16(r as i8) as u32,
            Bits::B32 => self.reg32(r as i8),
        }
    }

    /// Register `r` takes the low bits of `v` at a width.
    pub open spec fn with_gpr_at(self, r: u8, bits: Bits, v: u32) -> CpuState {
        match bits {
            Bits::B8 => self.with_reg8(r as i8, v as u8),
            Bits::B16 => self.with_reg16(r as i8, v as u16),
            Bits::B32 => self.with_reg32(r as i8, v),
        }
    }

    /// Effective address of a memory operand (offset within segment).
    pub open spec fn ea(self, m: MemRef) -> u32 {
        effective(self.gpr, m.base, m.index, m.scale, m.disp, m.a16)
    }

    /// The value of an operand.
    #[verifier::opaque]
    pub open spec fn operand(self, o: Opnd, kind: AccessKind) -> Result<u32, ErrorView> {
        match o {
            Opnd::Reg(r, bits) => Ok(self.gpr_at(r, bits)),
            Opnd::Mem(m, bits) => self.load(m.seg, self.ea(m), bits.size(), kind),
            Opnd::Imm(v) => Ok(v),
            Opnd::ImmSext(v) => Ok(v),
            Opnd::Acc(bits) => Ok(self.gpr_at(0, bits)),
            Opnd::Dx => Ok(self.reg16(2) as u32),
            Opnd::Port(p) => Ok(p as u32),
            Opnd::Cl => Ok(self.reg8(1) as u32),
            Opnd::Sreg(s) => Ok(self.segment(s).sel as u32),
            Opnd::Rel { disp } => Ok(wrap32(disp as int)),
            Opnd::Absent => Ok(0),
            Opnd::FarPtr { sel, off } => Ok(0),
        }
    }

    /// Write an operand. What is no register and no memory is left alone.
    #[verifier::opaque]
    pub open spec fn assign(self, o: Opnd, v: u32, kind: AccessKind) -> (
        CpuState,
        Result<(), ErrorView>,
    ) {
        match o {
            Opnd::Reg(r, bits) => (self.with_gpr_at(r, bits, v), Ok(())),
            Opnd::Acc(bits) => (self.with_gpr_at(0, bits, v), Ok(())),
            Opnd::Mem(m, bits) => self.store(m.seg, self.ea(m), bits.size(), v, kind),
            _ => (self, Ok(())),
        }
    }

    /// ESP after a push of `size` bytes: with 2 bytes only SP moves.
    pub open spec fn sp_below(self, size: u32) -> u32 {
        let esp = self.gpr[4];
        if size == 2 {
            (esp & 0xFFFF_0000) | (esp as u16).wrapping_sub(2) as u32
        } else {
            esp.wrapping_sub(size)
        }
    }

    /// ESP after a pop of `size` bytes: with 2 bytes only SP moves.
    pub open spec fn sp_above(self, size: u32) -> u32 {
        let esp = self.gpr[4];
        if size == 2 {
            (esp & 0xFFFF_0000) | (esp as u16).wrapping_add(2) as u32
        } else {
            esp.wrapping_add(size)
        }
    }

    /// Push the low bytes of `val`. ESP moves only where the write succeeds.
    pub open spec fn pushed(self, size: u32, val: u32) -> (CpuState, Result<(), ErrorView>) {
        let sp = self.sp_below(size);
        let (s, r) = self.store(Seg::Ss, sp, size, val, AccessKind::Write);
        match r {
            Err(e) => (s, Err(e)),
            Ok(_) => (s.with_gpr(4, sp), Ok(())),
        }
    }

    /// Pop a value. ESP moves only where the read succeeds.
    pub open spec fn popped(self, size: u32) -> (CpuState, Result<u32, ErrorView>) {
        match self.load(Seg::Ss, self.gpr[4], size, AccessKind::Read) {
            Err(e) => (self, Err(e)),
            Ok(v) => (self.with_gpr(4, self.sp_above(size)), Ok(v)),
        }
    }

    /// The EIP behind the instruction `i`.
    pub open spec fn next(self, i: Insn) -> u32 {
        self.eip.wrapping_add(i.len as u32)
    }

    /// The end of an instruction that writes `v` to `o` and then goes on.
    pub open spec fn assign_and_go(self, o: Opnd, v: u32, next: u32) -> Outcome {
        let (s, r) = self.assign(o, v, AccessKind::Write);
        match r {
            Err(e) => failed(s, e),
            Ok(_) => goes_on(s, next),
        }
    }

    /// The end of an instruction that pushes `v` and then goes on.
    pub open spec fn push_and_go(self, size: u32, v: u32, next: u32) -> Outcome {
        let (s, r) = self.pushed(size, v);
        match r {
            Err(e) => failed(s, e),
            Ok(_) => goes_on(s, next),
        }
    }
}

pub(crate) fn read_gpr(cpu: &X86, r: u8, bits: Bits) -> (v: u32)
    requires
        r < 8,
    ensures
        v == cpu@.gpr_at(r, bits),
{
    match bits {
        Bits::B8 => cpu.reg8(r as i8) as u32,
        Bits::B16 => cpu.reg16(r as i8) as u32,
        Bits::B32 => cpu.reg32(r as i8),
    }
}

pub(crate) fn write_gpr(cpu: &mut X86, r: u8, bits: Bits, v: u32)
    requires
        r < 8,
    ensures
        final(cpu)@ == old(cpu)@.with_gpr_at(r, bits, v),
        final(cpu)@.mem.dev == old(cpu)@.mem.dev,
{
    match bits {
        Bits::B8 => cpu.set_reg8(r as i8, v as u8),
        Bits::B16 => cpu.set_reg16(r as i8, v as u16),
        Bits::B32 => cpu.set_reg32(r as i8, v),
    }
}

/// Effective address of a memory operand (offset within segment).
pub fn eff(cpu: &X86, m: &MemRef) -> (a: u32)
    requires
        m.wf(),
    ensures
        a == cpu@.ea(*m),
{
    mmu::eff_addr(cpu, m.base, m.index, m.scale, m.disp, m.a16)
}

/// The value of an operand, or the error as the step's outcome.
pub(crate) fn read_opnd(cpu: &X86, o: &Opnd, kind: AccessKind) -> (r: Result<u32, StepOut>)
    requires
        o.wf(),
    ensures
        or_left(r) == leaving(cpu@.operand(*o, kind)),
{
    proof {
        reveal(CpuState::operand);
    }
    match *o {
        Opnd::Reg(r, bits) => Ok(read_gpr(cpu, r, bits)),
        Opnd::Mem(m, bits) => or_leave(mmu::peek(cpu, m.seg, eff(cpu, &m), bits.bytes(), kind)),
        Opnd::Imm(v) => Ok(v),
        Opnd::ImmSext(v) => Ok(v),
        Opnd::Acc(bits) => Ok(read_gpr(cpu, 0, bits)),
        Opnd::Dx => Ok(cpu.reg16(2) as u32),
        Opnd::Port(p) => Ok(p as u32),
        Opnd::Cl => Ok(cpu.reg8(1) as u32),
        Opnd::Sreg(s) => Ok(cpu.seg[s.index()].sel as u32),
        Opnd::Rel { disp } => Ok(as_word(disp)),
        Opnd::Absent => Ok(0),
        Opnd::FarPtr { sel: _, off: _ } => Ok(0),
    }
}

/// Write an operand back. What is no register and no memory is left alone.
pub(crate) fn write_opnd(cpu: &mut X86, o: &Opnd, v: u32) -> (r: Result<(), StepOut>)
    requires
        o.wf(),
    ensures
        final(cpu)@ == old(cpu)@.assign(*o, v, AccessKind::Write).0,
        or_left(r) == leaving(old(cpu)@.assign(*o, v, AccessKind::Write).1),
        final(cpu)@.mem.dev == old(cpu)@.mem.dev,
{
    proof {
        reveal(CpuState::assign);
    }
    match *o {
        Opnd::Reg(r, bits) => {
            write_gpr(cpu, r, bits, v);
            Ok(())
        },
        Opnd::Acc(bits) => {
            write_gpr(cpu, 0, bits, v);
            Ok(())
        },
        Opnd::Mem(m, bits) => {
            let off = eff(cpu, &m);
            or_leave(mmu::poke(cpu, m.seg, off, bits.bytes(), v, AccessKind::Write))
        },
        _ => Ok(()),
    }
}

/// Write the result of an instruction and go on behind it.
pub(crate) fn write_and_go(cpu: &mut X86, o: &Opnd, v: u32, next: u32) -> (r: Result<
    StepOut,
    StepOut,
>)
    requires
        o.wf(),
    ensures
        ended(final(cpu)@, r) == old(cpu)@.assign_and_go(*o, v, next),
        final(cpu)@.mem.dev == old(cpu)@.mem.dev,
{
    write_opnd(cpu, o, v)?;
    cpu.eip = next;
    Ok(StepOut::Continue)
}

/// Go on at `next`.
pub(crate) fn go(cpu: &mut X86, next: u32) -> (r: Result<StepOut, StepOut>)
    ensures
        ended(final(cpu)@, r) == goes_on(old(cpu)@, next),
        final(cpu)@.mem.dev == old(cpu)@.mem.dev,
{
    cpu.eip = next;
    Ok(StepOut::Continue)
}

/// The EIP behind the instruction.
pub(crate) fn next_eip(cpu: &X86, d: &Decoded) -> (n: u32)
    ensures
        n == cpu@.next(d@),
{
    cpu.eip.wrapping_add(d.len as u32)
}

// ---------------------------------------------------------------------------
// The stack
// ---------------------------------------------------------------------------

/// Push a value.
pub fn push_public(cpu: &mut X86, size: u32, val: u32) -> (r: Result<(), Error>)
    ensures
        (final(cpu)@, outcome(r)) == old(cpu)@.pushed(size, val),
        final(cpu)@.mem.dev == old(cpu)@.mem.dev,
{
    let esp = cpu.gpr[4];
    let sp = if size == 2 {
        (esp & 0xFFFF_0000) | (esp as u16).wrapping_sub(2) as u32
    } else {
        esp.wrapping_sub(size)
    };
    mmu::poke(cpu, Seg::Ss, sp, size, val, AccessKind::Write)?;
    cpu.gpr[4] = sp;
    Ok(())
}

/// Pop a value.
pub fn pop_public(cpu: &mut X86, size: u32) -> (r: Result<u32, Error>)
    ensures
        (final(cpu)@, outcome(r)) == old(cpu)@.popped(size),
        final(cpu)@.mem.dev == old(cpu)@.mem.dev,
{
    let esp = cpu.gpr[4];
    let v = mmu::peek(cpu, Seg::Ss, esp, size, AccessKind::Read)?;
    cpu.gpr[4] = if size == 2 {
        (esp & 0xFFFF_0000) | (esp as u16).wrapping_add(2) as u32
    } else {
        esp.wrapping_add(size)
    };
    Ok(v)
}

/// Push a value, or leave the instruction.
pub(crate) fn push(cpu: &mut X86, size: u32, val: u32) -> (r: Result<(), StepOut>)
    ensures
        final(cpu)@ == old(cpu)@.pushed(size, val).0,
        or_left(r) == leaving(old(cpu)@.pushed(size, val).1),
        final(cpu)@.mem.dev == old(cpu)@.mem.dev,
{
    let r = push_public(cpu, size, val);
    or_leave(r)
}

/// Pop a value, or leave the instruction.
pub(crate) fn pop(cpu: &mut X86, size: u32) -> (r: Result<u32, StepOut>)
    ensures
        final(cpu)@ == old(cpu)@.popped(size).0,
        or_left(r) == leaving(old(cpu)@.popped(size).1),
        final(cpu)@.mem.dev == old(cpu)@.mem.dev,
{
    let r = pop_public(cpu, size);
    or_leave(r)
}

} // verus!
