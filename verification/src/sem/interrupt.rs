//! Interrupt / exception dispatch.

use vstd::prelude::*;
use vstd::string::*;

use crate::cpu::{
    AccessKind, CpuState, Error, ErrorView, OutView, Seg, SegVal, StepOut, X86, outcome,
};
use crate::flag::IF;
use crate::mmu::peek16;
use crate::sem::operand::push_public;
use crate::text::{digits, to_digits};

verus! {

impl CpuState {
    /// Three words on the stack, in order; the first that fails ends it.
    pub open spec fn pushed3(self, size: u32, a: u32, b: u32, c: u32) -> (
        CpuState,
        Result<(), ErrorView>,
    ) {
        let (s1, r1) = self.pushed(size, a);
        match r1 {
            Err(e) => (s1, Err(e)),
            Ok(_) => {
                let (s2, r2) = s1.pushed(size, b);
                match r2 {
                    Err(e) => (s2, Err(e)),
                    Ok(_) => s2.pushed(size, c),
                }
            },
        }
    }

    /// A real-mode interrupt: FLAGS, CS and IP on the stack, then on to the
    /// vector in the table at address 0 with TF, IF and DF clear.
    pub open spec fn real_interrupt(self, vector: u8) -> (CpuState, Result<(), ErrorView>) {
        let off = self.mem.read16((vector * 4) as u32);
        let sel = self.mem.read16((vector * 4 + 2) as u32);
        let (s, r) = self.pushed3(
            2,
            self.eflags & 0xFFFF,
            self.segment(Seg::Cs).sel as u32,
            (self.eip % 0x1_0000) as u32,
        );
        match r {
            Err(e) => (s, Err(e)),
            Ok(_) => (
                s.with_flags(s.eflags & !0x700).with_seg(Seg::Cs, SegVal::real_spec(sel)).with_eip(
                    off as u32,
                ),
                Ok(()),
            ),
        }
    }

    /// A word of the interrupt table, 0 where it cannot be read.
    pub open spec fn gate_word(self, addr: u32) -> u16 {
        match self.load16(Seg::Es, addr, AccessKind::Read) {
            Ok(v) => v,
            Err(_) => 0,
        }
    }

    /// A protected-mode interrupt through an entry of the IDT: EFLAGS, CS, EIP
    /// and the error code on the stack, then on to the offset in the entry with
    /// IF clear.
    pub open spec fn gate_interrupt(self, vector: u8, code: u32) -> (CpuState, OutView) {
        let base = self.idtr.base.wrapping_add((vector * 8) as u32);
        let lo = self.gate_word(base);
        let hi = self.gate_word(base.wrapping_add(4));
        let sel = self.gate_word(base.wrapping_add(2));
        if vector * 8 + 7 > self.idtr.limit + 8 {
            (self, OutView::Error(ErrorView::Internal(idt_text(self.idtr.limit, vector))))
        } else if self.cpl() != 0 && self.cpl() > ((hi >> 13) & 3) as u8 {
            (self, OutView::Error(ErrorView::Internal("gate DPL < CPL"@)))
        } else {
            let (s, r) = self.pushed3(
                4,
                self.eflags,
                self.segment(Seg::Cs).sel as u32,
                self.eip,
            );
            match r {
                Err(e) => (s, OutView::Error(e)),
                Ok(_) => {
                    let (s4, r4) = s.pushed(4, code);
                    match r4 {
                        Err(e) => (s4, OutView::Error(e)),
                        Ok(_) => (
                            s4.with_flags(s4.eflags & !IF).with_seg(
                                Seg::Cs,
                                SegVal::real_spec(sel),
                            ).with_eip(lo as u32 | (hi as u32) << 16),
                            OutView::Interrupt,
                        ),
                    }
                },
            }
        }
    }

    /// Interrupt `vector`. An error code in real mode makes it a general
    /// protection fault.
    pub open spec fn interrupted(self, vector: u8, has_error: bool, code: u32) -> (
        CpuState,
        OutView,
    ) {
        if self.protected() {
            self.gate_interrupt(vector, code)
        } else if has_error {
            let (s, r) = self.real_interrupt(13);
            match r {
                Ok(_) => (s, OutView::Interrupt),
                Err(_) => (s, OutView::Error(ErrorView::Internal("int13"@))),
            }
        } else {
            let (s, r) = self.real_interrupt(vector);
            match r {
                Ok(_) => (s, OutView::Interrupt),
                Err(e) => (s, OutView::Error(e)),
            }
        }
    }
}

/// Text of the error for a vector beyond the IDT.
pub open spec fn idt_text(limit: u16, vector: u8) -> Seq<char> {
    "IDT limit ("@ + digits(limit as nat, 10) + ") exceeded for vector "@ + digits(
        vector as nat,
        10,
    )
}

fn push3(cpu: &mut X86, size: u32, a: u32, b: u32, c: u32) -> (r: Result<(), Error>)
    ensures
        (final(cpu)@, outcome(r)) == old(cpu)@.pushed3(size, a, b, c),
        final(cpu)@.mem.dev == old(cpu)@.mem.dev,
{
    push_public(cpu, size, a)?;
    push_public(cpu, size, b)?;
    push_public(cpu, size, c)
}

pub fn real_mode_int(cpu: &mut X86, vector: u8) -> (r: Result<(), Error>)
    ensures
        (final(cpu)@, outcome(r)) == old(cpu)@.real_interrupt(vector),
        final(cpu)@.mem.dev == old(cpu)@.mem.dev,
{
    // IVT: idtr.base = 0 always in real mode.
    let addr: u32 = vector as u32 * 4;
    let off = cpu.mem.phys_read16(addr);
    let sel = cpu.mem.phys_read16(addr + 2);
    let flags = cpu.eflags & 0xFFFF;
    let cs = cpu.seg[1].sel as u32;
    let ip: u32 = cpu.eip % 0x1_0000;
    push3(cpu, 2, flags, cs, ip)?;
    cpu.eflags = cpu.eflags & !0x700;  // TF, IF, DF
    cpu.seg[1] = SegVal::real_mode(sel);
    cpu.eip = off as u32;
    Ok(())
}

fn gate_word(cpu: &X86, addr: u32) -> (v: u16)
    ensures
        v == cpu@.gate_word(addr),
{
    match peek16(cpu, Seg::Es, addr, AccessKind::Read) {
        Ok(v) => v,
        Err(_) => 0,
    }
}

fn gate_int(cpu: &mut X86, vector: u8, code: u32) -> (out: StepOut)
    ensures
        (final(cpu)@, out@) == old(cpu)@.gate_interrupt(vector, code),
        final(cpu)@.mem.dev == old(cpu)@.mem.dev,
{
    let limit = cpu.idtr.limit;
    if vector as u32 * 8 + 7 > limit as u32 + 8 {
        let text = "IDT limit (".to_owned().concat(to_digits(limit as u32, 10).as_str()).concat(
            ") exceeded for vector ",
        ).concat(to_digits(vector as u32, 10).as_str());
        return StepOut::Error(Error::Internal(text));
    }
    let base = cpu.idtr.base.wrapping_add(vector as u32 * 8);
    let lo = gate_word(cpu, base);
    let hi = gate_word(cpu, base.wrapping_add(4));
    let sel = gate_word(cpu, base.wrapping_add(2));
    let dpl = ((hi >> 13) & 3) as u8;
    if cpu.cpl() != 0 && dpl < cpu.cpl() {
        return StepOut::Error(Error::Internal("gate DPL < CPL".to_owned()));
    }
    // Push flags/CS/EIP, then jump.
    let flags = cpu.eflags;
    let cs = cpu.seg[1].sel as u32;
    let ip = cpu.eip;
    if let Err(e) = push3(cpu, 4, flags, cs, ip) {
        return StepOut::Error(e);
    }
    if let Err(e) = push_public(cpu, 4, code) {
        return StepOut::Error(e);
    }
    cpu.eflags = cpu.eflags & !IF;
    cpu.seg[1] = SegVal::real_mode(sel);
    cpu.eip = lo as u32 | (hi as u32) << 16;
    StepOut::Interrupt
}

pub fn dispatch_interrupt(cpu: &mut X86, vector: u8, has_error: bool, code: u32) -> (out: StepOut)
    ensures
        (final(cpu)@, out@) == old(cpu)@.interrupted(vector, has_error, code),
        final(cpu)@.mem.dev == old(cpu)@.mem.dev,
{
    if cpu.cr[0] & 1 != 0 {
        return gate_int(cpu, vector, code);
    }
    if has_error {
        // Software ints don't carry error codes; treat as invalid.
        return match real_mode_int(cpu, 13) {
            Ok(_) => StepOut::Interrupt,
            Err(_) => StepOut::Error(Error::Internal("int13".to_owned())),
        };
    }
    match real_mode_int(cpu, vector) {
        Ok(_) => StepOut::Interrupt,
        Err(e) => StepOut::Error(e),
    }
}

} // verus!
