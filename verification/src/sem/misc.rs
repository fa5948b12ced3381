//! Flag, decimal, conversion and port instructions.

use vstd::prelude::*;

use crate::bits::{extend16, extend8, signed16, signed8, wrap32};
use crate::cpu::{AccessKind, CpuState, Error, ErrorView, Seg, StepOut, X86};
use crate::decode::{AluOp, Decoded, Insn, Op, Opnd};
use crate::flag::{AF, CF, DF, IF, OF, on, put};
use crate::mem::{DevEvent, DevLog, continues};
use crate::mmu::peek8;
use crate::sem::arith::{alu, alu_result, set_flags_zsp, zsp};
use crate::sem::operand::{
    Outcome, ended, failed, go, goes_on, next_eip, opnd_width, or_leave, read_gpr, read_opnd,
    width_of, write_gpr, write_opnd,
};
use crate::sem::segment::read_or_0;

verus! {

// ---------------------------------------------------------------------------
// Flags
// ---------------------------------------------------------------------------

/// CLI, STI, CLD, STD, CLC, STC and CMC.
pub open spec fn flag_op(flags: u32, op: Op) -> u32 {
    match op {
        Op::Cli => flags & !IF,
        Op::Sti => flags | IF,
        Op::Cld => flags & !DF,
        Op::Std => flags | DF,
        Op::Clc => flags & !CF,
        Op::Stc => flags | CF,
        _ => flags ^ CF,
    }
}

pub(crate) fn exec_flag(cpu: &mut X86, d: &Decoded) -> (r: Result<StepOut, StepOut>)
    ensures
        ended(final(cpu)@, r) == goes_on(
            old(cpu)@.with_flags(flag_op(old(cpu)@.eflags, d@.op)),
            old(cpu)@.next(d@),
        ),
        final(cpu)@.mem.dev == old(cpu)@.mem.dev,
{
    let next = next_eip(cpu, d);
    let f = cpu.eflags;
    cpu.eflags = match d.op {
        Op::Cli => f & !IF,
        Op::Sti => f | IF,
        Op::Cld => f & !DF,
        Op::Std => f | DF,
        Op::Clc => f & !CF,
        Op::Stc => f | CF,
        _ => f ^ CF,
    };
    go(cpu, next)
}

// ---------------------------------------------------------------------------
// Decimal adjustment
// ---------------------------------------------------------------------------

/// Whether the low digit of AL needs an adjustment.
pub open spec fn low_digit_off(flags: u32, al: u8) -> bool {
    on(flags, AF) || al % 16 > 9
}

/// DAA (`add`) and DAS: adjust the low digit of AL by 6 and the high one by
/// 0x60.
pub open spec fn decimal_adjusted(s: CpuState, add: bool) -> CpuState {
    let al = s.reg8(0);
    let lo = low_digit_off(s.eflags, al);
    let hi = on(s.eflags, CF) || al > 0x99;
    let low: u8 = if lo {
        6
    } else {
        0
    };
    let by: u8 = if hi {
        (low + 0x60) as u8
    } else {
        low
    };
    let v: u8 = if add {
        al.wrapping_add(by)
    } else {
        al.wrapping_sub(by)
    };
    s.with_reg8(0, v).with_flags(zsp(put(put(s.eflags, AF, lo), CF, hi), v as u32, 0xFF))
}

fn put_af_cf(flags: u32, af: bool, cf: bool) -> (f: u32)
    ensures
        f == put(put(flags, AF, af), CF, cf),
{
    let a = if af {
        flags | AF
    } else {
        flags & !AF
    };
    if cf {
        a | CF
    } else {
        a & !CF
    }
}

fn adjust_decimal(cpu: &mut X86, add: bool)
    ensures
        final(cpu)@ == decimal_adjusted(old(cpu)@, add),
        final(cpu)@.mem.dev == old(cpu)@.mem.dev,
{
    let al = cpu.reg8(0);
    let lo = cpu.eflags & AF != 0 || al % 16 > 9;
    let hi = cpu.eflags & CF != 0 || al > 0x99;
    let low: u8 = if lo {
        6
    } else {
        0
    };
    let by: u8 = if hi {
        low + 0x60
    } else {
        low
    };
    let v: u8 = if add {
        al.wrapping_add(by)
    } else {
        al.wrapping_sub(by)
    };
    cpu.set_reg8(0, v);
    cpu.eflags = put_af_cf(cpu.eflags, lo, hi);
    set_flags_zsp(cpu, v as u32, 0xFF);
}

/// AAA (`add`) and AAS: adjust AL by 6 and AX by 0x100, then keep the low digit
/// of AL.
pub open spec fn ascii_adjusted(s: CpuState, add: bool) -> CpuState {
    let off = low_digit_off(s.eflags, s.reg8(0));
    let t = if !off {
        s
    } else if add {
        let u = s.with_reg8(0, s.reg8(0).wrapping_add(6));
        u.with_reg16(0, u.reg16(0).wrapping_add(0x100))
    } else {
        let u = s.with_reg8(0, s.reg8(0).wrapping_sub(6));
        u.with_reg16(0, u.reg16(0).wrapping_sub(0x100))
    };
    t.with_reg8(0, (t.reg8(0) % 16) as u8).with_flags(put(put(s.eflags, AF, off), CF, off))
}

fn adjust_ascii(cpu: &mut X86, add: bool)
    ensures
        final(cpu)@ == ascii_adjusted(old(cpu)@, add),
        final(cpu)@.mem.dev == old(cpu)@.mem.dev,
{
    let off = cpu.eflags & AF != 0 || cpu.reg8(0) % 16 > 9;
    if off {
        let al = cpu.reg8(0);
        if add {
            cpu.set_reg8(0, al.wrapping_add(6));
            let ax = cpu.reg16(0);
            cpu.set_reg16(0, ax.wrapping_add(0x100));
        } else {
            cpu.set_reg8(0, al.wrapping_sub(6));
            let ax = cpu.reg16(0);
            cpu.set_reg16(0, ax.wrapping_sub(0x100));
        }
    }
    cpu.eflags = put_af_cf(cpu.eflags, off, off);
    let al = cpu.reg8(0);
    cpu.set_reg8(0, al % 16);
}

/// AAM: AL in decimal digits, in AH and AL.
pub open spec fn aam(s: CpuState) -> CpuState {
    let al = s.reg8(0);
    s.with_reg8(4, (al / 10) as u8).with_reg8(0, (al % 10) as u8).with_flags(
        zsp(s.eflags, (al % 10) as u32, 0xFF) & !(CF | OF | AF),
    )
}

/// AAD: the number whose decimal digits are AH and AL, in AL.
pub open spec fn aad(s: CpuState) -> CpuState {
    let v = s.reg8(0) + s.reg8(4) * 10;
    s.with_reg8(0, (v % 0x100) as u8).with_reg8(4, 0).with_flags(
        zsp(s.eflags, v as u32, 0xFF) & !(CF | OF | AF),
    )
}

/// DAA, DAS, AAA, AAS, AAM and AAD.
pub open spec fn decimal_op(s: CpuState, op: Op) -> CpuState {
    match op {
        Op::Daa => decimal_adjusted(s, true),
        Op::Das => decimal_adjusted(s, false),
        Op::Aaa => ascii_adjusted(s, true),
        Op::Aas => ascii_adjusted(s, false),
        Op::Aam => aam(s),
        _ => aad(s),
    }
}

pub(crate) fn exec_decimal(cpu: &mut X86, d: &Decoded) -> (r: Result<StepOut, StepOut>)
    ensures
        ended(final(cpu)@, r) == goes_on(decimal_op(old(cpu)@, d@.op), old(cpu)@.next(d@)),
        final(cpu)@.mem.dev == old(cpu)@.mem.dev,
{
    let next = next_eip(cpu, d);
    match d.op {
        Op::Daa => adjust_decimal(cpu, true),
        Op::Das => adjust_decimal(cpu, false),
        Op::Aaa => adjust_ascii(cpu, true),
        Op::Aas => adjust_ascii(cpu, false),
        Op::Aam => {
            let al = cpu.reg8(0);
            cpu.set_reg8(4, al / 10);
            cpu.set_reg8(0, al % 10);
            set_flags_zsp(cpu, (al % 10) as u32, 0xFF);
            cpu.eflags = cpu.eflags & !(CF | OF | AF);
        },
        _ => {
            let v: u16 = cpu.reg8(0) as u16 + cpu.reg8(4) as u16 * 10;
            cpu.set_reg8(0, (v % 0x100) as u8);
            cpu.set_reg8(4, 0);
            set_flags_zsp(cpu, v as u32, 0xFF);
            cpu.eflags = cpu.eflags & !(CF | OF | AF);
        },
    }
    go(cpu, next)
}

// ---------------------------------------------------------------------------
// Conversions and register moves
// ---------------------------------------------------------------------------

/// The bytes of a doubleword in reverse order.
pub open spec fn bytes_swapped(v: u32) -> u32 {
    (v << 24) | ((v & 0xFF00) << 8) | ((v >> 8) & 0xFF00) | (v >> 24)
}

/// CBW (CWDE), CWD (CDQ), SAHF, LAHF, SALC, CPUID and RDTSC; the rest do
/// nothing.
pub open spec fn register_op(s: CpuState, i: Insn) -> CpuState {
    match i.op {
        Op::Cbw => if i.o16 {
            s.with_reg16(0, wrap32(signed8(s.reg8(0))) as u16)
        } else {
            s.with_reg32(0, wrap32(signed16(s.reg16(0))))
        },
        Op::Cwd => if i.o16 {
            s.with_reg16(
                2,
                if s.reg16(0) < 0x8000 {
                    0
                } else {
                    0xFFFF
                },
            )
        } else {
            s.with_reg32(
                2,
                if s.reg32(0) < 0x8000_0000 {
                    0
                } else {
                    0xFFFF_FFFF
                },
            )
        },
        Op::Sahf => s.with_flags((s.eflags & !0xFF) | s.reg8(4) as u32),
        Op::Lahf => s.with_reg8(4, s.eflags as u8),
        Op::Salc => s.with_reg8(
            0,
            if on(s.eflags, CF) {
                0xFF
            } else {
                0
            },
        ),
        Op::Cpuid => s.with_gpr(0, 1).with_gpr(1, 0x486).with_gpr(2, 0).with_gpr(3, 0),
        Op::Rdtsc => s.with_gpr(0, s.cycles as u32).with_gpr(2, (s.cycles >> 32) as u32),
        Op::Clts => s.with_cr(0, s.cr[0] & !8),
        _ => s,
    }
}

pub(crate) fn exec_register(cpu: &mut X86, d: &Decoded) -> (r: Result<StepOut, StepOut>)
    ensures
        ended(final(cpu)@, r) == goes_on(register_op(old(cpu)@, d@), old(cpu)@.next(d@)),
        final(cpu)@.mem.dev == old(cpu)@.mem.dev,
{
    let next = next_eip(cpu, d);
    match d.op {
        Op::Cbw => {
            if d.o16 {
                let v = extend8(cpu.reg8(0)) as u16;
                cpu.set_reg16(0, v);
            } else {
                let v = extend16(cpu.reg16(0));
                cpu.set_reg32(0, v);
            }
        },
        Op::Cwd => {
            if d.o16 {
                let v: u16 = if cpu.reg16(0) < 0x8000 {
                    0
                } else {
                    0xFFFF
                };
                cpu.set_reg16(2, v);
            } else {
                let v: u32 = if cpu.reg32(0) < 0x8000_0000 {
                    0
                } else {
                    0xFFFF_FFFF
                };
                cpu.set_reg32(2, v);
            }
        },
        Op::Sahf => {
            cpu.eflags = (cpu.eflags & !0xFF) | cpu.reg8(4) as u32;
        },
        Op::Lahf => {
            let v = cpu.eflags as u8;
            cpu.set_reg8(4, v);
        },
        Op::Salc => {
            let v: u8 = if cpu.eflags & CF != 0 {
                0xFF
            } else {
                0
            };
            cpu.set_reg8(0, v);
        },
        Op::Cpuid => {
            cpu.gpr[0] = 1;
            cpu.gpr[1] = 0x486;
            cpu.gpr[2] = 0;
            cpu.gpr[3] = 0;
        },
        Op::Rdtsc => {
            cpu.gpr[0] = cpu.cycles as u32;
            cpu.gpr[2] = (cpu.cycles >> 32) as u32;
        },
        Op::Clts => {
            cpu.cr[0] = cpu.cr[0] & !8;
        },
        _ => {},
    }
    go(cpu, next)
}

/// BSWAP.
#[verifier::opaque]
pub open spec fn do_bswap(s: CpuState, i: Insn) -> Outcome {
    match i.o0 {
        Opnd::Reg(r, _) => goes_on(
            s.with_gpr(r as int, bytes_swapped(s.gpr[r as int])),
            s.next(i),
        ),
        _ => failed(s, ErrorView::Internal("bswap"@)),
    }
}

pub(crate) fn exec_bswap(cpu: &mut X86, d: &Decoded) -> (r: Result<StepOut, StepOut>)
    requires
        d@.wf(),
    ensures
        ended(final(cpu)@, r) == do_bswap(old(cpu)@, d@),
        final(cpu)@.mem.dev == old(cpu)@.mem.dev,
{
    proof {
        reveal(do_bswap);
    }
    let next = next_eip(cpu, d);
    let r = match d.ops[0] {
        Opnd::Reg(r, _) => r as usize,
        _ => {
            return Err(StepOut::Error(Error::Internal("bswap".to_owned())));
        },
    };
    let v = cpu.gpr[r];
    cpu.gpr[r] = (v << 24) | ((v & 0xFF00) << 8) | ((v >> 8) & 0xFF00) | (v >> 24);
    go(cpu, next)
}

/// XADD; a write that faults is dropped.
#[verifier::opaque]
pub open spec fn do_xadd(s: CpuState, i: Insn) -> Outcome {
    match (s.operand(i.o0, AccessKind::Rmw), s.operand(i.o1, AccessKind::Rmw)) {
        (Err(e), _) => failed(s, e),
        (Ok(a), Err(e)) => failed(s, e),
        (Ok(a), Ok(b)) => {
            let (r, f) = alu_result(s.eflags, AluOp::Add, a, b, width_of(i.o0, i.size()));
            goes_on(
                s.with_flags(f).assign(i.o0, r, AccessKind::Write).0.assign(
                    i.o1,
                    a,
                    AccessKind::Write,
                ).0,
                s.next(i),
            )
        },
    }
}

pub(crate) fn exec_xadd(cpu: &mut X86, d: &Decoded) -> (r: Result<StepOut, StepOut>)
    requires
        d@.wf(),
    ensures
        ended(final(cpu)@, r) == do_xadd(old(cpu)@, d@),
        final(cpu)@.mem.dev == old(cpu)@.mem.dev,
{
    proof {
        reveal(do_xadd);
    }
    let next = next_eip(cpu, d);
    let a = read_opnd(cpu, &d.ops[0], AccessKind::Rmw)?;
    let b = read_opnd(cpu, &d.ops[1], AccessKind::Rmw)?;
    let r = alu(cpu, AluOp::Add, a, b, opnd_width(&d.ops[0], d.size()));
    let _ = write_opnd(cpu, &d.ops[0], r);
    let _ = write_opnd(cpu, &d.ops[1], a);
    go(cpu, next)
}

/// CMPXCHG: where the accumulator equals operand 0, operand 0 takes operand 1
/// (a write that faults is dropped), else the accumulator takes operand 0.
#[verifier::opaque]
pub open spec fn do_exchange_if_equal(s: CpuState, i: Insn) -> Outcome {
    match (s.operand(i.o0, AccessKind::Rmw), s.operand(i.o1, AccessKind::Rmw)) {
        (Err(e), _) => failed(s, e),
        (Ok(a), Err(e)) => failed(s, e),
        (Ok(a), Ok(b)) => {
            let sz = width_of(i.o0, i.size());
            let (r, f) = alu_result(s.eflags, AluOp::Cmp, s.gpr_at(0, sz), a, sz);
            let t = s.with_flags(f);
            goes_on(
                if r == 0 {
                    t.assign(i.o0, b, AccessKind::Write).0
                } else {
                    t.with_gpr_at(0, sz, a)
                },
                s.next(i),
            )
        },
    }
}

pub(crate) fn exec_exchange_if_equal(cpu: &mut X86, d: &Decoded) -> (r: Result<StepOut, StepOut>)
    requires
        d@.wf(),
    ensures
        ended(final(cpu)@, r) == do_exchange_if_equal(old(cpu)@, d@),
        final(cpu)@.mem.dev == old(cpu)@.mem.dev,
{
    proof {
        reveal(do_exchange_if_equal);
    }
    let next = next_eip(cpu, d);
    let a = read_opnd(cpu, &d.ops[0], AccessKind::Rmw)?;
    let b = read_opnd(cpu, &d.ops[1], AccessKind::Rmw)?;
    let sz = opnd_width(&d.ops[0], d.size());
    let acc = read_gpr(cpu, 0, sz);
    let r = alu(cpu, AluOp::Cmp, acc, a, sz);
    if r == 0 {
        let _ = write_opnd(cpu, &d.ops[0], b);
    } else {
        write_gpr(cpu, 0, sz, a);
    }
    go(cpu, next)
}

/// XLAT: AL takes the byte at DS:BX+AL.
#[verifier::opaque]
pub open spec fn do_xlat(s: CpuState, i: Insn) -> Outcome {
    let off = (s.gpr[3] % 0x1_0000 + s.reg8(0)) as u32;
    match s.load8(Seg::Ds, off, AccessKind::Read) {
        Err(e) => failed(s, e),
        Ok(v) => goes_on(s.with_reg8(0, v), s.next(i)),
    }
}

pub(crate) fn exec_xlat(cpu: &mut X86, d: &Decoded) -> (r: Result<StepOut, StepOut>)
    ensures
        ended(final(cpu)@, r) == do_xlat(old(cpu)@, d@),
        final(cpu)@.mem.dev == old(cpu)@.mem.dev,
{
    proof {
        reveal(do_xlat);
    }
    let next = next_eip(cpu, d);
    let off: u32 = cpu.gpr[3] % 0x1_0000 + cpu.reg8(0) as u32;
    let v = or_leave(peek8(cpu, Seg::Ds, off, AccessKind::Read))?;
    cpu.set_reg8(0, v);
    go(cpu, next)
}

// ---------------------------------------------------------------------------
// Ports
// ---------------------------------------------------------------------------

impl CpuState {
    /// A port read of `size` bytes: the reply and the state after it.
    pub open spec fn port_in(self, port: u16, size: u8, log: DevLog) -> (CpuState, u32) {
        let v = self.mem.in_reply(log);
        (self.with_mem(self.mem.record(DevEvent::In { port, size, value: v })), v)
    }

    /// A port write of `size` bytes.
    pub open spec fn port_out(self, port: u16, size: u8, data: u32) -> CpuState {
        self.with_mem(self.mem.record(DevEvent::Out { port, size, data }))
    }
}

/// A port read. Whatever the device goes on to do, the reply is the one in its
/// log.
pub(crate) fn read_port(cpu: &mut X86, port: u16, size: u8) -> (v: u32)
    ensures
        continues(final(cpu)@.mem.dev, old(cpu)@.mem.dev),
        forall|log: DevLog|
            continues(log, final(cpu)@.mem.dev) ==> (#[trigger] old(cpu)@.port_in(port, size, log))
                == (final(cpu)@, v),
{
    cpu.mem.io_read(port, size)
}

/// The port that an operand names.
pub open spec fn port_of(s: CpuState, o: Opnd) -> u16 {
    match o {
        Opnd::Port(p) => p,
        Opnd::Dx => s.gpr[2] as u16,
        _ => 0,
    }
}

fn opnd_port(cpu: &X86, o: &Opnd) -> (p: u16)
    ensures
        p == port_of(cpu@, *o),
{
    match *o {
        Opnd::Port(p) => p,
        Opnd::Dx => cpu.gpr[2] as u16,
        _ => 0,
    }
}

/// How many bytes a port transfer moves.
pub open spec fn port_size(o: Opnd) -> u8 {
    match o {
        Opnd::Acc(b) => b.size() as u8,
        _ => 1,
    }
}

fn opnd_port_size(o: &Opnd) -> (n: u8)
    ensures
        n == port_size(*o),
{
    match *o {
        Opnd::Acc(b) => b.bytes() as u8,
        _ => 1,
    }
}

/// IN.
#[verifier::opaque]
pub open spec fn do_in(s: CpuState, i: Insn, log: DevLog) -> Outcome {
    let (t, v) = s.port_in(port_of(s, i.o1), port_size(i.o0), log);
    goes_on(t.assign(i.o0, v, AccessKind::Write).0, s.next(i))
}

pub(crate) fn exec_in(cpu: &mut X86, d: &Decoded) -> (r: Result<StepOut, StepOut>)
    requires
        d@.wf(),
    ensures
        forall|log: DevLog|
            continues(log, final(cpu)@.mem.dev) ==> (#[trigger] do_in(old(cpu)@, d@, log))
                == ended(final(cpu)@, r),
        continues(final(cpu)@.mem.dev, old(cpu)@.mem.dev),
{
    proof {
        reveal(do_in);
    }
    let next = next_eip(cpu, d);
    let port = opnd_port(cpu, &d.ops[1]);
    let size = opnd_port_size(&d.ops[0]);
    let v = read_port(cpu, port, size);
    let _ = write_opnd(cpu, &d.ops[0], v);
    go(cpu, next)
}

/// OUT; what cannot be read goes out as 0.
#[verifier::opaque]
pub open spec fn do_out(s: CpuState, i: Insn) -> Outcome {
    goes_on(
        s.port_out(
            port_of(s, i.o0),
            port_size(i.o1),
            s.operand_or_0(i.o1, AccessKind::Read),
        ),
        s.next(i),
    )
}

pub(crate) fn exec_out(cpu: &mut X86, d: &Decoded) -> (r: Result<StepOut, StepOut>)
    requires
        d@.wf(),
    ensures
        ended(final(cpu)@, r) == do_out(old(cpu)@, d@),
        continues(final(cpu)@.mem.dev, old(cpu)@.mem.dev),
{
    proof {
        reveal(do_out);
    }
    let next = next_eip(cpu, d);
    let port = opnd_port(cpu, &d.ops[0]);
    let size = opnd_port_size(&d.ops[1]);
    let v = read_or_0(cpu, &d.ops[1], AccessKind::Read);
    cpu.mem.io_write(port, size, v);
    go(cpu, next)
}

} // verus!
