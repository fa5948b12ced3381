//! The functions that compiled code calls back: flag math, memory translation,
//! port I/O, stack and string operations of the shared `sem` layer, with every
//! argument and result a plain 64-bit number.

use vstd::prelude::*;

use crate::cpu::{AccessKind, CpuState, ErrorView, Seg, X86};
use crate::decode::{AluOp, Bits, Cond, Rep, ShiftKind};
use crate::flag::{CF, DF, IF};
use crate::mem::{DevLog, continues};
use crate::mmu::{peek, poke};
use crate::sem;
use crate::sem::arith::{alu_result, cond_holds, inc_dec_result, low, shift_result, wrapped};
use crate::sem::misc::read_port;
use crate::sem::string::{StrMode, StrOp};

verus! {

// ---------------------------------------------------------------------------
// Numbers for what an argument stands for
// ---------------------------------------------------------------------------

/// The number of a width in helper calls.
pub open spec fn bits_number(x: Bits) -> u64 {
    match x {
        Bits::B8 => 0,
        Bits::B16 => 1,
        Bits::B32 => 2,
    }
}

/// A width of a number in helper calls.
pub open spec fn bits_numbered(n: u64) -> Bits {
    match n {
        0 => Bits::B8,
        1 => Bits::B16,
        _ => Bits::B32,
    }
}

pub fn bits_id(x: Bits) -> (n: u64)
    ensures
        n == bits_number(x),
        bits_numbered(n) == x,
{
    match x {
        Bits::B8 => 0,
        Bits::B16 => 1,
        Bits::B32 => 2,
    }
}

pub fn bits_of(n: u64) -> (x: Bits)
    ensures
        x == bits_numbered(n),
{
    match n {
        0 => Bits::B8,
        1 => Bits::B16,
        _ => Bits::B32,
    }
}

/// The number of an ALU operation in helper calls.
pub open spec fn alu_number(x: AluOp) -> u64 {
    match x {
        AluOp::Add => 0,
        AluOp::Or => 1,
        AluOp::Adc => 2,
        AluOp::Sbb => 3,
        AluOp::And => 4,
        AluOp::Sub => 5,
        AluOp::Xor => 6,
        AluOp::Cmp => 7,
    }
}

/// An ALU operation of a number in helper calls.
pub open spec fn alu_numbered(n: u64) -> AluOp {
    match n {
        0 => AluOp::Add,
        1 => AluOp::Or,
        2 => AluOp::Adc,
        3 => AluOp::Sbb,
        4 => AluOp::And,
        5 => AluOp::Sub,
        6 => AluOp::Xor,
        _ => AluOp::Cmp,
    }
}

pub fn alu_id(x: AluOp) -> (n: u64)
    ensures
        n == alu_number(x),
        alu_numbered(n) == x,
{
    match x {
        AluOp::Add => 0,
        AluOp::Or => 1,
        AluOp::Adc => 2,
        AluOp::Sbb => 3,
        AluOp::And => 4,
        AluOp::Sub => 5,
        AluOp::Xor => 6,
        AluOp::Cmp => 7,
    }
}

pub fn alu_of(n: u64) -> (x: AluOp)
    ensures
        x == alu_numbered(n),
{
    match n {
        0 => AluOp::Add,
        1 => AluOp::Or,
        2 => AluOp::Adc,
        3 => AluOp::Sbb,
        4 => AluOp::And,
        5 => AluOp::Sub,
        6 => AluOp::Xor,
        _ => AluOp::Cmp,
    }
}

/// The number of a condition in helper calls.
pub open spec fn cond_number(x: Cond) -> u64 {
    match x {
        Cond::O => 0,
        Cond::No => 1,
        Cond::B => 2,
        Cond::Ae => 3,
        Cond::E => 4,
        Cond::Ne => 5,
        Cond::Be => 6,
        Cond::A => 7,
        Cond::S => 8,
        Cond::Ns => 9,
        Cond::P => 10,
        Cond::Np => 11,
        Cond::L => 12,
        Cond::Ge => 13,
        Cond::Le => 14,
        Cond::G => 15,
    }
}

/// A condition of a number in helper calls.
pub open spec fn cond_numbered(n: u64) -> Cond {
    match n {
        0 => Cond::O,
        1 => Cond::No,
        2 => Cond::B,
        3 => Cond::Ae,
        4 => Cond::E,
        5 => Cond::Ne,
        6 => Cond::Be,
        7 => Cond::A,
        8 => Cond::S,
        9 => Cond::Ns,
        10 => Cond::P,
        11 => Cond::Np,
        12 => Cond::L,
        13 => Cond::Ge,
        14 => Cond::Le,
        _ => Cond::G,
    }
}

pub fn cond_id(x: Cond) -> (n: u64)
    ensures
        n == cond_number(x),
        cond_numbered(n) == x,
{
    match x {
        Cond::O => 0,
        Cond::No => 1,
        Cond::B => 2,
        Cond::Ae => 3,
        Cond::E => 4,
        Cond::Ne => 5,
        Cond::Be => 6,
        Cond::A => 7,
        Cond::S => 8,
        Cond::Ns => 9,
        Cond::P => 10,
        Cond::Np => 11,
        Cond::L => 12,
        Cond::Ge => 13,
        Cond::Le => 14,
        Cond::G => 15,
    }
}

pub fn cond_of(n: u64) -> (x: Cond)
    ensures
        x == cond_numbered(n),
{
    match n {
        0 => Cond::O,
        1 => Cond::No,
        2 => Cond::B,
        3 => Cond::Ae,
        4 => Cond::E,
        5 => Cond::Ne,
        6 => Cond::Be,
        7 => Cond::A,
        8 => Cond::S,
        9 => Cond::Ns,
        10 => Cond::P,
        11 => Cond::Np,
        12 => Cond::L,
        13 => Cond::Ge,
        14 => Cond::Le,
        _ => Cond::G,
    }
}

/// The number of a shift in helper calls.
pub open spec fn shift_number(x: ShiftKind) -> u64 {
    match x {
        ShiftKind::Rol => 0,
        ShiftKind::Ror => 1,
        ShiftKind::Rcl => 2,
        ShiftKind::Rcr => 3,
        ShiftKind::Shl => 4,
        ShiftKind::Shr => 5,
        ShiftKind::Sar => 6,
    }
}

/// A shift of a number in helper calls.
pub open spec fn shift_numbered(n: u64) -> ShiftKind {
    match n {
        0 => ShiftKind::Rol,
        1 => ShiftKind::Ror,
        2 => ShiftKind::Rcl,
        3 => ShiftKind::Rcr,
        4 => ShiftKind::Shl,
        5 => ShiftKind::Shr,
        _ => ShiftKind::Sar,
    }
}

pub fn shift_id(x: ShiftKind) -> (n: u64)
    ensures
        n == shift_number(x),
        shift_numbered(n) == x,
{
    match x {
        ShiftKind::Rol => 0,
        ShiftKind::Ror => 1,
        ShiftKind::Rcl => 2,
        ShiftKind::Rcr => 3,
        ShiftKind::Shl => 4,
        ShiftKind::Shr => 5,
        ShiftKind::Sar => 6,
    }
}

pub fn shift_of(n: u64) -> (x: ShiftKind)
    ensures
        x == shift_numbered(n),
{
    match n {
        0 => ShiftKind::Rol,
        1 => ShiftKind::Ror,
        2 => ShiftKind::Rcl,
        3 => ShiftKind::Rcr,
        4 => ShiftKind::Shl,
        5 => ShiftKind::Shr,
        _ => ShiftKind::Sar,
    }
}

/// The access kind of a number in helper calls: 1=write, 2=read-modify-write.
pub open spec fn kind_numbered(n: u64) -> AccessKind {
    match n {
        1 => AccessKind::Write,
        2 => AccessKind::Rmw,
        _ => AccessKind::Read,
    }
}

pub fn kind_of(n: u64) -> (k: AccessKind)
    ensures
        k == kind_numbered(n),
{
    match n {
        1 => AccessKind::Write,
        2 => AccessKind::Rmw,
        _ => AccessKind::Read,
    }
}

/// The REP prefix of a number in helper calls: 1=REP/REPE, 2=REPNE.
pub open spec fn rep_numbered(n: u64) -> Rep {
    match n {
        1 => Rep::Z,
        2 => Rep::NZ,
        _ => Rep::Single,
    }
}

pub fn rep_of(n: u64) -> (r: Rep)
    ensures
        r == rep_numbered(n),
{
    match n {
        1 => Rep::Z,
        2 => Rep::NZ,
        _ => Rep::Single,
    }
}

pub fn rep_id(r: Rep) -> (n: u64)
    ensures
        rep_numbered(n) == r,
        n <= 2,
{
    match r {
        Rep::Z => 1,
        Rep::NZ => 2,
        Rep::Single => 0,
    }
}

pub fn kind_id(k: AccessKind) -> (n: u64)
    ensures
        !(k is Fetch) ==> kind_numbered(n) == k,
        k is Read || k is Fetch ==> n == 0,
{
    match k {
        AccessKind::Write => 1,
        AccessKind::Rmw => 2,
        _ => 0,
    }
}

/// What a helper returns for a fault.
pub const FAULT: u64 = 0x1_0000_0000;

/// The number that a read hands back: the value, or `FAULT`.
pub open spec fn read_reply(r: Result<u32, ErrorView>) -> u64 {
    match r {
        Ok(v) => v as u64,
        Err(_) => FAULT,
    }
}

/// The number that a write hands back: 0, or 1 for a fault.
pub open spec fn write_reply(r: Result<(), ErrorView>) -> u64 {
    match r {
        Ok(_) => 0,
        Err(_) => 1,
    }
}

// ---------------------------------------------------------------------------
// Registers
// ---------------------------------------------------------------------------

pub fn jit_get_reg(cpu: &mut X86, idx: u64) -> (r: u64)
    requires
        idx < 8,
    ensures
        final(cpu)@ == old(cpu)@,
        r == old(cpu)@.gpr[idx as int],
{
    cpu.gpr[idx as usize] as u64
}

pub fn jit_set_reg(cpu: &mut X86, idx: u64, val: u64) -> (r: u64)
    requires
        idx < 8,
    ensures
        final(cpu)@ == old(cpu)@.with_gpr(idx as int, val as u32),
        r == 0,
{
    cpu.gpr[idx as usize] = val as u32;
    0
}

pub fn jit_set_eip(cpu: &mut X86, eip: u64) -> (r: u64)
    ensures
        final(cpu)@ == old(cpu)@.with_eip(eip as u32),
        r == 0,
{
    cpu.eip = eip as u32;
    0
}

// ---------------------------------------------------------------------------
// Arithmetic
// ---------------------------------------------------------------------------

pub fn jit_alu(cpu: &mut X86, op: u64, a: u64, b: u64, bits: u64) -> (r: u64)
    ensures
        ({
            let (v, f) = alu_result(
                old(cpu)@.eflags,
                alu_numbered(op),
                a as u32,
                b as u32,
                bits_numbered(bits),
            );
            r == v && final(cpu)@ == old(cpu)@.with_flags(f)
        }),
{
    sem::alu(cpu, alu_of(op), a as u32, b as u32, bits_of(bits)) as u64
}

pub fn jit_test(cpu: &mut X86, a: u64, b: u64, bits: u64) -> (r: u64)
    ensures
        r == low(a as u32 & b as u32, bits_numbered(bits)),
        final(cpu)@ == old(cpu)@.with_flags(
            alu_result(
                old(cpu)@.eflags,
                AluOp::And,
                a as u32,
                b as u32,
                bits_numbered(bits),
            ).1,
        ),
{
    sem::test_flags(cpu, a as u32, b as u32, bits_of(bits)) as u64
}

pub fn jit_incdec(cpu: &mut X86, inc: u64, v: u64, bits: u64) -> (r: u64)
    ensures
        ({
            let (x, f) = inc_dec_result(
                old(cpu)@.eflags,
                v as u32,
                bits_numbered(bits),
                inc != 0,
            );
            r == x && final(cpu)@ == old(cpu)@.with_flags(f)
        }),
{
    sem::inc_dec(cpu, v as u32, bits_of(bits), inc != 0) as u64
}

pub fn jit_neg(cpu: &mut X86, v: u64, bits: u64) -> (r: u64)
    ensures
        r == wrapped(-(low(v as u32, bits_numbered(bits)) as int), bits_numbered(bits)),
        final(cpu)@ == old(cpu)@.with_flags(
            alu_result(old(cpu)@.eflags, AluOp::Sub, 0, v as u32, bits_numbered(bits)).1,
        ),
{
    sem::neg_op(cpu, v as u32, bits_of(bits)) as u64
}

pub fn jit_shift(cpu: &mut X86, kind: u64, v: u64, count: u64, bits: u64) -> (r: u64)
    ensures
        ({
            let (x, f) = shift_result(
                old(cpu)@.eflags,
                shift_numbered(kind),
                v as u32,
                count as u32,
                bits_numbered(bits),
            );
            r == x && final(cpu)@ == old(cpu)@.with_flags(f)
        }),
{
    sem::shift(cpu, shift_of(kind), v as u32, count as u32, bits_of(bits)) as u64
}

pub fn jit_cond(cpu: &mut X86, cond: u64) -> (r: u64)
    ensures
        final(cpu)@ == old(cpu)@,
        r == (if cond_holds(old(cpu)@.eflags, cond_numbered(cond)) {
            1u64
        } else {
            0
        }),
{
    if sem::cond_true(cpu, cond_of(cond)) {
        1
    } else {
        0
    }
}

// ---------------------------------------------------------------------------
// Memory
// ---------------------------------------------------------------------------

fn mmu_rd(cpu: &X86, seg: u64, off: u64, kind: u64, size: u32) -> (r: u64)
    ensures
        r == read_reply(
            cpu@.load(Seg::of(seg as u8), off as u32, size, kind_numbered(kind)),
        ),
{
    match peek(cpu, Seg::from_idx(seg as u8), off as u32, size, kind_of(kind)) {
        Ok(v) => v as u64,
        Err(_) => FAULT,
    }
}

fn mmu_wr(cpu: &mut X86, seg: u64, off: u64, kind: u64, size: u32, val: u32) -> (r: u64)
    ensures
        ({
            let (s, o) = old(cpu)@.store(
                Seg::of(seg as u8),
                off as u32,
                size,
                val,
                kind_numbered(kind),
            );
            final(cpu)@ == s && r == write_reply(o)
        }),
{
    match poke(cpu, Seg::from_idx(seg as u8), off as u32, size, val, kind_of(kind)) {
        Ok(_) => 0,
        Err(_) => 1,
    }
}

pub fn jit_mem_r8(cpu: &mut X86, seg: u64, off: u64, kind: u64) -> (r: u64)
    ensures
        final(cpu)@ == old(cpu)@,
        r == read_reply(
            old(cpu)@.load(Seg::of(seg as u8), off as u32, 1, kind_numbered(kind)),
        ),
{
    mmu_rd(cpu, seg, off, kind, 1)
}

pub fn jit_mem_w8(cpu: &mut X86, seg: u64, off: u64, val: u64, kind: u64) -> (r: u64)
    ensures
        ({
            let (s, o) = old(cpu)@.store(
                Seg::of(seg as u8),
                off as u32,
                1,
                val as u32,
                kind_numbered(kind),
            );
            final(cpu)@ == s && r == write_reply(o)
        }),
{
    mmu_wr(cpu, seg, off, kind, 1, val as u32)
}

pub fn jit_mem_r16(cpu: &mut X86, seg: u64, off: u64, kind: u64) -> (r: u64)
    ensures
        final(cpu)@ == old(cpu)@,
        r == read_reply(
            old(cpu)@.load(Seg::of(seg as u8), off as u32, 2, kind_numbered(kind)),
        ),
{
    mmu_rd(cpu, seg, off, kind, 2)
}

pub fn jit_mem_w16(cpu: &mut X86, seg: u64, off: u64, val: u64, kind: u64) -> (r: u64)
    ensures
        ({
            let (s, o) = old(cpu)@.store(
                Seg::of(seg as u8),
                off as u32,
                2,
                val as u32,
                kind_numbered(kind),
            );
            final(cpu)@ == s && r == write_reply(o)
        }),
{
    mmu_wr(cpu, seg, off, kind, 2, val as u32)
}

pub fn jit_mem_r32(cpu: &mut X86, seg: u64, off: u64, kind: u64) -> (r: u64)
    ensures
        final(cpu)@ == old(cpu)@,
        r == read_reply(
            old(cpu)@.load(Seg::of(seg as u8), off as u32, 4, kind_numbered(kind)),
        ),
{
    mmu_rd(cpu, seg, off, kind, 4)
}

pub fn jit_mem_w32(cpu: &mut X86, seg: u64, off: u64, val: u64, kind: u64) -> (r: u64)
    ensures
        ({
            let (s, o) = old(cpu)@.store(
                Seg::of(seg as u8),
                off as u32,
                4,
                val as u32,
                kind_numbered(kind),
            );
            final(cpu)@ == s && r == write_reply(o)
        }),
{
    mmu_wr(cpu, seg, off, kind, 4, val as u32)
}

// ---------------------------------------------------------------------------
// Ports, stack, strings and flags
// ---------------------------------------------------------------------------

pub fn jit_io_r(cpu: &mut X86, port: u64, size: u64) -> (r: u64)
    ensures
        continues(final(cpu)@.mem.dev, old(cpu)@.mem.dev),
        r <= u32::MAX,
        forall|log: DevLog|
            continues(log, final(cpu)@.mem.dev) ==> (#[trigger] old(cpu)@.port_in(
                port as u16,
                size as u8,
                log,
            )) == (final(cpu)@, r as u32),
{
    read_port(cpu, port as u16, size as u8) as u64
}

pub fn jit_io_w(cpu: &mut X86, port: u64, size: u64, val: u64) -> (r: u64)
    ensures
        final(cpu)@ == old(cpu)@.port_out(port as u16, size as u8, val as u32),
        r == 0,
{
    cpu.mem.io_write(port as u16, size as u8, val as u32);
    0
}

pub fn jit_push(cpu: &mut X86, size: u64, val: u64) -> (r: u64)
    ensures
        ({
            let (s, o) = old(cpu)@.pushed(size as u32, val as u32);
            final(cpu)@ == s && r == write_reply(o)
        }),
{
    match sem::push_public(cpu, size as u32, val as u32) {
        Ok(_) => 0,
        Err(_) => 1,
    }
}

pub fn jit_pop(cpu: &mut X86, size: u64) -> (r: u64)
    ensures
        ({
            let (s, o) = old(cpu)@.popped(size as u32);
            final(cpu)@ == s && r == read_reply(o)
        }),
{
    match sem::pop_public(cpu, size as u32) {
        Ok(v) => v as u64,
        Err(_) => FAULT,
    }
}

pub fn jit_stack_add(cpu: &mut X86, delta: u64) -> (r: u64)
    ensures
        final(cpu)@ == old(cpu)@.with_gpr(4, old(cpu)@.gpr[4].wrapping_add(delta as u32)),
        r == 0,
{
    cpu.gpr[4] = cpu.gpr[4].wrapping_add(delta as u32);
    0
}

/// op: 0=movs, 1=stos, 2=lods, 3=cmps, 4=scas, 5=ins, 6=outs; rep: 0/1/2; bits.
pub fn jit_string(cpu: &mut X86, op: u64, rep: u64, bits: u64, _eip: u64) -> (r: u64)
    ensures
        r == 0,
        continues(final(cpu)@.mem.dev, old(cpu)@.mem.dev),
        forall|log: DevLog|
            continues(log, final(cpu)@.mem.dev) ==> (#[trigger] old(cpu)@.string_done(
                StrMode {
                    op: StrOp::of(op as u8),
                    bits: bits_numbered(bits),
                    a16: old(cpu)@.default16(),
                    strict: false,
                },
                rep_numbered(rep),
                log,
            )) == (final(cpu)@, Ok::<(), ErrorView>(())),
{
    sem::string_op(cpu, op as u8, rep_of(rep), bits_of(bits), 0);
    0
}

impl CpuState {
    /// A flag instruction by number: 0=cli, 1=sti, 2=cld, 3=std, 4=clc, 5=stc,
    /// 6=cmc, 7=clts.
    pub open spec fn flag_changed(self, op: u64) -> CpuState {
        match op {
            0 => self.with_flags(self.eflags & !IF),
            1 => self.with_flags(self.eflags | IF),
            2 => self.with_flags(self.eflags & !DF),
            3 => self.with_flags(self.eflags | DF),
            4 => self.with_flags(self.eflags & !CF),
            5 => self.with_flags(self.eflags | CF),
            6 => self.with_flags(self.eflags ^ CF),
            7 => self.with_cr(0, self.cr[0] & !8),
            _ => self,
        }
    }
}

pub fn jit_flagop(cpu: &mut X86, op: u64) -> (r: u64)
    ensures
        final(cpu)@ == old(cpu)@.flag_changed(op),
        r == 0,
{
    let f = cpu.eflags;
    match op {
        0 => {
            cpu.eflags = f & !IF;
        },
        1 => {
            cpu.eflags = f | IF;
        },
        2 => {
            cpu.eflags = f & !DF;
        },
        3 => {
            cpu.eflags = f | DF;
        },
        4 => {
            cpu.eflags = f & !CF;
        },
        5 => {
            cpu.eflags = f | CF;
        },
        6 => {
            cpu.eflags = f ^ CF;
        },
        7 => {
            cpu.cr[0] = cpu.cr[0] & !8;
        },
        _ => {},
    }
    0
}

} // verus!
