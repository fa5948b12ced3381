//! Arithmetic, shift, bit and data-movement instructions.

use vstd::prelude::*;

use crate::bits::{extend16, extend8, lemma_turns, signed16, signed8, wrap32};
use crate::cpu::{AccessKind, CpuState, StepOut, X86};
use crate::decode::{AluOp, BitOp, Bits, Decoded, Insn, Op, Opnd, ShiftBy, ShiftKind};
use crate::flag::{CF, OF, put};
use crate::sem::arith::{
    alu, alu_result, arith_flags, bit_count, fits, inc_dec, inc_dec_result, low, low_part, mask,
    mask_of, neg_op, set_af, set_cf, set_flags_zsp, set_of, shift, shift_count, shift_result,
    shifted_left, shifted_right, signed, signed_part, test_flags, values, wrapped,
};
use crate::sem::interrupt::dispatch_interrupt;
use crate::sem::operand::{
    Outcome, ended, failed, go, goes_on, next_eip, opnd_width, read_gpr, read_opnd, width_of,
    write_and_go, write_gpr, write_opnd,
};

verus! {

// ---------------------------------------------------------------------------
// ALU instructions
// ---------------------------------------------------------------------------

/// ALU operation on two operands; CMP writes only flags.
#[verifier::opaque]
pub open spec fn do_alu(s: CpuState, i: Insn, op: AluOp) -> Outcome {
    match (s.operand(i.o0, AccessKind::Read), s.operand(i.o1, AccessKind::Read)) {
        (Err(e), _) => failed(s, e),
        (Ok(a), Err(e)) => failed(s, e),
        (Ok(a), Ok(b)) => {
            let (r, f) = alu_result(s.eflags, op, a, b, width_of(i.o0, i.size()));
            if op is Cmp {
                goes_on(s.with_flags(f), s.next(i))
            } else {
                s.with_flags(f).assign_and_go(i.o0, r, s.next(i))
            }
        },
    }
}

pub(crate) fn exec_alu(cpu: &mut X86, d: &Decoded, op: AluOp) -> (r: Result<StepOut, StepOut>)
    requires
        d@.wf(),
    ensures
        ended(final(cpu)@, r) == do_alu(old(cpu)@, d@, op),
        final(cpu)@.mem.dev == old(cpu)@.mem.dev,
{
    proof {
        reveal(do_alu);
    }
    let next = next_eip(cpu, d);
    let a = read_opnd(cpu, &d.ops[0], AccessKind::Read)?;
    let b = read_opnd(cpu, &d.ops[1], AccessKind::Read)?;
    let bits = opnd_width(&d.ops[0], d.size());
    // `alu` computes flags and result together; call it exactly once so
    // carry-dependent ops (ADC/SBB) see the *input* flags.
    let r = alu(cpu, op, a, b, bits);
    if matches!(op, AluOp::Cmp) {
        go(cpu, next)
    } else {
        write_and_go(cpu, &d.ops[0], r, next)
    }
}

/// INC, DEC, NEG and NOT.
#[verifier::opaque]
pub open spec fn do_unary(s: CpuState, i: Insn) -> Outcome {
    match s.operand(i.o0, AccessKind::Rmw) {
        Err(e) => failed(s, e),
        Ok(v) => {
            let sz = width_of(i.o0, i.size());
            match i.op {
                Op::Inc => {
                    let (r, f) = inc_dec_result(s.eflags, v, sz, true);
                    s.with_flags(f).assign_and_go(i.o0, r, s.next(i))
                },
                Op::Dec => {
                    let (r, f) = inc_dec_result(s.eflags, v, sz, false);
                    s.with_flags(f).assign_and_go(i.o0, r, s.next(i))
                },
                Op::Neg => s.with_flags(
                    alu_result(s.eflags, AluOp::Sub, 0, v, sz).1,
                ).assign_and_go(i.o0, wrapped(-(low(v, sz) as int), sz), s.next(i)),
                _ => s.assign_and_go(i.o0, low(!v, sz), s.next(i)),
            }
        },
    }
}

pub(crate) fn exec_unary(cpu: &mut X86, d: &Decoded) -> (r: Result<StepOut, StepOut>)
    requires
        d@.wf(),
    ensures
        ended(final(cpu)@, r) == do_unary(old(cpu)@, d@),
        final(cpu)@.mem.dev == old(cpu)@.mem.dev,
{
    proof {
        reveal(do_unary);
    }
    let next = next_eip(cpu, d);
    let v = read_opnd(cpu, &d.ops[0], AccessKind::Rmw)?;
    let bits = opnd_width(&d.ops[0], d.size());
    let r = match d.op {
        Op::Inc => inc_dec(cpu, v, bits, true),
        Op::Dec => inc_dec(cpu, v, bits, false),
        Op::Neg => neg_op(cpu, v, bits),
        _ => low_part(!v, bits),
    };
    write_and_go(cpu, &d.ops[0], r, next)
}

/// TEST.
#[verifier::opaque]
pub open spec fn do_test(s: CpuState, i: Insn) -> Outcome {
    match (s.operand(i.o0, AccessKind::Read), s.operand(i.o1, AccessKind::Read)) {
        (Err(e), _) => failed(s, e),
        (Ok(a), Err(e)) => failed(s, e),
        (Ok(a), Ok(b)) => goes_on(
            s.with_flags(
                alu_result(s.eflags, AluOp::And, a, b, width_of(i.o0, i.size())).1,
            ),
            s.next(i),
        ),
    }
}

pub(crate) fn exec_test(cpu: &mut X86, d: &Decoded) -> (r: Result<StepOut, StepOut>)
    requires
        d@.wf(),
    ensures
        ended(final(cpu)@, r) == do_test(old(cpu)@, d@),
        final(cpu)@.mem.dev == old(cpu)@.mem.dev,
{
    proof {
        reveal(do_test);
    }
    let next = next_eip(cpu, d);
    let a = read_opnd(cpu, &d.ops[0], AccessKind::Read)?;
    let b = read_opnd(cpu, &d.ops[1], AccessKind::Read)?;
    test_flags(cpu, a, b, opnd_width(&d.ops[0], d.size()));
    go(cpu, next)
}

// ---------------------------------------------------------------------------
// Multiplication and division
// ---------------------------------------------------------------------------

impl CpuState {
    /// The upper half of the double-width accumulator: AH, DX or EDX.
    pub open spec fn upper(self, sz: Bits) -> u32 {
        match sz {
            Bits::B8 => self.gpr_at(4, Bits::B8),
            _ => self.gpr_at(2, sz),
        }
    }

    /// The double-width accumulator takes `lo` and `hi`.
    pub open spec fn with_pair(self, sz: Bits, lo: u32, hi: u32) -> CpuState {
        match sz {
            Bits::B8 => self.with_gpr_at(0, sz, lo).with_gpr_at(4, sz, hi),
            _ => self.with_gpr_at(0, sz, lo).with_gpr_at(2, sz, hi),
        }
    }
}

fn write_pair(cpu: &mut X86, sz: Bits, lo: u32, hi: u32)
    ensures
        final(cpu)@ == old(cpu)@.with_pair(sz, lo, hi),
        final(cpu)@.mem.dev == old(cpu)@.mem.dev,
{
    write_gpr(cpu, 0, sz, lo);
    match sz {
        Bits::B8 => write_gpr(cpu, 4, sz, hi),
        _ => write_gpr(cpu, 2, sz, hi),
    }
}

/// The product of the low bits of `a` and `b`, signed or unsigned.
pub open spec fn product(a: u32, b: u32, sz: Bits, sgn: bool) -> int {
    if sgn {
        signed(low(a, sz) as int, sz) * signed(low(b, sz) as int, sz)
    } else {
        low(a, sz) * low(b, sz)
    }
}

/// MUL and IMUL by `v`: the double-width product in the accumulator pair; CF and
/// OF tell that its upper half carries information.
pub open spec fn multiplied(s: CpuState, v: u32, sz: Bits, sgn: bool) -> CpuState {
    let p = product(s.gpr_at(0, sz), v, sz, sgn);
    let o = if sgn {
        !fits(p, sz)
    } else {
        p >= values(sz)
    };
    s.with_pair(sz, wrapped(p, sz), wrapped(p / values(sz), sz)).with_flags(
        put(put(s.eflags, CF, o), OF, o),
    )
}

/// Adding a multiple of the square of a width's number of values changes
/// neither half.
proof fn lemma_halves(p: int, sz: Bits)
    ensures
        wrapped(p + 0x1_0000_0000_0000_0000, sz) == wrapped(p, sz),
        wrapped((p + 0x1_0000_0000_0000_0000) / values(sz), sz) == wrapped(p / values(sz), sz),
{
    match sz {
        Bits::B8 => {
            lemma_turns(p, 0x100_0000_0000_0000, 0x100);
            lemma_turns(p / 0x100, 0x1_0000_0000_0000, 0x100);
        },
        Bits::B16 => {
            lemma_turns(p, 0x1_0000_0000_0000, 0x1_0000);
            lemma_turns(p / 0x1_0000, 0x1_0000_0000, 0x1_0000);
        },
        Bits::B32 => {
            lemma_turns(p, 0x1_0000_0000, 0x1_0000_0000);
            lemma_turns(p / 0x1_0000_0000, 1, 0x1_0000_0000);
        },
    }
}

/// Low and high half of a double-width number.
fn halves(p: i128, sz: Bits) -> (r: (u32, u32))
    requires
        -0x1_0000_0000_0000_0000 <= p <= 0x1_0000_0000_0000_0000,
    ensures
        r.0 == wrapped(p as int, sz),
        r.1 == wrapped(p as int / values(sz), sz),
{
    proof {
        lemma_halves(p as int, sz);
    }
    let q: u128 = (p + 0x1_0000_0000_0000_0000) as u128;
    match sz {
        Bits::B8 => ((q % 0x100) as u32, (q / 0x100 % 0x100) as u32),
        Bits::B16 => ((q % 0x1_0000) as u32, (q / 0x1_0000 % 0x1_0000) as u32),
        Bits::B32 => ((q % 0x1_0000_0000) as u32, (q / 0x1_0000_0000 % 0x1_0000_0000) as u32),
    }
}

/// The product of the low bits of two words.
fn multiply(a: u32, b: u32, sz: Bits, sgn: bool) -> (p: i128)
    ensures
        p == product(a, b, sz, sgn),
        -0x1_0000_0000_0000_0000 <= p <= 0x1_0000_0000_0000_0000,
{
    if sgn {
        let x = signed_part(a, sz);
        let y = signed_part(b, sz);
        assert(-0x1_0000_0000_0000_0000 <= x * y <= 0x1_0000_0000_0000_0000) by (nonlinear_arith)
            requires
                -0x8000_0000 <= x <= 0x8000_0000,
                -0x8000_0000 <= y <= 0x8000_0000,
        ;
        x as i128 * y as i128
    } else {
        let x = low_part(a, sz);
        let y = low_part(b, sz);
        assert(0 <= x * y <= 0x1_0000_0000_0000_0000) by (nonlinear_arith)
            requires
                0 <= x <= 0xFFFF_FFFF,
                0 <= y <= 0xFFFF_FFFF,
        ;
        x as i128 * y as i128
    }
}

/// MUL and IMUL by `v`.
fn mul(cpu: &mut X86, v: u32, sz: Bits, sgn: bool)
    ensures
        final(cpu)@ == multiplied(old(cpu)@, v, sz, sgn),
        final(cpu)@.mem.dev == old(cpu)@.mem.dev,
{
    let p = multiply(read_gpr(cpu, 0, sz), v, sz, sgn);
    let (lo, hi) = halves(p, sz);
    let m = mask(sz) as i128;
    let o = if sgn {
        let half: i128 = (m + 1) / 2;
        p < -half || p >= half
    } else {
        p > m
    };
    write_pair(cpu, sz, lo, hi);
    set_cf(cpu, o);
    set_of(cpu, o);
}

/// MUL and IMUL.
#[verifier::opaque]
pub open spec fn do_mul(s: CpuState, i: Insn, sgn: bool) -> Outcome {
    match s.operand(i.o0, AccessKind::Read) {
        Err(e) => failed(s, e),
        Ok(v) => goes_on(multiplied(s, v, width_of(i.o0, i.size()), sgn), s.next(i)),
    }
}

pub(crate) fn exec_mul(cpu: &mut X86, d: &Decoded, sgn: bool) -> (r: Result<StepOut, StepOut>)
    requires
        d@.wf(),
    ensures
        ended(final(cpu)@, r) == do_mul(old(cpu)@, d@, sgn),
        final(cpu)@.mem.dev == old(cpu)@.mem.dev,
{
    proof {
        reveal(do_mul);
    }
    let next = next_eip(cpu, d);
    let v = read_opnd(cpu, &d.ops[0], AccessKind::Read)?;
    self::mul(cpu, v, opnd_width(&d.ops[0], d.size()), sgn);
    go(cpu, next)
}

/// The quotient rounded toward zero.
pub open spec fn quotient(n: int, d: int) -> int {
    if n >= 0 && d > 0 {
        n / d
    } else if n >= 0 {
        -(n / -d)
    } else if d > 0 {
        -(-n / d)
    } else {
        -n / -d
    }
}

/// The remainder that goes with `quotient`; it has the sign of `n`.
pub open spec fn remainder(n: int, d: int) -> int {
    let m = if d > 0 {
        d
    } else {
        -d
    };
    if n >= 0 {
        n % m
    } else {
        -(-n % m)
    }
}

/// The double-width number with the halves `hi` and `lo`.
pub open spec fn joined(hi: u32, lo: u32, sz: Bits) -> int {
    match sz {
        Bits::B8 => hi * 0x100 + lo,
        Bits::B16 => hi * 0x1_0000 + lo,
        Bits::B32 => hi * 0x1_0000_0000 + lo,
    }
}

/// How many values a double-width number has.
pub open spec fn double_values(sz: Bits) -> int {
    match sz {
        Bits::B8 => 0x1_0000,
        Bits::B16 => 0x1_0000_0000,
        Bits::B32 => 0x1_0000_0000_0000_0000,
    }
}

/// The dividend of DIV and IDIV: the double-width accumulator.
pub open spec fn dividend(s: CpuState, sz: Bits, sgn: bool) -> int {
    let n = joined(s.upper(sz), s.gpr_at(0, sz), sz);
    if sgn && n >= double_values(sz) / 2 {
        n - double_values(sz)
    } else {
        n
    }
}

/// Quotient and remainder of DIV and IDIV by `v`; `None` for a divide error.
pub open spec fn divided(s: CpuState, v: u32, sz: Bits, sgn: bool) -> Option<(u32, u32)> {
    let n = dividend(s, sz, sgn);
    let d = if sgn {
        signed(low(v, sz) as int, sz)
    } else {
        low(v, sz) as int
    };
    let q = quotient(n, d);
    if d == 0 {
        None
    } else if (sgn && !fits(q, sz)) || (!sgn && q >= values(sz)) {
        None
    } else {
        Some((wrapped(q, sz), wrapped(remainder(n, d), sz)))
    }
}

/// Every register read at a width is a number of the width.
proof fn lemma_gpr_bound(s: CpuState, r: u8, sz: Bits)
    ensures
        s.gpr_at(r, sz) <= mask_of(sz),
{
}

fn read_dividend(cpu: &X86, sz: Bits, sgn: bool) -> (n: i128)
    ensures
        n == dividend(cpu@, sz, sgn),
        -0x8000_0000_0000_0000 <= n <= 0xFFFF_FFFF_FFFF_FFFF,
{
    proof {
        lemma_gpr_bound(cpu@, 0, sz);
        lemma_gpr_bound(cpu@, 2, sz);
        lemma_gpr_bound(cpu@, 4, Bits::B8);
    }
    let lo = read_gpr(cpu, 0, sz) as i128;
    match sz {
        Bits::B8 => {
            let n: i128 = read_gpr(cpu, 4, Bits::B8) as i128 * 0x100 + lo;
            if sgn && n >= 0x8000 {
                n - 0x1_0000
            } else {
                n
            }
        },
        Bits::B16 => {
            let n: i128 = read_gpr(cpu, 2, sz) as i128 * 0x1_0000 + lo;
            if sgn && n >= 0x8000_0000 {
                n - 0x1_0000_0000
            } else {
                n
            }
        },
        Bits::B32 => {
            let n: i128 = read_gpr(cpu, 2, sz) as i128 * 0x1_0000_0000 + lo;
            if sgn && n >= 0x8000_0000_0000_0000 {
                n - 0x1_0000_0000_0000_0000
            } else {
                n
            }
        },
    }
}

/// Quotients and remainders are no larger than the dividend.
proof fn lemma_division_bounds(n: int, d: int)
    requires
        n >= 0,
        d > 0,
    ensures
        0 <= n / d <= n,
        0 <= n % d <= n,
{
    assert(0 <= n / d <= n && 0 <= n % d <= n) by (nonlinear_arith)
        requires
            n >= 0,
            d > 0,
    ;
}

/// Division that rounds toward zero.
fn divide_toward_zero(n: i128, d: i128) -> (r: (i128, i128))
    requires
        -0x8000_0000_0000_0000 <= n <= 0xFFFF_FFFF_FFFF_FFFF,
        -0x8000_0000 <= d <= 0xFFFF_FFFF,
        d != 0,
    ensures
        r.0 == quotient(n as int, d as int),
        r.1 == remainder(n as int, d as int),
        -0xFFFF_FFFF_FFFF_FFFF <= r.0 <= 0xFFFF_FFFF_FFFF_FFFF,
        -0xFFFF_FFFF_FFFF_FFFF <= r.1 <= 0xFFFF_FFFF_FFFF_FFFF,
{
    let a: u128 = if n < 0 {
        (-n) as u128
    } else {
        n as u128
    };
    let b: u128 = if d < 0 {
        (-d) as u128
    } else {
        d as u128
    };
    proof {
        lemma_division_bounds(a as int, b as int);
    }
    let q: i128 = (a / b) as i128;
    let m: i128 = (a % b) as i128;
    let rem: i128 = if n < 0 {
        -m
    } else {
        m
    };
    if (n < 0) == (d < 0) {
        (q, rem)
    } else {
        (-q, rem)
    }
}

fn divide(cpu: &X86, v: u32, sz: Bits, sgn: bool) -> (r: Option<(u32, u32)>)
    ensures
        r == divided(cpu@, v, sz, sgn),
{
    let n = read_dividend(cpu, sz, sgn);
    let d: i128 = if sgn {
        signed_part(v, sz) as i128
    } else {
        low_part(v, sz) as i128
    };
    if d == 0 {
        return None;
    }
    let (q, rem) = divide_toward_zero(n, d);
    let m = mask(sz) as i128;
    let half: i128 = (m + 1) / 2;
    if (sgn && (q < -half || q >= half)) || (!sgn && q > m) {
        return None;
    }
    Some((halves(q, sz).0, halves(rem, sz).0))
}

/// DIV and IDIV; a divide error is interrupt 0.
#[verifier::opaque]
pub open spec fn do_div(s: CpuState, i: Insn, sgn: bool) -> Outcome {
    match s.operand(i.o0, AccessKind::Read) {
        Err(e) => failed(s, e),
        Ok(v) => {
            let sz = width_of(i.o0, i.size());
            match divided(s, v, sz, sgn) {
                None => {
                    let (t, out) = s.interrupted(0, false, 0);
                    Outcome { s: t, out, early: true }
                },
                Some((q, rem)) => goes_on(s.with_pair(sz, q, rem), s.next(i)),
            }
        },
    }
}

pub(crate) fn exec_div(cpu: &mut X86, d: &Decoded, sgn: bool) -> (r: Result<StepOut, StepOut>)
    requires
        d@.wf(),
    ensures
        ended(final(cpu)@, r) == do_div(old(cpu)@, d@, sgn),
        final(cpu)@.mem.dev == old(cpu)@.mem.dev,
{
    proof {
        reveal(do_div);
    }
    let next = next_eip(cpu, d);
    let v = read_opnd(cpu, &d.ops[0], AccessKind::Read)?;
    let sz = opnd_width(&d.ops[0], d.size());
    match divide(cpu, v, sz, sgn) {
        None => {
            let out = dispatch_interrupt(cpu, 0, false, 0);
            Err(out)
        },
        Some((q, rem)) => {
            write_pair(cpu, sz, q, rem);
            go(cpu, next)
        },
    }
}

/// The register that an operand names, 0 where it names none.
pub open spec fn reg_of(o: Opnd) -> u8 {
    match o {
        Opnd::Reg(r, _) => r,
        _ => 0,
    }
}

/// IMUL with two or three operands multiplies the destination by the immediate,
/// or by the source where there is none; with 16 bits CF and OF tell that the
/// upper half is not the sign extension of the lower.
#[verifier::opaque]
pub open spec fn do_imul(s: CpuState, i: Insn) -> Outcome {
    match s.operand(i.o1, AccessKind::Read) {
        Err(e) => failed(s, e),
        Ok(src) => {
            let sz = match i.o0 {
                Opnd::Reg(_, b) => b,
                Opnd::Mem(_, b) => b,
                _ => i.size(),
            };
            let a = s.gpr_at(reg_of(i.o0), sz);
            let b = match i.o2 {
                Opnd::Imm(v) => v,
                Opnd::ImmSext(v) => v,
                _ => src,
            };
            let p = wrap32(a * b);
            let o = sz is B16 && p as int != wrap32(signed16((p % 0x1_0000) as u16)) as int;
            let t = s.assign(i.o0, low(p, sz), AccessKind::Write).0;
            goes_on(t.with_flags(put(put(t.eflags, CF, o), OF, o)), s.next(i))
        },
    }
}

pub(crate) fn exec_imul(cpu: &mut X86, d: &Decoded) -> (r: Result<StepOut, StepOut>)
    requires
        d@.wf(),
    ensures
        ended(final(cpu)@, r) == do_imul(old(cpu)@, d@),
        final(cpu)@.mem.dev == old(cpu)@.mem.dev,
{
    proof {
        reveal(do_imul);
    }
    let next = next_eip(cpu, d);
    let src = read_opnd(cpu, &d.ops[1], AccessKind::Read)?;
    let sz = match d.ops[0] {
        Opnd::Reg(_, b) => b,
        Opnd::Mem(_, b) => b,
        _ => d.size(),
    };
    let reg = match d.ops[0] {
        Opnd::Reg(r, _) => r,
        _ => 0,
    };
    let a = read_gpr(cpu, reg, sz);
    let b = match d.ops[2] {
        Opnd::Imm(v) => v,
        Opnd::ImmSext(v) => v,
        _ => src,
    };
    let p = a.wrapping_mul(b);
    let o = matches!(sz, Bits::B16) && p != extend16((p % 0x1_0000) as u16);
    let _ = write_opnd(cpu, &d.ops[0], low_part(p, sz));
    set_cf(cpu, o);
    set_of(cpu, o);
    go(cpu, next)
}

// ---------------------------------------------------------------------------
// Shifts
// ---------------------------------------------------------------------------

/// The count of a shift instruction.
pub open spec fn count_of(s: CpuState, by: ShiftBy) -> u32 {
    match by {
        ShiftBy::One => 1,
        ShiftBy::Cl => s.reg8(1) as u32,
        ShiftBy::Imm(c) => c as u32,
    }
}

fn read_count(cpu: &X86, by: ShiftBy) -> (n: u32)
    ensures
        n == count_of(cpu@, by),
{
    match by {
        ShiftBy::One => 1,
        ShiftBy::Cl => cpu.reg8(1) as u32,
        ShiftBy::Imm(c) => c as u32,
    }
}

/// Shifts and rotates.
#[verifier::opaque]
pub open spec fn do_shift(s: CpuState, i: Insn, kind: ShiftKind, by: ShiftBy) -> Outcome {
    match s.operand(i.o0, AccessKind::Rmw) {
        Err(e) => failed(s, e),
        Ok(v) => {
            let (r, f) = shift_result(
                s.eflags,
                kind,
                v,
                count_of(s, by),
                width_of(i.o0, i.size()),
            );
            s.with_flags(f).assign_and_go(i.o0, r, s.next(i))
        },
    }
}

pub(crate) fn exec_shift(cpu: &mut X86, d: &Decoded, kind: ShiftKind, by: ShiftBy) -> (r: Result<
    StepOut,
    StepOut,
>)
    requires
        d@.wf(),
    ensures
        ended(final(cpu)@, r) == do_shift(old(cpu)@, d@, kind, by),
        final(cpu)@.mem.dev == old(cpu)@.mem.dev,
{
    proof {
        reveal(do_shift);
    }
    let next = next_eip(cpu, d);
    let v = read_opnd(cpu, &d.ops[0], AccessKind::Rmw)?;
    let bits = opnd_width(&d.ops[0], d.size());
    let count = read_count(cpu, by);
    let r = shift(cpu, kind, v, count, bits);
    write_and_go(cpu, &d.ops[0], r, next)
}

/// Result and carry of SHLD (`left`) and SHRD.
#[verifier::opaque]
pub open spec fn dshift_result(v: u32, src: u32, count: u32, left: bool, sz: Bits) -> (u32, bool) {
    let n = bit_count(sz);
    let cnt = shift_count(count, sz);
    let rest = (n - cnt) as u32;
    if cnt == 0 {
        (v, false)
    } else if left {
        ((shifted_left(v, cnt) | (src >> rest)) & mask_of(sz), (v >> rest) & 1 != 0)
    } else {
        (
            (shifted_right(v, cnt) | (src << rest)) & mask_of(sz),
            (v >> ((cnt - 1) as u32)) & 1 != 0,
        )
    }
}

fn double_shift(v: u32, src: u32, count: u32, left: bool, sz: Bits) -> (r: (u32, bool))
    ensures
        r == dshift_result(v, src, count, left, sz),
{
    proof {
        reveal(dshift_result);
    }
    let n: u32 = 8 * sz.bytes();
    let cnt: u32 = if count < n {
        count
    } else {
        n
    };
    let rest: u32 = n - cnt;
    if cnt == 0 {
        (v, false)
    } else if left {
        let up = if cnt >= 32 {
            v
        } else {
            v << cnt
        };
        ((up | (src >> rest)) & mask(sz), (v >> rest) & 1 != 0)
    } else {
        let down = if cnt >= 32 {
            v
        } else {
            v >> cnt
        };
        ((down | (src << rest)) & mask(sz), (v >> (cnt - 1)) & 1 != 0)
    }
}

/// SHLD (`left`) and SHRD; OF tells, for a count of 1, that the sign bit and the
/// carry differ.
#[verifier::opaque]
pub open spec fn do_dshift(s: CpuState, i: Insn, left: bool, by: ShiftBy) -> Outcome {
    match (s.operand(i.o0, AccessKind::Rmw), s.operand(i.o1, AccessKind::Read)) {
        (Err(e), _) => failed(s, e),
        (Ok(v), Err(e)) => failed(s, e),
        (Ok(v), Ok(src)) => {
            let sz = width_of(i.o0, i.size());
            let count = count_of(s, by);
            let (r, c) = dshift_result(v, src, count, left, sz);
            let o = count == 1 && ((v >> ((bit_count(sz) - 1) as u32)) & 1 != 0) != c;
            s.with_flags(put(put(s.eflags, CF, c), OF, o)).assign_and_go(i.o0, r, s.next(i))
        },
    }
}

pub(crate) fn exec_dshift(cpu: &mut X86, d: &Decoded, left: bool, by: ShiftBy) -> (r: Result<
    StepOut,
    StepOut,
>)
    requires
        d@.wf(),
    ensures
        ended(final(cpu)@, r) == do_dshift(old(cpu)@, d@, left, by),
        final(cpu)@.mem.dev == old(cpu)@.mem.dev,
{
    proof {
        reveal(do_dshift);
    }
    let next = next_eip(cpu, d);
    let v = read_opnd(cpu, &d.ops[0], AccessKind::Rmw)?;
    let src = read_opnd(cpu, &d.ops[1], AccessKind::Read)?;
    let sz = opnd_width(&d.ops[0], d.size());
    let n: u32 = 8 * sz.bytes();
    let count = read_count(cpu, by);
    let (r, c) = double_shift(v, src, count, left, sz);
    set_cf(cpu, c);
    set_of(cpu, count == 1 && ((v >> (n - 1)) & 1 != 0) != c);
    write_and_go(cpu, &d.ops[0], r, next)
}

// ---------------------------------------------------------------------------
// Bits
// ---------------------------------------------------------------------------

/// The position of the lowest bit of `v` that is set.
pub open spec fn lowest_bit(v: u32) -> nat
    decreases v,
{
    if v == 0 || v % 2 == 1 {
        0
    } else {
        1 + lowest_bit((v / 2) as u32)
    }
}

/// The position of the highest bit of `v` that is set.
pub open spec fn highest_bit(v: u32) -> nat
    decreases v,
{
    if v <= 1 {
        0
    } else {
        1 + highest_bit((v / 2) as u32)
    }
}

fn find_lowest(v: u32) -> (n: u32)
    requires
        v != 0,
    ensures
        n == lowest_bit(v),
{
    let mut rest: u32 = v;
    let mut n: u32 = 0;
    while rest % 2 == 0
        invariant
            rest != 0,
            n + lowest_bit(rest) == lowest_bit(v),
            n <= v - rest,
        decreases rest,
    {
        rest = rest / 2;
        n = n + 1;
    }
    n
}

fn find_highest(v: u32) -> (n: u32)
    ensures
        n == highest_bit(v),
{
    let mut rest: u32 = v;
    let mut n: u32 = 0;
    while rest > 1
        invariant
            n + highest_bit(rest) == highest_bit(v),
            n <= v - rest,
        decreases rest,
    {
        rest = rest / 2;
        n = n + 1;
    }
    n
}

/// The flags of BSF and BSR, which look at `v`.
pub open spec fn scan_flags(flags: u32, v: u32, sz: Bits) -> u32 {
    arith_flags(flags, low(v, sz), mask_of(sz), false, false, false)
}

/// The bit that a bit test looks at: within the operand's width for a register,
/// within 32 bits for memory.
pub open spec fn bit_position(o: Opnd, pos: u32, sz: Bits) -> u32 {
    if o is Mem {
        (pos % 32) as u32
    } else {
        (pos % bit_count(sz)) as u32
    }
}

/// The operand after a bit test.
pub open spec fn bit_changed(op: BitOp, v: u32, pos: u32) -> u32 {
    match op {
        BitOp::Bts => v | (1u32 << pos),
        BitOp::Btr => v & !(1u32 << pos),
        _ => v ^ (1u32 << pos),
    }
}

/// Bit tests (operand 0 is tested) and bit scans (operand 1 is scanned).
#[verifier::opaque]
pub open spec fn do_bit(s: CpuState, i: Insn, op: BitOp) -> Outcome {
    match (s.operand(i.o0, AccessKind::Rmw), s.operand(i.o1, AccessKind::Read)) {
        (Err(e), _) => failed(s, e),
        (Ok(v), Err(e)) => failed(s, e),
        (Ok(v), Ok(p)) => {
            let sz = width_of(i.o0, i.size());
            let pos = bit_position(i.o0, p, sz);
            let tested = s.with_flags(put(s.eflags, CF, (v >> pos) & 1 != 0));
            let src = low(p, sz);
            match op {
                BitOp::Bt => goes_on(tested, s.next(i)),
                BitOp::Bsf | BitOp::Bsr => if src == 0 {
                    goes_on(s.with_flags(scan_flags(s.eflags, 0, sz)), s.next(i))
                } else {
                    let n = if op is Bsf {
                        lowest_bit(src)
                    } else {
                        highest_bit(src)
                    };
                    let t = s.assign(i.o0, n as u32, AccessKind::Write).0;
                    goes_on(t.with_flags(scan_flags(t.eflags, p, sz)), s.next(i))
                },
                _ => tested.assign_and_go(i.o0, low(bit_changed(op, v, pos), sz), s.next(i)),
            }
        },
    }
}

fn set_scan_flags(cpu: &mut X86, v: u32, sz: Bits)
    ensures
        final(cpu)@ == old(cpu)@.with_flags(scan_flags(old(cpu)@.eflags, v, sz)),
        final(cpu)@.mem.dev == old(cpu)@.mem.dev,
{
    set_flags_zsp(cpu, low_part(v, sz), mask(sz));
    set_cf(cpu, false);
    set_of(cpu, false);
    set_af(cpu, false);
}

fn change_bit(op: BitOp, v: u32, pos: u32) -> (r: u32)
    requires
        pos < 32,
    ensures
        r == bit_changed(op, v, pos),
{
    let bit: u32 = 1u32 << pos;
    match op {
        BitOp::Bts => v | bit,
        BitOp::Btr => v & !bit,
        _ => v ^ bit,
    }
}

pub(crate) fn exec_bit(cpu: &mut X86, d: &Decoded, op: BitOp) -> (r: Result<StepOut, StepOut>)
    requires
        d@.wf(),
    ensures
        ended(final(cpu)@, r) == do_bit(old(cpu)@, d@, op),
        final(cpu)@.mem.dev == old(cpu)@.mem.dev,
{
    proof {
        reveal(do_bit);
    }
    let next = next_eip(cpu, d);
    let v = read_opnd(cpu, &d.ops[0], AccessKind::Rmw)?;
    let p = read_opnd(cpu, &d.ops[1], AccessKind::Read)?;
    let sz = opnd_width(&d.ops[0], d.size());
    let pos: u32 = match d.ops[0] {
        Opnd::Mem(_, _) => p % 32,
        _ => match sz {
            Bits::B8 => p % 8,
            Bits::B16 => p % 16,
            Bits::B32 => p % 32,
        },
    };
    match op {
        BitOp::Bt => {
            set_cf(cpu, (v >> pos) & 1 != 0);
            go(cpu, next)
        },
        BitOp::Bsf | BitOp::Bsr => {
            let src = low_part(p, sz);
            if src == 0 {
                set_scan_flags(cpu, 0, sz);
            } else {
                let n = if matches!(op, BitOp::Bsf) {
                    find_lowest(src)
                } else {
                    find_highest(src)
                };
                let _ = write_opnd(cpu, &d.ops[0], n);
                set_scan_flags(cpu, p, sz);
            }
            go(cpu, next)
        },
        _ => {
            set_cf(cpu, (v >> pos) & 1 != 0);
            write_and_go(cpu, &d.ops[0], low_part(change_bit(op, v, pos), sz), next)
        },
    }
}

// ---------------------------------------------------------------------------
// Moves
// ---------------------------------------------------------------------------

/// MOV.
#[verifier::opaque]
pub open spec fn do_mov(s: CpuState, i: Insn) -> Outcome {
    match s.operand(i.o1, AccessKind::Read) {
        Err(e) => failed(s, e),
        Ok(v) => s.assign_and_go(i.o0, v, s.next(i)),
    }
}

pub(crate) fn exec_mov(cpu: &mut X86, d: &Decoded) -> (r: Result<StepOut, StepOut>)
    requires
        d@.wf(),
    ensures
        ended(final(cpu)@, r) == do_mov(old(cpu)@, d@),
        final(cpu)@.mem.dev == old(cpu)@.mem.dev,
{
    proof {
        reveal(do_mov);
    }
    let next = next_eip(cpu, d);
    let v = read_opnd(cpu, &d.ops[1], AccessKind::Read)?;
    write_and_go(cpu, &d.ops[0], v, next)
}

/// Whether an operand is a 16-bit register or memory word.
pub open spec fn is_word(o: Opnd) -> bool {
    match o {
        Opnd::Reg(_, b) => b is B16,
        Opnd::Mem(_, b) => b is B16,
        _ => false,
    }
}

/// The value that MOVZX and MOVSX (`sgn`) widen `src` to.
pub open spec fn widened(src: u32, o: Opnd, from8: bool, sgn: bool) -> u32 {
    if from8 {
        if sgn {
            wrap32(signed8((src % 0x100) as u8))
        } else {
            (src % 0x100) as u32
        }
    } else if sgn && is_word(o) {
        wrap32(signed16((src % 0x1_0000) as u16))
    } else {
        src
    }
}

/// MOVZX and MOVSX.
#[verifier::opaque]
pub open spec fn do_movx(s: CpuState, i: Insn, from8: bool, sgn: bool) -> Outcome {
    match s.operand(i.o1, AccessKind::Read) {
        Err(e) => failed(s, e),
        Ok(v) => goes_on(
            s.assign(i.o0, widened(v, i.o1, from8, sgn), AccessKind::Write).0,
            s.next(i),
        ),
    }
}

pub(crate) fn exec_movx(cpu: &mut X86, d: &Decoded, from8: bool, sgn: bool) -> (r: Result<
    StepOut,
    StepOut,
>)
    requires
        d@.wf(),
    ensures
        ended(final(cpu)@, r) == do_movx(old(cpu)@, d@, from8, sgn),
        final(cpu)@.mem.dev == old(cpu)@.mem.dev,
{
    proof {
        reveal(do_movx);
    }
    let next = next_eip(cpu, d);
    let src = read_opnd(cpu, &d.ops[1], AccessKind::Read)?;
    let is_word = match d.ops[1] {
        Opnd::Reg(_, b) => matches!(b, Bits::B16),
        Opnd::Mem(_, b) => matches!(b, Bits::B16),
        _ => false,
    };
    let v = if from8 {
        if sgn {
            extend8((src % 0x100) as u8)
        } else {
            src % 0x100
        }
    } else if sgn && is_word {
        extend16((src % 0x1_0000) as u16)
    } else {
        src
    };
    let _ = write_opnd(cpu, &d.ops[0], v);
    go(cpu, next)
}

} // verus!
