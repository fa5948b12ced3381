//! Flags and arithmetic.

use vstd::prelude::*;

use crate::cpu::X86;
use crate::decode::{AluOp, Bits, Cond, ShiftKind};
use crate::flag::{AF, CF, OF, PF, SF, ZF, on, put};

verus! {

// ---------------------------------------------------------------------------
// Numbers of a width
// ---------------------------------------------------------------------------

/// The mask of a width's bits.
pub open spec fn mask_of(sz: Bits) -> u32 {
    match sz {
        Bits::B8 => 0xFF,
        Bits::B16 => 0xFFFF,
        Bits::B32 => 0xFFFF_FFFF,
    }
}

/// How many values a width has.
pub open spec fn values(sz: Bits) -> int {
    mask_of(sz) + 1
}

/// The number of bits of a width.
pub open spec fn bit_count(sz: Bits) -> u32 {
    match sz {
        Bits::B8 => 8,
        Bits::B16 => 16,
        Bits::B32 => 32,
    }
}

/// The low bits of `v`.
pub open spec fn low(v: u32, sz: Bits) -> u32 {
    match sz {
        Bits::B8 => (v % 0x100) as u32,
        Bits::B16 => (v % 0x1_0000) as u32,
        Bits::B32 => v,
    }
}

/// `v`, a number of the width, read as signed.
pub open spec fn signed(v: int, sz: Bits) -> int {
    if v < values(sz) / 2 {
        v
    } else {
        v - values(sz)
    }
}

/// Whether a signed number of the width can have the value `n`.
pub open spec fn fits(n: int, sz: Bits) -> bool {
    -(values(sz) / 2) <= n < values(sz) / 2
}

/// The number of the width that is `n` modulo its number of values.
pub open spec fn wrapped(n: int, sz: Bits) -> u32 {
    match sz {
        Bits::B8 => (n % 0x100) as u32,
        Bits::B16 => (n % 0x1_0000) as u32,
        Bits::B32 => (n % 0x1_0000_0000) as u32,
    }
}

/// How many bits of `v` are set.
pub open spec fn ones(v: u8) -> nat
    decreases v,
{
    if v == 0 {
        0
    } else {
        (v % 2) as nat + ones((v / 2) as u8)
    }
}

/// The mask of a width's bits.
pub fn mask(sz: Bits) -> (m: u32)
    ensures
        m == mask_of(sz),
{
    match sz {
        Bits::B8 => 0xFF,
        Bits::B16 => 0xFFFF,
        Bits::B32 => 0xFFFF_FFFF,
    }
}

/// The low bits of `v`.
pub fn low_part(v: u32, sz: Bits) -> (r: u32)
    ensures
        r == low(v, sz),
        r <= mask_of(sz),
{
    match sz {
        Bits::B8 => v % 0x100,
        Bits::B16 => v % 0x1_0000,
        Bits::B32 => v,
    }
}

/// The low bits of `v`, read as signed.
pub fn signed_part(v: u32, sz: Bits) -> (n: i64)
    ensures
        n == signed(low(v, sz) as int, sz),
        fits(n as int, sz),
{
    match sz {
        Bits::B8 => {
            let x: u32 = v % 0x100;
            if x < 0x80 {
                x as i64
            } else {
                x as i64 - 0x100
            }
        },
        Bits::B16 => {
            let x: u32 = v % 0x1_0000;
            if x < 0x8000 {
                x as i64
            } else {
                x as i64 - 0x1_0000
            }
        },
        Bits::B32 => if v < 0x8000_0000 {
            v as i64
        } else {
            v as i64 - 0x1_0000_0000
        },
    }
}

/// Whether `n` is out of the signed range of the width.
fn overflows(n: i64, sz: Bits) -> (b: bool)
    ensures
        b == !fits(n as int, sz),
{
    match sz {
        Bits::B8 => n < -0x80 || n >= 0x80,
        Bits::B16 => n < -0x8000 || n >= 0x8000,
        Bits::B32 => n < -0x8000_0000 || n >= 0x8000_0000,
    }
}

/// Whether an even number of bits of `v` is set.
fn even_parity(v: u8) -> (b: bool)
    ensures
        b == (ones(v) % 2 == 0),
{
    let mut rest: u8 = v;
    let mut even: bool = true;
    while rest != 0
        invariant
            even == ((ones(v) - ones(rest)) % 2 == 0),
            ones(rest) <= ones(v),
        decreases rest,
    {
        if rest % 2 != 0 {
            even = !even;
        }
        rest = rest / 2;
    }
    even
}

// ---------------------------------------------------------------------------
// Flags
// ---------------------------------------------------------------------------

/// ZF, SF and PF by the result `val` under `mask`: SF is the mask's top bit, PF
/// tells an even number of ones in the low byte.
pub open spec fn zsp(flags: u32, val: u32, mask: u32) -> u32 {
    put(
        put(put(flags, ZF, val & mask == 0), SF, val & (mask & !(mask >> 1)) != 0),
        PF,
        ones(val as u8) % 2 == 0,
    )
}

/// CF, OF and AF on top of `zsp`.
pub open spec fn arith_flags(flags: u32, val: u32, mask: u32, c: bool, o: bool, a: bool) -> u32 {
    put(put(put(zsp(flags, val, mask), CF, c), OF, o), AF, a)
}

/// Whether the condition holds under `flags`.
pub open spec fn cond_holds(flags: u32, c: Cond) -> bool {
    let cf = on(flags, CF);
    let pf = on(flags, PF);
    let zf = on(flags, ZF);
    let sf = on(flags, SF);
    let of = on(flags, OF);
    match c {
        Cond::O => of,
        Cond::No => !of,
        Cond::B => cf,
        Cond::Ae => !cf,
        Cond::E => zf,
        Cond::Ne => !zf,
        Cond::Be => cf || zf,
        Cond::A => !cf && !zf,
        Cond::S => sf,
        Cond::Ns => !sf,
        Cond::P => pf,
        Cond::Np => !pf,
        Cond::L => sf != of,
        Cond::Ge => sf == of,
        Cond::Le => zf || sf != of,
        Cond::G => !zf && sf == of,
    }
}

fn put_flag(cpu: &mut X86, bit: u32, v: bool)
    ensures
        final(cpu)@ == old(cpu)@.with_flags(put(old(cpu)@.eflags, bit, v)),
{
    if v {
        cpu.eflags = cpu.eflags | bit;
    } else {
        cpu.eflags = cpu.eflags & !bit;
    }
}

pub fn set_flags_zsp(cpu: &mut X86, val: u32, mask: u32)
    ensures
        final(cpu)@ == old(cpu)@.with_flags(zsp(old(cpu)@.eflags, val, mask)),
{
    put_flag(cpu, ZF, val & mask == 0);
    put_flag(cpu, SF, val & (mask & !(mask >> 1)) != 0);
    put_flag(cpu, PF, even_parity(val as u8));
}

pub fn set_cf(cpu: &mut X86, c: bool)
    ensures
        final(cpu)@ == old(cpu)@.with_flags(put(old(cpu)@.eflags, CF, c)),
{
    put_flag(cpu, CF, c);
}

pub fn set_of(cpu: &mut X86, o: bool)
    ensures
        final(cpu)@ == old(cpu)@.with_flags(put(old(cpu)@.eflags, OF, o)),
{
    put_flag(cpu, OF, o);
}

pub fn set_af(cpu: &mut X86, a: bool)
    ensures
        final(cpu)@ == old(cpu)@.with_flags(put(old(cpu)@.eflags, AF, a)),
{
    put_flag(cpu, AF, a);
}

fn set_arith_flags(cpu: &mut X86, val: u32, mask: u32, c: bool, o: bool, a: bool)
    ensures
        final(cpu)@ == old(cpu)@.with_flags(arith_flags(old(cpu)@.eflags, val, mask, c, o, a)),
{
    set_flags_zsp(cpu, val, mask);
    set_cf(cpu, c);
    set_of(cpu, o);
    set_af(cpu, a);
}

pub fn cond_true(cpu: &X86, c: Cond) -> (b: bool)
    ensures
        b == cond_holds(cpu@.eflags, c),
{
    let f = cpu.eflags;
    let cf = f & CF != 0;
    let pf = f & PF != 0;
    let zf = f & ZF != 0;
    let sf = f & SF != 0;
    let of = f & OF != 0;
    match c {
        Cond::O => of,
        Cond::No => !of,
        Cond::B => cf,
        Cond::Ae => !cf,
        Cond::E => zf,
        Cond::Ne => !zf,
        Cond::Be => cf || zf,
        Cond::A => !cf && !zf,
        Cond::S => sf,
        Cond::Ns => !sf,
        Cond::P => pf,
        Cond::Np => !pf,
        Cond::L => sf != of,
        Cond::Ge => sf == of,
        Cond::Le => zf || (sf != of),
        Cond::G => !zf && (sf == of),
    }
}

// ---------------------------------------------------------------------------
// Arithmetic
// ---------------------------------------------------------------------------

/// The carry that ADC and SBB take in.
pub open spec fn carry_in(flags: u32, op: AluOp) -> int {
    if (op is Adc || op is Sbb) && on(flags, CF) {
        1
    } else {
        0
    }
}

/// What SUB, SBB and CMP take off: SBB adds its carry to the operand first, within
/// 32 bits.
pub open spec fn subtrahend(flags: u32, op: AluOp, b: u32) -> u32 {
    if op is Sbb && on(flags, CF) {
        b.wrapping_add(1)
    } else {
        b
    }
}

/// Result and flags of an ALU operation. Result and OF, which is signed overflow
/// of the width, are those of the low bits of `a` and `b`. CF looks at the whole of
/// `a` and `b`: it tells a sum beyond the largest number of the width, or a
/// subtrahend above `a`, so that a sign-extended immediate counts as the 32-bit
/// number that it is. AF is the carry or borrow out of bit 3.
#[verifier::opaque]
pub open spec fn alu_result(flags: u32, op: AluOp, a: u32, b: u32, sz: Bits) -> (u32, u32) {
    let x = low(a, sz) as int;
    let y = low(b, sz) as int;
    let c = carry_in(flags, op);
    let m = mask_of(sz);
    match op {
        AluOp::Add | AluOp::Adc => {
            let r = wrapped(x + y + c, sz);
            (
                r,
                arith_flags(
                    flags,
                    r,
                    m,
                    a + b + c > m,
                    !fits(signed(x, sz) + signed(y, sz) + c, sz),
                    x % 16 + y % 16 + c > 15,
                ),
            )
        },
        AluOp::Sub | AluOp::Sbb | AluOp::Cmp => {
            let r = wrapped(x - y - c, sz);
            let b1 = subtrahend(flags, op, b);
            (
                r,
                arith_flags(
                    flags,
                    r,
                    m,
                    a < b1,
                    !fits(signed(x, sz) - signed(y, sz) - c, sz),
                    a % 16 < b1 % 16,
                ),
            )
        },
        AluOp::Or => (low(a | b, sz), arith_flags(flags, low(a | b, sz), m, false, false, false)),
        AluOp::And => (low(a & b, sz), arith_flags(flags, low(a & b, sz), m, false, false, false)),
        AluOp::Xor => (low(a ^ b, sz), arith_flags(flags, low(a ^ b, sz), m, false, false, false)),
    }
}

/// The number of the width that is `n` modulo its number of values, for sums
/// and differences of two such numbers.
fn wrap_sum(n: i64, sz: Bits) -> (r: u32)
    requires
        -0x2_0000_0000 < n < 0x4_0000_0000,
    ensures
        r == wrapped(n as int, sz),
        r <= mask_of(sz),
{
    // Two turns of the largest width make the number positive.
    let p: u64 = (n + 0x2_0000_0000) as u64;
    match sz {
        Bits::B8 => (p % 0x100) as u32,
        Bits::B16 => (p % 0x1_0000) as u32,
        Bits::B32 => (p % 0x1_0000_0000) as u32,
    }
}

pub fn alu(cpu: &mut X86, op: AluOp, a: u32, b: u32, sz: Bits) -> (r: u32)
    ensures
        r == alu_result(old(cpu)@.eflags, op, a, b, sz).0,
        final(cpu)@ == old(cpu)@.with_flags(alu_result(old(cpu)@.eflags, op, a, b, sz).1),
{
    proof {
        reveal(alu_result);
    }
    let m = mask(sz);
    let x = low_part(a, sz) as i64;
    let y = low_part(b, sz) as i64;
    let c: i64 = if matches!(op, AluOp::Adc | AluOp::Sbb) && cpu.eflags & CF != 0 {
        1
    } else {
        0
    };
    match op {
        AluOp::Add | AluOp::Adc => {
            let r = wrap_sum(x + y + c, sz);
            let o = overflows(signed_part(a, sz) + signed_part(b, sz) + c, sz);
            let carry = a as i64 + b as i64 + c > m as i64;
            set_arith_flags(cpu, r, m, carry, o, x % 16 + y % 16 + c > 15);
            r
        },
        AluOp::Sub | AluOp::Sbb | AluOp::Cmp => {
            let r = wrap_sum(x - y - c, sz);
            let o = overflows(signed_part(a, sz) - signed_part(b, sz) - c, sz);
            let b1: u32 = if matches!(op, AluOp::Sbb) && cpu.eflags & CF != 0 {
                b.wrapping_add(1)
            } else {
                b
            };
            set_arith_flags(cpu, r, m, a < b1, o, a % 16 < b1 % 16);
            r
        },
        AluOp::Or => {
            let r = low_part(a | b, sz);
            set_arith_flags(cpu, r, m, false, false, false);
            r
        },
        AluOp::And => {
            let r = low_part(a & b, sz);
            set_arith_flags(cpu, r, m, false, false, false);
            r
        },
        AluOp::Xor => {
            let r = low_part(a ^ b, sz);
            set_arith_flags(cpu, r, m, false, false, false);
            r
        },
    }
}

/// Result and flags of INC and DEC; CF stays.
#[verifier::opaque]
pub open spec fn inc_dec_result(flags: u32, v: u32, sz: Bits, inc: bool) -> (u32, u32) {
    let x = low(v, sz) as int;
    let d: int = if inc {
        1
    } else {
        -1
    };
    let r = wrapped(x + d, sz);
    (
        r,
        put(
            put(zsp(flags, r, mask_of(sz)), OF, !fits(signed(x, sz) + d, sz)),
            AF,
            x % 16 == (if inc {
                15int
            } else {
                0
            }),
        ),
    )
}

pub fn inc_dec(cpu: &mut X86, v: u32, sz: Bits, inc: bool) -> (r: u32)
    ensures
        r == inc_dec_result(old(cpu)@.eflags, v, sz, inc).0,
        final(cpu)@ == old(cpu)@.with_flags(inc_dec_result(old(cpu)@.eflags, v, sz, inc).1),
{
    proof {
        reveal(inc_dec_result);
    }
    let x = low_part(v, sz) as i64;
    let d: i64 = if inc {
        1
    } else {
        -1
    };
    let r = wrap_sum(x + d, sz);
    set_flags_zsp(cpu, r, mask(sz));
    set_of(cpu, overflows(signed_part(v, sz) + d, sz));
    let nibble: i64 = if inc {
        15
    } else {
        0
    };
    set_af(cpu, x % 16 == nibble);
    r
}

/// Compute flags for TEST (a & b). TEST only sets flags.
pub fn test_flags(cpu: &mut X86, a: u32, b: u32, sz: Bits) -> (r: u32)
    ensures
        r == low(a & b, sz),
        final(cpu)@ == old(cpu)@.with_flags(alu_result(old(cpu)@.eflags, AluOp::And, a, b, sz).1),
{
    proof {
        reveal(alu_result);
    }
    alu(cpu, AluOp::And, a, b, sz)
}

/// NEG: flags from 0 - v, result = -v.
pub fn neg_op(cpu: &mut X86, v: u32, sz: Bits) -> (r: u32)
    ensures
        r == wrapped(-(low(v, sz) as int), sz),
        final(cpu)@ == old(cpu)@.with_flags(alu_result(old(cpu)@.eflags, AluOp::Sub, 0, v, sz).1),
{
    proof {
        reveal(alu_result);
    }
    alu(cpu, AluOp::Sub, 0, v, sz)
}

// ---------------------------------------------------------------------------
// Shifts
// ---------------------------------------------------------------------------

/// `v` rotated left by `n` bits.
pub open spec fn rotated_left(v: u32, n: u32) -> u32 {
    if n % 32 == 0 {
        v
    } else {
        (v << (n % 32)) | (v >> ((32 - n % 32) as u32))
    }
}

/// `v` shifted left by `n` bits; a count of 32 leaves `v`.
pub open spec fn shifted_left(v: u32, n: u32) -> u32 {
    if n >= 32 {
        v
    } else {
        v << n
    }
}

/// `v` shifted right by `n` bits; a count of 32 leaves `v`.
pub open spec fn shifted_right(v: u32, n: u32) -> u32 {
    if n >= 32 {
        v
    } else {
        v >> n
    }
}

/// The count of a shift, which ends at the width.
pub open spec fn shift_count(count: u32, sz: Bits) -> u32 {
    if count < bit_count(sz) {
        count
    } else {
        bit_count(sz)
    }
}

/// The result and the carry of RCL by a count of 1 up to the width: the carry
/// and the value below it, rotated left as one number.
pub open spec fn rcl_result(flags: u32, v: u32, cnt: u32, sz: Bits) -> (u32, bool) {
    let n = bit_count(sz) as u64;
    let m = mask_of(sz);
    let x = (if on(flags, CF) {
        1u64 << n
    } else {
        0u64
    }) | (v & m) as u64;
    let y = (x << (cnt as u64)) | (x >> ((n + 1 - cnt) as u64));
    ((y & m as u64) as u32, (y >> n) & 1 != 0)
}

/// The result and the last bit out of RCR by a count of 1 up to the width: the
/// value at the top of 64 bits with the carry in the highest, moved down.
pub open spec fn rcr_result(flags: u32, v: u32, cnt: u32, sz: Bits) -> (u32, bool) {
    let n = bit_count(sz);
    let w = (if on(flags, CF) {
        0x8000_0000_0000_0000u64
    } else {
        0u64
    }) | ((v as u64) << ((64 - n) as u64));
    (
        ((w >> ((cnt - 1) as u64)) & mask_of(sz) as u64) as u32,
        (w >> ((64 - cnt) as u64)) & 1 != 0,
    )
}

/// The flags of RCL and RCR: OF changes only with a count of 1.
pub open spec fn rotate_carry_flags(
    flags: u32,
    v: u32,
    r: u32,
    out: bool,
    cnt: u32,
    m: u32,
) -> u32 {
    let f = put(flags, CF, out);
    if cnt == 1 {
        put(f, OF, (r ^ (v & m)) & (m >> 1) != 0)
    } else {
        f
    }
}

/// Result and flags of a shift or rotate. A count of 0 changes no flag, a count
/// beyond the width counts as the width.
#[verifier::opaque]
pub open spec fn shift_result(flags: u32, kind: ShiftKind, v: u32, count: u32, sz: Bits) -> (
    u32,
    u32,
) {
    let n = bit_count(sz);
    let m = mask_of(sz);
    let cnt = shift_count(count, sz);
    let h = m >> 1;
    if cnt == 0 {
        (v & m, flags)
    } else {
        match kind {
            ShiftKind::Rol => {
                let r = rotated_left(v, cnt) & m;
                (r, put(put(flags, CF, r & 1 != 0), OF, (r & 1) != ((r >> ((n - 1) as u32)) & 1)))
            },
            ShiftKind::Ror => {
                let r = rotated_left(v, (32 - cnt) as u32) & m;
                (
                    r,
                    put(
                        put(flags, CF, r & h != 0),
                        OF,
                        (r & h != 0) != ((r >> ((n - 1) as u32)) & 1 != 0),
                    ),
                )
            },
            ShiftKind::Rcl => {
                let (r, out) = rcl_result(flags, v, cnt, sz);
                (r, rotate_carry_flags(flags, v, r, out, cnt, m))
            },
            ShiftKind::Rcr => {
                let (r, out) = rcr_result(flags, v, cnt, sz);
                (r, rotate_carry_flags(flags, v, r, out, cnt, m))
            },
            ShiftKind::Shl => {
                let r = shifted_left(v, cnt) & m;
                (
                    r,
                    put(
                        put(zsp(flags, r, m), CF, (v >> ((n - cnt) as u32)) & 1 != 0),
                        OF,
                        (r & h != 0) != (v & h != 0),
                    ),
                )
            },
            ShiftKind::Shr => {
                let r = shifted_right(v, cnt);
                (
                    r,
                    put(
                        put(zsp(flags, r, m), CF, (v >> ((cnt - 1) as u32)) & 1 != 0),
                        OF,
                        v & h != 0,
                    ),
                )
            },
            ShiftKind::Sar => {
                let r = ((v as u64) >> (cnt as u64)) as u32 & m;
                (
                    r,
                    put(
                        put(zsp(flags, r, m), CF, (v >> ((cnt - 1) as u32)) & 1 != 0),
                        OF,
                        false,
                    ),
                )
            },
        }
    }
}

fn rotate_left(v: u32, n: u32) -> (r: u32)
    ensures
        r == rotated_left(v, n),
{
    let k: u32 = n % 32;
    if k == 0 {
        v
    } else {
        (v << k) | (v >> (32 - k))
    }
}

fn rotate_through_carry_left(cpu: &mut X86, v: u32, cnt: u32, sz: Bits) -> (r: u32)
    requires
        1 <= cnt <= bit_count(sz),
    ensures
        ({
            let f = old(cpu)@.eflags;
            let (x, out) = rcl_result(f, v, cnt, sz);
            &&& r == x
            &&& final(cpu)@ == old(cpu)@.with_flags(
                rotate_carry_flags(f, v, x, out, cnt, mask_of(sz)),
            )
        }),
{
    let m = mask(sz);
    let n: u64 = (8 * sz.bytes()) as u64;
    let carry: u64 = if cpu.eflags & CF != 0 {
        1u64 << n
    } else {
        0
    };
    let x: u64 = carry | (v & m) as u64;
    let y: u64 = (x << (cnt as u64)) | (x >> (n + 1 - cnt as u64));
    let out = (y >> n) & 1 != 0;
    let r = (y & m as u64) as u32;
    set_cf(cpu, out);
    if cnt == 1 {
        set_of(cpu, (r ^ (v & m)) & (m >> 1) != 0);
    }
    r
}

fn rotate_through_carry_right(cpu: &mut X86, v: u32, cnt: u32, sz: Bits) -> (r: u32)
    requires
        1 <= cnt <= bit_count(sz),
    ensures
        ({
            let f = old(cpu)@.eflags;
            let (x, out) = rcr_result(f, v, cnt, sz);
            &&& r == x
            &&& final(cpu)@ == old(cpu)@.with_flags(
                rotate_carry_flags(f, v, x, out, cnt, mask_of(sz)),
            )
        }),
{
    let m = mask(sz);
    let n: u32 = 8 * sz.bytes();
    let carry: u64 = if cpu.eflags & CF != 0 {
        0x8000_0000_0000_0000
    } else {
        0
    };
    let w: u64 = carry | ((v as u64) << ((64 - n) as u64));
    let out = (w >> ((64 - cnt) as u64)) & 1 != 0;
    let r = ((w >> ((cnt - 1) as u64)) & m as u64) as u32;
    set_cf(cpu, out);
    if cnt == 1 {
        set_of(cpu, (r ^ (v & m)) & (m >> 1) != 0);
    }
    r
}

pub fn shift(cpu: &mut X86, kind: ShiftKind, v: u32, count: u32, sz: Bits) -> (r: u32)
    ensures
        r == shift_result(old(cpu)@.eflags, kind, v, count, sz).0,
        final(cpu)@ == old(cpu)@.with_flags(
            shift_result(old(cpu)@.eflags, kind, v, count, sz).1,
        ),
{
    proof {
        reveal(shift_result);
    }
    let n: u32 = 8 * sz.bytes();
    let m = mask(sz);
    let h = m >> 1;
    let cnt: u32 = if count < n {
        count
    } else {
        n
    };
    if cnt == 0 {
        return v & m;
    }
    match kind {
        ShiftKind::Rol => {
            let r = rotate_left(v, cnt) & m;
            set_cf(cpu, r & 1 != 0);
            set_of(cpu, (r & 1) != ((r >> (n - 1)) & 1));
            r
        },
        ShiftKind::Ror => {
            let r = rotate_left(v, 32 - cnt) & m;
            set_cf(cpu, r & h != 0);
            set_of(cpu, (r & h != 0) != ((r >> (n - 1)) & 1 != 0));
            r
        },
        ShiftKind::Rcl => rotate_through_carry_left(cpu, v, cnt, sz),
        ShiftKind::Rcr => rotate_through_carry_right(cpu, v, cnt, sz),
        ShiftKind::Shl => {
            let up = if cnt >= 32 {
                v
            } else {
                v << cnt
            };
            let r = up & m;
            let c = if n == cnt {
                v & 1 != 0
            } else {
                (v >> (n - cnt)) & 1 != 0
            };
            proof {
                assert(v >> 0u32 == v) by (bit_vector);
            }
            set_flags_zsp(cpu, r, m);
            set_cf(cpu, c);
            set_of(cpu, (r & h != 0) != (v & h != 0));
            r
        },
        ShiftKind::Shr => {
            let r = if cnt >= 32 {
                v
            } else {
                v >> cnt
            };
            set_flags_zsp(cpu, r, m);
            set_cf(cpu, (v >> (cnt - 1)) & 1 != 0);
            set_of(cpu, v & h != 0);
            r
        },
        ShiftKind::Sar => {
            let r = ((v as u64) >> (cnt as u64)) as u32 & m;
            set_flags_zsp(cpu, r, m);
            set_cf(cpu, (v >> (cnt - 1)) & 1 != 0);
            set_of(cpu, false);
            r
        },
    }
}

} // verus!
