//! Laws of shifts and rotates.

use vstd::arithmetic::power2::{lemma_pow2_pos, lemma_pow2_strictly_increases, pow2};
use vstd::bits::{lemma_u32_shr_is_div, lemma_u64_shl_is_mul, lemma_u64_shr_is_div};
use vstd::prelude::*;

use crate::decode::{Bits, ShiftKind};
use crate::flag::{CF, OF, on, put};
use crate::laws::numbers::{
    below_top, bit, even_ones, half, lemma_bit_is_shift, lemma_shift_read, modulo, span, width,
};
use crate::sem::arith::{mask_of, rcl_result, rcr_result, rotated_left, shift_count, shift_result};

verus! {

/// Bits shifted out to the left, within 32 bits and each width.
#[verifier::spinoff_prover]
proof fn lemma_shift_bits(v: u32, c: u32)
    by (bit_vector)
    requires
        c < 32,
    ensures
        (v << c) & 0xFF == ((v as u64) << (c as u64)) % 0x100,
        (v << c) & 0xFFFF == ((v as u64) << (c as u64)) % 0x1_0000,
        (v << c) & 0xFFFF_FFFF == ((v as u64) << (c as u64)) % 0x1_0000_0000,
        c >= 8 ==> (v << c) & 0xFF == 0,
        c >= 16 ==> (v << c) & 0xFFFF == 0,
        v & 0xFFFF_FFFF == v,
        v >> 0u32 == v,
        v << 0u32 == v,
{
}

/// SHL by a count below the width multiplies by 2 to the count, modulo the
/// number of values of the width. CF is the last bit shifted out; OF tells
/// whether the bits below the top one became or ceased to be all clear.
pub proof fn left_shift_multiplies(flags: u32, v: u32, count: u32, sz: Bits)
    requires
        count < width(sz),
    ensures
        shift_result(flags, ShiftKind::Shl, v, count, sz).0 == modulo(
            v * pow2(count as nat),
            sz,
        ),
        count > 0 ==> ({
            let (r, f) = shift_result(flags, ShiftKind::Shl, v, count, sz);
            &&& f & 1 != 0 <==> bit(v, (width(sz) - count) as nat)
            &&& f & 0x800 != 0 <==> (below_top(r as int, sz) != 0) != (below_top(v as int, sz)
                != 0)
            &&& f & 0x40 != 0 <==> r == 0
            &&& f & 0x80 != 0 <==> r >= half(sz)
            &&& f & 4 != 0 <==> even_ones(r)
            &&& f & 0xFFFF_F73A == flags & 0xFFFF_F73A
        }),
{
    reveal(shift_result);
    let (r, f) = shift_result(flags, ShiftKind::Shl, v, count, sz);
    lemma_shift_bits(v, count);
    lemma_pow2_pos(count as nat);
    lemma_pow2_strictly_increases(count as nat, 32);
    vstd::arithmetic::power2::lemma2_to64();
    assert(v * pow2(count as nat) <= u64::MAX) by (nonlinear_arith)
        requires
            0 <= v <= 0xFFFF_FFFF,
            0 < pow2(count as nat) < 0x1_0000_0000,
    ;
    lemma_u64_shl_is_mul(v as u64, count as u64);
    lemma_shift_read(flags, v, sz, false, false);
    if count > 0 {
        let n = width(sz) as u32;
        let k = (n - count) as u32;
        lemma_bit_is_shift(v, k);
        lemma_shift_read(
            flags,
            r,
            sz,
            (v >> k) & 1 != 0,
            (r & (mask_of(sz) >> 1) != 0) != (v & (mask_of(sz) >> 1) != 0),
        );
    }
}

/// SHL by the width or more: nothing of 8 or 16 bits is left, 32 bits stay as
/// they are; CF is the lowest bit.
pub proof fn left_shift_by_the_width(flags: u32, v: u32, count: u32, sz: Bits)
    requires
        count >= width(sz),
    ensures
        ({
            let (r, f) = shift_result(flags, ShiftKind::Shl, v, count, sz);
            &&& r == (if sz is B32 {
                v
            } else {
                0
            })
            &&& f & 1 != 0 <==> v % 2 == 1
            &&& f & 0x800 != 0 <==> !(sz is B32) && below_top(v as int, sz) != 0
            &&& f & 0x40 != 0 <==> r == 0
            &&& f & 0x80 != 0 <==> r >= half(sz)
            &&& f & 4 != 0 <==> even_ones(r)
            &&& f & 0xFFFF_F73A == flags & 0xFFFF_F73A
        }),
{
    reveal(shift_result);
    let (r, f) = shift_result(flags, ShiftKind::Shl, v, count, sz);
    lemma_shift_bits(v, 8);
    lemma_shift_bits(v, 16);
    lemma_bit_is_shift(v, 0);
    vstd::arithmetic::power2::lemma2_to64();
    lemma_shift_read(flags, v, sz, false, false);
    lemma_shift_read(
        flags,
        r,
        sz,
        (v >> 0u32) & 1 != 0,
        (r & (mask_of(sz) >> 1) != 0) != (v & (mask_of(sz) >> 1) != 0),
    );
}

/// SHR divides the whole number by 2 to the count; a count of the width or more
/// counts as the width, and shifting 32 bits by 32 leaves them. CF is the last
/// bit shifted out, OF tells whether any bit below the top one was set.
pub proof fn right_shift_divides(flags: u32, v: u32, count: u32, sz: Bits)
    requires
        count > 0,
    ensures
        ({
            let (r, f) = shift_result(flags, ShiftKind::Shr, v, count, sz);
            let c = if count < width(sz) {
                count as nat
            } else {
                width(sz)
            };
            &&& c < 32 ==> r == v as int / pow2(c) as int
            &&& c == 32 ==> r == v
            &&& f & 1 != 0 <==> bit(v, (c - 1) as nat)
            &&& f & 0x800 != 0 <==> below_top(v as int, sz) != 0
            &&& f & 0x40 != 0 <==> modulo(r as int, sz) == 0
            &&& f & 0x80 != 0 <==> modulo(r as int, sz) >= half(sz)
            &&& f & 4 != 0 <==> even_ones(r)
            &&& f & 0xFFFF_F73A == flags & 0xFFFF_F73A
        }),
{
    reveal(shift_result);
    let (r, f) = shift_result(flags, ShiftKind::Shr, v, count, sz);
    let c = shift_count(count, sz);
    if c < 32 {
        lemma_u32_shr_is_div(v, c);
    }
    let k = (c - 1) as u32;
    lemma_bit_is_shift(v, k);
    lemma_shift_read(flags, v, sz, false, false);
    lemma_shift_read(flags, r, sz, (v >> k) & 1 != 0, v & (mask_of(sz) >> 1) != 0);
}

/// SAR divides by 2 to the count, which ends at the width, and keeps the low
/// bits of the quotient. CF is the last bit shifted out, OF is clear.
pub proof fn arithmetic_shift_divides(flags: u32, v: u32, count: u32, sz: Bits)
    requires
        count > 0,
    ensures
        ({
            let (r, f) = shift_result(flags, ShiftKind::Sar, v, count, sz);
            let c = if count < width(sz) {
                count as nat
            } else {
                width(sz)
            };
            &&& r == modulo(v as int / pow2(c) as int, sz)
            &&& f & 1 != 0 <==> bit(v, (c - 1) as nat)
            &&& f & 0x800 == 0
            &&& f & 0x40 != 0 <==> r == 0
            &&& f & 0x80 != 0 <==> r >= half(sz)
            &&& f & 4 != 0 <==> even_ones(r)
            &&& f & 0xFFFF_F73A == flags & 0xFFFF_F73A
        }),
{
    reveal(shift_result);
    let (r, f) = shift_result(flags, ShiftKind::Sar, v, count, sz);
    let c = shift_count(count, sz);
    lemma_u64_shr_is_div(v as u64, c as u64);
    let w = (v as u64) >> (c as u64);
    lemma_pow2_pos(c as nat);
    assert(v as int / pow2(c as nat) as int <= v as int) by {
        vstd::arithmetic::div_mod::lemma_div_is_ordered_by_denominator(
            v as int,
            1,
            pow2(c as nat) as int,
        );
    }
    let k = (c - 1) as u32;
    lemma_bit_is_shift(v, k);
    lemma_shift_read(flags, w as u32, sz, false, false);
    lemma_shift_read(flags, r, sz, (v >> k) & 1 != 0, false);
    assert(modulo(r as int, sz) == r);
}

/// A count of 0 leaves the number and the flags.
pub proof fn no_shift_changes_nothing(flags: u32, kind: ShiftKind, v: u32, sz: Bits)
    ensures
        shift_result(flags, kind, v, 0, sz).0 == modulo(v as int, sz),
        shift_result(flags, kind, v, 0, sz).1 == flags,
{
    reveal(shift_result);
    lemma_shift_read(flags, v, sz, false, false);
}

/// Where the bits of a 32-bit rotate go.
#[verifier::spinoff_prover]
proof fn lemma_rotate_bits(v: u32, c: u32, i: u32, r: u32, x: u32)
    by (bit_vector)
    requires
        0 < c < 32,
        i < 32,
        r == (v << c) | (v >> ((32 - c) as u32)),
    ensures
        (r >> i) & 1 == (v >> (((i + 32 - c) % 32) as u32)) & 1,
        i < 8 ==> ((x & 0xFF) >> i) & 1 == (x >> i) & 1,
        i < 16 ==> ((x & 0xFFFF) >> i) & 1 == (x >> i) & 1,
        ((x & 0xFFFF_FFFF) >> i) & 1 == (x >> i) & 1,
{
}

/// A bit of a rotated number under the mask of a width.
proof fn lemma_rotated_bit(v: u32, c: u32, sz: Bits, i: nat)
    requires
        c <= 32,
        i < width(sz),
    ensures
        bit(rotated_left(v, c) & mask_of(sz), i) <==> bit(v, ((i + 32 - c) % 32) as nat),
{
    let n = i as u32;
    let x = rotated_left(v, c);
    lemma_bit_is_shift(x & mask_of(sz), n);
    lemma_bit_is_shift(v, ((n + 32 - c) % 32) as u32);
    if 0 < c < 32 {
        lemma_rotate_bits(v, c, n, x, x);
    } else {
        lemma_rotate_bits(v, 1, n, (v << 1u32) | (v >> 31u32), x);
    }
}

/// ROL and ROR turn the 32 bits of the operand around and keep the low ones:
/// bit `i` of the result comes from `count` bits below it or above it. CF of
/// ROL is the lowest bit of the result, OF whether it differs from the top one;
/// CF of ROR tells whether any bit below the top one is set, OF whether that
/// differs from the top bit.
pub proof fn rotates_move_bits(flags: u32, v: u32, count: u32, sz: Bits, i: nat)
    requires
        count > 0,
        i < width(sz),
    ensures
        ({
            let c = if count < width(sz) {
                count as int
            } else {
                width(sz) as int
            };
            let (r, f) = shift_result(flags, ShiftKind::Rol, v, count, sz);
            let (r2, f2) = shift_result(flags, ShiftKind::Ror, v, count, sz);
            &&& bit(r, i) <==> bit(v, ((i + 32 - c) % 32) as nat)
            &&& r < span(sz)
            &&& f & 1 != 0 <==> bit(r, 0)
            &&& f & 0x800 != 0 <==> bit(r, 0) != bit(r, (width(sz) - 1) as nat)
            &&& f & 0xFFFF_F7FE == flags & 0xFFFF_F7FE
            &&& bit(r2, i) <==> bit(v, ((i + c) % 32) as nat)
            &&& r2 < span(sz)
            &&& f2 & 1 != 0 <==> below_top(r2 as int, sz) != 0
            &&& f2 & 0x800 != 0 <==> (below_top(r2 as int, sz) != 0) != bit(
                r2,
                (width(sz) - 1) as nat,
            )
            &&& f2 & 0xFFFF_F7FE == flags & 0xFFFF_F7FE
        }),
{
    reveal(shift_result);
    let (r, f) = shift_result(flags, ShiftKind::Rol, v, count, sz);
    let (r2, f2) = shift_result(flags, ShiftKind::Ror, v, count, sz);
    let c = shift_count(count, sz);
    let d = (32 - c) as u32;
    let n = width(sz) as u32;
    let k = (n - 1) as u32;
    lemma_rotated_bit(v, c, sz, i);
    lemma_rotated_bit(v, d, sz, i);
    assert((i + 32 - d) % 32 == (i + c) % 32);
    lemma_shift_bits(r, 0);
    lemma_bit_is_shift(r, 0);
    lemma_bit_is_shift(r, k);
    lemma_bit_is_shift(r2, k);
    lemma_shift_read(flags, rotated_left(v, c), sz, false, false);
    lemma_shift_read(flags, rotated_left(v, d), sz, false, false);
    lemma_shift_read(flags, r, sz, r & 1 != 0, (r & 1) != ((r >> k) & 1));
    let h = mask_of(sz) >> 1;
    lemma_shift_read(flags, r2, sz, r2 & h != 0, (r2 & h != 0) != ((r2 >> k) & 1 != 0));
}

/// Where the bits of a rotate through the carry go; `n` is the width, `m` its mask.
#[verifier::spinoff_prover]
proof fn lemma_carry_bits(v: u32, cf: bool, c: u64, n: u64, m: u32, x: u64, y: u64, w: u64, i: u64)
    by (bit_vector)
    requires
        (n == 8 && m == 0xFF) || (n == 16 && m == 0xFFFF) || (n == 32 && m == 0xFFFF_FFFF),
        1 <= c <= n,
        i < n,
        x == (if cf {
            1u64 << n
        } else {
            0u64
        }) | (v & m) as u64,
        y == (x << c) | (x >> ((n + 1 - c) as u64)),
        w == (if cf {
            0x8000_0000_0000_0000u64
        } else {
            0u64
        }) | ((v as u64) << ((64 - n) as u64)),
    ensures
        i >= c ==> (((y & m as u64) as u32) >> i as u32) & 1 == (v >> ((i - c) as u32)) & 1,
        i == c - 1 ==> ((((y & m as u64) as u32) >> i as u32) & 1 == 1 <==> cf),
        i < c - 1 ==> (((y & m as u64) as u32) >> i as u32) & 1 == (v >> ((n + 1 + i - c) as u32))
            & 1,
        (y >> n) & 1 != 0 <==> (v >> ((n - c) as u32)) & 1 == 1,
        (y & m as u64) as u32 & m == (y & m as u64) as u32,
        n < 32 ==> ((w >> ((c - 1) as u64)) & m as u64) as u32 == 0,
        n == 32 && i + c >= 33
            ==> (((w >> ((c - 1) as u64)) & m as u64) as u32 >> i as u32) & 1 == (
        v >> ((i + c - 33) as u32)) & 1,
        n == 32 && i + c < 33
            ==> (((w >> ((c - 1) as u64)) & m as u64) as u32 >> i as u32) & 1 == 0,
        c == 1 ==> ((w >> ((64 - c) as u64)) & 1 != 0 <==> cf || (v >> ((n - 1) as u32)) & 1 == 1),
        c > 1 ==> ((w >> ((64 - c) as u64)) & 1 != 0 <==> (v >> ((n - c) as u32)) & 1 == 1),
{
}

/// Flags that RCL and RCR put: CF, and OF with a count of 1 only.
#[verifier::spinoff_prover]
proof fn lemma_carry_flags(flags: u32, out: bool, o: bool, f: u32, g: u32, r: u32, u: u32, m: u32)
    by (bit_vector)
    requires
        f == put(flags, CF, out),
        g == put(f, OF, o),
        m == 0xFF || m == 0xFFFF || m == 0xFFFF_FFFF,
    ensures
        f & 1 != 0 <==> out,
        f & 0xFFFF_FFFE == flags & 0xFFFF_FFFE,
        g & 1 != 0 <==> out,
        g & 0x800 != 0 <==> o,
        g & 0xFFFF_F7FE == flags & 0xFFFF_F7FE,
        (r ^ (u & m)) & (m >> 1) != 0 <==> r & (m >> 1) != u & (m >> 1),
{
}

/// RCL turns the carry and the operand below it around as one number: bit `i`
/// of the result comes from `count` bits below it, the carry comes in behind
/// the bits shifted out, and the last of these becomes the carry. OF changes
/// only with a count of 1: it tells whether the bits below the top one changed.
pub proof fn rotate_left_through_carry(flags: u32, v: u32, count: u32, sz: Bits, i: nat)
    requires
        count > 0,
        i < width(sz),
    ensures
        ({
            let c = if count < width(sz) {
                count as int
            } else {
                width(sz) as int
            };
            let (r, f) = shift_result(flags, ShiftKind::Rcl, v, count, sz);
            &&& i >= c ==> (bit(r, i) <==> bit(v, (i - c) as nat))
            &&& i == c - 1 ==> (bit(r, i) <==> flags & 1 != 0)
            &&& i < c - 1 ==> (bit(r, i) <==> bit(v, (width(sz) + 1 + i - c) as nat))
            &&& r < span(sz)
            &&& f & 1 != 0 <==> bit(v, (width(sz) - c) as nat)
            &&& count == 1 ==> (f & 0x800 != 0 <==> below_top(r as int, sz) != below_top(
                v as int,
                sz,
            ))
            &&& count == 1 ==> f & 0xFFFF_F7FE == flags & 0xFFFF_F7FE
            &&& count > 1 ==> f & 0xFFFF_FFFE == flags & 0xFFFF_FFFE
        }),
{
    reveal(shift_result);
    let (r, f) = shift_result(flags, ShiftKind::Rcl, v, count, sz);
    let c = shift_count(count, sz);
    let n = width(sz) as u64;
    let m = mask_of(sz);
    let cf = on(flags, CF);
    let x = (if cf {
        1u64 << n
    } else {
        0u64
    }) | (v & m) as u64;
    let y = (x << (c as u64)) | (x >> ((n + 1 - c) as u64));
    let w = (if cf {
        0x8000_0000_0000_0000u64
    } else {
        0u64
    }) | ((v as u64) << ((64 - n) as u64));
    lemma_carry_bits(v, cf, c as u64, n, m, x, y, w, i as u64);
    lemma_bit_is_shift(r, i as u32);
    lemma_bit_is_shift(v, (n - c) as u32);
    if i >= c {
        lemma_bit_is_shift(v, (i - c) as u32);
    } else if i < c - 1 {
        lemma_bit_is_shift(v, (n + 1 + i - c) as u32);
    }
    let out = rcl_result(flags, v, c, sz).1;
    let o = (r ^ (v & m)) & (m >> 1) != 0;
    lemma_carry_flags(flags, out, o, put(flags, CF, out), put(put(flags, CF, out), OF, o), r, v, m);
    lemma_shift_read(flags, r, sz, false, false);
    lemma_shift_read(flags, v, sz, false, false);
}

/// RCR of 8 or 16 bits gives 0. RCR of 32 bits brings the low bits of the
/// operand to the top, `33 - count` bits up. The last bit shifted out, or with
/// a count of 1 the top bit or the carry, becomes the carry. OF is as for RCL.
pub proof fn rotate_right_through_carry(flags: u32, v: u32, count: u32, sz: Bits, i: nat)
    requires
        count > 0,
        i < width(sz),
    ensures
        ({
            let c = if count < width(sz) {
                count as int
            } else {
                width(sz) as int
            };
            let (r, f) = shift_result(flags, ShiftKind::Rcr, v, count, sz);
            &&& !(sz is B32) ==> r == 0
            &&& sz is B32 ==> (bit(r, i) <==> i + c >= 33 && bit(v, (i + c - 33) as nat))
            &&& count == 1 ==> (f & 1 != 0 <==> flags & 1 != 0 || bit(v, (width(sz) - 1) as nat))
            &&& count > 1 ==> (f & 1 != 0 <==> bit(v, (width(sz) - c) as nat))
            &&& count == 1 ==> (f & 0x800 != 0 <==> below_top(r as int, sz) != below_top(
                v as int,
                sz,
            ))
            &&& count == 1 ==> f & 0xFFFF_F7FE == flags & 0xFFFF_F7FE
            &&& count > 1 ==> f & 0xFFFF_FFFE == flags & 0xFFFF_FFFE
        }),
{
    reveal(shift_result);
    let (r, f) = shift_result(flags, ShiftKind::Rcr, v, count, sz);
    let c = shift_count(count, sz);
    let n = width(sz) as u64;
    let m = mask_of(sz);
    let cf = on(flags, CF);
    let x = (if cf {
        1u64 << n
    } else {
        0u64
    }) | (v & m) as u64;
    let y = (x << (c as u64)) | (x >> ((n + 1 - c) as u64));
    let w = (if cf {
        0x8000_0000_0000_0000u64
    } else {
        0u64
    }) | ((v as u64) << ((64 - n) as u64));
    lemma_carry_bits(v, cf, c as u64, n, m, x, y, w, i as u64);
    lemma_bit_is_shift(r, i as u32);
    lemma_bit_is_shift(v, (n - c) as u32);
    if i + c >= 33 {
        lemma_bit_is_shift(v, (i + c - 33) as u32);
    }
    let out = rcr_result(flags, v, c, sz).1;
    let o = (r ^ (v & m)) & (m >> 1) != 0;
    lemma_carry_flags(flags, out, o, put(flags, CF, out), put(put(flags, CF, out), OF, o), r, v, m);
    lemma_shift_read(flags, r, sz, false, false);
    lemma_shift_read(flags, v, sz, false, false);
}

} // verus!
