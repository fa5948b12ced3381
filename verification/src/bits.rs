//! Two's-complement readings of machine words.

use vstd::arithmetic::div_mod::{lemma_hoist_over_denominator, lemma_mod_multiples_vanish};
use vstd::prelude::*;

verus! {

/// `b` as a signed 8-bit number.
pub open spec fn signed8(b: u8) -> int {
    if b < 0x80 {
        b as int
    } else {
        b - 0x100
    }
}

/// `w` as a signed 16-bit number.
pub open spec fn signed16(w: u16) -> int {
    if w < 0x8000 {
        w as int
    } else {
        w - 0x1_0000
    }
}

/// `v` as a signed 32-bit number.
pub open spec fn signed32(v: u32) -> int {
    if v < 0x8000_0000 {
        v as int
    } else {
        v - 0x1_0000_0000
    }
}

/// The 32-bit word whose signed value is `n` modulo 2^32.
pub open spec fn wrap32(n: int) -> u32 {
    (n % 0x1_0000_0000) as u32
}

pub fn as_signed8(b: u8) -> (n: i32)
    ensures
        n == signed8(b),
{
    if b < 0x80 {
        b as i32
    } else {
        b as i32 - 0x100
    }
}

pub fn as_signed16(w: u16) -> (n: i32)
    ensures
        n == signed16(w),
{
    if w < 0x8000 {
        w as i32
    } else {
        w as i32 - 0x1_0000
    }
}

pub fn as_signed32(v: u32) -> (n: i32)
    ensures
        n == signed32(v),
{
    if v < 0x8000_0000 {
        v as i32
    } else {
        (v as i64 - 0x1_0000_0000) as i32
    }
}

/// The 32-bit word of a signed number.
pub fn as_word(n: i32) -> (v: u32)
    ensures
        v == wrap32(n as int),
{
    if n < 0 {
        (n as i64 + 0x1_0000_0000) as u32
    } else {
        n as u32
    }
}

/// `b` sign-extended to 32 bits.
pub fn extend8(b: u8) -> (v: u32)
    ensures
        v == wrap32(signed8(b)),
{
    if b < 0x80 {
        b as u32
    } else {
        b as u32 + 0xFFFF_FF00
    }
}

/// `w` sign-extended to 32 bits.
pub fn extend16(w: u16) -> (v: u32)
    ensures
        v == wrap32(signed16(w)),
{
    if w < 0x8000 {
        w as u32
    } else {
        w as u32 + 0xFFFF_0000
    }
}

/// Adding `k` times `m` shifts the quotient by `k` and keeps the remainder.
pub proof fn lemma_turns(p: int, k: int, m: int)
    requires
        m > 0,
    ensures
        (p + k * m) % m == p % m,
        (p + k * m) / m == p / m + k,
{
    assert(m * k == k * m) by (nonlinear_arith);
    lemma_mod_multiples_vanish(k, p, m);
    lemma_hoist_over_denominator(p, k, m as nat);
}

/// Casts of narrow numbers keep them, and casts of wide ones take the remainder.
pub proof fn lemma_casts(w: u16, b: u8, v: u32)
    ensures
        (w as u32) as u16 == w,
        (b as u32) as u8 == b,
        v as u16 == v % 0x1_0000,
        v as u8 == v % 0x100,
{
    lemma_word_facts(v, 0, b, 0, w, 0);
}

/// Bytes, words and dwords taken apart and put together.
#[verifier::spinoff_prover]
pub proof fn lemma_word_facts(g: u32, h: u32, b: u8, c: u8, w: u16, x: u16)
    ensures
        (w as u32) as u16 == w,
        (b as u32) as u8 == b,
        g as u16 == g % 0x1_0000,
        g as u8 == g % 0x100,
        (g >> 8) as u8 == g / 0x100 % 0x100,
        (g >> 16) as u16 == g / 0x1_0000,
        w as u8 == w % 0x100,
        (w >> 8) as u8 == w / 0x100,
        (b as u16) | ((c as u16) << 8) == b + 0x100 * c,
        (w as u32) | ((x as u32) << 16) == w + 0x1_0000 * x,
        (w as u8) as u16 | (((w >> 8) as u8) as u16) << 8 == w,
        (g as u16) as u32 | (((g >> 16) as u16) as u32) << 16 == g,
        (g & 0xFFFF_FF00) | b as u32 == g - g % 0x100 + b,
        (g & 0xFFFF_00FF) | (b as u32) << 8 == g - 0x100 * (g / 0x100 % 0x100) + 0x100 * b,
        (g & 0xFFFF_0000) | w as u32 == g - g % 0x1_0000 + w,
        (((g & 0xFFFF_00FF) | (b as u32) << 8) >> 8) as u8 == b,
        ((g & 0xFFFF_FF00) | b as u32) as u8 == b,
        ((g & 0xFFFF_0000) | w as u32) as u16 == w,
        ((g & 0xFFFF_0000) | w as u32) / 0x1_0000 == g / 0x1_0000,
        (g & 0xFFFF_0000) | (g as u16) as u32 == g,
        (g & 0xFFFF_FF00) | (g as u8) as u32 == g,
        (g & 0xFFFF_00FF) | ((g >> 8) as u8 as u32) << 8 == g,
        g & 0xFF == g as u8 as u32,
        g & 0xFF == g % 0x100,
        g & 0xFFFF == g as u16 as u32,
        g & 0xFFFF == g % 0x1_0000,
        (g >> 8) & 0xFF == (g >> 8) as u8 as u32,
        g & 0xFFFF_FFFF == g,
        g & 1 == 0 <==> g % 2 == 0,
        g & 2 == 0 <==> g / 2 % 2 == 0,
        g & 4 == 0 <==> g / 4 % 2 == 0,
        g & 0x8000_0000 == 0 <==> g < 0x8000_0000,
        (g & !8) & 1 == g & 1,
        (g & !0xFu32) | (h & 0xF) == g - g % 16 + h % 16,
        g <= 0xF_FFFF ==> ((g << 12) | 0xFFF) == g * 4096 + 4095,
        (!g) % 0x100 == 0xFF - g % 0x100,
        (!g) % 0x1_0000 == 0xFFFF - g % 0x1_0000,
        !g == 0xFFFF_FFFF - g,
        w & 4 != 0 <==> w / 4 % 2 == 1,
        ((w >> 13) & 3) as u8 == w / 0x2000 % 4,
        !0x700u32 == 0xFFFF_F8FFu32,
        !0x200u32 == 0xFFFF_FDFFu32,
        0u32 & 1 == 0,
        2u32 & 0x200 == 0,
        (g >> 16) | ((h & 0xFF) << 16) | ((h >> 24) << 24) == g / 0x1_0000 + 0x1_0000 * (h % 0x100)
            + 0x100_0000 * (h / 0x100_0000),
        (g & 0xFFFF) | (((h >> 16) & 0xF) << 16) == g % 0x1_0000 + 0x1_0000 * (h / 0x1_0000 % 16),
        ((h >> 8) & 0x1F) as u8 == h / 0x100 % 32,
        ((h >> 13) & 3) as u8 == h / 0x2000 % 4,
        h & 0x8000 != 0 <==> h / 0x8000 % 2 == 1,
        h & 0x10_0000 != 0 <==> h / 0x10_0000 % 2 == 1,
        h & 0x40_0000 != 0 <==> h / 0x40_0000 % 2 == 1,
        h & 0x80_0000 != 0 <==> h / 0x80_0000 % 2 == 1,
{
    assert(((w as u32) as u16 == w) && ((b as u32) as u8 == b) && (g as u16 == g % 0x1_0000) && (g
        as u8 == g % 0x100) && ((g >> 8) as u8 == g / 0x100 % 0x100) && ((g >> 16) as u16 == g /
        0x1_0000) && (w as u8 == w % 0x100) && ((w >> 8) as u8 == w / 0x100) && ((b as u16) | ((c as
        u16) << 8) == b + 0x100 * c) && ((w as u32) | ((x as u32) << 16) == w + 0x1_0000 * x) && ((w
        as u8) as u16 | (((w >> 8) as u8) as u16) << 8 == w) && ((g as u16) as u32 | (((g >> 16) as
        u16) as u32) << 16 == g) && ((g & 0xFFFF_FF00) | b as u32 == g - g % 0x100 + b) && ((g &
        0xFFFF_00FF) | (b as u32) << 8 == g - 0x100 * (g / 0x100 % 0x100) + 0x100 * b) && ((g &
        0xFFFF_0000) | w as u32 == g - g % 0x1_0000 + w) && ((((g & 0xFFFF_00FF) | (b as u32) << 8)
        >> 8) as u8 == b) && (((g & 0xFFFF_FF00) | b as u32) as u8 == b) && (((g & 0xFFFF_0000) | w
        as u32) as u16 == w) && (((g & 0xFFFF_0000) | w as u32) / 0x1_0000 == g / 0x1_0000) && ((g &
        0xFFFF_0000) | (g as u16) as u32 == g) && ((g & 0xFFFF_FF00) | (g as u8) as u32 == g) && ((g
        & 0xFFFF_00FF) | ((g >> 8) as u8 as u32) << 8 == g) && (g & 0xFF == g as u8 as u32) && (g &
        0xFF == g % 0x100) && (g & 0xFFFF == g as u16 as u32) && (g & 0xFFFF == g % 0x1_0000) && ((g
        >> 8) & 0xFF == (g >> 8) as u8 as u32) && (g & 0xFFFF_FFFF == g) && (g & 1 == 0 <==> g % 2
        == 0) && (g & 2 == 0 <==> g / 2 % 2 == 0) && (g & 4 == 0 <==> g / 4 % 2 == 0) && (g &
        0x8000_0000 == 0 <==> g < 0x8000_0000) && ((g & !8) & 1 == g & 1) && ((g & !0xFu32) | (h &
        0xF) == g - g % 16 + h % 16) && (g <= 0xF_FFFF ==> ((g << 12) | 0xFFF) == g * 4096 + 4095)
        && ((!g) % 0x100 == 0xFF - g % 0x100) && ((!g) % 0x1_0000 == 0xFFFF - g % 0x1_0000) && (!g
        == 0xFFFF_FFFF - g) && (w & 4 != 0 <==> w / 4 % 2 == 1) && (((w >> 13) & 3) as u8 == w /
        0x2000 % 4) && (!0x700u32 == 0xFFFF_F8FFu32) && (!0x200u32 == 0xFFFF_FDFFu32) && (0u32 & 1
        == 0) && (2u32 & 0x200 == 0) && ((g >> 16) | ((h & 0xFF) << 16) | ((h >> 24) << 24) == g /
        0x1_0000 + 0x1_0000 * (h % 0x100) + 0x100_0000 * (h / 0x100_0000)) && ((g & 0xFFFF) | (((h
        >> 16) & 0xF) << 16) == g % 0x1_0000 + 0x1_0000 * (h / 0x1_0000 % 16)) && (((h >> 8) & 0x1F)
        as u8 == h / 0x100 % 32) && (((h >> 13) & 3) as u8 == h / 0x2000 % 4) && (h & 0x8000 != 0
        <==> h / 0x8000 % 2 == 1) && (h & 0x10_0000 != 0 <==> h / 0x10_0000 % 2 == 1) && (h &
        0x40_0000 != 0 <==> h / 0x40_0000 % 2 == 1) && (h & 0x80_0000 != 0 <==> h / 0x80_0000 % 2 ==
        1)) by (bit_vector);
}

/// The low bits of register numbers.
#[verifier::spinoff_prover]
pub proof fn lemma_low_number_bits(a: i8, r: u8)
    ensures
        0 <= a & 7,
        a & 7 < 8,
        0 <= a & 3,
        a & 3 < 4,
        r < 8 ==> (r as i8) & 7 == r,
        r < 8 ==> (r as i8) & 3 == r % 4,
        r < 8 ==> ((r as i8) & 4 != 0 <==> r >= 4),
{
    assert((0 <= a & 7) && (a & 7 < 8) && (0 <= a & 3) && (a & 3 < 4) && (r < 8 ==> (r as i8) & 7 ==
        r) && (r < 8 ==> (r as i8) & 3 == r % 4) && (r < 8 ==> ((r as i8) & 4 != 0
            <==> r >= 4))) by (bit_vector);
}

/// Reading a word as signed and wrapping it again gives the word back.
pub proof fn signed_round_trip(v: u32)
    ensures
        wrap32(signed32(v)) == v,
{
}

/// Sign extension keeps the value.
pub proof fn extension_keeps_value(b: u8, w: u16)
    ensures
        signed32(wrap32(signed8(b))) == signed8(b),
        signed32(wrap32(signed16(w))) == signed16(w),
{
}

} // verus!
