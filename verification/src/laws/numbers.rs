//! Laws of the arithmetic and logic operations, over the numbers and the bits
//! of EFLAGS.

use vstd::arithmetic::div_mod::{lemma_mod_mod, lemma_small_mod};
use vstd::arithmetic::power2::{lemma_pow2_pos, pow2};
use vstd::bits::lemma_u32_shr_is_div;
use vstd::prelude::*;

use crate::bits::lemma_turns;
use crate::decode::{AluOp, Bits, Cond};
use crate::flag::{AF, CF, OF, PF, SF, ZF, put};
use crate::sem::arith::{
    alu_result, arith_flags, cond_holds, fits, inc_dec_result, low, mask_of, ones, signed,
    subtrahend, zsp,
};

verus! {

/// How many numbers have 8, 16 or 32 bits.
pub open spec fn span(sz: Bits) -> int {
    match sz {
        Bits::B8 => 0x100,
        Bits::B16 => 0x1_0000,
        Bits::B32 => 0x1_0000_0000,
    }
}

/// Half as many: the numbers below it are positive when read as signed.
pub open spec fn half(sz: Bits) -> int {
    match sz {
        Bits::B8 => 0x80,
        Bits::B16 => 0x8000,
        Bits::B32 => 0x8000_0000,
    }
}

/// `v` modulo 2^8, 2^16 or 2^32.
pub open spec fn modulo(v: int, sz: Bits) -> int {
    match sz {
        Bits::B8 => v % 0x100,
        Bits::B16 => v % 0x1_0000,
        Bits::B32 => v % 0x1_0000_0000,
    }
}

/// What is left of `v` without the top bit of the width and the bits above it.
pub open spec fn below_top(v: int, sz: Bits) -> int {
    match sz {
        Bits::B8 => v % 0x80,
        Bits::B16 => v % 0x8000,
        Bits::B32 => v % 0x8000_0000,
    }
}

/// How many bits a number of 8, 16 or 32 bits has.
pub open spec fn width(sz: Bits) -> nat {
    match sz {
        Bits::B8 => 8,
        Bits::B16 => 16,
        Bits::B32 => 32,
    }
}

/// Whether bit `i` of `v` is set.
pub open spec fn bit(v: u32, i: nat) -> bool {
    v as int / pow2(i) as int % 2 == 1
}

/// Bit 0 of the flags as a number: the carry.
pub open spec fn carry(flags: u32) -> int {
    if flags & 1 != 0 {
        1
    } else {
        0
    }
}

/// Whether the low byte of `v` has an even number of ones.
#[verifier::opaque]
pub open spec fn even_ones(v: u32) -> bool {
    (v % 2 + v / 2 % 2 + v / 4 % 2 + v / 8 % 2 + v / 16 % 2 + v / 32 % 2 + v / 64 % 2 + v / 128 % 2)
        % 2 == 0
}

/// A bit by shifting it down.
pub proof fn lemma_bit_is_shift(v: u32, i: u32)
    requires
        i < 32,
    ensures
        bit(v, i as nat) <==> (v >> i) & 1 == 1,
        (v >> i) & 1 == 0 || (v >> i) & 1 == 1,
{
    lemma_u32_shr_is_div(v, i);
    lemma_pow2_pos(i as nat);
    let w = v >> i;
    assert(w & 1 == w % 2) by (bit_vector);
}

/// What flags that are put one after the other read as, in the order in which
/// arithmetic (`f`), INC and DEC (`g`), shifts (`h`), rotates (`k`) and decimal
/// adjustments (`j` and `q`) put them.
#[verifier::spinoff_prover]
proof fn lemma_flags_put(
    flags: u32,
    z: bool,
    s: bool,
    p: bool,
    c: bool,
    o: bool,
    a: bool,
    f: u32,
    g: u32,
    h: u32,
    k: u32,
    j: u32,
    q: u32,
)
    by (bit_vector)
    requires
        f == put(put(put(put(put(put(flags, ZF, z), SF, s), PF, p), CF, c), OF, o), AF, a),
        g == put(put(put(put(put(flags, ZF, z), SF, s), PF, p), OF, o), AF, a),
        h == put(put(put(put(put(flags, ZF, z), SF, s), PF, p), CF, c), OF, o),
        k == put(put(flags, CF, c), OF, o),
        j == put(put(put(flags, ZF, z), SF, s), PF, p) & !(CF | OF | AF),
        q == put(put(put(put(put(flags, AF, a), CF, c), ZF, z), SF, s), PF, p),
    ensures
        f & 0x40 != 0 <==> z,
        f & 0x80 != 0 <==> s,
        f & 4 != 0 <==> p,
        f & 1 != 0 <==> c,
        f & 0x800 != 0 <==> o,
        f & 0x10 != 0 <==> a,
        f & 0xFFFF_F72A == flags & 0xFFFF_F72A,
        g & 0x40 != 0 <==> z,
        g & 0x80 != 0 <==> s,
        g & 4 != 0 <==> p,
        g & 0x800 != 0 <==> o,
        g & 0x10 != 0 <==> a,
        g & 0xFFFF_F72B == flags & 0xFFFF_F72B,
        g & 1 == flags & 1,
        h & 0x40 != 0 <==> z,
        h & 0x80 != 0 <==> s,
        h & 4 != 0 <==> p,
        h & 1 != 0 <==> c,
        h & 0x800 != 0 <==> o,
        h & 0xFFFF_F73A == flags & 0xFFFF_F73A,
        k & 1 != 0 <==> c,
        k & 0x800 != 0 <==> o,
        k & 0xFFFF_F7FE == flags & 0xFFFF_F7FE,
        j & 0x40 != 0 <==> z,
        j & 0x80 != 0 <==> s,
        j & 4 != 0 <==> p,
        j & 0x811 == 0,
        j & 0xFFFF_F72A == flags & 0xFFFF_F72A,
        q & 0x40 != 0 <==> z,
        q & 0x80 != 0 <==> s,
        q & 4 != 0 <==> p,
        q & 1 != 0 <==> c,
        q & 0x10 != 0 <==> a,
        q & 0xFFFF_FF2A == flags & 0xFFFF_FF2A,
{
}

/// What ZF, SF and PF are set by, for a number `r` of the width and for any.
proof fn lemma_masks(r: u32, sz: Bits)
    ensures
        r & mask_of(sz) == modulo(r as int, sz),
        r & (mask_of(sz) & !(mask_of(sz) >> 1)) != 0 <==> modulo(r as int, sz) >= half(sz),
        r & (mask_of(sz) >> 1) == below_top(r as int, sz),
{
    assert(r & 0xFF == r % 0x100 && r & 0xFFFF == r % 0x1_0000 && r & 0xFFFF_FFFF == r && ((r & (
    0xFFu32 & !(0xFFu32 >> 1)) != 0) <==> r % 0x100 >= 0x80) && ((r & (0xFFFFu32 & !(0xFFFFu32
        >> 1)) != 0) <==> r % 0x1_0000 >= 0x8000) && ((r & (0xFFFF_FFFFu32 & !(0xFFFF_FFFFu32
        >> 1)) != 0) <==> r >= 0x8000_0000) && r & (0xFFu32 >> 1) == r % 0x80 && r & (0xFFFFu32
        >> 1) == r % 0x8000 && r & (0xFFFF_FFFFu32 >> 1) == r % 0x8000_0000) by (bit_vector);
}

/// Counting the ones of a byte and adding up its bits agree on whether they are
/// even in number.
proof fn lemma_even_ones(r: u32)
    ensures
        (ones(r as u8) % 2 == 0) <==> even_ones(r),
{
    reveal(even_ones);
    let v = r as u8;
    assert(v % 2 == r % 2 && v / 2 % 2 == r / 2 % 2 && v / 2 / 2 % 2 == r / 4 % 2
        && v / 2 / 2 / 2 % 2
        == r / 8 % 2 && v / 2 / 2 / 2 / 2 % 2 == r / 16 % 2 && v / 2 / 2 / 2 / 2 / 2 % 2
            == r / 32 % 2
        && v / 2 / 2 / 2 / 2 / 2 / 2 % 2 == r / 64 % 2 && v / 2 / 2 / 2 / 2 / 2 / 2 / 2 % 2
            == r / 128
        % 2 && v / 2 / 2 / 2 / 2 / 2 / 2 / 2 / 2 == 0) by (bit_vector)
        requires
            v == r as u8,
    ;
    let v1 = (v / 2) as u8;
    let v2 = (v1 / 2) as u8;
    let v3 = (v2 / 2) as u8;
    let v4 = (v3 / 2) as u8;
    let v5 = (v4 / 2) as u8;
    let v6 = (v5 / 2) as u8;
    let v7 = (v6 / 2) as u8;
    lemma_ones_step(v);
    lemma_ones_step(v1);
    lemma_ones_step(v2);
    lemma_ones_step(v3);
    lemma_ones_step(v4);
    lemma_ones_step(v5);
    lemma_ones_step(v6);
    lemma_ones_step(v7);
    assert(ones(0) == 0);
}

/// The ones of a byte: its lowest bit and those of the rest.
proof fn lemma_ones_step(v: u8)
    ensures
        ones(v) == v % 2 + ones((v / 2) as u8),
{
    assert(ones(0) == 0);
}

/// The parts of an addition.
proof fn lemma_addition(flags: u32, op: AluOp, a: u32, b: u32, c: int, sz: Bits)
    requires
        op is Add || op is Adc,
        c == (if op is Adc {
            carry(flags)
        } else {
            0
        }),
    ensures
        ({
            let (r, f) = alu_result(flags, op, a, b, sz);
            let (x, y) = (modulo(a as int, sz), modulo(b as int, sz));
            &&& r == modulo(x + y + c, sz)
            &&& f == arith_flags(
                flags,
                r,
                mask_of(sz),
                a + b + c >= span(sz),
                !fits(signed(x, sz) + signed(y, sz) + c, sz),
                x % 16 + y % 16 + c > 15,
            )
        }),
{
    reveal(alu_result);
    match sz {
        Bits::B8 => {},
        Bits::B16 => {},
        Bits::B32 => {},
    }
}

/// The parts of a subtraction.
proof fn lemma_subtraction(flags: u32, op: AluOp, a: u32, b: u32, c: int, sz: Bits)
    requires
        op is Sub || op is Sbb || op is Cmp,
        c == (if op is Sbb {
            carry(flags)
        } else {
            0
        }),
    ensures
        ({
            let (r, f) = alu_result(flags, op, a, b, sz);
            let (x, y) = (modulo(a as int, sz), modulo(b as int, sz));
            let t = (b + c) % 0x1_0000_0000;
            &&& r == modulo(x - y - c, sz)
            &&& f == arith_flags(
                flags,
                r,
                mask_of(sz),
                a < t,
                !fits(signed(x, sz) - signed(y, sz) - c, sz),
                a % 16 < t % 16,
            )
        }),
{
    reveal(alu_result);
    assert(subtrahend(flags, op, b) == (b + c) % 0x1_0000_0000);
    match sz {
        Bits::B8 => {},
        Bits::B16 => {},
        Bits::B32 => {},
    }
}

/// The parts of INC and DEC.
proof fn lemma_count(flags: u32, v: u32, sz: Bits, inc: bool, d: int)
    requires
        d == (if inc {
            1int
        } else {
            -1
        }),
    ensures
        ({
            let (r, f) = inc_dec_result(flags, v, sz, inc);
            let x = modulo(v as int, sz);
            &&& r == modulo(x + d, sz)
            &&& f == put(
                put(zsp(flags, r, mask_of(sz)), OF, !fits(signed(x, sz) + d, sz)),
                AF,
                x % 16 == (if inc {
                    15int
                } else {
                    0
                }),
            )
        }),
{
    reveal(inc_dec_result);
    match sz {
        Bits::B8 => {},
        Bits::B16 => {},
        Bits::B32 => {},
    }
}

/// `modulo` as a remainder.
pub proof fn lemma_modulo(v: int, sz: Bits)
    ensures
        modulo(v, sz) == v % span(sz),
        0 <= modulo(v, sz) < span(sz),
        v == span(sz) * (v / span(sz)) + v % span(sz),
{
    match sz {
        Bits::B8 => {},
        Bits::B16 => {},
        Bits::B32 => {},
    }
}

/// A number a turn around the width at most, and `k` turns more.
pub proof fn lemma_fold(v: int, k: int, n: int)
    requires
        n > 1,
        -n <= v < 2 * n,
    ensures
        v % n == (if v < 0 {
            v + n
        } else if v < n {
            v
        } else {
            v - n
        }),
        (v + k * n) % n == v % n,
{
    lemma_turns(v, k, n);
    lemma_turns(v, 1, n);
    lemma_turns(v, -1, n);
    if v < 0 {
        lemma_small_mod((v + n) as nat, n as nat);
    } else if v < n {
        lemma_small_mod(v as nat, n as nat);
    } else {
        lemma_small_mod((v - n) as nat, n as nat);
    }
}

/// A number of the width is its own remainder.
proof fn lemma_small(v: int, sz: Bits)
    requires
        0 <= v < span(sz),
    ensures
        modulo(v, sz) == v,
{
}

/// The low four bits are those of the whole number.
proof fn lemma_sixteenths(v: int, sz: Bits)
    ensures
        modulo(v, sz) % 16 == v % 16,
{
    match sz {
        Bits::B8 => lemma_mod_mod(v, 16, 0x10),
        Bits::B16 => lemma_mod_mod(v, 16, 0x1000),
        Bits::B32 => lemma_mod_mod(v, 16, 0x1000_0000),
    }
}

/// Sums within a width.
proof fn lemma_sum(a: int, b: int, c: int, sz: Bits)
    requires
        0 <= a < 0x1_0000_0000,
        0 <= b < 0x1_0000_0000,
        0 <= c <= 1,
    ensures
        ({
            let (x, y, r) = (modulo(a, sz), modulo(b, sz), modulo(a + b + c, sz));
            &&& modulo(x + y + c, sz) == r
            &&& !fits(signed(x, sz) + signed(y, sz) + c, sz) <==> (x < half(sz))
                == (y < half(sz)) && (x < half(sz)) != (r < half(sz))
        }),
{
    let n = span(sz);
    lemma_modulo(a, sz);
    lemma_modulo(b, sz);
    lemma_modulo(a + b + c, sz);
    let (x, y) = (a % n, b % n);
    lemma_modulo(x + y + c, sz);
    lemma_fold(x + y + c, a / n + b / n, n);
    assert(a + b + c == x + y + c + (a / n + b / n) * n) by (nonlinear_arith)
        requires
            a == n * (a / n) + x,
            b == n * (b / n) + y,
    ;
}

/// Differences within a width.
proof fn lemma_difference(a: int, b: int, c: int, sz: Bits)
    requires
        0 <= a < 0x1_0000_0000,
        0 <= b < 0x1_0000_0000,
        0 <= c <= 1,
    ensures
        ({
            let (x, y, r) = (modulo(a, sz), modulo(b, sz), modulo(a - b - c, sz));
            &&& modulo(x - y - c, sz) == r
            &&& !fits(signed(x, sz) - signed(y, sz) - c, sz)
                <==> (x < half(sz)) != (y < half(sz)) && (x < half(sz)) != (r < half(sz))
        }),
{
    let n = span(sz);
    lemma_modulo(a, sz);
    lemma_modulo(b, sz);
    lemma_modulo(a - b - c, sz);
    let (x, y) = (a % n, b % n);
    lemma_modulo(x - y - c, sz);
    lemma_fold(x - y - c, a / n - b / n, n);
    assert(a - b - c == x - y - c + (a / n - b / n) * n) by (nonlinear_arith)
        requires
            a == n * (a / n) + x,
            b == n * (b / n) + y,
    ;
}

/// Steps by one within a width.
proof fn lemma_step(v: int, sz: Bits)
    requires
        0 <= v < 0x1_0000_0000,
    ensures
        ({
            let x = modulo(v, sz);
            let (u, d) = (modulo(v + 1, sz), modulo(v - 1, sz));
            &&& modulo(x + 1, sz) == u && modulo(x - 1, sz) == d
            &&& !fits(signed(x, sz) + 1, sz) <==> u == half(sz)
            &&& !fits(signed(x, sz) - 1, sz) <==> d == half(sz) - 1
            &&& x % 16 == 15 <==> u % 16 == 0
            &&& x % 16 == 0 <==> d % 16 == 15
        }),
{
    let n = span(sz);
    let x = v % n;
    lemma_modulo(v, sz);
    lemma_modulo(v + 1, sz);
    lemma_modulo(v - 1, sz);
    lemma_modulo(x + 1, sz);
    lemma_modulo(x - 1, sz);
    lemma_fold(x + 1, v / n, n);
    lemma_fold(x - 1, v / n, n);
    assert(n * (v / n) == (v / n) * n) by (nonlinear_arith);
    assert(x % 16 == 15 <==> modulo(v + 1, sz) % 16 == 0) by {
        lemma_sixteenths(v, sz);
        lemma_sixteenths(v + 1, sz);
    }
    assert(x % 16 == 0 <==> modulo(v - 1, sz) % 16 == 15) by {
        lemma_sixteenths(v, sz);
        lemma_sixteenths(v - 1, sz);
    }
}

/// The flags of `arith_flags` as they read.
pub proof fn lemma_arith_read(flags: u32, r: u32, sz: Bits, c: bool, o: bool, a: bool)
    ensures
        ({
            let f = arith_flags(flags, r, mask_of(sz), c, o, a);
            &&& f & 0x40 != 0 <==> modulo(r as int, sz) == 0
            &&& f & 0x80 != 0 <==> modulo(r as int, sz) >= half(sz)
            &&& f & 4 != 0 <==> even_ones(r)
            &&& f & 1 != 0 <==> c
            &&& f & 0x800 != 0 <==> o
            &&& f & 0x10 != 0 <==> a
            &&& f & 0xFFFF_F72A == flags & 0xFFFF_F72A
        }),
{
    let m = mask_of(sz);
    let z = r & m == 0;
    let s = r & (m & !(m >> 1)) != 0;
    let p = ones(r as u8) % 2 == 0;
    lemma_flags_put(
        flags,
        z,
        s,
        p,
        c,
        o,
        a,
        arith_flags(flags, r, m, c, o, a),
        put(put(zsp(flags, r, m), OF, o), AF, a),
        put(put(zsp(flags, r, m), CF, c), OF, o),
        put(put(flags, CF, c), OF, o),
        zsp(flags, r, m) & !(CF | OF | AF),
        zsp(put(put(flags, AF, a), CF, c), r, m),
    );
    lemma_masks(r, sz);
    lemma_even_ones(r);
}

/// The flags of shifts and rotates as they read: those of `r`, CF by `c` and OF
/// by `o`, or CF and OF alone.
pub proof fn lemma_shift_read(flags: u32, r: u32, sz: Bits, c: bool, o: bool)
    ensures
        ({
            let h = put(put(zsp(flags, r, mask_of(sz)), CF, c), OF, o);
            let k = put(put(flags, CF, c), OF, o);
            &&& h & 0x40 != 0 <==> modulo(r as int, sz) == 0
            &&& h & 0x80 != 0 <==> modulo(r as int, sz) >= half(sz)
            &&& h & 4 != 0 <==> even_ones(r)
            &&& h & 1 != 0 <==> c
            &&& h & 0x800 != 0 <==> o
            &&& h & 0xFFFF_F73A == flags & 0xFFFF_F73A
            &&& k & 1 != 0 <==> c
            &&& k & 0x800 != 0 <==> o
            &&& k & 0xFFFF_F7FE == flags & 0xFFFF_F7FE
        }),
        r & mask_of(sz) == modulo(r as int, sz),
        r & (mask_of(sz) >> 1) == below_top(r as int, sz),
{
    let m = mask_of(sz);
    lemma_flags_put(
        flags,
        r & m == 0,
        r & (m & !(m >> 1)) != 0,
        ones(r as u8) % 2 == 0,
        c,
        o,
        false,
        arith_flags(flags, r, m, c, o, false),
        put(put(zsp(flags, r, m), OF, o), AF, false),
        put(put(zsp(flags, r, m), CF, c), OF, o),
        put(put(flags, CF, c), OF, o),
        zsp(flags, r, m) & !(CF | OF | AF),
        zsp(put(put(flags, AF, false), CF, c), r, m),
    );
    lemma_masks(r, sz);
    lemma_even_ones(r);
}

/// The flags of the decimal adjustments as they read.
pub proof fn lemma_adjust_read(flags: u32, r: u32, sz: Bits, c: bool, a: bool)
    ensures
        ({
            let j = zsp(flags, r, mask_of(sz)) & !(CF | OF | AF);
            let q = zsp(put(put(flags, AF, a), CF, c), r, mask_of(sz));
            &&& j & 0x40 != 0 <==> modulo(r as int, sz) == 0
            &&& j & 0x80 != 0 <==> modulo(r as int, sz) >= half(sz)
            &&& j & 4 != 0 <==> even_ones(r)
            &&& j & 0x811 == 0
            &&& j & 0xFFFF_F72A == flags & 0xFFFF_F72A
            &&& q & 0x40 != 0 <==> modulo(r as int, sz) == 0
            &&& q & 0x80 != 0 <==> modulo(r as int, sz) >= half(sz)
            &&& q & 4 != 0 <==> even_ones(r)
            &&& q & 1 != 0 <==> c
            &&& q & 0x10 != 0 <==> a
            &&& q & 0xFFFF_FF2A == flags & 0xFFFF_FF2A
        }),
{
    let m = mask_of(sz);
    lemma_flags_put(
        flags,
        r & m == 0,
        r & (m & !(m >> 1)) != 0,
        ones(r as u8) % 2 == 0,
        c,
        false,
        a,
        arith_flags(flags, r, m, c, false, a),
        put(put(zsp(flags, r, m), OF, false), AF, a),
        put(put(zsp(flags, r, m), CF, c), OF, false),
        put(put(flags, CF, c), OF, false),
        zsp(flags, r, m) & !(CF | OF | AF),
        zsp(put(put(flags, AF, a), CF, c), r, m),
    );
    lemma_masks(r, sz);
    lemma_even_ones(r);
}

/// OR, AND and XOR work bit by bit: each bit of the result is set exactly when
/// it is set in either operand, in both, or in one of them alone. No bit above
/// the width is set.
#[verifier::spinoff_prover]
pub proof fn logic_works_on_bits(flags: u32, a: u32, b: u32, sz: Bits, i: nat)
    requires
        i < width(sz),
    ensures
        bit(alu_result(flags, AluOp::Or, a, b, sz).0, i) <==> bit(a, i) || bit(b, i),
        bit(alu_result(flags, AluOp::And, a, b, sz).0, i) <==> bit(a, i) && bit(b, i),
        bit(alu_result(flags, AluOp::Xor, a, b, sz).0, i) <==> bit(a, i) != bit(b, i),
        alu_result(flags, AluOp::Or, a, b, sz).0 < span(sz),
        alu_result(flags, AluOp::And, a, b, sz).0 < span(sz),
        alu_result(flags, AluOp::Xor, a, b, sz).0 < span(sz),
{
    reveal(alu_result);
    let n = i as u32;
    lemma_bit_is_shift(a, n);
    lemma_bit_is_shift(b, n);
    lemma_bit_is_shift(low(a | b, sz), n);
    lemma_bit_is_shift(low(a & b, sz), n);
    lemma_bit_is_shift(low(a ^ b, sz), n);
    lemma_bits_of_logic(a, b, n);
}

/// Bits of OR, AND and XOR, whole and cut to a width.
#[verifier::spinoff_prover]
proof fn lemma_bits_of_logic(a: u32, b: u32, n: u32)
    by (bit_vector)
    requires
        n < 32,
    ensures
        ((a | b) >> n) & 1 == 1 <==> (a >> n) & 1 == 1 || (b >> n) & 1 == 1,
        ((a & b) >> n) & 1 == 1 <==> (a >> n) & 1 == 1 && (b >> n) & 1 == 1,
        ((a ^ b) >> n) & 1 == 1 <==> ((a >> n) & 1 == 1) != ((b >> n) & 1 == 1),
        n < 16 ==> ((((a | b) % 0x1_0000) >> n) & 1 == ((a | b) >> n) & 1),
        n < 16 ==> ((((a & b) % 0x1_0000) >> n) & 1 == ((a & b) >> n) & 1),
        n < 16 ==> ((((a ^ b) % 0x1_0000) >> n) & 1 == ((a ^ b) >> n) & 1),
        n < 8 ==> ((((a | b) % 0x100) >> n) & 1 == ((a | b) >> n) & 1),
        n < 8 ==> ((((a & b) % 0x100) >> n) & 1 == ((a & b) >> n) & 1),
        n < 8 ==> ((((a ^ b) % 0x100) >> n) & 1 == ((a ^ b) >> n) & 1),
        a | a == a,
        a & a == a,
        a ^ a == 0,
        a | 0 == a,
        a & 0 == 0,
        a ^ 0 == a,
{
}

/// OR and AND of a number with itself give the number, XOR gives 0; OR and XOR
/// with 0 give the number, AND with 0 gives 0.
pub proof fn logic_with_itself_and_zero(flags: u32, a: u32, sz: Bits)
    ensures
        alu_result(flags, AluOp::Or, a, a, sz).0 == modulo(a as int, sz),
        alu_result(flags, AluOp::And, a, a, sz).0 == modulo(a as int, sz),
        alu_result(flags, AluOp::Xor, a, a, sz).0 == 0,
        alu_result(flags, AluOp::Or, a, 0, sz).0 == modulo(a as int, sz),
        alu_result(flags, AluOp::And, a, 0, sz).0 == 0,
        alu_result(flags, AluOp::Xor, a, 0, sz).0 == modulo(a as int, sz),
{
    reveal(alu_result);
    lemma_bits_of_logic(a, a, 0);
}

/// OR, AND and XOR clear CF, OF and AF, set ZF, SF and PF by the result and
/// leave every other flag.
pub proof fn logic_flags(flags: u32, op: AluOp, a: u32, b: u32, sz: Bits)
    requires
        op is Or || op is And || op is Xor,
    ensures
        ({
            let (r, f) = alu_result(flags, op, a, b, sz);
            &&& f & 1 == 0 && f & 0x800 == 0 && f & 0x10 == 0
            &&& f & 0x40 != 0 <==> r == 0
            &&& f & 0x80 != 0 <==> r >= half(sz)
            &&& f & 4 != 0 <==> even_ones(r)
            &&& f & 0xFFFF_F72A == flags & 0xFFFF_F72A
        }),
{
    reveal(alu_result);
    let (r, f) = alu_result(flags, op, a, b, sz);
    lemma_arith_read(flags, r, sz, false, false, false);
}

/// ADD and ADC give the sum of the operands, and of the carry for ADC, modulo
/// the number of values of the width. CF tells a sum beyond the width, OF that
/// two numbers of one sign gave one of the other, AF a carry out of the low
/// four bits.
pub proof fn addition_is_exact(flags: u32, op: AluOp, a: u32, b: u32, sz: Bits)
    requires
        op is Add || op is Adc,
    ensures
        ({
            let (r, f) = alu_result(flags, op, a, b, sz);
            let c = if op is Adc {
                carry(flags)
            } else {
                0
            };
            let (x, y) = (modulo(a as int, sz), modulo(b as int, sz));
            &&& r == modulo(a + b + c, sz)
            &&& f & 1 != 0 <==> a + b + c >= span(sz)
            &&& f & 0x800 != 0 <==> (x < half(sz)) == (y < half(sz))
                && (x < half(sz)) != (r < half(sz))
            &&& f & 0x10 != 0 <==> a % 16 + b % 16 + c >= 16
            &&& f & 0x40 != 0 <==> r == 0
            &&& f & 0x80 != 0 <==> r >= half(sz)
            &&& f & 4 != 0 <==> even_ones(r)
            &&& f & 0xFFFF_F72A == flags & 0xFFFF_F72A
        }),
{
    let c = if op is Adc {
        carry(flags)
    } else {
        0
    };
    let (r, f) = alu_result(flags, op, a, b, sz);
    let (x, y) = (modulo(a as int, sz), modulo(b as int, sz));
    lemma_addition(flags, op, a, b, c, sz);
    lemma_sum(a as int, b as int, c, sz);
    lemma_arith_read(
        flags,
        r,
        sz,
        a + b + c >= span(sz),
        !fits(signed(x, sz) + signed(y, sz) + c, sz),
        x % 16 + y % 16 + c > 15,
    );
    lemma_sixteenths(a as int, sz);
    lemma_sixteenths(b as int, sz);
    lemma_modulo(a + b + c, sz);
    lemma_small(r as int, sz);
}

/// SUB, SBB and CMP compute the difference, SBB less the carry, modulo the
/// number of values of the width. CF of SUB and CMP tells a subtrahend above
/// the minuend, AF the same of the low four bits; those of SBB look at the
/// subtrahend with the carry added within 32 bits. OF tells that operands of
/// different signs gave a number of another sign than the minuend's.
pub proof fn subtraction_is_exact(flags: u32, op: AluOp, a: u32, b: u32, sz: Bits)
    requires
        op is Sub || op is Sbb || op is Cmp,
    ensures
        ({
            let (r, f) = alu_result(flags, op, a, b, sz);
            let c = if op is Sbb {
                carry(flags)
            } else {
                0
            };
            let (x, y) = (modulo(a as int, sz), modulo(b as int, sz));
            let t = (b + c) % 0x1_0000_0000;
            &&& r == modulo(a - b - c, sz)
            &&& f & 1 != 0 <==> a < t
            &&& f & 0x800 != 0 <==> (x < half(sz)) != (y < half(sz))
                && (x < half(sz)) != (r < half(sz))
            &&& f & 0x10 != 0 <==> a % 16 < t % 16
            &&& f & 0x40 != 0 <==> r == 0
            &&& f & 0x80 != 0 <==> r >= half(sz)
            &&& f & 4 != 0 <==> even_ones(r)
            &&& f & 0xFFFF_F72A == flags & 0xFFFF_F72A
        }),
{
    let c = if op is Sbb {
        carry(flags)
    } else {
        0
    };
    let (r, f) = alu_result(flags, op, a, b, sz);
    let (x, y) = (modulo(a as int, sz), modulo(b as int, sz));
    let t = (b + c) % 0x1_0000_0000;
    lemma_subtraction(flags, op, a, b, c, sz);
    lemma_difference(a as int, b as int, c, sz);
    lemma_arith_read(
        flags,
        r,
        sz,
        a < t,
        !fits(signed(x, sz) - signed(y, sz) - c, sz),
        a % 16 < t % 16,
    );
    lemma_modulo(a - b - c, sz);
    lemma_small(r as int, sz);
}

/// INC and DEC count up and down by one within the width and leave CF. OF tells
/// the step over the largest or the smallest signed number, AF the one over a
/// multiple of 16.
pub proof fn counting_is_exact(flags: u32, v: u32, sz: Bits)
    ensures
        ({
            let (r, f) = inc_dec_result(flags, v, sz, true);
            &&& r == modulo(v + 1, sz)
            &&& f & 0x800 != 0 <==> r == half(sz)
            &&& f & 0x10 != 0 <==> r % 16 == 0
            &&& f & 0x40 != 0 <==> r == 0
            &&& f & 0x80 != 0 <==> r >= half(sz)
            &&& f & 4 != 0 <==> even_ones(r)
            &&& f & 0xFFFF_F72B == flags & 0xFFFF_F72B
            &&& f & 1 == flags & 1
        }),
        ({
            let (r, f) = inc_dec_result(flags, v, sz, false);
            &&& r == modulo(v - 1, sz)
            &&& f & 0x800 != 0 <==> r == half(sz) - 1
            &&& f & 0x10 != 0 <==> r % 16 == 15
            &&& f & 0x40 != 0 <==> r == 0
            &&& f & 0x80 != 0 <==> r >= half(sz)
            &&& f & 4 != 0 <==> even_ones(r)
            &&& f & 0xFFFF_F72B == flags & 0xFFFF_F72B
            &&& f & 1 == flags & 1
        }),
{
    lemma_counting(flags, v, sz, true);
    lemma_counting(flags, v, sz, false);
}

/// One direction of `counting_is_exact`.
proof fn lemma_counting(flags: u32, v: u32, sz: Bits, inc: bool)
    ensures
        ({
            let (r, f) = inc_dec_result(flags, v, sz, inc);
            &&& r == modulo(if inc {
                v + 1
            } else {
                v - 1
            }, sz)
            &&& f & 0x800 != 0 <==> r == (if inc {
                half(sz)
            } else {
                half(sz) - 1
            })
            &&& f & 0x10 != 0 <==> r % 16 == (if inc {
                0int
            } else {
                15
            })
            &&& f & 0x40 != 0 <==> r == 0
            &&& f & 0x80 != 0 <==> r >= half(sz)
            &&& f & 4 != 0 <==> even_ones(r)
            &&& f & 0xFFFF_F72B == flags & 0xFFFF_F72B
            &&& f & 1 == flags & 1
        }),
{
    let (r, f) = inc_dec_result(flags, v, sz, inc);
    let x = modulo(v as int, sz);
    let d: int = if inc {
        1
    } else {
        -1
    };
    lemma_count(flags, v, sz, inc, d);
    lemma_step(v as int, sz);
    let m = mask_of(sz);
    let o = !fits(signed(x, sz) + d, sz);
    let a = x % 16 == (if inc {
        15int
    } else {
        0
    });
    lemma_flags_put(
        flags,
        r & m == 0,
        r & (m & !(m >> 1)) != 0,
        ones(r as u8) % 2 == 0,
        false,
        o,
        a,
        arith_flags(flags, r, m, false, o, a),
        f,
        put(put(zsp(flags, r, m), CF, false), OF, o),
        put(put(flags, CF, false), OF, o),
        zsp(flags, r, m) & !(CF | OF | AF),
        zsp(put(put(flags, AF, a), CF, false), r, m),
    );
    lemma_masks(r, sz);
    lemma_even_ones(r);
    lemma_modulo(v + d, sz);
    lemma_small(r as int, sz);
}

/// What the conditions read: O, B, E, S and P one flag each, Be the carry or
/// the zero flag, L that sign and overflow differ, Le that or zero. Each
/// condition of an odd number is the opposite of the one before it.
pub proof fn conditions_read_the_flags(f: u32)
    ensures
        cond_holds(f, Cond::O) <==> f & 0x800 != 0,
        cond_holds(f, Cond::B) <==> f & 1 != 0,
        cond_holds(f, Cond::E) <==> f & 0x40 != 0,
        cond_holds(f, Cond::Be) <==> f & 1 != 0 || f & 0x40 != 0,
        cond_holds(f, Cond::S) <==> f & 0x80 != 0,
        cond_holds(f, Cond::P) <==> f & 4 != 0,
        cond_holds(f, Cond::L) <==> (f & 0x80 != 0) != (f & 0x800 != 0),
        cond_holds(f, Cond::Le) <==> f & 0x40 != 0 || (f & 0x80 != 0) != (f & 0x800 != 0),
        cond_holds(f, Cond::No) <==> !cond_holds(f, Cond::O),
        cond_holds(f, Cond::Ae) <==> !cond_holds(f, Cond::B),
        cond_holds(f, Cond::Ne) <==> !cond_holds(f, Cond::E),
        cond_holds(f, Cond::A) <==> !cond_holds(f, Cond::Be),
        cond_holds(f, Cond::Ns) <==> !cond_holds(f, Cond::S),
        cond_holds(f, Cond::Np) <==> !cond_holds(f, Cond::P),
        cond_holds(f, Cond::Ge) <==> !cond_holds(f, Cond::L),
        cond_holds(f, Cond::G) <==> !cond_holds(f, Cond::Le),
        forall|n: u8| n < 16 && n % 2 == 1 ==> (#[trigger] cond_holds(f, Cond::of(n))
            <==> !cond_holds(
            f,
            Cond::of((n - 1) as u8),
        )),
{
}

/// The sign and the zero of the result of an ALU operation: S holds exactly
/// when the result, read as a signed number of the width, is negative, E
/// exactly when it is 0, P exactly when its low byte has an even number of
/// ones; Ns, Ne and Np exactly when not.
pub proof fn conditions_tell_the_result(flags: u32, op: AluOp, a: u32, b: u32, sz: Bits)
    ensures
        ({
            let (r, f) = alu_result(flags, op, a, b, sz);
            let value = if r < half(sz) {
                r as int
            } else {
                r - span(sz)
            };
            &&& r < span(sz)
            &&& cond_holds(f, Cond::S) <==> value < 0
            &&& cond_holds(f, Cond::Ns) <==> value >= 0
            &&& cond_holds(f, Cond::E) <==> value == 0
            &&& cond_holds(f, Cond::Ne) <==> value != 0
            &&& cond_holds(f, Cond::P) <==> even_ones(r)
            &&& cond_holds(f, Cond::Np) <==> !even_ones(r)
        }),
{
    let f = alu_result(flags, op, a, b, sz).1;
    conditions_read_the_flags(f);
    match op {
        AluOp::Add | AluOp::Adc => addition_is_exact(flags, op, a, b, sz),
        AluOp::Sub | AluOp::Sbb | AluOp::Cmp => subtraction_is_exact(flags, op, a, b, sz),
        AluOp::Or | AluOp::And | AluOp::Xor => {
            logic_flags(flags, op, a, b, sz);
            logic_works_on_bits(flags, a, b, sz, 0);
        },
    }
}

/// The sign and the zero of the result of INC and DEC, as of an ALU operation.
pub proof fn conditions_tell_the_count(flags: u32, v: u32, sz: Bits, inc: bool)
    ensures
        ({
            let (r, f) = inc_dec_result(flags, v, sz, inc);
            let value = if r < half(sz) {
                r as int
            } else {
                r - span(sz)
            };
            &&& r < span(sz)
            &&& cond_holds(f, Cond::S) <==> value < 0
            &&& cond_holds(f, Cond::Ns) <==> value >= 0
            &&& cond_holds(f, Cond::E) <==> value == 0
            &&& cond_holds(f, Cond::Ne) <==> value != 0
            &&& cond_holds(f, Cond::P) <==> even_ones(r)
            &&& cond_holds(f, Cond::Np) <==> !even_ones(r)
        }),
{
    counting_is_exact(flags, v, sz);
    conditions_read_the_flags(inc_dec_result(flags, v, sz, inc).1);
}

/// The signed reading of the low bits of a number, by a shift of the range.
proof fn lemma_signed_reading(v: int, sz: Bits)
    ensures
        signed(modulo(v, sz), sz) == modulo(v + half(sz), sz) - half(sz),
{
    match sz {
        Bits::B8 => {},
        Bits::B16 => {},
        Bits::B32 => {},
    }
}

/// O and No after an addition, a subtraction or a comparison: whether the exact
/// result of the operands as signed numbers, carry included, is no signed
/// number of the width.
pub proof fn overflow_tells_the_signed_result(flags: u32, op: AluOp, a: u32, b: u32, sz: Bits)
    requires
        !(op is Or || op is And || op is Xor),
    ensures
        ({
            let f = alu_result(flags, op, a, b, sz).1;
            let half = half(sz);
            let p = modulo(a + half, sz) - half;
            let q = modulo(b + half, sz) - half;
            let e = match op {
                AluOp::Add => p + q,
                AluOp::Adc => p + q + carry(flags),
                AluOp::Sbb => p - q - carry(flags),
                _ => p - q,
            };
            &&& cond_holds(f, Cond::O) <==> !(-half <= e < half)
            &&& cond_holds(f, Cond::No) <==> -half <= e < half
        }),
{
    conditions_read_the_flags(alu_result(flags, op, a, b, sz).1);
    let c = if op is Adc || op is Sbb {
        carry(flags)
    } else {
        0
    };
    lemma_sum(a as int, b as int, c, sz);
    lemma_difference(a as int, b as int, c, sz);
    lemma_signed_reading(a as int, sz);
    lemma_signed_reading(b as int, sz);
    if op is Add || op is Adc {
        addition_is_exact(flags, op, a, b, sz);
    } else {
        subtraction_is_exact(flags, op, a, b, sz);
    }
}

} // verus!
