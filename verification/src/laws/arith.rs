//! Laws of arithmetic and flags.

use vstd::prelude::*;

use crate::cpu::CpuState;
use crate::decode::{AluOp, Bits, Cond};
use crate::flag::{AF, CF, OF, PF, SF, ZF, on, put, put_keeps_others, put_reads_back};
use crate::sem::arith::{
    alu_result, arith_flags, cond_holds, fits, low, mask_of, ones, signed, values, wrapped, zsp,
};
use crate::sem::compute::{dividend, divided, quotient, remainder};

verus! {

/// The flag bits share no bit with each other.
proof fn lemma_flags_disjoint()
    ensures
        ZF & SF == 0,
        ZF & PF == 0,
        ZF & CF == 0,
        ZF & OF == 0,
        ZF & AF == 0,
        SF & PF == 0,
        SF & CF == 0,
        SF & OF == 0,
        SF & AF == 0,
        PF & CF == 0,
        PF & OF == 0,
        PF & AF == 0,
        CF & OF == 0,
        CF & AF == 0,
        OF & AF == 0,
        SF & ZF == 0,
        PF & ZF == 0,
        PF & SF == 0,
        CF & ZF == 0,
        CF & SF == 0,
        CF & PF == 0,
        OF & ZF == 0,
        OF & SF == 0,
        OF & PF == 0,
        OF & CF == 0,
        AF & ZF == 0,
        AF & SF == 0,
        AF & PF == 0,
        AF & CF == 0,
        AF & OF == 0,
{
    assert(0x40u32 & 0x80 == 0 && 0x40u32 & 4 == 0 && 0x40u32 & 1 == 0 && 0x40u32 & 0x800 == 0
        && 0x40u32 & 0x10 == 0 && 0x80u32 & 4 == 0 && 0x80u32 & 1 == 0 && 0x80u32 & 0x800 == 0
        && 0x80u32 & 0x10 == 0 && 4u32 & 1 == 0 && 4u32 & 0x800 == 0 && 4u32 & 0x10 == 0 && 1u32
        & 0x800 == 0 && 1u32 & 0x10 == 0 && 0x800u32 & 0x10 == 0 && 0x80u32 & 0x40 == 0
            && 4u32 & 0x40
        == 0 && 4u32 & 0x80 == 0 && 1u32 & 0x40 == 0 && 1u32 & 0x80 == 0 && 1u32 & 4 == 0
            && 0x800u32
        & 0x40 == 0 && 0x800u32 & 0x80 == 0 && 0x800u32 & 4 == 0 && 0x800u32 & 1 == 0
            && 0x10u32 & 0x40
        == 0 && 0x10u32 & 0x80 == 0 && 0x10u32 & 4 == 0 && 0x10u32 & 1 == 0 && 0x10u32 & 0x800 == 0)
        by (bit_vector);
}

/// ZF, SF and PF as they read after they were set by a result.
proof fn lemma_zsp_flags(flags: u32, val: u32, mask: u32)
    ensures
        on(zsp(flags, val, mask), ZF) == (val & mask == 0),
        on(zsp(flags, val, mask), SF) == (val & (mask & !(mask >> 1)) != 0),
        on(zsp(flags, val, mask), PF) == (ones(val as u8) % 2 == 0),
{
    lemma_flags_disjoint();
    let z = val & mask == 0;
    let sg = val & (mask & !(mask >> 1)) != 0;
    let p = ones(val as u8) % 2 == 0;
    let f1 = put(flags, ZF, z);
    let f2 = put(f1, SF, sg);
    put_reads_back(flags, ZF, z);
    put_reads_back(f1, SF, sg);
    put_reads_back(f2, PF, p);
    put_keeps_others(f1, SF, sg, ZF);
    put_keeps_others(f2, PF, p, ZF);
    put_keeps_others(f2, PF, p, SF);
}

/// ZF and SF of a number of the width tell that it is 0 and that it is negative.
pub proof fn zero_and_sign_flags_tell_the_result(flags: u32, r: u32, sz: Bits)
    requires
        r <= mask_of(sz),
    ensures
        on(zsp(flags, r, mask_of(sz)), ZF) <==> r == 0,
        on(zsp(flags, r, mask_of(sz)), SF) <==> signed(r as int, sz) < 0,
{
    lemma_zsp_flags(flags, r, mask_of(sz));
    assert((r <= 0xFF ==> r & 0xFF == r && ((r & (0xFFu32 & !(0xFFu32 >> 1)) != 0) <==> r >= 0x80))
        && (r <= 0xFFFF ==> r & 0xFFFF == r && ((r & (0xFFFFu32 & !(0xFFFFu32 >> 1)) != 0) <==> r
        >= 0x8000)) && r & 0xFFFF_FFFF == r && ((r & (0xFFFF_FFFFu32 & !(0xFFFF_FFFFu32 >> 1))
        != 0) <==> r >= 0x8000_0000)) by (bit_vector);
}

/// The flags of an ALU operation as they read.
proof fn lemma_arith_flags(flags: u32, val: u32, mask: u32, c: bool, o: bool, a: bool)
    ensures
        ({
            let f = arith_flags(flags, val, mask, c, o, a);
            let g = zsp(flags, val, mask);
            &&& on(f, CF) == c
            &&& on(f, OF) == o
            &&& on(f, AF) == a
            &&& on(f, ZF) == on(g, ZF)
            &&& on(f, SF) == on(g, SF)
            &&& on(f, PF) == on(g, PF)
        }),
{
    let g = zsp(flags, val, mask);
    let g1 = put(g, CF, c);
    let g2 = put(g1, OF, o);
    lemma_flags_disjoint();
    put_reads_back(g, CF, c);
    put_reads_back(g1, OF, o);
    put_reads_back(g2, AF, a);
    put_keeps_others(g, CF, c, ZF);
    put_keeps_others(g, CF, c, SF);
    put_keeps_others(g, CF, c, PF);
    put_keeps_others(g1, OF, o, ZF);
    put_keeps_others(g1, OF, o, SF);
    put_keeps_others(g1, OF, o, PF);
    put_keeps_others(g1, OF, o, CF);
    put_keeps_others(g2, AF, a, ZF);
    put_keeps_others(g2, AF, a, SF);
    put_keeps_others(g2, AF, a, PF);
    put_keeps_others(g2, AF, a, CF);
    put_keeps_others(g2, AF, a, OF);
}

/// Wrapping a difference into the width: what it is below and above.
proof fn lemma_wrapped_difference(x: int, y: int, sz: Bits)
    requires
        0 <= x < values(sz),
        0 <= y < values(sz),
    ensures
        wrapped(x - y, sz) as int == (if x >= y {
            x - y
        } else {
            x - y + values(sz)
        }),
{
}

/// After CMP the conditions tell how the operands relate: below and above for
/// unsigned numbers, less and greater for signed ones. Below and above look at the
/// whole of the operands, the others at their low bits.
pub proof fn conditions_after_compare(flags: u32, a: u32, b: u32, sz: Bits)
    ensures
        ({
            let f = alu_result(flags, AluOp::Cmp, a, b, sz).1;
            let (x, y) = (low(a, sz), low(b, sz));
            let (p, q) = (signed(x as int, sz), signed(y as int, sz));
            &&& cond_holds(f, Cond::E) <==> x == y
            &&& cond_holds(f, Cond::Ne) <==> x != y
            &&& cond_holds(f, Cond::B) <==> a < b
            &&& cond_holds(f, Cond::Ae) <==> a >= b
            &&& cond_holds(f, Cond::Be) <==> a < b || x == y
            &&& cond_holds(f, Cond::A) <==> a >= b && x != y
            &&& cond_holds(f, Cond::L) <==> p < q
            &&& cond_holds(f, Cond::Ge) <==> p >= q
            &&& cond_holds(f, Cond::Le) <==> p <= q
            &&& cond_holds(f, Cond::G) <==> p > q
        }),
{
    reveal(alu_result);
    let x = low(a, sz) as int;
    let y = low(b, sz) as int;
    let r = wrapped(x - y, sz);
    let o = !fits(signed(x, sz) - signed(y, sz), sz);
    let f = arith_flags(flags, r, mask_of(sz), a < b, o, a % 16 < b % 16);
    assert(alu_result(flags, AluOp::Cmp, a, b, sz).1 == f);
    lemma_comparison(x, y, sz);
    lemma_arith_flags(flags, r, mask_of(sz), a < b, o, a % 16 < b % 16);
    zero_and_sign_flags_tell_the_result(flags, r, sz);
    assert(on(f, ZF) == (x == y));
    assert(on(f, CF) == (a < b));
    assert((on(f, SF) != on(f, OF)) == (signed(x, sz) < signed(y, sz)));
    assert(x == y <==> signed(x, sz) == signed(y, sz));
}

/// What the difference of two numbers tells of their order.
proof fn lemma_comparison(x: int, y: int, sz: Bits)
    requires
        0 <= x < values(sz),
        0 <= y < values(sz),
    ensures
        ({
            let r = wrapped(x - y, sz);
            let d = signed(x, sz) - signed(y, sz);
            &&& r <= mask_of(sz)
            &&& r == 0 <==> x == y
            &&& ((signed(r as int, sz) < 0) != !fits(d, sz)) <==> d < 0
            &&& d == 0 <==> x == y
        }),
{
    lemma_wrapped_difference(x, y, sz);
}

/// The flags of an addition: CF tells a sum beyond the width, OF signed overflow,
/// AF a carry out of bit 3, ZF and SF the result.
pub proof fn addition_flags(flags: u32, a: u32, b: u32, sz: Bits)
    ensures
        ({
            let (r, f) = alu_result(flags, AluOp::Add, a, b, sz);
            let (x, y) = (low(a, sz), low(b, sz));
            &&& on(f, CF) <==> a + b >= values(sz)
            &&& on(f, OF) <==> !fits(signed(x as int, sz) + signed(y as int, sz), sz)
            &&& on(f, AF) <==> x % 16 + y % 16 >= 16
            &&& on(f, ZF) <==> r == 0
            &&& on(f, SF) <==> signed(r as int, sz) < 0
            &&& !on(f, OF) ==> signed(r as int, sz) == signed(x as int, sz) + signed(
                y as int,
                sz,
            )
        }),
{
    reveal(alu_result);
    let x = low(a, sz) as int;
    let y = low(b, sz) as int;
    let r = wrapped(x + y, sz);
    assert(r as int == (if x + y < values(sz) {
        x + y
    } else {
        x + y - values(sz)
    }));
    let o = !fits(signed(x, sz) + signed(y, sz), sz);
    lemma_arith_flags(flags, r, mask_of(sz), a + b > mask_of(sz), o, x % 16 + y % 16 > 15);
    zero_and_sign_flags_tell_the_result(flags, r, sz);
}

/// Subtracting what was added gives the number back.
pub proof fn subtraction_undoes_addition(flags: u32, flags2: u32, a: u32, b: u32, sz: Bits)
    ensures
        alu_result(
            flags2,
            AluOp::Sub,
            alu_result(flags, AluOp::Add, a, b, sz).0,
            b,
            sz,
        ).0 == low(a, sz),
{
    reveal(alu_result);
    let x = low(a, sz) as int;
    let y = low(b, sz) as int;
    let r = wrapped(x + y, sz);
    assert(r as int == (if x + y < values(sz) {
        x + y
    } else {
        x + y - values(sz)
    }));
    assert(low(r, sz) == r);
    lemma_wrapped_difference(r as int, y, sz);
}

/// Division rounds toward zero: the quotient times the divisor plus the
/// remainder is the dividend, and the remainder is smaller than the divisor and
/// has the dividend's sign.
pub proof fn division_is_exact(n: int, d: int)
    requires
        d != 0,
    ensures
        quotient(n, d) * d + remainder(n, d) == n,
        d > 0 ==> -d < remainder(n, d) < d,
        d < 0 ==> d < remainder(n, d) < -d,
        n >= 0 ==> remainder(n, d) >= 0,
        n <= 0 ==> remainder(n, d) <= 0,
{
    let a = if n < 0 {
        -n
    } else {
        n
    };
    let m = if d < 0 {
        -d
    } else {
        d
    };
    let q = a / m;
    let r = a % m;
    assert(a == q * m + r && 0 <= r < m) by (nonlinear_arith)
        requires
            m > 0,
            q == a / m,
            r == a % m,
    ;
    assert(-q * m == -(q * m) && -q * -m == q * m && q * -m == -(q * m)) by (nonlinear_arith);
}

/// A signed number of the width is the signed reading of its bits.
proof fn lemma_signed_wrapped(n: int, sz: Bits)
    requires
        fits(n, sz),
    ensures
        signed(wrapped(n, sz) as int, sz) == n,
{
}

/// DIV and IDIV give quotient and remainder of the double-width accumulator,
/// unsigned or signed.
pub proof fn divide_instruction_is_exact(s: CpuState, v: u32, sz: Bits, sgn: bool)
    ensures
        divided(s, v, sz, sgn) matches Some((q, r)) ==> {
            let x = low(v, sz) as int;
            &&& x != 0
            &&& !sgn ==> dividend(s, sz, false) == q * x + r && r < x
            &&& sgn ==> dividend(s, sz, true) == signed(q as int, sz) * signed(x, sz) + signed(
                r as int,
                sz,
            )
        },
{
    let n = dividend(s, sz, sgn);
    let x = low(v, sz) as int;
    let d = if sgn {
        signed(x, sz)
    } else {
        x
    };
    if d != 0 && divided(s, v, sz, sgn) is Some {
        division_is_exact(n, d);
        let q = quotient(n, d);
        let r = remainder(n, d);
        if sgn {
            lemma_signed_wrapped(q, sz);
            assert(fits(r, sz));
            lemma_signed_wrapped(r, sz);
        } else {
            assert(n >= 0);
            assert(q >= 0) by (nonlinear_arith)
                requires
                    q * d + r == n,
                    n >= 0,
                    d > 0,
                    r < d,
            ;
        }
    }
}

} // verus!
