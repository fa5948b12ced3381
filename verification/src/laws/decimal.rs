//! Laws of the decimal adjustments.

use vstd::arithmetic::div_mod::lemma_small_mod;
use vstd::prelude::*;

use crate::bits::lemma_turns;
use crate::cpu::CpuState;
use crate::decode::{Bits, Insn, Op};
use crate::flag::{AF, CF, OF, put};
use crate::laws::computing::{behind, completes};
use crate::laws::numbers::{even_ones, lemma_adjust_read};
use crate::laws::places::registers_have_parts;
use crate::mem::DevLog;
use crate::sem::arith::zsp;
use crate::sem::exec::performed;
use crate::sem::misc::{ascii_adjusted, decimal_adjusted, decimal_op};

verus! {

/// The decimal adjustments go on behind themselves.
pub proof fn decimal_instructions(s: CpuState, i: Insn, log: DevLog)
    requires
        i.op is Daa || i.op is Das || i.op is Aaa || i.op is Aas || i.op is Aam || i.op is Aad,
    ensures
        completes(performed(s, i, log), decimal_op(s, i.op), behind(s, i)),
{
    reveal(performed);
}

/// DAA and DAS add or take off 6 where the low digit of AL is above 9 or AF is
/// set, and 0x60 where AL is above 0x99 or CF is set, modulo 256; AF and CF
/// tell which was done, ZF, SF and PF tell the result, and every other flag
/// stays.
pub proof fn packed_digits_are_adjusted(s: CpuState, add: bool)
    requires
        s.wf(),
    ensures
        ({
            let t = decimal_op(
                s,
                if add {
                    Op::Daa
                } else {
                    Op::Das
                },
            );
            let g = s.gpr[0] as int;
            let al = g % 0x100;
            let low = al % 16 > 9 || s.eflags & 0x10 != 0;
            let high = al > 0x99 || s.eflags & 1 != 0;
            let by: int = (if low {
                6int
            } else {
                0
            }) + (if high {
                0x60int
            } else {
                0
            });
            let r = if add {
                (al + by) % 0x100
            } else {
                (al - by) % 0x100
            };
            let f = t.eflags;
            &&& t == (CpuState { gpr: s.gpr.update(0, (g - al + r) as u32), eflags: f, ..s })
            &&& f & 0x10 != 0 <==> low
            &&& f & 1 != 0 <==> high
            &&& f & 0x40 != 0 <==> r == 0
            &&& f & 0x80 != 0 <==> r >= 0x80
            &&& f & 4 != 0 <==> even_ones(r as u32)
            &&& f & 0xFFFF_FF2A == s.eflags & 0xFFFF_FF2A
        }),
{
    registers_have_parts(s, 0, 0, 0, 0);
    let al = s.reg8(0);
    let low = al % 16 > 9 || s.eflags & 0x10 != 0;
    let high = al > 0x99 || s.eflags & 1 != 0;
    let by: u8 = if low && high {
        0x66
    } else if low {
        6
    } else if high {
        0x60
    } else {
        0
    };
    let v = if add {
        al.wrapping_add(by)
    } else {
        al.wrapping_sub(by)
    };
    registers_have_parts(s, 0, v, 0, 0);
    lemma_adjust_read(s.eflags, v as u32, Bits::B8, high, low);
    lemma_byte_moved(al as int, by as int);
    assert(decimal_adjusted(s, add) == s.with_reg8(0, v).with_flags(
        zsp(put(put(s.eflags, AF, low), CF, high), v as u32, 0xFF),
    ));
}

/// A byte moved up or down within 256.
proof fn lemma_byte_moved(b: int, by: int)
    requires
        0 <= b < 0x100,
        0 <= by < 0x100,
    ensures
        (b + by) % 0x100 == (if b + by < 0x100 {
            b + by
        } else {
            b + by - 0x100
        }),
        (b - by) % 0x100 == (if b >= by {
            b - by
        } else {
            b - by + 0x100
        }),
{
}

/// AAA and AAS: where the low digit of AL is above 9 or AF is set, AL goes up
/// or down by 6 modulo 256 and AX then by 0x100 modulo 65536, and AF and CF are
/// set, else they are clear. Of AL the low digit is left.
pub proof fn unpacked_digits_are_adjusted(s: CpuState, add: bool)
    requires
        s.wf(),
    ensures
        ({
            let t = decimal_op(
                s,
                if add {
                    Op::Aaa
                } else {
                    Op::Aas
                },
            );
            let g = s.gpr[0] as int;
            let al = g % 0x100;
            let ah = g / 0x100 % 0x100;
            let off = al % 16 > 9 || s.eflags & 0x10 != 0;
            let digit = if !off {
                al % 16
            } else if add {
                (al + 6) % 16
            } else {
                (al - 6) % 16
            };
            let upper = if !off {
                ah
            } else if add {
                (ah + 1) % 0x100
            } else {
                (ah - 1) % 0x100
            };
            let f = t.eflags;
            &&& t == (CpuState {
                gpr: s.gpr.update(0, (g - g % 0x1_0000 + 0x100 * upper + digit) as u32),
                eflags: f,
                ..s
            })
            &&& f & 0x10 != 0 <==> off
            &&& f & 1 != 0 <==> off
            &&& f & 0xFFFF_FFEE == s.eflags & 0xFFFF_FFEE
        }),
{
    registers_have_parts(s, 0, 0, 0, 0);
    let al = s.reg8(0);
    let off = al % 16 > 9 || s.eflags & 0x10 != 0;
    lemma_both_flags(s.eflags, off);
    if off {
        lemma_moved(s, add);
    } else {
        let d = (al % 16) as u8;
        registers_have_parts(s, 0, d, 0, 0);
        lemma_digit_kept(s.gpr[0] as int);
        assert(ascii_adjusted(s, add) == s.with_reg8(0, d).with_flags(
            put(put(s.eflags, AF, off), CF, off),
        ));
    }
}

/// The low digit of AL kept.
proof fn lemma_digit_kept(g: int)
    ensures
        g - g % 0x100 + g % 0x100 % 16 == g - g % 0x1_0000 + 0x100 * (g / 0x100 % 0x100)
            + g % 0x100 % 16,
{
}

/// An ASCII adjustment that moves the digits.
#[verifier::spinoff_prover]
#[verifier::rlimit(40)]
proof fn lemma_moved(s: CpuState, add: bool)
    requires
        s.wf(),
        s.reg8(0) % 16 > 9 || s.eflags & 0x10 != 0,
    ensures
        ({
            let g = s.gpr[0] as int;
            let al = g % 0x100;
            let ah = g / 0x100 % 0x100;
            let digit = if add {
                (al + 6) % 16
            } else {
                (al - 6) % 16
            };
            let upper = if add {
                (ah + 1) % 0x100
            } else {
                (ah - 1) % 0x100
            };
            ascii_adjusted(s, add) == (CpuState {
                gpr: s.gpr.update(0, (g - g % 0x1_0000 + 0x100 * upper + digit) as u32),
                eflags: put(put(s.eflags, AF, true), CF, true),
                ..s
            })
        }),
{
    let g = s.gpr[0] as int;
    registers_have_parts(s, 0, 0, 0, 0);
    let al = s.reg8(0);
    let n = if add {
        al.wrapping_add(6)
    } else {
        al.wrapping_sub(6)
    };
    registers_have_parts(s, 0, n, 0, 0);
    let u = s.with_reg8(0, n);
    registers_have_parts(u, 0, 0, 0, 0);
    let w = if add {
        u.reg16(0).wrapping_add(0x100)
    } else {
        u.reg16(0).wrapping_sub(0x100)
    };
    registers_have_parts(u, 0, 0, w, 0);
    let t = u.with_reg16(0, w);
    registers_have_parts(t, 0, 0, 0, 0);
    let d = (t.reg8(0) % 16) as u8;
    registers_have_parts(t, 0, d, 0, 0);
    lemma_byte_moved(al as int, 6);
    lemma_word_moved(u.reg16(0) as int, add);
    lemma_ascii(g, n as int, w as int, add);
    assert(ascii_adjusted(s, add) == t.with_reg8(0, d).with_flags(
        put(put(s.eflags, AF, true), CF, true),
    ));
    assert(t.with_reg8(0, d).gpr =~= s.gpr.update(0, t.with_reg8(0, d).gpr[0]));
}

/// AF and CF put alike.
proof fn lemma_both_flags(e: u32, v: bool)
    ensures
        ({
            let f = put(put(e, AF, v), CF, v);
            &&& f & 0x10 != 0 <==> v
            &&& f & 1 != 0 <==> v
            &&& f & 0xFFFF_FFEE == e & 0xFFFF_FFEE
        }),
{
    assert(((e | 0x10u32) | 1u32) & 0x10 != 0 && ((e | 0x10u32) | 1u32) & 1 != 0
        && ((e & !0x10u32) & !1u32)
        & 0x10 == 0 && ((e & !0x10u32) & !1u32) & 1 == 0 && ((e | 0x10u32)
            | 1u32) & 0xFFFF_FFEE == e
        & 0xFFFF_FFEE && ((e & !0x10u32) & !1u32) & 0xFFFF_FFEE == e & 0xFFFF_FFEE) by (bit_vector);
}

/// The steps of an ASCII adjustment on the number in EAX: `n` is AL and then
/// `w` AX after them.
proof fn lemma_ascii(g: int, n: int, w: int, add: bool)
    requires
        0 <= g < 0x1_0000_0000,
        n == (if add {
            (g % 0x100 + 6) % 0x100
        } else {
            (g % 0x100 - 6) % 0x100
        }),
        w == (if add {
            ((g - g % 0x100 + n) % 0x1_0000 + 0x100) % 0x1_0000
        } else {
            ((g - g % 0x100 + n) % 0x1_0000 - 0x100) % 0x1_0000
        }),
    ensures
        ({
            let h = g - g % 0x100 + n;
            let k = h - h % 0x1_0000 + w;
            let ah = g / 0x100 % 0x100;
            let upper = if add {
                (ah + 1) % 0x100
            } else {
                (ah - 1) % 0x100
            };
            let digit = if add {
                (g % 0x100 + 6) % 16
            } else {
                (g % 0x100 - 6) % 16
            };
            &&& 0 <= h < 0x1_0000_0000
            &&& 0 <= k < 0x1_0000_0000
            &&& k % 0x100 % 16 == digit
            &&& k - k % 0x100 + k % 0x100 % 16 == g - g % 0x1_0000 + 0x100 * upper + digit
        }),
        g - g % 0x100 + g % 0x100 % 16 == g - g % 0x1_0000 + 0x100 * (g / 0x100 % 0x100)
            + g % 0x100 % 16,
{
    let (a, b, c) = (g / 0x1_0000, g / 0x100 % 0x100, g % 0x100);
    assert(g == 0x1_0000 * a + 0x100 * b + c);
    lemma_byte_moved(c, 6);
    lemma_byte_moved(b, 1);
    let h = g - c + n;
    lemma_turns(0x100 * b + n, a, 0x1_0000);
    lemma_small_mod((0x100 * b + n) as nat, 0x1_0000);
    let upper = if add {
        (b + 1) % 0x100
    } else {
        (b - 1) % 0x100
    };
    lemma_word_moved(0x100 * b + n, add);
    assert(w == 0x100 * upper + n);
    let k = h - h % 0x1_0000 + w;
    assert(k == 0x1_0000 * a + 0x100 * upper + n);
    lemma_turns(n, 0x100 * a + upper, 0x100);
    lemma_small_mod(n as nat, 0x100);
    assert(n % 16 == (if add {
        (c + 6) % 16
    } else {
        (c - 6) % 16
    }));
}

/// A word moved up or down by 0x100.
proof fn lemma_word_moved(v: int, add: bool)
    requires
        0 <= v < 0x1_0000,
    ensures
        (v + 0x100) % 0x1_0000 == (if v + 0x100 < 0x1_0000 {
            v + 0x100
        } else {
            v + 0x100 - 0x1_0000
        }),
        (v - 0x100) % 0x1_0000 == (if v >= 0x100 {
            v - 0x100
        } else {
            v - 0x100 + 0x1_0000
        }),
{
}

/// AAM leaves the decimal digits of AL in AH and AL. ZF, SF and PF tell the low
/// one, CF, OF and AF are clear, and every other flag stays.
#[verifier::spinoff_prover]
#[verifier::rlimit(40)]
pub proof fn digits_are_split(s: CpuState)
    requires
        s.wf(),
    ensures
        ({
            let g = s.gpr[0] as int;
            let al = g % 0x100;
            let t = decimal_op(s, Op::Aam);
            &&& t == (CpuState {
                gpr: s.gpr.update(0, (g - g % 0x1_0000 + 0x100 * (al / 10) + al % 10) as u32),
                eflags: t.eflags,
                ..s
            })
            &&& t.eflags & 0x40 != 0 <==> al % 10 == 0
            &&& t.eflags & 0x80 == 0
            &&& t.eflags & 4 != 0 <==> even_ones((al % 10) as u32)
            &&& t.eflags & 0x811 == 0
            &&& t.eflags & 0xFFFF_F72A == s.eflags & 0xFFFF_F72A
        }),
{
    let g = s.gpr[0] as int;
    registers_have_parts(s, 0, 0, 0, 0);
    let al = s.reg8(0);
    let (q, r) = ((al / 10) as u8, (al % 10) as u8);
    registers_have_parts(s, 4, q, 0, 0);
    let a = s.with_reg8(4, q);
    registers_have_parts(a, 0, r, 0, 0);
    lemma_adjust_read(s.eflags, r as u32, Bits::B8, false, false);
    lemma_halves_written(g, q as int, r as int);
    assert(a.with_reg8(0, r).gpr =~= s.gpr.update(0, a.with_reg8(0, r).gpr[0]));
}

/// AAD leaves in AL the number whose decimal digits were in AH and AL, modulo
/// 256, and 0 in AH, with the flags as AAM.
#[verifier::spinoff_prover]
#[verifier::rlimit(40)]
pub proof fn digits_are_joined(s: CpuState)
    requires
        s.wf(),
    ensures
        ({
            let g = s.gpr[0] as int;
            let al = g % 0x100;
            let ah = g / 0x100 % 0x100;
            let u = decimal_op(s, Op::Aad);
            let n = (10 * ah + al) % 0x100;
            &&& u == (CpuState {
                gpr: s.gpr.update(0, (g - g % 0x1_0000 + n) as u32),
                eflags: u.eflags,
                ..s
            })
            &&& u.eflags & 0x40 != 0 <==> n == 0
            &&& u.eflags & 0x80 != 0 <==> n >= 0x80
            &&& u.eflags & 4 != 0 <==> even_ones((10 * ah + al) as u32)
            &&& u.eflags & 0x811 == 0
            &&& u.eflags & 0xFFFF_F72A == s.eflags & 0xFFFF_F72A
        }),
{
    let g = s.gpr[0] as int;
    registers_have_parts(s, 0, 0, 0, 0);
    registers_have_parts(s, 4, 0, 0, 0);
    let al = s.reg8(0);
    let ah = s.reg8(4);
    let v = al + ah * 10;
    let n = (v % 0x100) as u8;
    registers_have_parts(s, 0, n, 0, 0);
    let b = s.with_reg8(0, n);
    registers_have_parts(b, 4, 0, 0, 0);
    lemma_adjust_read(s.eflags, v as u32, Bits::B8, false, false);
    lemma_halves_written(g, 0, n as int);
    assert(b.with_reg8(4, 0).gpr =~= s.gpr.update(0, b.with_reg8(4, 0).gpr[0]));
}

/// AH and AL written one after the other, in either order.
proof fn lemma_halves_written(g: int, hi: int, lo: int)
    requires
        0 <= g < 0x1_0000_0000,
        0 <= hi < 0x100,
        0 <= lo < 0x100,
    ensures
        ({
            let x = g - 0x100 * (g / 0x100 % 0x100) + 0x100 * hi;
            let y = g - g % 0x100 + lo;
            &&& 0 <= x < 0x1_0000_0000
            &&& 0 <= y < 0x1_0000_0000
            &&& x - x % 0x100 + lo == g - g % 0x1_0000 + 0x100 * hi + lo
            &&& y - 0x100 * (y / 0x100 % 0x100) + 0x100 * hi == g - g % 0x1_0000 + 0x100 * hi + lo
        }),
{
    let (a, b, c) = (g / 0x1_0000, g / 0x100 % 0x100, g % 0x100);
    assert(g == 0x1_0000 * a + 0x100 * b + c);
    let x = g - 0x100 * b + 0x100 * hi;
    assert(x % 0x100 == c);
    let y = g - c + lo;
    assert(y == 0x1_0000 * a + 0x100 * b + lo);
    assert(y / 0x100 % 0x100 == b);
}

} // verus!
