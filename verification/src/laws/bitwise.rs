//! Laws of the instructions on single bits and of the shifts as instructions.

use vstd::arithmetic::power2::{lemma_pow2_pos, lemma_pow2_unfold, pow2};
use vstd::prelude::*;

use crate::cpu::{AccessKind, CpuState};
use crate::decode::{BitOp, Bits, Insn, Op, ShiftBy};
use crate::flag::{CF, OF, put};
use crate::laws::computing::{behind, completes, destination_width, gives_up, writes_and_completes};
use crate::laws::numbers::{
    bit, even_ones, half, lemma_arith_read, lemma_bit_is_shift, lemma_shift_read, modulo, span,
    width,
};
use crate::laws::places::registers_have_parts;
use crate::mem::DevLog;
use crate::sem::arith::{low, mask_of, shift_count, shift_result};
use crate::sem::compute::{
    bit_changed, bit_position, do_bit, do_dshift, do_shift, dshift_result, highest_bit, lowest_bit,
    scan_flags,
};
use crate::sem::exec::performed;

verus! {

/// The count of a shift: 1, the byte in CL or the byte in the instruction.
pub open spec fn count(s: CpuState, by: ShiftBy) -> u32 {
    match by {
        ShiftBy::One => 1,
        ShiftBy::Cl => (s.gpr[1] % 0x100) as u32,
        ShiftBy::Imm(c) => c as u32,
    }
}

/// Shifts and rotates of the operand, by the count that the instruction names.
pub proof fn shift_instructions(s: CpuState, i: Insn, log: DevLog)
    requires
        s.wf(),
        i.op is Shift,
    ensures
        ({
            let a = s.operand(i.o0, AccessKind::Rmw);
            let o = performed(s, i, log);
            match i.op {
                Op::Shift(kind, by) => if a is Err {
                    gives_up(o, s, a->Err_0)
                } else {
                    let (r, f) = shift_result(
                        s.eflags,
                        kind,
                        a->Ok_0,
                        count(s, by),
                        destination_width(i),
                    );
                    writes_and_completes(o, CpuState { eflags: f, ..s }, i.o0, r, i)
                },
                _ => true,
            }
        }),
{
    reveal(performed);
    reveal(do_shift);
    registers_have_parts(s, 1, 0, 0, 0);
}

/// SHLD and SHRD of the operand with the second. CF is the last bit shifted
/// out, clear with a count of 0; OF is set where the count is 1 and the top bit
/// of the operand differs from it.
pub proof fn double_shift_instructions(s: CpuState, i: Insn, log: DevLog)
    requires
        s.wf(),
        i.op is Dshift,
    ensures
        ({
            let a = s.operand(i.o0, AccessKind::Rmw);
            let b = s.operand(i.o1, AccessKind::Read);
            let o = performed(s, i, log);
            let sz = destination_width(i);
            match i.op {
                Op::Dshift(left, by) => if a is Err {
                    gives_up(o, s, a->Err_0)
                } else if b is Err {
                    gives_up(o, s, b->Err_0)
                } else {
                    let n = count(s, by);
                    let (r, c) = dshift_result(a->Ok_0, b->Ok_0, n, left, sz);
                    let over = n == 1 && bit(a->Ok_0, (width(sz) - 1) as nat) != c;
                    let f = put(put(s.eflags, CF, c), OF, over);
                    writes_and_completes(o, CpuState { eflags: f, ..s }, i.o0, r, i)
                },
                _ => true,
            }
        }),
{
    reveal(performed);
    reveal(do_dshift);
    registers_have_parts(s, 1, 0, 0, 0);
    let a = s.operand(i.o0, AccessKind::Rmw);
    lemma_bit_is_shift(a->Ok_0, (width(destination_width(i)) - 1) as u32);
}

/// Where the bits of a double shift go; `n` is the width, `m` its mask.
#[verifier::spinoff_prover]
proof fn lemma_double_bits(v: u32, src: u32, c: u32, n: u32, m: u32, i: u32)
    by (bit_vector)
    requires
        (n == 8 && m == 0xFF) || (n == 16 && m == 0xFFFF) || (n == 32 && m == 0xFFFF_FFFF),
        1 <= c <= n,
        i < n,
    ensures
        c < 32 ==> (((((v << c) | (src >> ((n - c) as u32))) & m) >> i) & 1 == 1 <==> (i >= c
            && (v >> (
        (i - c) as u32)) & 1 == 1) || (i + n - c < 32 && (src >> ((i + n - c) as u32)) & 1 == 1)),
        c < 32 ==> (((((v >> c) | (src << ((n - c) as u32))) & m) >> i) & 1 == 1 <==> (i
            + c < 32 && (v
            >> ((i + c) as u32)) & 1 == 1) || (i >= n - c
                && (src >> ((i - (n - c)) as u32)) & 1 == 1)),
        (((v | (src >> 0u32)) & m) >> i) & 1 == 1 <==> (v >> i) & 1 == 1 || (src >> i) & 1 == 1,
        (((v | (src << 0u32)) & m) >> i) & 1 == 1 <==> (v >> i) & 1 == 1 || (src >> i) & 1 == 1,
{
}

/// SHLD and SHRD bit by bit. SHLD brings the bits of the operand up by the
/// count and the top bits of the other in from below, SHRD brings them down and
/// the low bits of the other in from above; CF is the last bit shifted out. A
/// count of 32 joins the two.
pub proof fn double_shifts_move_bits(v: u32, src: u32, n: u32, sz: Bits, i: nat)
    requires
        i < width(sz),
    ensures
        n == 0 ==> dshift_result(v, src, n, true, sz) == (v, false) && dshift_result(
            v,
            src,
            n,
            false,
            sz,
        ) == (v, false),
        n > 0 ==> ({
            let w = width(sz) as int;
            let c = if n < w {
                n as int
            } else {
                w
            };
            let (r, out) = dshift_result(v, src, n, true, sz);
            let (r2, out2) = dshift_result(v, src, n, false, sz);
            &&& c < 32 ==> (bit(r, i) <==> (i >= c && bit(v, (i - c) as nat)) || (i
                + w - c < 32 && bit(
                src,
                (i + w - c) as nat,
            )))
            &&& c < 32 ==> (bit(r2, i) <==> (i + c < 32 && bit(v, (i + c) as nat))
                || (i >= w - c && bit(
                src,
                (i - (w - c)) as nat,
            )))
            &&& c == 32 ==> (bit(r, i) <==> bit(v, i) || bit(src, i)) && r2 == r
            &&& r < span(sz) && r2 < span(sz)
            &&& out <==> bit(v, (w - c) as nat)
            &&& out2 <==> bit(v, (c - 1) as nat)
        }),
{
    reveal(dshift_result);
    if n > 0 {
        let w = width(sz) as u32;
        let c = shift_count(n, sz);
        let (r, out) = dshift_result(v, src, n, true, sz);
        let (r2, out2) = dshift_result(v, src, n, false, sz);
        let k = i as u32;
        lemma_double_bits(v, src, c, w, mask_of(sz), k);
        lemma_bit_is_shift(r, k);
        lemma_bit_is_shift(r2, k);
        lemma_bit_is_shift(v, k);
        lemma_bit_is_shift(src, k);
        lemma_bit_is_shift(v, (w - c) as u32);
        lemma_bit_is_shift(v, (c - 1) as u32);
        if k >= c {
            lemma_bit_is_shift(v, (k - c) as u32);
        }
        if k + w - c < 32 {
            lemma_bit_is_shift(src, (k + w - c) as u32);
        }
        if k + c < 32 {
            lemma_bit_is_shift(v, (k + c) as u32);
        }
        if k >= w - c {
            lemma_bit_is_shift(src, (k - (w - c)) as u32);
        }
        let up = if c >= 32 {
            v | (src >> 0u32)
        } else {
            (v << c) | (src >> ((w - c) as u32))
        };
        let down = if c >= 32 {
            v | (src << 0u32)
        } else {
            (v >> c) | (src << ((w - c) as u32))
        };
        lemma_shift_read(0, up, sz, false, false);
        lemma_shift_read(0, down, sz, false, false);
        if c == 32 {
            assert(src >> 0u32 == src << 0u32) by (bit_vector);
        }
    }
}

/// Single bits of a number set, cleared and flipped.
#[verifier::spinoff_prover]
proof fn lemma_one_bit(v: u32, pos: u32, k: u32)
    by (bit_vector)
    requires
        pos < 32,
        k < 32,
    ensures
        k == pos ==> ((v | (1u32 << pos)) >> k) & 1 == 1,
        k == pos ==> ((v & !(1u32 << pos)) >> k) & 1 == 0,
        k == pos ==> ((v ^ (1u32 << pos)) >> k) & 1 != (v >> k) & 1,
        k != pos ==> ((v | (1u32 << pos)) >> k) & 1 == (v >> k) & 1,
        k != pos ==> ((v & !(1u32 << pos)) >> k) & 1 == (v >> k) & 1,
        k != pos ==> ((v ^ (1u32 << pos)) >> k) & 1 == (v >> k) & 1,
{
}

/// BTS sets one bit, BTR clears it and BTC flips it; every other bit stays.
pub proof fn bit_tests_change_one_bit(v: u32, pos: u32, k: nat)
    requires
        pos < 32,
        k < 32,
    ensures
        bit(bit_changed(BitOp::Bts, v, pos), k) <==> k == pos || bit(v, k),
        bit(bit_changed(BitOp::Btr, v, pos), k) <==> k != pos && bit(v, k),
        bit(bit_changed(BitOp::Btc, v, pos), k) <==> (k == pos) != bit(v, k),
{
    let n = k as u32;
    lemma_one_bit(v, pos, n);
    lemma_bit_is_shift(v, n);
    lemma_bit_is_shift(v | (1u32 << pos), n);
    lemma_bit_is_shift(v & !(1u32 << pos), n);
    lemma_bit_is_shift(v ^ (1u32 << pos), n);
}

/// BT, BTS, BTR and BTC look at the bit that the second operand numbers, modulo
/// the width of a register and modulo 32 in memory: it becomes CF, every other
/// flag stays, and all but BT write the changed operand.
pub proof fn bit_test_instructions(s: CpuState, i: Insn, log: DevLog)
    requires
        i.op is Bit,
        !(i.op->Bit_0 is Bsf) && !(i.op->Bit_0 is Bsr),
    ensures
        ({
            let a = s.operand(i.o0, AccessKind::Rmw);
            let b = s.operand(i.o1, AccessKind::Read);
            let o = performed(s, i, log);
            let sz = destination_width(i);
            let v = a->Ok_0;
            let pos: int = if i.o0 is Mem {
                b->Ok_0 as int % 32
            } else {
                b->Ok_0 as int % width(sz) as int
            };
            let t = CpuState { eflags: put(s.eflags, CF, bit(v, pos as nat)), ..s };
            let op = i.op->Bit_0;
            if a is Err {
                gives_up(o, s, a->Err_0)
            } else if b is Err {
                gives_up(o, s, b->Err_0)
            } else if op is Bt {
                completes(o, t, behind(s, i))
            } else {
                writes_and_completes(
                    o,
                    t,
                    i.o0,
                    modulo(bit_changed(op, v, pos as u32) as int, sz) as u32,
                    i,
                )
            }
        }),
{
    reveal(performed);
    reveal(do_bit);
    let v = s.operand(i.o0, AccessKind::Rmw)->Ok_0;
    let p = s.operand(i.o1, AccessKind::Read)->Ok_0;
    let sz = destination_width(i);
    let pos = bit_position(i.o0, p, sz);
    assert(pos < 32);
    lemma_bit_is_shift(v, pos);
    let op = i.op->Bit_0;
    assert(low(bit_changed(op, v, pos), sz) == modulo(bit_changed(op, v, pos) as int, sz));
}

/// The lowest bit that is set: it is set, and none below it is.
pub proof fn scan_forward_finds_the_lowest(v: u32, k: nat)
    requires
        v != 0,
    ensures
        lowest_bit(v) < 32,
        bit(v, lowest_bit(v)),
        k < lowest_bit(v) ==> !bit(v, k),
    decreases v,
{
    lemma_halved(v, lowest_bit(v));
    lemma_halved(v, k);
    if v % 2 == 0 {
        let h = (v / 2) as u32;
        if k > 0 {
            scan_forward_finds_the_lowest(h, (k - 1) as nat);
        } else {
            scan_forward_finds_the_lowest(h, 0);
        }
        lemma_bits_end(v, lowest_bit(v));
    }
}

/// The highest bit that is set: it is set, and none above it is.
pub proof fn scan_backward_finds_the_highest(v: u32, k: nat)
    requires
        v != 0,
    ensures
        highest_bit(v) < 32,
        bit(v, highest_bit(v)),
        k > highest_bit(v) ==> !bit(v, k),
    decreases v,
{
    lemma_halved(v, highest_bit(v));
    lemma_halved(v, k);
    if v > 1 {
        let h = (v / 2) as u32;
        if k > 0 {
            scan_backward_finds_the_highest(h, (k - 1) as nat);
        } else {
            scan_backward_finds_the_highest(h, 0);
        }
        lemma_bits_end(v, highest_bit(v));
    } else if k > 0 {
        lemma_pow2_pos((k - 1) as nat);
        lemma_zero_has_no_bits((k - 1) as nat);
    }
}

/// Bits above the lowest are those of the half.
proof fn lemma_halved(v: u32, k: nat)
    ensures
        k == 0 ==> (bit(v, k) <==> v % 2 == 1),
        k > 0 ==> (bit(v, k) <==> bit((v / 2) as u32, (k - 1) as nat)),
{
    lemma_pow2_pos(k);
    if k == 0 {
        vstd::arithmetic::power2::lemma2_to64();
    } else {
        let j = (k - 1) as nat;
        lemma_pow2_pos(j);
        lemma_pow2_unfold(k);
        vstd::arithmetic::div_mod::lemma_div_denominator(v as int, 2, pow2(j) as int);
    }
}

/// Zero has no bits.
proof fn lemma_zero_has_no_bits(k: nat)
    ensures
        !bit(0, k),
{
    lemma_pow2_pos(k);
    vstd::arithmetic::div_mod::lemma_div_basics_1(pow2(k) as int);
}

/// A 32-bit number has no bit from 32 on.
proof fn lemma_bits_end(v: u32, k: nat)
    ensures
        k >= 32 ==> !bit(v, k),
{
    if k >= 32 {
        vstd::arithmetic::power2::lemma2_to64();
        if k > 32 {
            vstd::arithmetic::power2::lemma_pow2_strictly_increases(32, k);
        }
        vstd::arithmetic::div_mod::lemma_basic_div(v as int, pow2(k) as int);
    }
}

/// BSF and BSR write the position of the lowest or the highest bit that is set
/// in the second operand and clear ZF. Where it is 0 they write nothing and set
/// ZF. SF and PF are by the second operand, and CF, OF and AF are clear.
pub proof fn bit_scan_instructions(s: CpuState, i: Insn, log: DevLog)
    requires
        i.op is Bit,
        i.op->Bit_0 is Bsf || i.op->Bit_0 is Bsr,
    ensures
        ({
            let a = s.operand(i.o0, AccessKind::Rmw);
            let b = s.operand(i.o1, AccessKind::Read);
            let o = performed(s, i, log);
            let sz = destination_width(i);
            let x = modulo(b->Ok_0 as int, sz) as u32;
            if a is Err {
                gives_up(o, s, a->Err_0)
            } else if b is Err {
                gives_up(o, s, b->Err_0)
            } else if x == 0 {
                completes(
                    o,
                    CpuState { eflags: scan_flags(s.eflags, 0, sz), ..s },
                    behind(s, i),
                )
            } else {
                let n = if i.op->Bit_0 is Bsf {
                    lowest_bit(x)
                } else {
                    highest_bit(x)
                };
                let t = s.assign(i.o0, n as u32, AccessKind::Write).0;
                completes(
                    o,
                    CpuState { eflags: scan_flags(t.eflags, b->Ok_0, sz), ..t },
                    behind(s, i),
                )
            }
        }),
{
    reveal(performed);
    reveal(do_bit);
    let p = s.operand(i.o1, AccessKind::Read)->Ok_0;
    let sz = destination_width(i);
    assert(low(p, sz) == modulo(p as int, sz));
}

/// The flags of a bit scan.
pub proof fn scan_flags_tell_the_operand(flags: u32, v: u32, sz: Bits)
    ensures
        ({
            let f = scan_flags(flags, v, sz);
            let x = modulo(v as int, sz);
            &&& f & 0x40 != 0 <==> x == 0
            &&& f & 0x80 != 0 <==> x >= half(sz)
            &&& f & 4 != 0 <==> even_ones(x as u32)
            &&& f & 1 == 0 && f & 0x800 == 0 && f & 0x10 == 0
            &&& f & 0xFFFF_F72A == flags & 0xFFFF_F72A
        }),
{
    lemma_arith_read(flags, low(v, sz), sz, false, false, false);
    assert(low(v, sz) == modulo(v as int, sz));
    assert(modulo(low(v, sz) as int, sz) == low(v, sz));
}

} // verus!
