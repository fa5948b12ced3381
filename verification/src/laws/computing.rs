//! Laws of the instructions that compute: what they leave in registers, memory
//! and flags.

use vstd::prelude::*;

use crate::bits::{lemma_casts, lemma_word_facts};
use crate::cpu::{AccessKind, CpuState, ErrorView, OutView};
use crate::decode::{AluOp, Bits, Insn, Op, Opnd};
use crate::laws::arith::division_is_exact;
use crate::laws::numbers::{
    half, lemma_fold, lemma_modulo, lemma_shift_read, modulo, span, subtraction_is_exact,
};
use crate::laws::places::registers_have_parts;
use crate::mem::DevLog;
use crate::sem::arith::{alu_result, fits, inc_dec_result, low, signed, values, wrapped};
use crate::sem::compute::{
    divided, dividend, do_alu, do_div, do_mul, do_test, do_unary, multiplied, product, quotient,
    remainder,
};
use crate::sem::exec::performed;
use crate::sem::operand::Outcome;

verus! {

/// The instruction ran to its end: it left `t`, and execution goes on at `eip`.
pub open spec fn completes(o: Outcome, t: CpuState, eip: u32) -> bool {
    &&& o.out == OutView::Continue
    &&& !o.early
    &&& o.s == (CpuState { eip, ..t })
}

/// Where the instruction behind `i` is.
pub open spec fn behind(s: CpuState, i: Insn) -> u32 {
    s.eip.wrapping_add(i.len as u32)
}

/// The instruction was given up with the error `e` and left `t`.
pub open spec fn gives_up(o: Outcome, t: CpuState, e: ErrorView) -> bool {
    &&& o.out == OutView::Error(e)
    &&& o.early
    &&& o.s == t
}

/// `v` goes to the operand `to`, and execution goes on behind the instruction;
/// where the operand cannot be written the instruction is given up.
pub open spec fn writes_and_completes(o: Outcome, t: CpuState, to: Opnd, v: u32, i: Insn) -> bool {
    let (u, r) = t.assign(to, v, AccessKind::Write);
    match r {
        Ok(_) => completes(o, u, behind(t, i)),
        Err(e) => gives_up(o, u, e),
    }
}

/// How wide the destination of an instruction is: as the operand says, else by
/// the operand-size attribute.
pub open spec fn destination_width(i: Insn) -> Bits {
    match i.o0 {
        Opnd::Reg(_, b) => b,
        Opnd::Mem(_, b) => b,
        Opnd::Acc(b) => b,
        _ => if i.o16 {
            Bits::B16
        } else {
            Bits::B32
        },
    }
}

/// What operands are: registers and their parts, memory at the effective
/// address, AL, AX or EAX, DX, CL, selectors, and numbers in the instruction.
pub proof fn operands_are_read(s: CpuState, o: Opnd, kind: AccessKind)
    requires
        s.wf(),
        o.wf(),
    ensures
        match o {
            Opnd::Reg(r, Bits::B8) => s.operand(o, kind) is Ok && s.operand(o, kind)->Ok_0 == (if r
                < 4 {
                s.gpr[r as int] as int % 0x100
            } else {
                s.gpr[r - 4] as int / 0x100 % 0x100
            }),
            Opnd::Reg(r, Bits::B16) => s.operand(o, kind) is Ok && s.operand(o, kind)->Ok_0
                == s.gpr[r as int] as int % 0x1_0000,
            Opnd::Reg(r, Bits::B32) => s.operand(o, kind) == Ok::<u32, ErrorView>(
                s.gpr[r as int],
            ),
            Opnd::Acc(Bits::B8) => s.operand(o, kind) is Ok && s.operand(o, kind)->Ok_0
                == s.gpr[0] as int
                % 0x100,
            Opnd::Acc(Bits::B16) => s.operand(o, kind) is Ok && s.operand(o, kind)->Ok_0
                == s.gpr[0] as int
                % 0x1_0000,
            Opnd::Acc(Bits::B32) => s.operand(o, kind) == Ok::<u32, ErrorView>(s.gpr[0]),
            Opnd::Mem(m, b) => s.operand(o, kind) == s.load(
                m.seg,
                s.ea(m),
                if b is B8 {
                    1
                } else if b is B16 {
                    2
                } else {
                    4
                },
                kind,
            ),
            Opnd::Imm(v) => s.operand(o, kind) == Ok::<u32, ErrorView>(v),
            Opnd::ImmSext(v) => s.operand(o, kind) == Ok::<u32, ErrorView>(v),
            Opnd::Dx => s.operand(o, kind) is Ok && s.operand(o, kind)->Ok_0
                == s.gpr[2] as int % 0x1_0000,
            Opnd::Cl => s.operand(o, kind) is Ok && s.operand(o, kind)->Ok_0
                == s.gpr[1] as int % 0x100,
            Opnd::Port(p) => s.operand(o, kind) is Ok && s.operand(o, kind)->Ok_0 == p,
            Opnd::Sreg(g) => s.operand(o, kind) is Ok && s.operand(o, kind)->Ok_0
                == s.seg[g.number() as int].sel,
            Opnd::Rel { disp } => s.operand(o, kind) is Ok && s.operand(o, kind)->Ok_0
                == disp as int
                % 0x1_0000_0000,
            _ => s.operand(o, kind) == Ok::<u32, ErrorView>(0),
        },
{
    reveal(CpuState::operand);
    match o {
        Opnd::Reg(r, _) => registers_have_parts(s, r, 0, 0, 0),
        _ => {},
    }
    registers_have_parts(s, 0, 0, 0, 0);
    registers_have_parts(s, 1, 0, 0, 0);
    registers_have_parts(s, 2, 0, 0, 0);
}

/// What writing an operand does: a register or the part of it takes the low
/// bits of the number and nothing else changes, or memory at the effective
/// address takes its low bytes. What is neither stays as it is.
pub proof fn operands_are_written(s: CpuState, o: Opnd, v: u32, kind: AccessKind)
    requires
        s.wf(),
        o.wf(),
    ensures
        ({
            let (t, res) = s.assign(o, v, kind);
            match o {
                Opnd::Reg(r, b) => {
                    &&& res is Ok
                    &&& t == (CpuState { gpr: t.gpr, ..s })
                    &&& b is B32 ==> t.gpr == s.gpr.update(r as int, v)
                    &&& b is B16 ==> t.gpr == s.gpr.update(
                        r as int,
                        (s.gpr[r as int] - s.gpr[r as int] % 0x1_0000 + v % 0x1_0000) as u32,
                    )
                    &&& b is B8 && r < 4 ==> t.gpr == s.gpr.update(
                        r as int,
                        (s.gpr[r as int] - s.gpr[r as int] % 0x100 + v % 0x100) as u32,
                    )
                    &&& b is B8 && r >= 4 ==> t.gpr == s.gpr.update(
                        r - 4,
                        (s.gpr[r - 4] - 0x100 * (s.gpr[r - 4] / 0x100 % 0x100)
                            + 0x100 * (v % 0x100)) as u32,
                    )
                },
                Opnd::Acc(b) => {
                    &&& res is Ok
                    &&& t == (CpuState { gpr: t.gpr, ..s })
                    &&& b is B32 ==> t.gpr == s.gpr.update(0, v)
                    &&& b is B16 ==> t.gpr == s.gpr.update(
                        0,
                        (s.gpr[0] - s.gpr[0] % 0x1_0000 + v % 0x1_0000) as u32,
                    )
                    &&& b is B8 ==> t.gpr == s.gpr.update(
                        0,
                        (s.gpr[0] - s.gpr[0] % 0x100 + v % 0x100) as u32,
                    )
                },
                Opnd::Mem(m, b) => (t, res) == s.store(
                    m.seg,
                    s.ea(m),
                    if b is B8 {
                        1
                    } else if b is B16 {
                        2
                    } else {
                        4
                    },
                    v,
                    kind,
                ),
                _ => t == s && res is Ok,
            }
        }),
{
    reveal(CpuState::assign);
    lemma_casts(0, 0, v);
    match o {
        Opnd::Reg(r, _) => registers_have_parts(s, r, v as u8, v as u16, v),
        Opnd::Acc(_) => registers_have_parts(s, 0, v as u8, v as u16, v),
        _ => {},
    }
}

/// ADD, OR, ADC, SBB, AND, SUB and XOR combine the first operand with the
/// second, in this order and with the flags before it, into the first; CMP and
/// TEST set the flags and write nothing. An operand that cannot be read leaves
/// everything.
pub proof fn alu_instructions(s: CpuState, i: Insn, log: DevLog)
    requires
        i.op is Alu || i.op is Test,
    ensures
        ({
            let a = s.operand(i.o0, AccessKind::Read);
            let b = s.operand(i.o1, AccessKind::Read);
            let o = performed(s, i, log);
            if a is Err {
                gives_up(o, s, a->Err_0)
            } else if b is Err {
                gives_up(o, s, b->Err_0)
            } else {
                match i.op {
                    Op::Alu(AluOp::Cmp) => completes(
                        o,
                        CpuState {
                            eflags: alu_result(
                                s.eflags,
                                AluOp::Cmp,
                                a->Ok_0,
                                b->Ok_0,
                                destination_width(i),
                            ).1,
                            ..s
                        },
                        behind(s, i),
                    ),
                    Op::Alu(op) => {
                        let (r, f) = alu_result(
                            s.eflags,
                            op,
                            a->Ok_0,
                            b->Ok_0,
                            destination_width(i),
                        );
                        writes_and_completes(o, CpuState { eflags: f, ..s }, i.o0, r, i)
                    },
                    _ => completes(
                        o,
                        CpuState {
                            eflags: alu_result(
                                s.eflags,
                                AluOp::And,
                                a->Ok_0,
                                b->Ok_0,
                                destination_width(i),
                            ).1,
                            ..s
                        },
                        behind(s, i),
                    ),
                }
            }
        }),
{
    reveal(performed);
    reveal(do_alu);
    reveal(do_test);
}

/// INC and DEC of the operand.
pub proof fn counting_instructions(s: CpuState, i: Insn, log: DevLog)
    requires
        i.op is Inc || i.op is Dec,
    ensures
        ({
            let a = s.operand(i.o0, AccessKind::Rmw);
            let o = performed(s, i, log);
            if a is Err {
                gives_up(o, s, a->Err_0)
            } else {
                let (r, f) = inc_dec_result(
                    s.eflags,
                    a->Ok_0,
                    destination_width(i),
                    i.op is Inc,
                );
                writes_and_completes(o, CpuState { eflags: f, ..s }, i.o0, r, i)
            }
        }),
{
    reveal(performed);
    reveal(do_unary);
}

/// NEG of the operand: its difference from 0.
pub proof fn negate_instruction(s: CpuState, i: Insn, log: DevLog)
    requires
        i.op is Neg,
    ensures
        ({
            let a = s.operand(i.o0, AccessKind::Rmw);
            let o = performed(s, i, log);
            if a is Err {
                gives_up(o, s, a->Err_0)
            } else {
                let (r, f) = alu_result(
                    s.eflags,
                    AluOp::Sub,
                    0,
                    a->Ok_0,
                    destination_width(i),
                );
                writes_and_completes(o, CpuState { eflags: f, ..s }, i.o0, r, i)
            }
        }),
{
    reveal(performed);
    reveal(do_unary);
    lemma_negative(s.eflags, s.operand(i.o0, AccessKind::Rmw)->Ok_0, destination_width(i));
}

/// NOT of the operand: what is missing to all ones; the flags stay.
pub proof fn complement_instruction(s: CpuState, i: Insn, log: DevLog)
    requires
        i.op is Not,
    ensures
        ({
            let a = s.operand(i.o0, AccessKind::Rmw);
            let o = performed(s, i, log);
            let sz = destination_width(i);
            if a is Err {
                gives_up(o, s, a->Err_0)
            } else {
                writes_and_completes(
                    o,
                    s,
                    i.o0,
                    (span(sz) - 1 - modulo(a->Ok_0 as int, sz)) as u32,
                    i,
                )
            }
        }),
{
    reveal(performed);
    reveal(do_unary);
    lemma_complement(s.operand(i.o0, AccessKind::Rmw)->Ok_0, destination_width(i));
}

/// Negation is a subtraction from 0.
proof fn lemma_negative(flags: u32, v: u32, sz: Bits)
    ensures
        wrapped(-(low(v, sz) as int), sz) == alu_result(flags, AluOp::Sub, 0, v, sz).0,
{
    reveal(alu_result);
}

/// All ones less a number are the bits that it does not have.
proof fn lemma_complement(v: u32, sz: Bits)
    ensures
        low(!v, sz) == span(sz) - 1 - modulo(v as int, sz),
{
    lemma_word_facts(v, 0, 0, 0, 0, 0);
}

/// NEG: the number and its negative make 0 modulo the number of values. CF is
/// set unless the number is 0, OF where it is its own negative and not 0.
pub proof fn negation_is_exact(flags: u32, v: u32, sz: Bits)
    ensures
        ({
            let (r, f) = alu_result(flags, AluOp::Sub, 0, v, sz);
            let x = modulo(v as int, sz);
            &&& x == 0 ==> r == 0
            &&& x != 0 ==> r == span(sz) - x
            &&& f & 1 != 0 <==> v != 0
            &&& f & 0x800 != 0 <==> x == half(sz)
        }),
{
    subtraction_is_exact(flags, AluOp::Sub, 0, v, sz);
    lemma_negated(v as int, sz);
}

/// The negative of a number within a width.
proof fn lemma_negated(v: int, sz: Bits)
    ensures
        modulo(0, sz) == 0,
        modulo(0 - v - 0, sz) == (if modulo(v, sz) == 0 {
            0
        } else {
            span(sz) - modulo(v, sz)
        }),
{
    let n = span(sz);
    lemma_modulo(0, sz);
    lemma_modulo(v, sz);
    lemma_modulo(0 - v - 0, sz);
    lemma_fold(-(v % n), -(v / n), n);
    lemma_fold(0, 0, n);
    assert(-v == -(v % n) + -(v / n) * n) by (nonlinear_arith)
        requires
            v == n * (v / n) + v % n,
    ;
}

/// MUL and IMUL by the operand.
pub proof fn multiply_instructions(s: CpuState, i: Insn, log: DevLog)
    requires
        i.op is Mul || i.op is Imul,
    ensures
        ({
            let a = s.operand(i.o0, AccessKind::Read);
            let o = performed(s, i, log);
            if a is Err {
                gives_up(o, s, a->Err_0)
            } else {
                completes(
                    o,
                    multiplied(s, a->Ok_0, destination_width(i), i.op is Imul),
                    behind(s, i),
                )
            }
        }),
{
    reveal(performed);
    reveal(do_mul);
}

/// Multiplying AL by a byte leaves the product in AX, AX by a word in DX and
/// AX, EAX by a dword in EDX and EAX: the product of the unsigned or of the
/// signed numbers, modulo the number of values of the double width. CF and OF
/// are set exactly when the product is no number of the single width.
#[verifier::spinoff_prover]
#[verifier::rlimit(40)]
pub proof fn multiplication_is_exact(s: CpuState, v: u32, sz: Bits, sgn: bool)
    requires
        s.wf(),
    ensures
        ({
            let x = modulo(s.gpr[0] as int, sz);
            let y = modulo(v as int, sz);
            let p = if !sgn {
                x * y
            } else {
                (if x < half(sz) {
                    x
                } else {
                    x - span(sz)
                }) * (if y < half(sz) {
                    y
                } else {
                    y - span(sz)
                })
            };
            let beyond = if !sgn {
                p >= span(sz)
            } else {
                !(-half(sz) <= p < half(sz))
            };
            let t = multiplied(s, v, sz, sgn);
            &&& t == (CpuState { gpr: t.gpr, eflags: t.eflags, ..s })
            &&& t.gpr.len() == 8
            &&& forall|k: int| 0 <= k < 8 && k != 0 && k != 2 ==> t.gpr[k] == s.gpr[k]
            &&& sz is B8 ==> t.gpr[2] == s.gpr[2] && t.gpr[0] == s.gpr[0] - s.gpr[0] % 0x1_0000 + p
                % 0x1_0000
            &&& sz is B16 ==> t.gpr[0] == s.gpr[0] - s.gpr[0] % 0x1_0000 + p % 0x1_0000 && t.gpr[2]
                == s.gpr[2] - s.gpr[2] % 0x1_0000 + p / 0x1_0000 % 0x1_0000
            &&& sz is B32 ==> t.gpr[0] == p % 0x1_0000_0000 && t.gpr[2] == p / 0x1_0000_0000
                % 0x1_0000_0000
            &&& t.eflags & 1 != 0 <==> beyond
            &&& t.eflags & 0x800 != 0 <==> beyond
            &&& t.eflags & 0xFFFF_F7FE == s.eflags & 0xFFFF_F7FE
        }),
{
    registers_have_parts(s, 0, 0, 0, 0);
    let acc = s.gpr_at(0, sz);
    assert(low(acc, sz) == modulo(s.gpr[0] as int, sz));
    assert(low(v, sz) == modulo(v as int, sz));
    let p = product(acc, v, sz, sgn);
    let o = if sgn {
        !fits(p, sz)
    } else {
        p >= values(sz)
    };
    lemma_shift_read(s.eflags, 0, sz, o, o);
    let lo = wrapped(p, sz);
    let hi = wrapped(p / values(sz), sz);
    lemma_pair(s, sz, lo, hi);
    if sz is B8 {
        let t = s.with_pair(sz, lo, hi);
        assert(p % 0x1_0000 == p / 0x100 % 0x100 * 0x100 + p % 0x100);
    }
}

/// The two low bytes of a register, written one after the other.
proof fn lemma_two_bytes(g: int, lo: int, hi: int)
    requires
        0 <= g < 0x1_0000_0000,
        0 <= lo < 0x100,
        0 <= hi < 0x100,
    ensures
        ({
            let h = g - g % 0x100 + lo;
            &&& 0 <= h < 0x1_0000_0000
            &&& h - 0x100 * (h / 0x100 % 0x100) + 0x100 * hi == g - g % 0x1_0000 + hi * 0x100 + lo
        }),
{
    let q = g / 0x100;
    let h = g - g % 0x100 + lo;
    assert(h == q * 0x100 + lo);
    assert(h / 0x100 == q);
    assert(g % 0x1_0000 == 0x100 * (q % 0x100) + g % 0x100);
}

/// What the accumulator pair holds after it was written.
proof fn lemma_pair(s: CpuState, sz: Bits, lo: u32, hi: u32)
    requires
        s.wf(),
        lo < span(sz),
        hi < span(sz),
    ensures
        ({
            let t = s.with_pair(sz, lo, hi);
            &&& t == (CpuState { gpr: t.gpr, ..s })
            &&& t.gpr.len() == 8
            &&& forall|k: int| 0 <= k < 8 && k != 0 && k != 2 ==> t.gpr[k] == s.gpr[k]
            &&& sz is B8 ==> t.gpr[2] == s.gpr[2] && t.gpr[0] == s.gpr[0] - s.gpr[0] % 0x1_0000 + hi
                * 0x100 + lo
            &&& sz is B16 ==> t.gpr[0] == s.gpr[0] - s.gpr[0] % 0x1_0000 + lo && t.gpr[2]
                == s.gpr[2]
                - s.gpr[2] % 0x1_0000 + hi
            &&& sz is B32 ==> t.gpr[0] == lo && t.gpr[2] == hi
        }),
{
    lemma_casts(0, 0, lo);
    lemma_casts(0, 0, hi);
    registers_have_parts(s, 0, lo as u8, lo as u16, lo);
    let u = s.with_gpr_at(0, sz, lo);
    match sz {
        Bits::B8 => {
            registers_have_parts(u, 4, hi as u8, 0, 0);
            lemma_two_bytes(s.gpr[0] as int, lo as int, hi as int);
        },
        Bits::B16 => registers_have_parts(u, 2, 0, hi as u16, 0),
        Bits::B32 => registers_have_parts(u, 2, 0, 0, hi),
    }
}

/// DIV and IDIV by the operand: quotient and remainder go to AL and AH, AX and
/// DX, or EAX and EDX, and the flags stay. A divisor of 0 and a quotient that
/// is no number of the width raise interrupt 0.
pub proof fn divide_instructions(s: CpuState, i: Insn, log: DevLog)
    requires
        i.op is Div || i.op is Idiv,
    ensures
        ({
            let a = s.operand(i.o0, AccessKind::Read);
            let sz = destination_width(i);
            let o = performed(s, i, log);
            if a is Err {
                gives_up(o, s, a->Err_0)
            } else {
                match divided(s, a->Ok_0, sz, i.op is Idiv) {
                    Some((q, r)) => completes(o, s.with_pair(sz, q, r), behind(s, i)),
                    None => o.early && (o.s, o.out) == s.interrupted(0, false, 0),
                }
            }
        }),
{
    reveal(performed);
    reveal(do_div);
}

/// What DIV and IDIV divide: AX, DX and AX, or EDX and EAX as one number,
/// unsigned or signed.
pub proof fn dividend_is_the_pair(s: CpuState, sz: Bits)
    requires
        s.wf(),
    ensures
        ({
            let n = match sz {
                Bits::B8 => s.gpr[0] as int % 0x1_0000,
                Bits::B16 => s.gpr[2] as int % 0x1_0000 * 0x1_0000 + s.gpr[0] as int % 0x1_0000,
                Bits::B32 => s.gpr[2] * 0x1_0000_0000 + s.gpr[0],
            };
            let all: int = match sz {
                Bits::B8 => 0x1_0000,
                Bits::B16 => 0x1_0000_0000,
                Bits::B32 => 0x1_0000_0000_0000_0000,
            };
            &&& dividend(s, sz, false) == n
            &&& dividend(s, sz, true) == (if 2 * n < all {
                n
            } else {
                n - all
            })
        }),
{
    registers_have_parts(s, 0, 0, 0, 0);
    registers_have_parts(s, 2, 0, 0, 0);
    registers_have_parts(s, 4, 0, 0, 0);
    lemma_low_word(s.gpr[0] as int);
}

/// The low word of a number by its bytes.
proof fn lemma_low_word(g: int)
    ensures
        g % 0x1_0000 == g / 0x100 % 0x100 * 0x100 + g % 0x100,
{
}

/// DIV and IDIV succeed exactly when the divisor is not 0 and the quotient is a
/// number of the width: then there is a quotient `q` and a remainder `r` of the
/// width with dividend = `q` * divisor + `r`. The remainder is nearer to 0 than
/// the divisor and not of the other sign than the dividend.
pub proof fn division_succeeds(s: CpuState, v: u32, sz: Bits, sgn: bool)
    ensures
        ({
            let n = dividend(s, sz, sgn);
            let x = modulo(v as int, sz);
            let d = if sgn && x >= half(sz) {
                x - span(sz)
            } else {
                x
            };
            let (least, most) = if sgn {
                (-half(sz), half(sz) - 1)
            } else {
                (0, span(sz) - 1)
            };
            match divided(s, v, sz, sgn) {
                Some((q, r)) => {
                    let (qq, rr) = if sgn {
                        (
                            if q < half(sz) {
                                q as int
                            } else {
                                q - span(sz)
                            },
                            if r < half(sz) {
                                r as int
                            } else {
                                r - span(sz)
                            },
                        )
                    } else {
                        (q as int, r as int)
                    };
                    &&& d != 0
                    &&& q < span(sz) && r < span(sz)
                    &&& n == qq * d + rr
                    &&& -d < rr < d || d < rr < -d
                    &&& n >= 0 ==> rr >= 0
                    &&& n <= 0 ==> rr <= 0
                },
                None => d == 0 || !(least <= quotient(n, d) <= most),
            }
        }),
{
    let n = dividend(s, sz, sgn);
    let x = modulo(v as int, sz);
    assert(low(v, sz) == x);
    let d = if sgn && x >= half(sz) {
        x - span(sz)
    } else {
        x
    };
    if d != 0 {
        division_is_exact(n, d);
        let (q, r) = (quotient(n, d), remainder(n, d));
        if !sgn {
            assert(n >= 0);
            assert(q >= 0) by (nonlinear_arith)
                requires
                    q * d + r == n,
                    n >= 0,
                    d > 0,
                    r < d,
            ;
            if q < span(sz) {
                lemma_small(q, sz);
                lemma_small(r, sz);
            }
        } else if fits(q, sz) {
            lemma_signed_small(q, sz);
            lemma_signed_small(r, sz);
        }
    }
}

/// A number of the width is kept.
proof fn lemma_small(v: int, sz: Bits)
    requires
        0 <= v < span(sz),
    ensures
        wrapped(v, sz) == v,
{
}

/// A signed number of the width is the signed reading of what is kept of it.
proof fn lemma_signed_small(v: int, sz: Bits)
    requires
        -half(sz) <= v < half(sz),
    ensures
        wrapped(v, sz) < span(sz),
        v == (if wrapped(v, sz) < half(sz) {
            wrapped(v, sz) as int
        } else {
            wrapped(v, sz) - span(sz)
        }),
{
}

} // verus!
