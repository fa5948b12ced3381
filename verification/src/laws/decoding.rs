//! Laws of the encoding: what the bytes of an instruction stand for.

use vstd::prelude::*;

use crate::bits::lemma_casts;
use crate::cpu::{CpuState, Seg};
use crate::decode::{
    AluOp, BitOp, Bits, Cond, Fields, MemRef, Op, Opnd, Prefixes, Rep, ShiftBy, ShiftKind, TailVal,
    accepted, operand, operation, settled,
};
use crate::laws::addressing::{byte_value, sixteen_bit_operands};
use crate::opcode::{Arg, Form, ModRm, Sel, Tail, Width, one_byte_form, two_byte_form};

verus! {

/// What a prefix byte changes: 0x66 and 0x67 give the operand and the address
/// size that is not the default, 0xF0 locks, 0xF2 and 0xF3 repeat, and six
/// bytes name a segment. Each counts one byte and leaves the rest; no other
/// byte is a prefix.
pub proof fn prefix_bytes(p: Prefixes, b: u8, default16: bool)
    requires
        p.len < 0x100,
    ensures
        ({
            let q = p.with_prefix(b, default16);
            let r = q->Some_0;
            let names = b == 0x26 || b == 0x2E || b == 0x36 || b == 0x3E || b == 0x64 || b == 0x65;
            &&& q is Some <==> names || b == 0x66 || b == 0x67 || b == 0xF0 || b == 0xF2 || b
                == 0xF3
            &&& q is Some ==> {
                &&& r.len == p.len + 1
                &&& r.o16 == (if b == 0x66 {
                    !default16
                } else {
                    p.o16
                })
                &&& r.a16 == (if b == 0x67 {
                    !default16
                } else {
                    p.a16
                })
                &&& r.lock == (p.lock || b == 0xF0)
                &&& r.rep == (if b == 0xF2 {
                    Rep::NZ
                } else if b == 0xF3 {
                    Rep::Z
                } else {
                    p.rep
                })
                &&& !names ==> r.seg == p.seg
                &&& b == 0x26 ==> r.seg == Some(Seg::Es)
                &&& b == 0x2E ==> r.seg == Some(Seg::Cs)
                &&& b == 0x36 ==> r.seg == Some(Seg::Ss)
                &&& b == 0x3E ==> r.seg == Some(Seg::Ds)
                &&& b == 0x64 ==> r.seg == Some(Seg::Fs)
                &&& b == 0x65 ==> r.seg == Some(Seg::Gs)
            }
        }),
{
}

/// An instruction without a prefix: the sizes are those of the code segment,
/// and the opcode is the first byte, or the one behind 0x0F.
pub proof fn opcode_comes_first(s: CpuState)
    ensures
        ({
            let first = s.fetch8(s.eip);
            let second = s.fetch8(s.eip.wrapping_add(1));
            let p = Prefixes {
                o16: s.default16(),
                a16: s.default16(),
                lock: false,
                rep: Rep::Single,
                seg: None,
                len: 0,
            };
            let b = first->Ok_0;
            &&& first is Err ==> s.decoded() is Err && s.decoded()->Err_0 == first->Err_0
            &&& first is Ok && p.with_prefix(b, s.default16()) is None && b != 0x0F ==> s.decoded()
                == s.formed(one_byte_form(b, s.default16()), p, 1)
            &&& first == Ok::<u8, Seq<char>>(0x0F) && second is Ok ==> s.decoded() == s.formed(
                two_byte_form(second->Ok_0),
                p,
                2,
            )
        }),
{
    reveal(CpuState::decoded);
    assert(s.eip.wrapping_add(0) == s.eip);
    reveal_with_fuel(CpuState::prefixes_from, 1);
}

/// An instruction behind one prefix reads on with what the prefix set.
pub proof fn prefixes_come_before_the_opcode(s: CpuState, p: Prefixes, q: Prefixes, b: u8)
    requires
        p.len < 14,
        s.fetch8(s.eip.wrapping_add(p.len)) == Ok::<u8, Seq<char>>(b),
    ensures
        p.with_prefix(b, s.default16()) == Some(q) ==> s.prefixes_from(p) == s.prefixes_from(q),
        p.with_prefix(b, s.default16()) is None ==> s.prefixes_from(p)
            == Ok::<Prefixes, Seq<char>>(p),
{
    reveal_with_fuel(CpuState::prefixes_from, 1);
}

/// An entry of the opcode map with up to two operands.
pub open spec fn entry(sel: Sel, modrm: ModRm, tail: Tail, a: Arg, b: Arg) -> Form {
    Form { sel, modrm, tail, a, b, c: Arg::Absent }
}

/// An instruction that is its opcode alone.
pub open spec fn alone(op: Op) -> Form {
    entry(Sel::Is(op), ModRm::Absent, Tail::Nothing, Arg::Absent, Arg::Absent)
}

/// The width by the lowest bit of an opcode: a byte, or the operand size.
pub open spec fn width_bit(b: u8) -> Width {
    if b % 2 == 0 {
        Width::Byte
    } else {
        Width::Operand
    }
}

/// An immediate of the width by the lowest bit of an opcode.
pub open spec fn immediate_bit(b: u8) -> Tail {
    if b % 2 == 0 {
        Tail::Byte
    } else {
        Tail::Full
    }
}

/// The element of a string instruction by the lowest bit of its opcode.
pub open spec fn element_bit(b: u8, o16: bool) -> Bits {
    if b % 2 == 0 {
        Bits::B8
    } else if o16 {
        Bits::B16
    } else {
        Bits::B32
    }
}

/// The opcodes below 0x40: bits 3 to 5 number the operation; the lowest bit is
/// the width, the next one says which operand is the destination, and the third
/// makes it the accumulator with an immediate. The rest push and pop segment
/// registers or adjust digits.
pub proof fn opcodes_below_40(b: u8, o16: bool)
    requires
        b < 0x40,
    ensures
        ({
            let f = one_byte_form(b, o16);
            let w = width_bit(b);
            let op = if b < 8 {
                AluOp::Add
            } else if b < 0x10 {
                AluOp::Or
            } else if b < 0x18 {
                AluOp::Adc
            } else if b < 0x20 {
                AluOp::Sbb
            } else if b < 0x28 {
                AluOp::And
            } else if b < 0x30 {
                AluOp::Sub
            } else if b < 0x38 {
                AluOp::Xor
            } else {
                AluOp::Cmp
            };
            let sel = Sel::Is(Op::Alu(op));
            &&& b % 8 < 2 ==> f == entry(sel, ModRm::Plain, Tail::Nothing, Arg::Rm(w), Arg::Reg(w))
            &&& 2 <= b % 8 < 4 ==> f == entry(
                sel,
                ModRm::Plain,
                Tail::Nothing,
                Arg::Reg(w),
                Arg::Rm(w),
            )
            &&& 4 <= b % 8 < 6 ==> f == entry(
                sel,
                ModRm::Absent,
                immediate_bit(b),
                Arg::Acc(w),
                Arg::Imm,
            )
            &&& b == 0x06 || b == 0x0E || b == 0x16 || b == 0x1E ==> f == entry(
                Sel::Is(Op::Push),
                ModRm::Absent,
                Tail::Nothing,
                Arg::Sreg(Seg::of((b / 8) as u8)),
                Arg::Absent,
            )
            &&& b == 0x07 || b == 0x17 || b == 0x1F ==> f
                == alone(Op::PopSeg(Seg::of((b / 8) as u8)))
            &&& b == 0x27 ==> f == alone(Op::Daa)
            &&& b == 0x2F ==> f == alone(Op::Das)
            &&& b == 0x37 ==> f == alone(Op::Aaa)
            &&& b == 0x3F ==> f == alone(Op::Aas)
        }),
{
}

/// Segment registers are numbered ES, CS, SS, DS, FS, GS.
pub proof fn segment_numbers()
    ensures
        Seg::of(0) == Seg::Es && Seg::of(1) == Seg::Cs && Seg::of(2) == Seg::Ss && Seg::of(3)
            == Seg::Ds
            && Seg::of(4) == Seg::Fs && Seg::of(5) == Seg::Gs,
        Seg::Es.number() == 0 && Seg::Cs.number() == 1 && Seg::Ss.number() == 2
            && Seg::Ds.number() == 3
            && Seg::Fs.number() == 4 && Seg::Gs.number() == 5,
{
}

/// Conditions are numbered O, B, E, Be, S, P, L, Le, each followed by its opposite.
pub proof fn condition_numbers(n: u8)
    ensures
        n % 16 == 0 ==> Cond::of(n) == Cond::O,
        n % 16 == 1 ==> Cond::of(n) == Cond::No,
        n % 16 == 2 ==> Cond::of(n) == Cond::B,
        n % 16 == 3 ==> Cond::of(n) == Cond::Ae,
        n % 16 == 4 ==> Cond::of(n) == Cond::E,
        n % 16 == 5 ==> Cond::of(n) == Cond::Ne,
        n % 16 == 6 ==> Cond::of(n) == Cond::Be,
        n % 16 == 7 ==> Cond::of(n) == Cond::A,
        n % 16 == 8 ==> Cond::of(n) == Cond::S,
        n % 16 == 9 ==> Cond::of(n) == Cond::Ns,
        n % 16 == 10 ==> Cond::of(n) == Cond::P,
        n % 16 == 11 ==> Cond::of(n) == Cond::Np,
        n % 16 == 12 ==> Cond::of(n) == Cond::L,
        n % 16 == 13 ==> Cond::of(n) == Cond::Ge,
        n % 16 == 14 ==> Cond::of(n) == Cond::Le,
        n % 16 == 15 ==> Cond::of(n) == Cond::G,
{
}

/// The opcodes from 0x40 to 0x7F: INC, DEC, PUSH and POP of the register that
/// the low three bits number, the sixteen conditional jumps, and what came with
/// the 186 and the 386.
pub proof fn opcodes_from_40(b: u8, o16: bool)
    requires
        0x40 <= b < 0x80,
    ensures
        ({
            let f = one_byte_form(b, o16);
            let r = Arg::Fixed((b % 8) as u8, Width::Operand);
            let w = Width::Operand;
            &&& 0x40 <= b < 0x48 ==> f == entry(
                Sel::Is(Op::Inc),
                ModRm::Absent,
                Tail::Nothing,
                r,
                Arg::Absent,
            )
            &&& 0x48 <= b < 0x50 ==> f == entry(
                Sel::Is(Op::Dec),
                ModRm::Absent,
                Tail::Nothing,
                r,
                Arg::Absent,
            )
            &&& 0x50 <= b < 0x58 ==> f == entry(
                Sel::Is(Op::Push),
                ModRm::Absent,
                Tail::Nothing,
                r,
                Arg::Absent,
            )
            &&& 0x58 <= b < 0x60 ==> f == entry(
                Sel::Is(Op::Pop),
                ModRm::Absent,
                Tail::Nothing,
                r,
                Arg::Absent,
            )
            &&& b == 0x60 ==> f == alone(Op::PushA)
            &&& b == 0x61 ==> f == alone(Op::PopA)
            &&& b == 0x62 ==> f == entry(
                Sel::BoundMem,
                ModRm::Plain,
                Tail::Nothing,
                Arg::Reg(w),
                Arg::Rm(w),
            )
            &&& b == 0x63 ==> f == entry(
                Sel::Is(Op::Arpl),
                ModRm::Plain,
                Tail::Nothing,
                Arg::Rm(Width::Dword),
                Arg::Reg(Width::Word),
            )
            &&& b == 0x68 ==> f == entry(
                Sel::Is(Op::Push),
                ModRm::Absent,
                Tail::Full,
                Arg::Imm,
                Arg::Absent,
            )
            &&& b == 0x6A ==> f == entry(
                Sel::Is(Op::Push),
                ModRm::Absent,
                Tail::SignedByte,
                Arg::ImmSext,
                Arg::Absent,
            )
            &&& b == 0x69 ==> f == (Form {
                c: Arg::Imm,
                ..entry(
                    Sel::Is(Op::Imul1),
                    ModRm::Plain,
                    Tail::Full,
                    Arg::Reg(w),
                    Arg::Rm(w),
                )
            })
            &&& b == 0x6B ==> f == (Form {
                c: Arg::ImmSext,
                ..entry(
                    Sel::Is(Op::Imul1),
                    ModRm::Plain,
                    Tail::SignedByte,
                    Arg::Reg(w),
                    Arg::Rm(w),
                )
            })
            &&& b == 0x6C || b == 0x6D ==> f == alone(Op::Ins(element_bit(b, o16)))
            &&& b == 0x6E || b == 0x6F ==> f == alone(Op::Outs(element_bit(b, o16)))
            &&& 0x70 <= b < 0x80 ==> f == entry(
                Sel::Is(Op::Jcc(Cond::of(b))),
                ModRm::Absent,
                Tail::SignedByte,
                Arg::Rel,
                Arg::Absent,
            )
        }),
{
}

/// The opcodes from 0x80 to 0xBF: immediates for the ALU, TEST, XCHG, MOV
/// between operands, the accumulator and the memory at an offset, string
/// instructions, and MOV of an immediate to the register that the low three
/// bits number.
pub proof fn opcodes_from_80(b: u8, o16: bool)
    requires
        0x80 <= b < 0xC0,
    ensures
        ({
            let f = one_byte_form(b, o16);
            let w = width_bit(b);
            let g1 = Sel::Group1;
            let full = Width::Operand;
            let (rm, reg) = (Arg::Rm(w), Arg::Reg(w));
            let none = Tail::Nothing;
            &&& b == 0x80 || b == 0x81 || b == 0x82 ==> f == entry(
                g1,
                ModRm::Plain,
                immediate_bit(b),
                rm,
                Arg::Imm,
            )
            &&& b == 0x83 ==> f == entry(g1, ModRm::Plain, Tail::SignedByte, rm, Arg::ImmSext)
            &&& b == 0x84 || b == 0x85 ==> f
                == entry(Sel::Is(Op::Test), ModRm::Plain, none, rm, reg)
            &&& b == 0x86 || b == 0x87 ==> f
                == entry(Sel::Is(Op::Xchg), ModRm::Plain, none, rm, reg)
            &&& b == 0x88 || b == 0x89 ==> f == entry(Sel::Is(Op::Mov), ModRm::Plain, none, rm, reg)
            &&& b == 0x8A || b == 0x8B ==> f == entry(Sel::Is(Op::Mov), ModRm::Plain, none, reg, rm)
            &&& b == 0x8C ==> f == entry(
                Sel::Is(Op::MovSreg2Rm),
                ModRm::Plain,
                none,
                Arg::Rm(Width::Word),
                Arg::SregField,
            )
            &&& b == 0x8D ==> f == entry(
                Sel::LeaMem,
                ModRm::Plain,
                none,
                Arg::Reg(full),
                Arg::Rm(full),
            )
            &&& b == 0x8E ==> f == entry(
                Sel::LoadSreg,
                ModRm::Plain,
                none,
                Arg::SregField,
                Arg::Rm(Width::Word),
            )
            &&& b == 0x8F ==> f == entry(Sel::Is(Op::Pop), ModRm::Plain, none, rm, Arg::Absent)
            &&& b == 0x90 ==> f == alone(Op::Nop)
            &&& 0x91 <= b < 0x98 ==> f == entry(
                Sel::Is(Op::Xchg),
                ModRm::Absent,
                none,
                Arg::Acc(full),
                Arg::Fixed((b % 8) as u8, full),
            )
            &&& b == 0x98 ==> f == alone(Op::Cbw)
            &&& b == 0x99 ==> f == alone(Op::Cwd)
            &&& b == 0x9A ==> f == entry(
                Sel::Is(Op::Call { far: true }),
                ModRm::Absent,
                Tail::Far,
                Arg::Far,
                Arg::Absent,
            )
            &&& b == 0x9B ==> f == alone(Op::Wait)
            &&& b == 0x9C ==> f == alone(Op::PushF)
            &&& b == 0x9D ==> f == alone(Op::PopF)
            &&& b == 0x9E ==> f == alone(Op::Sahf)
            &&& b == 0x9F ==> f == alone(Op::Lahf)
            &&& b == 0xA0 || b == 0xA1 ==> f == entry(
                Sel::Is(Op::Mov),
                ModRm::Absent,
                Tail::Moffs,
                Arg::Acc(w),
                Arg::Moffs(w),
            )
            &&& b == 0xA2 || b == 0xA3 ==> f == entry(
                Sel::Is(Op::Mov),
                ModRm::Absent,
                Tail::Moffs,
                Arg::Moffs(w),
                Arg::Acc(w),
            )
            &&& b == 0xA4 || b == 0xA5 ==> f == alone(Op::Movs(element_bit(b, o16)))
            &&& b == 0xA6 || b == 0xA7 ==> f == alone(Op::Cmps(element_bit(b, o16)))
            &&& b == 0xA8 || b == 0xA9 ==> f == entry(
                Sel::Is(Op::Test),
                ModRm::Absent,
                immediate_bit(b),
                Arg::Acc(w),
                Arg::Imm,
            )
            &&& b == 0xAA || b == 0xAB ==> f == alone(Op::Stos(element_bit(b, o16)))
            &&& b == 0xAC || b == 0xAD ==> f == alone(Op::Lods(element_bit(b, o16)))
            &&& b == 0xAE || b == 0xAF ==> f == alone(Op::Scas(element_bit(b, o16)))
            &&& 0xB0 <= b < 0xB8 ==> f == entry(
                Sel::Is(Op::Mov),
                ModRm::Absent,
                Tail::Byte,
                Arg::Fixed((b % 8) as u8, Width::Byte),
                Arg::Imm,
            )
            &&& 0xB8 <= b ==> f == entry(
                Sel::Is(Op::Mov),
                ModRm::Absent,
                Tail::Full,
                Arg::Fixed((b % 8) as u8, full),
                Arg::Imm,
            )
        }),
{
}

/// The opcodes from 0xC0 on: shifts by an immediate, by 1 and by CL, returns,
/// far pointer loads, interrupts, jumps, ports, flags and the groups that the
/// reg field divides.
pub proof fn opcodes_from_c0(b: u8, o16: bool)
    requires
        0xC0 <= b,
    ensures
        ({
            let f = one_byte_form(b, o16);
            let w = width_bit(b);
            let full = Width::Operand;
            let none = Tail::Nothing;
            &&& b == 0xC0 || b == 0xC1 ==> f == entry(
                Sel::Group2Imm,
                ModRm::ImmFirst,
                none,
                Arg::Rm(w),
                Arg::Absent,
            )
            &&& b == 0xC2 || b == 0xCA ==> f == entry(
                Sel::RetImm(b == 0xCA),
                ModRm::Absent,
                Tail::Word,
                Arg::Absent,
                Arg::Absent,
            )
            &&& b == 0xC3 ==> f == alone(Op::Ret { far: false, imm: None })
            &&& b == 0xCB ==> f == alone(Op::Ret { far: true, imm: None })
            &&& b == 0xC4 || b == 0xC5 ==> f == entry(
                Sel::FarLoad(
                    if b == 0xC4 {
                        Op::Les
                    } else {
                        Op::Lds
                    },
                ),
                ModRm::Plain,
                none,
                Arg::Reg(full),
                Arg::Rm(full),
            )
            &&& b == 0xC6 || b == 0xC7 ==> f == entry(
                Sel::Is(Op::Mov),
                ModRm::Plain,
                immediate_bit(b),
                Arg::Rm(w),
                Arg::Imm,
            )
            &&& b == 0xC8 ==> f == entry(
                Sel::Frame,
                ModRm::Absent,
                Tail::Frame,
                Arg::Absent,
                Arg::Absent,
            )
            &&& b == 0xC9 ==> f == alone(Op::Leave)
            &&& b == 0xCC ==> f == alone(Op::Int3)
            &&& b == 0xCD ==> f == entry(
                Sel::Vector,
                ModRm::Absent,
                Tail::Byte,
                Arg::Absent,
                Arg::Absent,
            )
            &&& b == 0xCE ==> f == alone(Op::Into)
            &&& b == 0xCF ==> f == alone(Op::Iret)
            &&& 0xD0 <= b < 0xD4 ==> f == entry(
                Sel::Group2(
                    if b < 0xD2 {
                        ShiftBy::One
                    } else {
                        ShiftBy::Cl
                    },
                ),
                ModRm::Plain,
                none,
                Arg::Rm(w),
                Arg::Absent,
            )
            &&& b == 0xD4 || b == 0xD5 ==> f == entry(
                Sel::Is(
                    if b == 0xD4 {
                        Op::Aam
                    } else {
                        Op::Aad
                    },
                ),
                ModRm::Absent,
                Tail::Byte,
                Arg::Absent,
                Arg::Absent,
            )
            &&& b == 0xD6 ==> f == alone(Op::Salc)
            &&& b == 0xD7 ==> f == alone(Op::Xlat)
            &&& 0xD8 <= b < 0xE0 ==> f == entry(
                Sel::Is(Op::Nop),
                ModRm::Plain,
                none,
                Arg::Absent,
                Arg::Absent,
            )
            &&& 0xE0 <= b < 0xE4 ==> f == entry(
                Sel::Is(
                    if b == 0xE0 {
                        Op::Loop(Some(0xE0))
                    } else if b == 0xE1 {
                        Op::Loop(Some(0xE1))
                    } else if b == 0xE2 {
                        Op::Loop(None)
                    } else {
                        Op::Jcxz
                    },
                ),
                ModRm::Absent,
                Tail::SignedByte,
                Arg::Rel,
                Arg::Absent,
            )
            &&& b == 0xE4 || b == 0xE5 ==> f == entry(
                Sel::Is(Op::In),
                ModRm::Absent,
                Tail::Byte,
                Arg::Acc(w),
                Arg::Port,
            )
            &&& b == 0xE6 || b == 0xE7 ==> f == entry(
                Sel::Is(Op::Out),
                ModRm::Absent,
                Tail::Byte,
                Arg::Port,
                Arg::Acc(w),
            )
            &&& b == 0xE8 || b == 0xE9 ==> f == entry(
                Sel::Is(
                    if b == 0xE8 {
                        Op::Call { far: false }
                    } else {
                        Op::Jump { far: false }
                    },
                ),
                ModRm::Absent,
                Tail::SignedFull,
                Arg::Rel,
                Arg::Absent,
            )
            &&& b == 0xEA ==> f == entry(
                Sel::Is(Op::Jump { far: true }),
                ModRm::Absent,
                Tail::Far,
                Arg::Far,
                Arg::Absent,
            )
            &&& b == 0xEB ==> f == entry(
                Sel::Is(Op::Jump { far: false }),
                ModRm::Absent,
                Tail::SignedByte,
                Arg::Rel,
                Arg::Absent,
            )
            &&& b == 0xEC || b == 0xED ==> f == entry(
                Sel::Is(Op::In),
                ModRm::Absent,
                none,
                Arg::Acc(w),
                Arg::Dx,
            )
            &&& b == 0xEE || b == 0xEF ==> f == entry(
                Sel::Is(Op::Out),
                ModRm::Absent,
                none,
                Arg::Dx,
                Arg::Acc(w),
            )
            &&& b == 0xF1 ==> f == alone(Op::Int(1))
            &&& b == 0xF4 ==> f == alone(Op::Hlt)
            &&& b == 0xF5 ==> f == alone(Op::Cmc)
            &&& b == 0xF6 || b == 0xF7 ==> f == entry(
                Sel::Group3,
                ModRm::Plain,
                if b == 0xF6 {
                    Tail::TestByte
                } else {
                    Tail::TestFull
                },
                Arg::Rm(w),
                Arg::TestImm,
            )
            &&& b == 0xF8 ==> f == alone(Op::Clc)
            &&& b == 0xF9 ==> f == alone(Op::Stc)
            &&& b == 0xFA ==> f == alone(Op::Cli)
            &&& b == 0xFB ==> f == alone(Op::Sti)
            &&& b == 0xFC ==> f == alone(Op::Cld)
            &&& b == 0xFD ==> f == alone(Op::Std)
            &&& b == 0xFE || b == 0xFF ==> f == entry(
                if b == 0xFE {
                    Sel::Group4
                } else {
                    Sel::Group5
                },
                ModRm::Plain,
                none,
                Arg::Rm(w),
                Arg::Absent,
            )
        }),
{
}

/// The opcodes behind 0x0F below 0x80.
pub proof fn second_opcodes_below_80(b: u8)
    requires
        b < 0x80,
    ensures
        ({
            let f = two_byte_form(b);
            let full = Width::Operand;
            let none = Tail::Nothing;
            let word = Arg::Rm(Width::Word);
            &&& b == 0 ==> f == entry(Sel::Group6, ModRm::Plain, none, word, Arg::Absent)
            &&& b == 1 ==> f == entry(Sel::Group7, ModRm::Plain, none, word, Arg::Absent)
            &&& b == 2 || b == 3 ==> f == entry(
                Sel::Is(
                    if b == 2 {
                        Op::Lar
                    } else {
                        Op::Lsl
                    },
                ),
                ModRm::Plain,
                none,
                Arg::Reg(full),
                word,
            )
            &&& b == 6 ==> f == alone(Op::Clts)
            &&& b == 7 || b == 8 ==> f == alone(Op::Invd)
            &&& b == 9 ==> f == alone(Op::Wbinvd)
            &&& 0x20 <= b < 0x24 ==> f == (Form {
                c: Arg::Number(
                    if b < 0x22 {
                        0
                    } else {
                        1
                    },
                ),
                ..entry(
                    if b % 2 == 0 {
                        Sel::Control
                    } else {
                        Sel::Debug
                    },
                    ModRm::Plain,
                    none,
                    Arg::RegNumber,
                    Arg::Rm(Width::Dword),
                )
            })
            &&& b == 0x30 ==> f == alone(Op::Wrmsr)
            &&& b == 0x31 ==> f == alone(Op::Rdtsc)
            &&& b == 0x32 ==> f == alone(Op::Rdmsr)
            &&& 0x40 <= b < 0x50 ==> f == entry(
                Sel::Is(Op::Cmov(Cond::of(b))),
                ModRm::Plain,
                none,
                Arg::Reg(full),
                Arg::Rm(full),
            )
        }),
{
}

/// The opcodes behind 0x0F from 0x80 on: long conditional jumps, SETcc, bit
/// tests, double shifts, exchanges, far pointer loads and widening moves.
pub proof fn second_opcodes_from_80(b: u8)
    requires
        b >= 0x80,
    ensures
        ({
            let f = two_byte_form(b);
            let full = Width::Operand;
            let none = Tail::Nothing;
            let (rm, reg) = (Arg::Rm(full), Arg::Reg(full));
            &&& b < 0x90 ==> f == entry(
                Sel::Is(Op::Jcc(Cond::of(b))),
                ModRm::Absent,
                Tail::SignedFull,
                Arg::Rel,
                Arg::Absent,
            )
            &&& 0x90 <= b < 0xA0 ==> f == entry(
                Sel::Is(Op::Setcc(Cond::of(b))),
                ModRm::Plain,
                none,
                Arg::Rm(Width::Byte),
                Arg::Absent,
            )
            &&& b == 0xA0 || b == 0xA8 ==> f == entry(
                Sel::Is(Op::Push),
                ModRm::Absent,
                none,
                Arg::Sreg(
                    if b == 0xA0 {
                        Seg::Fs
                    } else {
                        Seg::Gs
                    },
                ),
                Arg::Absent,
            )
            &&& b == 0xA1 ==> f == alone(Op::PopSeg(Seg::Fs))
            &&& b == 0xA9 ==> f == alone(Op::PopSeg(Seg::Gs))
            &&& b == 0xA2 ==> f == alone(Op::Cpuid)
            &&& b == 0xA3 ==> f == entry(Sel::Is(Op::Bit(BitOp::Bt)), ModRm::Plain, none, rm, reg)
            &&& b == 0xAB ==> f == entry(Sel::Is(Op::Bit(BitOp::Bts)), ModRm::Plain, none, rm, reg)
            &&& b == 0xB3 ==> f == entry(Sel::Is(Op::Bit(BitOp::Btr)), ModRm::Plain, none, rm, reg)
            &&& b == 0xBB ==> f == entry(Sel::Is(Op::Bit(BitOp::Btc)), ModRm::Plain, none, rm, reg)
            &&& b == 0xA4 || b == 0xAC ==> f == entry(
                Sel::DshiftImm(b == 0xA4),
                ModRm::ImmFirst,
                none,
                rm,
                reg,
            )
            &&& b == 0xA5 || b == 0xAD ==> f == entry(
                Sel::Is(Op::Dshift(b == 0xA5, ShiftBy::Cl)),
                ModRm::Plain,
                none,
                rm,
                reg,
            )
            &&& b == 0xAF ==> f == entry(Sel::Is(Op::Imul1), ModRm::Plain, none, reg, rm)
            &&& b == 0xB0 || b == 0xB1 ==> f == entry(
                Sel::Is(Op::CmpXchg),
                ModRm::Plain,
                none,
                Arg::Rm(width_bit(b)),
                Arg::Reg(width_bit(b)),
            )
            &&& b == 0xB2 ==> f == entry(Sel::FarLoad(Op::Lss), ModRm::Plain, none, reg, rm)
            &&& b == 0xB4 ==> f == entry(Sel::FarLoad(Op::Lfs), ModRm::Plain, none, reg, rm)
            &&& b == 0xB5 ==> f == entry(Sel::FarLoad(Op::Lgs), ModRm::Plain, none, reg, rm)
            &&& b == 0xB6 || b == 0xB7 ==> f == entry(
                Sel::Is(Op::Movzx(b == 0xB6)),
                ModRm::Plain,
                none,
                reg,
                Arg::Rm(width_bit(b)),
            )
            &&& b == 0xBE || b == 0xBF ==> f == entry(
                Sel::Is(Op::Movsx(b == 0xBE)),
                ModRm::Plain,
                none,
                reg,
                Arg::Rm(width_bit(b)),
            )
            &&& b == 0xBA ==> f == entry(Sel::Group8, ModRm::ImmFirst, none, rm, Arg::FirstImm)
            &&& b == 0xC0 || b == 0xC1 ==> f == entry(
                Sel::Is(Op::Xadd),
                ModRm::Plain,
                none,
                Arg::Rm(width_bit(b)),
                Arg::Reg(width_bit(b)),
            )
            &&& b == 0xBC ==> f == entry(Sel::Is(Op::Bit(BitOp::Bsf)), ModRm::Plain, none, reg, rm)
            &&& b == 0xBD ==> f == entry(Sel::Is(Op::Bit(BitOp::Bsr)), ModRm::Plain, none, reg, rm)
            &&& 0xC8 <= b < 0xD0 ==> f.sel == Sel::Is(Op::Bswap) && f.a == Arg::Fixed(
                (b % 8) as u8,
                Width::Dword,
            ) && f.modrm == ModRm::Absent && f.tail == none
        }),
{
}

/// What the operands of an entry are: the r/m field names the memory operand or
/// a register, bits 3 to 5 of the ModRM byte the other register or a segment
/// register, and immediates, displacements, far pointers, ports and offsets
/// come from the bytes at the end.
pub proof fn operands_of_entries(p: Prefixes, f: Fields, t: TailVal, w: Width, n: u8, g: Seg, k: u32)
    ensures
        ({
            let size = match w {
                Width::Byte => Bits::B8,
                Width::Word => Bits::B16,
                Width::Dword => Bits::B32,
                Width::Operand => if p.o16 {
                    Bits::B16
                } else {
                    Bits::B32
                },
            };
            let reg = (f.modrm / 8 % 8) as u8;
            let signed: int = if t.x < 0x8000_0000 {
                t.x as int
            } else {
                t.x - 0x1_0000_0000
            };
            &&& operand(Arg::Absent, p, f, t) == Opnd::Absent
            &&& f.mem is Some ==> operand(Arg::Rm(w), p, f, t) == Opnd::Mem(f.mem->Some_0, size)
            &&& f.mem is None ==> operand(Arg::Rm(w), p, f, t) == Opnd::Reg(
                (f.modrm % 8) as u8,
                size,
            )
            &&& operand(Arg::Reg(w), p, f, t) == Opnd::Reg(reg, size)
            &&& operand(Arg::Fixed(n, w), p, f, t) == Opnd::Reg(n, size)
            &&& operand(Arg::SregField, p, f, t) == Opnd::Sreg(Seg::of(reg))
            &&& operand(Arg::Sreg(g), p, f, t) == Opnd::Sreg(g)
            &&& operand(Arg::Acc(w), p, f, t) == Opnd::Acc(size)
            &&& operand(Arg::Imm, p, f, t) == Opnd::Imm(t.x)
            &&& operand(Arg::ImmSext, p, f, t) == Opnd::ImmSext(t.x)
            &&& operand(Arg::TestImm, p, f, t) == (if reg < 2 {
                Opnd::Imm(t.x)
            } else {
                Opnd::Absent
            })
            &&& operand(Arg::FirstImm, p, f, t) == Opnd::Imm(f.first as u32)
            &&& operand(Arg::Rel, p, f, t) == (Opnd::Rel { disp: signed as i32 })
            &&& operand(Arg::Far, p, f, t) == (Opnd::FarPtr { sel: t.y, off: t.x })
            &&& operand(Arg::Port, p, f, t) == Opnd::Port((t.x % 0x1_0000) as u16)
            &&& operand(Arg::Dx, p, f, t) == Opnd::Dx
            &&& operand(Arg::RegNumber, p, f, t) == Opnd::Imm(reg as u32)
            &&& operand(Arg::Number(k), p, f, t) == Opnd::Imm(k)
            &&& operand(Arg::Moffs(w), p, f, t) == Opnd::Mem(
                MemRef {
                    seg: if p.seg is Some {
                        p.seg->Some_0
                    } else {
                        Seg::Ds
                    },
                    base: None,
                    index: None,
                    scale: 1,
                    disp: signed as i32,
                    a16: p.a16,
                },
                size,
            )
        }),
{
    lemma_casts(0, 0, t.x);
}

/// What the reg field selects in the groups.
pub proof fn groups_by_the_reg_field(f: Fields, t: TailVal, by: ShiftBy)
    ensures
        ({
            let n = f.modrm / 8 % 8;
            let alu = operation(Sel::Group1, f, t);
            let sh = operation(Sel::Group2(by), f, t);
            let si = operation(Sel::Group2Imm, f, t);
            let g3 = operation(Sel::Group3, f, t);
            let g4 = operation(Sel::Group4, f, t);
            let g5 = operation(Sel::Group5, f, t);
            let g6 = operation(Sel::Group6, f, t);
            let g7 = operation(Sel::Group7, f, t);
            let g8 = operation(Sel::Group8, f, t);
            let i = ShiftBy::Imm(f.first);
            &&& n == 0 ==> alu == Op::Alu(AluOp::Add) && sh == Op::Shift(ShiftKind::Rol, by) && si
                == Op::Shift(ShiftKind::Rol, i) && g3 == Op::Test && g4 == Op::Inc && g5
                    == Op::Inc && g6
                == Op::Sldt && g7 == Op::Sgdt
            &&& n == 1 ==> alu == Op::Alu(AluOp::Or) && sh == Op::Shift(ShiftKind::Ror, by) && si
                == Op::Shift(ShiftKind::Ror, i) && g3 == Op::Test && g4 == Op::Dec && g5
                    == Op::Dec && g6
                == Op::Str && g7 == Op::Sidt
            &&& n == 2 ==> alu == Op::Alu(AluOp::Adc) && sh == Op::Shift(ShiftKind::Rcl, by) && si
                == Op::Shift(ShiftKind::Rcl, i) && g3 == Op::Not && g5
                    == (Op::Call { far: false }) && g6
                == Op::Lldt && g7 == Op::Lgdt
            &&& n == 3 ==> alu == Op::Alu(AluOp::Sbb) && sh == Op::Shift(ShiftKind::Rcr, by) && si
                == Op::Shift(ShiftKind::Rcr, i) && g3 == Op::Neg && g5
                    == (Op::Call { far: true }) && g6
                == Op::Ltr && g7 == Op::Lidt
            &&& n == 4 ==> alu == Op::Alu(AluOp::And) && sh == Op::Shift(ShiftKind::Shl, by) && si
                == Op::Shift(ShiftKind::Shl, i) && g3 == Op::Mul && g5
                    == (Op::Jump { far: false }) && g6
                == Op::VErr(true) && g7 == Op::Smsw && g8 == Op::Bit(BitOp::Bt)
            &&& n == 5 ==> alu == Op::Alu(AluOp::Sub) && sh == Op::Shift(ShiftKind::Shr, by) && si
                == Op::Shift(ShiftKind::Shr, i) && g3 == Op::Imul && g5
                    == (Op::Jump { far: true }) && g6
                == Op::VErr(false) && g7 == Op::Lmsw && g8 == Op::Bit(BitOp::Bts)
            &&& n == 6 ==> alu == Op::Alu(AluOp::Xor) && sh == Op::Shift(ShiftKind::Shl, by) && si
                == Op::Shift(ShiftKind::Shl, i) && g3 == Op::Div && g5 == Op::Push && g7
                    == Op::Invlpg && g8
                == Op::Bit(BitOp::Btr)
            &&& n == 7 ==> alu == Op::Alu(AluOp::Cmp) && sh == Op::Shift(ShiftKind::Sar, by) && si
                == Op::Shift(ShiftKind::Sar, i) && g3 == Op::Idiv && g8 == Op::Bit(BitOp::Btc)
        }),
{
}

/// What the other selections stand for, and which encodings have no meaning:
/// the empty places of the groups, memory where a register is needed, and
/// registers where memory is.
pub proof fn selections_and_refusals(f: Fields, t: TailVal, op: Op, flag: bool)
    ensures
        ({
            let n = f.modrm / 8 % 8;
            let ok = Ok::<(), Seq<char>>(());
            &&& operation(Sel::Is(op), f, t) == op && operation(Sel::FarLoad(op), f, t) == op
            &&& operation(Sel::DshiftImm(flag), f, t) == Op::Dshift(flag, ShiftBy::Imm(f.first))
            &&& operation(Sel::BoundMem, f, t) == Op::Bound && operation(Sel::LeaMem, f, t)
                == Op::Lea
            &&& operation(Sel::LoadSreg, f, t) == Op::MovRm2Sreg
                && operation(Sel::Control, f, t) == Op::MovCr
                && operation(Sel::Debug, f, t) == Op::MovDr
            &&& operation(Sel::RetImm(flag), f, t) == (Op::Ret {
                far: flag,
                imm: Some((t.x % 0x1_0000) as u16),
            })
            &&& t.y < 0x100 ==> operation(Sel::Frame, f, t) == Op::Enter(
                (t.x % 0x1_0000) as u16,
                t.y as u8,
            )
            &&& operation(Sel::Vector, f, t) == Op::Int((t.x % 0x100) as u8)
            &&& accepted(Sel::Is(op), f) == ok && accepted(Sel::Group1, f) == ok
                && accepted(Sel::Group3, f)
                == ok
            &&& accepted(Sel::Group4, f) is Ok <==> n < 2
            &&& accepted(Sel::Group5, f) is Ok <==> n < 7
            &&& accepted(Sel::Group6, f) is Ok <==> n < 6
            &&& accepted(Sel::Group7, f) is Ok <==> n < 7 && f.mem is Some
            &&& accepted(Sel::Group8, f) is Ok <==> n >= 4
            &&& accepted(Sel::BoundMem, f) is Ok <==> f.mem is Some
            &&& accepted(Sel::LeaMem, f) is Ok <==> f.mem is Some
            &&& accepted(Sel::FarLoad(op), f) is Ok <==> f.mem is Some
            &&& accepted(Sel::LoadSreg, f) is Ok <==> n != 1
            &&& accepted(Sel::Control, f) is Ok <==> f.mem is None
            &&& accepted(Sel::Debug, f) is Ok <==> f.mem is None
        }),
{
    lemma_casts(0, 0, t.x);
}

/// The bytes at the end: how many there are and which number they make. A
/// signed byte or word stands for its value modulo 2^32.
pub proof fn numbers_at_the_end(s: CpuState, p: Prefixes, at: u32)
    requires
        at < 0x100,
    ensures
        ({
            let here = s.eip.wrapping_add(at);
            let b = s.fetch8(here);
            let w = s.fetch16(here);
            let d = s.fetch32(here);
            let byte = s.tail_value(Tail::Byte, p, at);
            let signed = s.tail_value(Tail::SignedByte, p, at);
            let word = s.tail_value(Tail::Word, p, at);
            let full = s.tail_value(Tail::Full, p, at);
            let far = s.tail_value(Tail::SignedFull, p, at);
            let moffs = s.tail_value(Tail::Moffs, p, at);
            &&& s.tail_value(Tail::Nothing, p, at) == Ok::<(TailVal, u32), Seq<char>>(
                (TailVal { x: 0, y: 0 }, at),
            )
            &&& byte is Ok <==> b is Ok
            &&& b is Ok ==> byte->Ok_0 == (TailVal { x: b->Ok_0 as u32, y: 0 }, (at + 1) as u32)
            &&& b is Ok ==> signed is Ok && signed->Ok_0 == (
                TailVal { x: (byte_value(b->Ok_0) % 0x1_0000_0000) as u32, y: 0 },
                (at + 1) as u32,
            )
            &&& w is Ok ==> word is Ok && word->Ok_0 == (
                TailVal { x: w->Ok_0 as u32, y: 0 },
                (at + 2) as u32,
            )
            &&& p.o16 && w is Ok ==> full == word
            &&& !p.o16 && d is Ok ==> full is Ok && full->Ok_0 == (
                TailVal { x: d->Ok_0, y: 0 },
                (at + 4) as u32,
            )
            &&& !p.o16 && d is Ok ==> far == full
            &&& p.o16 && w is Ok ==> far is Ok && far->Ok_0 == (
                TailVal {
                    x: (if w->Ok_0 < 0x8000 {
                        w->Ok_0 as int
                    } else {
                        w->Ok_0 + 0xFFFF_0000
                    }) as u32,
                    y: 0,
                },
                (at + 2) as u32,
            )
            &&& p.a16 && w is Ok ==> moffs == word
            &&& !p.a16 && d is Ok ==> moffs is Ok && moffs->Ok_0 == (
                TailVal { x: d->Ok_0, y: 0 },
                (at + 4) as u32,
            )
        }),
{
    let here = s.eip.wrapping_add(at);
    if let Ok(w) = s.fetch16(here) {
        lemma_casts(w, 0, 0);
    }
}

/// A far pointer is its offset and then its selector; ENTER has a word and then
/// a byte. TEST alone of its group has an immediate.
pub proof fn pairs_at_the_end(s: CpuState, p: Prefixes, f: Fields, at: u32)
    requires
        at < 0x100,
    ensures
        ({
            let here = s.eip.wrapping_add(at);
            let step: u32 = if p.o16 {
                2
            } else {
                4
            };
            let off = s.tail_value(Tail::Full, p, at);
            let sel = s.fetch16(s.eip.wrapping_add((at + step) as u32));
            let w = s.fetch16(here);
            let b = s.fetch8(s.eip.wrapping_add((at + 2) as u32));
            let far = s.tail_value(Tail::Far, p, at);
            let frame = s.tail_value(Tail::Frame, p, at);
            let n = f.modrm / 8 % 8;
            &&& off is Ok && sel is Ok ==> far is Ok && far->Ok_0 == (
                TailVal { x: off->Ok_0.0.x, y: sel->Ok_0 },
                (at + step + 2) as u32,
            )
            &&& w is Ok && b is Ok ==> frame is Ok && frame->Ok_0 == (
                TailVal { x: w->Ok_0 as u32, y: b->Ok_0 as u16 },
                (at + 3) as u32,
            )
            &&& settled(Tail::TestByte, f) == (if n < 2 {
                Tail::Byte
            } else {
                Tail::Nothing
            })
            &&& settled(Tail::TestFull, f) == (if n < 2 {
                Tail::Full
            } else {
                Tail::Nothing
            })
        }),
{
}

/// How an instruction is put together: its ModRM byte and what follows it, the
/// bytes at the end, and the attributes of its prefixes. Its length is where
/// its bytes end.
pub proof fn instructions_are_put_together(s: CpuState, form: Form, p: Prefixes, at: u32)
    requires
        at < 0x40,
        form.modrm == ModRm::Plain,
    ensures
        ({
            let first = s.fetch8(s.eip.wrapping_add(at));
            let modrm = first->Ok_0;
            let rest = s.rm_mem(modrm, p, (at + 1) as u32);
            let (mem, mid) = rest->Ok_0;
            let f = Fields { modrm, first: 0, mem };
            let tail = s.tail_value(settled(form.tail, f), p, mid);
            let r = s.formed(form, p, at);
            let i = r->Ok_0;
            &&& first is Ok && rest is Ok && accepted(form.sel, f) is Ok && tail is Ok ==> {
                &&& r is Ok
                &&& i.op == operation(form.sel, f, tail->Ok_0.0)
                &&& i.o0 == operand(form.a, p, f, tail->Ok_0.0)
                &&& i.o1 == operand(form.b, p, f, tail->Ok_0.0)
                &&& i.o2 == operand(form.c, p, f, tail->Ok_0.0)
                &&& tail->Ok_0.1 < 0x100 ==> i.len == tail->Ok_0.1
                &&& i.rep == p.rep && i.lock == p.lock && i.o16 == p.o16 && i.a16 == p.a16
                    && i.seg_override == p.seg
            }
            &&& first is Err || rest is Err || accepted(form.sel, f) is Err || tail is Err
                ==> r is Err
        }),
{
}

/// An immediate that comes first stands between the ModRM byte and the rest of
/// the operand; without a ModRM byte the bytes at the end follow the opcode.
pub proof fn fields_follow_the_opcode(s: CpuState, p: Prefixes, at: u32)
    requires
        at < 0x40,
    ensures
        s.fields(ModRm::Absent, p, at) == Ok::<(Fields, u32), Seq<char>>(
            (Fields { modrm: 0, first: 0, mem: None }, at),
        ),
        ({
            let b = s.fetch8(s.eip.wrapping_add(at));
            let c = s.fetch8(s.eip.wrapping_add((at + 1) as u32));
            let rest = s.rm_mem(b->Ok_0, p, (at + 2) as u32);
            b is Ok && c is Ok && rest is Ok ==> s.fields(ModRm::ImmFirst, p, at) == Ok::<
                (Fields, u32),
                Seq<char>,
            >((Fields { modrm: b->Ok_0, first: c->Ok_0, mem: rest->Ok_0.0 }, rest->Ok_0.1))
        }),
{
}

/// How an encoding without a meaning is reported.
pub proof fn refusals_say_why(f: Fields, op: Op)
    ensures
        ({
            let n = f.modrm / 8 % 8;
            &&& n >= 2 ==> accepted(Sel::Group4, f)->Err_0 == "group FE undefined"@
            &&& n == 7 ==> accepted(Sel::Group5, f)->Err_0 == "group FF undefined"@
            &&& n >= 6 ==> accepted(Sel::Group6, f)->Err_0 == "group 6 undefined"@
            &&& f.mem is None ==> accepted(Sel::Group7, f)->Err_0 == "group 7 needs memory operand"@
            &&& f.mem is Some && n == 7 ==> accepted(Sel::Group7, f)->Err_0 == "group 7 undefined"@
            &&& n < 4 ==> accepted(Sel::Group8, f)->Err_0 == "group 8 undefined"@
            &&& f.mem is None ==> accepted(Sel::BoundMem, f)->Err_0 == "BOUND with register operand"@
            &&& f.mem is None ==> accepted(Sel::LeaMem, f)->Err_0 == "LEA with register operand"@
            &&& f.mem is None ==> accepted(Sel::FarLoad(op), f)->Err_0
                == "LDS/ES/SS/FS/GS with register operand"@
            &&& n == 1 ==> accepted(Sel::LoadSreg, f)->Err_0 == "MOV CS,r/m unsupported"@
            &&& f.mem is Some ==> accepted(Sel::Control, f)->Err_0 == "MOV CR needs register"@
            &&& f.mem is Some ==> accepted(Sel::Debug, f)->Err_0 == "MOV DR needs register"@
        }),
{
}

/// Opcodes that no entry names stand for themselves as unsupported ones.
pub proof fn other_opcodes_are_unsupported(b: u8, o16: bool)
    ensures
        b == 0x0F || b == 0x26 || b == 0x2E || b == 0x36 || b == 0x3E || b == 0x64 || b
            == 0x65 || b == 0x66 || b
            == 0x67 || b == 0xF0 || b == 0xF2 || b == 0xF3 ==> one_byte_form(b, o16) == alone(
            Op::Unsupported(b),
        ),
        b == 4 || b == 5 || (0x0A <= b < 0x20) || (0x24 <= b < 0x30) || (0x33 <= b < 0x40)
            || (0x50 <= b < 0x80) || b
            == 0xA6 || b == 0xA7 || b == 0xAA || b == 0xAE || b == 0xB8 || b == 0xB9
                || (0xC2 <= b < 0xC8) || b
            >= 0xD0 ==> two_byte_form(b) == alone(Op::TwoByte(b)),
{
}

/// A byte load in 16-bit code: 0x8A and a ModRM byte with a memory operand
/// decode to MOV of the byte register that bits 3 to 5 number from the memory
/// at the offset that the 8086 table gives for the r/m field.
pub proof fn byte_loads_are_decoded(s: CpuState, modrm: u8)
    requires
        s.cr[0] & 1 == 0,
        s.fetch8(s.eip) == Ok::<u8, Seq<char>>(0x8A),
        s.fetch8(s.eip.wrapping_add(1)) == Ok::<u8, Seq<char>>(modrm),
        modrm < 0xC0,
    ensures
        ({
            let i = s.decoded()->Ok_0;
            let byte = s.fetch8(s.eip.wrapping_add(2));
            let word = s.fetch16(s.eip.wrapping_add(2));
            let (bx, bp, si, di) = (
                s.gpr[3] as int,
                s.gpr[5] as int,
                s.gpr[6] as int,
                s.gpr[7] as int,
            );
            let d: int = if modrm / 64 == 1 {
                byte_value(byte->Ok_0)
            } else if modrm / 64 == 2 || modrm % 8 == 6 {
                word->Ok_0 as int
            } else {
                0
            };
            let ea = s.ea(i.o1->Mem_0);
            &&& s.decoded() is Ok
            &&& i.op == Op::Mov
            &&& i.o0 == Opnd::Reg((modrm / 8 % 8) as u8, Bits::B8)
            &&& i.o1 is Mem
            &&& i.o1->Mem_1 == Bits::B8
            &&& modrm % 8 == 0 ==> ea == (bx + si + d) % 0x1_0000
            &&& modrm % 8 == 1 ==> ea == (bx + di + d) % 0x1_0000
            &&& modrm % 8 == 2 ==> ea == (bp + si + d) % 0x1_0000
            &&& modrm % 8 == 3 ==> ea == (bp + di + d) % 0x1_0000
            &&& modrm % 8 == 4 ==> ea == (si + d) % 0x1_0000
            &&& modrm % 8 == 5 ==> ea == (di + d) % 0x1_0000
            &&& modrm % 8 == 6 && modrm / 64 != 0 ==> ea == (bp + d) % 0x1_0000
            &&& modrm % 8 == 6 && modrm / 64 == 0 ==> ea == d
            &&& modrm % 8 == 7 ==> ea == (bx + d) % 0x1_0000
            &&& i.len == (if modrm / 64 == 1 {
                3int
            } else if modrm / 64 == 2 || (modrm / 64 == 0 && modrm % 8 == 6) {
                4
            } else {
                2
            })
        }),
{
    let p = Prefixes {
        o16: true,
        a16: true,
        lock: false,
        rep: Rep::Single,
        seg: None,
        len: 0,
    };
    opcode_comes_first(s);
    opcodes_from_80(0x8A, true);
    let form = one_byte_form(0x8A, true);
    prefix_bytes(p, 0x8A, true);
    instructions_are_put_together(s, form, p, 1);
    sixteen_bit_operands(s, modrm, p, 2);
    assert(s.fetch16(s.eip.wrapping_add(2)) is Ok && s.fetch8(s.eip.wrapping_add(2)) is Ok);
    let (mem, mid) = s.rm_mem(modrm, p, 2)->Ok_0;
    numbers_at_the_end(s, p, mid);
    let f = Fields { modrm, first: 0, mem };
    operands_of_entries(p, f, TailVal { x: 0, y: 0 }, Width::Byte, 0, Seg::Ds, 0);
    selections_and_refusals(f, TailVal { x: 0, y: 0 }, Op::Mov, false);
}

} // verus!
