//! The opcode map: for every opcode byte, which operation it stands for, which
//! operands it has and which bytes follow it.

use vstd::prelude::*;

use crate::cpu::Seg;
use crate::decode::{AluOp, BitOp, Bits, Cond, Op, ShiftBy};

verus! {

/// The width of an operand, as the opcode fixes it.
#[derive(Debug, Clone, Copy, PartialEq, Eq, Structural)]
pub enum Width {
    Byte,
    Word,
    Dword,
    /// 16 or 32 bits by the operand-size attribute.
    Operand,
}

impl Width {
    pub open spec fn of(self, o16: bool) -> Bits {
        match self {
            Width::Byte => Bits::B8,
            Width::Word => Bits::B16,
            Width::Dword => Bits::B32,
            Width::Operand => Bits::by_attribute(o16),
        }
    }

    pub fn bits(self, o16: bool) -> (b: Bits)
        ensures
            b == self.of(o16),
    {
        match self {
            Width::Byte => Bits::B8,
            Width::Word => Bits::B16,
            Width::Dword => Bits::B32,
            Width::Operand => if o16 {
                Bits::B16
            } else {
                Bits::B32
            },
        }
    }
}

/// Where an operand comes from.
#[derive(Debug, Clone, Copy, PartialEq, Eq, Structural)]
pub enum Arg {
    Absent,
    /// The register or memory operand of the ModRM byte.
    Rm(Width),
    /// The register that the reg field of the ModRM byte numbers.
    Reg(Width),
    /// A register that the opcode numbers.
    Fixed(u8, Width),
    /// The segment register that the reg field numbers.
    SregField,
    Sreg(Seg),
    Acc(Width),
    /// The immediate at the end of the instruction.
    Imm,
    ImmSext,
    /// That immediate where the instruction is TEST.
    TestImm,
    /// The immediate that stands right behind the ModRM byte.
    FirstImm,
    Rel,
    Far,
    Port,
    Dx,
    /// Memory at the absolute offset at the end of the instruction.
    Moffs(Width),
    /// The reg field itself, as a number.
    RegNumber,
    Number(u32),
}

/// Which bytes follow the opcode besides those at the end.
#[derive(Debug, Clone, Copy, PartialEq, Eq, Structural)]
pub enum ModRm {
    Absent,
    /// ModRM, SIB and displacement.
    Plain,
    /// ModRM, an immediate byte, SIB and displacement.
    ImmFirst,
}

/// Which bytes end the instruction.
#[derive(Debug, Clone, Copy, PartialEq, Eq, Structural)]
pub enum Tail {
    Nothing,
    Byte,
    SignedByte,
    Word,
    /// 2 or 4 bytes by the operand-size attribute.
    Full,
    SignedFull,
    /// `Byte` where the reg field says TEST.
    TestByte,
    /// `Full` where the reg field says TEST.
    TestFull,
    /// A word and a byte (ENTER).
    Frame,
    /// An offset by the operand-size attribute and a selector.
    Far,
    /// 2 or 4 bytes by the address-size attribute.
    Moffs,
}

/// How the operation is found.
#[derive(Debug, Clone, Copy, PartialEq, Eq, Structural)]
pub enum Sel {
    Is(Op),
    /// ALU operation by the reg field.
    Group1,
    /// Shift or rotate by the reg field.
    Group2(ShiftBy),
    Group2Imm,
    /// TEST, NOT, NEG, MUL, IMUL, DIV, IDIV by the reg field.
    Group3,
    /// INC and DEC of a byte.
    Group4,
    /// INC, DEC, CALL, JMP and PUSH of r/m.
    Group5,
    Group6,
    Group7,
    /// Bit tests with an immediate.
    Group8,
    DshiftImm(bool),
    BoundMem,
    LeaMem,
    /// A far pointer load.
    FarLoad(Op),
    LoadSreg,
    Control,
    Debug,
    RetImm(bool),
    Frame,
    Vector,
}

/// One entry of the opcode map.
#[derive(Debug, Clone, Copy, PartialEq, Eq, Structural)]
pub struct Form {
    pub sel: Sel,
    pub modrm: ModRm,
    pub tail: Tail,
    pub a: Arg,
    pub b: Arg,
    pub c: Arg,
}

impl Form {
    /// The registers that the opcode itself numbers exist.
    pub open spec fn wf(self) -> bool {
        &&& self.a matches Arg::Fixed(r, _) ==> r < 8
        &&& self.b matches Arg::Fixed(r, _) ==> r < 8
        &&& self.c matches Arg::Fixed(r, _) ==> r < 8
    }

    /// No operand.
    pub open spec fn plain_spec(op: Op) -> Form {
        Form {
            sel: Sel::Is(op),
            modrm: ModRm::Absent,
            tail: Tail::Nothing,
            a: Arg::Absent,
            b: Arg::Absent,
            c: Arg::Absent,
        }
    }

    fn plain(op: Op) -> (f: Form)
        ensures
            f == Form::plain_spec(op),
    {
        Form {
            sel: Sel::Is(op),
            modrm: ModRm::Absent,
            tail: Tail::Nothing,
            a: Arg::Absent,
            b: Arg::Absent,
            c: Arg::Absent,
        }
    }

    /// No operand; the bytes at the end belong to the operation.
    pub open spec fn tailed_spec(sel: Sel, tail: Tail) -> Form {
        Form { sel, modrm: ModRm::Absent, tail, a: Arg::Absent, b: Arg::Absent, c: Arg::Absent }
    }

    fn tailed(sel: Sel, tail: Tail) -> (f: Form)
        ensures
            f == Form::tailed_spec(sel, tail),
    {
        Form { sel, modrm: ModRm::Absent, tail, a: Arg::Absent, b: Arg::Absent, c: Arg::Absent }
    }

    /// Operands without a ModRM byte.
    pub open spec fn args_spec(op: Op, tail: Tail, a: Arg, b: Arg) -> Form {
        Form { sel: Sel::Is(op), modrm: ModRm::Absent, tail, a, b, c: Arg::Absent }
    }

    fn args(op: Op, tail: Tail, a: Arg, b: Arg) -> (f: Form)
        ensures
            f == Form::args_spec(op, tail, a, b),
    {
        Form { sel: Sel::Is(op), modrm: ModRm::Absent, tail, a, b, c: Arg::Absent }
    }

    /// Operands with a ModRM byte.
    pub open spec fn rm_spec(sel: Sel, tail: Tail, a: Arg, b: Arg) -> Form {
        Form { sel, modrm: ModRm::Plain, tail, a, b, c: Arg::Absent }
    }

    fn rm(sel: Sel, tail: Tail, a: Arg, b: Arg) -> (f: Form)
        ensures
            f == Form::rm_spec(sel, tail, a, b),
    {
        Form { sel, modrm: ModRm::Plain, tail, a, b, c: Arg::Absent }
    }

    /// Three operands with a ModRM byte.
    pub open spec fn rm3_spec(op: Op, tail: Tail, a: Arg, b: Arg, c: Arg) -> Form {
        Form { sel: Sel::Is(op), modrm: ModRm::Plain, tail, a, b, c }
    }

    fn rm3(op: Op, tail: Tail, a: Arg, b: Arg, c: Arg) -> (f: Form)
        ensures
            f == Form::rm3_spec(op, tail, a, b, c),
    {
        Form { sel: Sel::Is(op), modrm: ModRm::Plain, tail, a, b, c }
    }

    /// A ModRM byte that an immediate follows.
    pub open spec fn imm_first_spec(sel: Sel, a: Arg, b: Arg) -> Form {
        Form { sel, modrm: ModRm::ImmFirst, tail: Tail::Nothing, a, b, c: Arg::Absent }
    }

    fn imm_first(sel: Sel, a: Arg, b: Arg) -> (f: Form)
        ensures
            f == Form::imm_first_spec(sel, a, b),
    {
        Form { sel, modrm: ModRm::ImmFirst, tail: Tail::Nothing, a, b, c: Arg::Absent }
    }

    /// A move to (1) or from (0) a control or debug register.
    pub open spec fn system_reg_spec(sel: Sel, to: u32) -> Form {
        Form {
            sel,
            modrm: ModRm::Plain,
            tail: Tail::Nothing,
            a: Arg::RegNumber,
            b: Arg::Rm(Width::Dword),
            c: Arg::Number(to),
        }
    }

    fn system_reg(sel: Sel, to: u32) -> (f: Form)
        ensures
            f == Form::system_reg_spec(sel, to),
    {
        Form {
            sel,
            modrm: ModRm::Plain,
            tail: Tail::Nothing,
            a: Arg::RegNumber,
            b: Arg::Rm(Width::Dword),
            c: Arg::Number(to),
        }
    }
}

/// The ALU operation that three bits of an opcode or of a reg field number.
pub open spec fn alu_number(n: u8) -> AluOp {
    match n {
        0 => AluOp::Add,
        1 => AluOp::Or,
        2 => AluOp::Adc,
        3 => AluOp::Sbb,
        4 => AluOp::And,
        5 => AluOp::Sub,
        6 => AluOp::Xor,
        _ => AluOp::Cmp,
    }
}

/// The ALU operation that three bits of an opcode or of a reg field number.
pub fn alu_op(n: u8) -> (op: AluOp)
    ensures
        op == alu_number(n),
{
    match n {
        0 => AluOp::Add,
        1 => AluOp::Or,
        2 => AluOp::Adc,
        3 => AluOp::Sbb,
        4 => AluOp::And,
        5 => AluOp::Sub,
        6 => AluOp::Xor,
        _ => AluOp::Cmp,
    }
}

/// The ALU opcodes below 0x40: eight operations in six addressing forms each.
pub open spec fn alu_form_spec(b: u8) -> Form {
    let op = Op::Alu(alu_number((b / 8) as u8));
    match b % 8 {
        0 => Form::rm_spec(Sel::Is(op), Tail::Nothing, Arg::Rm(Width::Byte), Arg::Reg(Width::Byte)),
        1 => Form::rm_spec(
            Sel::Is(op),
            Tail::Nothing,
            Arg::Rm(Width::Operand),
            Arg::Reg(Width::Operand),
        ),
        2 => Form::rm_spec(Sel::Is(op), Tail::Nothing, Arg::Reg(Width::Byte), Arg::Rm(Width::Byte)),
        3 => Form::rm_spec(
            Sel::Is(op),
            Tail::Nothing,
            Arg::Reg(Width::Operand),
            Arg::Rm(Width::Operand),
        ),
        4 => Form::args_spec(op, Tail::Byte, Arg::Acc(Width::Byte), Arg::Imm),
        _ => Form::args_spec(op, Tail::Full, Arg::Acc(Width::Operand), Arg::Imm),
    }
}

fn alu_form(b: u8) -> (f: Form)
    ensures
        f == alu_form_spec(b),
{
    let op = Op::Alu(alu_op(b / 8));
    match b % 8 {
        0 => Form::rm(Sel::Is(op), Tail::Nothing, Arg::Rm(Width::Byte), Arg::Reg(Width::Byte)),
        1 => Form::rm(
            Sel::Is(op),
            Tail::Nothing,
            Arg::Rm(Width::Operand),
            Arg::Reg(Width::Operand),
        ),
        2 => Form::rm(Sel::Is(op), Tail::Nothing, Arg::Reg(Width::Byte), Arg::Rm(Width::Byte)),
        3 => Form::rm(
            Sel::Is(op),
            Tail::Nothing,
            Arg::Reg(Width::Operand),
            Arg::Rm(Width::Operand),
        ),
        4 => Form::args(op, Tail::Byte, Arg::Acc(Width::Byte), Arg::Imm),
        _ => Form::args(op, Tail::Full, Arg::Acc(Width::Operand), Arg::Imm),
    }
}

/// Opcodes below 0x40 outside the ALU block.
pub open spec fn row0_form(b: u8) -> Form {
    match b {
        0x06 => Form::args_spec(Op::Push, Tail::Nothing, Arg::Sreg(Seg::Es), Arg::Absent),
        0x07 => Form::plain_spec(Op::PopSeg(Seg::Es)),
        0x0E => Form::args_spec(Op::Push, Tail::Nothing, Arg::Sreg(Seg::Cs), Arg::Absent),
        0x16 => Form::args_spec(Op::Push, Tail::Nothing, Arg::Sreg(Seg::Ss), Arg::Absent),
        0x17 => Form::plain_spec(Op::PopSeg(Seg::Ss)),
        0x1E => Form::args_spec(Op::Push, Tail::Nothing, Arg::Sreg(Seg::Ds), Arg::Absent),
        0x1F => Form::plain_spec(Op::PopSeg(Seg::Ds)),
        0x27 => Form::plain_spec(Op::Daa),
        0x2F => Form::plain_spec(Op::Das),
        0x37 => Form::plain_spec(Op::Aaa),
        0x3F => Form::plain_spec(Op::Aas),
        _ => Form::plain_spec(Op::Unsupported(b)),
    }
}

fn row0(b: u8) -> (f: Form)
    ensures
        f == row0_form(b),
{
    match b {
        0x06 => Form::args(Op::Push, Tail::Nothing, Arg::Sreg(Seg::Es), Arg::Absent),
        0x07 => Form::plain(Op::PopSeg(Seg::Es)),
        0x0E => Form::args(Op::Push, Tail::Nothing, Arg::Sreg(Seg::Cs), Arg::Absent),
        0x16 => Form::args(Op::Push, Tail::Nothing, Arg::Sreg(Seg::Ss), Arg::Absent),
        0x17 => Form::plain(Op::PopSeg(Seg::Ss)),
        0x1E => Form::args(Op::Push, Tail::Nothing, Arg::Sreg(Seg::Ds), Arg::Absent),
        0x1F => Form::plain(Op::PopSeg(Seg::Ds)),
        0x27 => Form::plain(Op::Daa),
        0x2F => Form::plain(Op::Das),
        0x37 => Form::plain(Op::Aaa),
        0x3F => Form::plain(Op::Aas),
        _ => Form::plain(Op::Unsupported(b)),
    }
}

/// Opcodes 0x40 to 0x7F.
pub open spec fn row4_form(b: u8, o16: bool) -> Form {
    let size = Bits::by_attribute(o16);
    let low3 = (b % 8) as u8;
    match b {
        _ if 0x40 <= b <= 0x47 => Form::args_spec(
            Op::Inc,
            Tail::Nothing,
            Arg::Fixed(low3, Width::Operand),
            Arg::Absent,
        ),
        _ if 0x48 <= b <= 0x4F => Form::args_spec(
            Op::Dec,
            Tail::Nothing,
            Arg::Fixed(low3, Width::Operand),
            Arg::Absent,
        ),
        _ if 0x50 <= b <= 0x57 => Form::args_spec(
            Op::Push,
            Tail::Nothing,
            Arg::Fixed(low3, Width::Operand),
            Arg::Absent,
        ),
        _ if 0x58 <= b <= 0x5F => Form::args_spec(
            Op::Pop,
            Tail::Nothing,
            Arg::Fixed(low3, Width::Operand),
            Arg::Absent,
        ),
        0x60 => Form::plain_spec(Op::PushA),
        0x61 => Form::plain_spec(Op::PopA),
        0x62 => Form::rm_spec(
            Sel::BoundMem,
            Tail::Nothing,
            Arg::Reg(Width::Operand),
            Arg::Rm(Width::Operand),
        ),
        0x63 => Form::rm_spec(
            Sel::Is(Op::Arpl),
            Tail::Nothing,
            Arg::Rm(Width::Dword),
            Arg::Reg(Width::Word),
        ),
        0x68 => Form::args_spec(Op::Push, Tail::Full, Arg::Imm, Arg::Absent),
        0x69 => Form::rm3_spec(
            Op::Imul1,
            Tail::Full,
            Arg::Reg(Width::Operand),
            Arg::Rm(Width::Operand),
            Arg::Imm,
        ),
        0x6A => Form::args_spec(Op::Push, Tail::SignedByte, Arg::ImmSext, Arg::Absent),
        0x6B => Form::rm3_spec(
            Op::Imul1,
            Tail::SignedByte,
            Arg::Reg(Width::Operand),
            Arg::Rm(Width::Operand),
            Arg::ImmSext,
        ),
        0x6C => Form::plain_spec(Op::Ins(Bits::B8)),
        0x6D => Form::plain_spec(Op::Ins(size)),
        0x6E => Form::plain_spec(Op::Outs(Bits::B8)),
        0x6F => Form::plain_spec(Op::Outs(size)),
        _ if 0x70 <= b <= 0x7F => Form::args_spec(
            Op::Jcc(Cond::of(b)),
            Tail::SignedByte,
            Arg::Rel,
            Arg::Absent,
        ),
        _ => Form::plain_spec(Op::Unsupported(b)),
    }
}

fn row4(b: u8, o16: bool) -> (f: Form)
    ensures
        f == row4_form(b, o16),
{
    let size = Width::Operand.bits(o16);
    let low3: u8 = b % 8;
    match b {
        0x40..=0x47 => Form::args(
            Op::Inc,
            Tail::Nothing,
            Arg::Fixed(low3, Width::Operand),
            Arg::Absent,
        ),
        0x48..=0x4F => Form::args(
            Op::Dec,
            Tail::Nothing,
            Arg::Fixed(low3, Width::Operand),
            Arg::Absent,
        ),
        0x50..=0x57 => Form::args(
            Op::Push,
            Tail::Nothing,
            Arg::Fixed(low3, Width::Operand),
            Arg::Absent,
        ),
        0x58..=0x5F => Form::args(
            Op::Pop,
            Tail::Nothing,
            Arg::Fixed(low3, Width::Operand),
            Arg::Absent,
        ),
        0x60 => Form::plain(Op::PushA),
        0x61 => Form::plain(Op::PopA),
        0x62 => Form::rm(
            Sel::BoundMem,
            Tail::Nothing,
            Arg::Reg(Width::Operand),
            Arg::Rm(Width::Operand),
        ),
        0x63 => Form::rm(
            Sel::Is(Op::Arpl),
            Tail::Nothing,
            Arg::Rm(Width::Dword),
            Arg::Reg(Width::Word),
        ),
        0x68 => Form::args(Op::Push, Tail::Full, Arg::Imm, Arg::Absent),
        0x69 => Form::rm3(
            Op::Imul1,
            Tail::Full,
            Arg::Reg(Width::Operand),
            Arg::Rm(Width::Operand),
            Arg::Imm,
        ),
        0x6A => Form::args(Op::Push, Tail::SignedByte, Arg::ImmSext, Arg::Absent),
        0x6B => Form::rm3(
            Op::Imul1,
            Tail::SignedByte,
            Arg::Reg(Width::Operand),
            Arg::Rm(Width::Operand),
            Arg::ImmSext,
        ),
        0x6C => Form::plain(Op::Ins(Bits::B8)),
        0x6D => Form::plain(Op::Ins(size)),
        0x6E => Form::plain(Op::Outs(Bits::B8)),
        0x6F => Form::plain(Op::Outs(size)),
        0x70..=0x7F => Form::args(
            Op::Jcc(Cond::from_opcode(b)),
            Tail::SignedByte,
            Arg::Rel,
            Arg::Absent,
        ),
        _ => Form::plain(Op::Unsupported(b)),
    }
}

/// Opcodes 0x80 to 0xBF.
pub open spec fn row8_form(b: u8, o16: bool) -> Form {
    let size = Bits::by_attribute(o16);
    let low3 = (b % 8) as u8;
    match b {
        0x80 | 0x82 => Form::rm_spec(Sel::Group1, Tail::Byte, Arg::Rm(Width::Byte), Arg::Imm),
        0x81 => Form::rm_spec(Sel::Group1, Tail::Full, Arg::Rm(Width::Operand), Arg::Imm),
        0x83 => Form::rm_spec(Sel::Group1, Tail::SignedByte, Arg::Rm(Width::Operand), Arg::ImmSext),
        0x84 => Form::rm_spec(
            Sel::Is(Op::Test),
            Tail::Nothing,
            Arg::Rm(Width::Byte),
            Arg::Reg(Width::Byte),
        ),
        0x85 => Form::rm_spec(
            Sel::Is(Op::Test),
            Tail::Nothing,
            Arg::Rm(Width::Operand),
            Arg::Reg(Width::Operand),
        ),
        0x86 => Form::rm_spec(
            Sel::Is(Op::Xchg),
            Tail::Nothing,
            Arg::Rm(Width::Byte),
            Arg::Reg(Width::Byte),
        ),
        0x87 => Form::rm_spec(
            Sel::Is(Op::Xchg),
            Tail::Nothing,
            Arg::Rm(Width::Operand),
            Arg::Reg(Width::Operand),
        ),
        0x88 => Form::rm_spec(
            Sel::Is(Op::Mov),
            Tail::Nothing,
            Arg::Rm(Width::Byte),
            Arg::Reg(Width::Byte),
        ),
        0x89 => Form::rm_spec(
            Sel::Is(Op::Mov),
            Tail::Nothing,
            Arg::Rm(Width::Operand),
            Arg::Reg(Width::Operand),
        ),
        0x8A => Form::rm_spec(
            Sel::Is(Op::Mov),
            Tail::Nothing,
            Arg::Reg(Width::Byte),
            Arg::Rm(Width::Byte),
        ),
        0x8B => Form::rm_spec(
            Sel::Is(Op::Mov),
            Tail::Nothing,
            Arg::Reg(Width::Operand),
            Arg::Rm(Width::Operand),
        ),
        0x8C => Form::rm_spec(
            Sel::Is(Op::MovSreg2Rm),
            Tail::Nothing,
            Arg::Rm(Width::Word),
            Arg::SregField,
        ),
        0x8D => Form::rm_spec(
            Sel::LeaMem,
            Tail::Nothing,
            Arg::Reg(Width::Operand),
            Arg::Rm(Width::Operand),
        ),
        0x8E => Form::rm_spec(Sel::LoadSreg, Tail::Nothing, Arg::SregField, Arg::Rm(Width::Word)),
        0x8F => Form::rm_spec(
            Sel::Is(Op::Pop),
            Tail::Nothing,
            Arg::Rm(Width::Operand),
            Arg::Absent,
        ),
        0x90 => Form::plain_spec(Op::Nop),
        _ if 0x91 <= b <= 0x97 => Form::args_spec(
            Op::Xchg,
            Tail::Nothing,
            Arg::Acc(Width::Operand),
            Arg::Fixed(low3, Width::Operand),
        ),
        0x98 => Form::plain_spec(Op::Cbw),
        0x99 => Form::plain_spec(Op::Cwd),
        0x9A => Form::args_spec(Op::Call { far: true }, Tail::Far, Arg::Far, Arg::Absent),
        0x9B => Form::plain_spec(Op::Wait),
        0x9C => Form::plain_spec(Op::PushF),
        0x9D => Form::plain_spec(Op::PopF),
        0x9E => Form::plain_spec(Op::Sahf),
        0x9F => Form::plain_spec(Op::Lahf),
        0xA0 => Form::args_spec(
            Op::Mov,
            Tail::Moffs,
            Arg::Acc(Width::Byte),
            Arg::Moffs(Width::Byte),
        ),
        0xA1 => Form::args_spec(
            Op::Mov,
            Tail::Moffs,
            Arg::Acc(Width::Operand),
            Arg::Moffs(Width::Operand),
        ),
        0xA2 => Form::args_spec(
            Op::Mov,
            Tail::Moffs,
            Arg::Moffs(Width::Byte),
            Arg::Acc(Width::Byte),
        ),
        0xA3 => Form::args_spec(
            Op::Mov,
            Tail::Moffs,
            Arg::Moffs(Width::Operand),
            Arg::Acc(Width::Operand),
        ),
        0xA4 => Form::plain_spec(Op::Movs(Bits::B8)),
        0xA5 => Form::plain_spec(Op::Movs(size)),
        0xA6 => Form::plain_spec(Op::Cmps(Bits::B8)),
        0xA7 => Form::plain_spec(Op::Cmps(size)),
        0xA8 => Form::args_spec(Op::Test, Tail::Byte, Arg::Acc(Width::Byte), Arg::Imm),
        0xA9 => Form::args_spec(Op::Test, Tail::Full, Arg::Acc(Width::Operand), Arg::Imm),
        0xAA => Form::plain_spec(Op::Stos(Bits::B8)),
        0xAB => Form::plain_spec(Op::Stos(size)),
        0xAC => Form::plain_spec(Op::Lods(Bits::B8)),
        0xAD => Form::plain_spec(Op::Lods(size)),
        0xAE => Form::plain_spec(Op::Scas(Bits::B8)),
        0xAF => Form::plain_spec(Op::Scas(size)),
        _ if 0xB0 <= b <= 0xB7 => Form::args_spec(
            Op::Mov,
            Tail::Byte,
            Arg::Fixed(low3, Width::Byte),
            Arg::Imm,
        ),
        _ if 0xB8 <= b <= 0xBF => Form::args_spec(
            Op::Mov,
            Tail::Full,
            Arg::Fixed(low3, Width::Operand),
            Arg::Imm,
        ),
        _ => Form::plain_spec(Op::Unsupported(b)),
    }
}

fn row8(b: u8, o16: bool) -> (f: Form)
    ensures
        f == row8_form(b, o16),
{
    let size = Width::Operand.bits(o16);
    let low3: u8 = b % 8;
    match b {
        0x80 | 0x82 => Form::rm(Sel::Group1, Tail::Byte, Arg::Rm(Width::Byte), Arg::Imm),
        0x81 => Form::rm(Sel::Group1, Tail::Full, Arg::Rm(Width::Operand), Arg::Imm),
        0x83 => Form::rm(Sel::Group1, Tail::SignedByte, Arg::Rm(Width::Operand), Arg::ImmSext),
        0x84 => Form::rm(
            Sel::Is(Op::Test),
            Tail::Nothing,
            Arg::Rm(Width::Byte),
            Arg::Reg(Width::Byte),
        ),
        0x85 => Form::rm(
            Sel::Is(Op::Test),
            Tail::Nothing,
            Arg::Rm(Width::Operand),
            Arg::Reg(Width::Operand),
        ),
        0x86 => Form::rm(
            Sel::Is(Op::Xchg),
            Tail::Nothing,
            Arg::Rm(Width::Byte),
            Arg::Reg(Width::Byte),
        ),
        0x87 => Form::rm(
            Sel::Is(Op::Xchg),
            Tail::Nothing,
            Arg::Rm(Width::Operand),
            Arg::Reg(Width::Operand),
        ),
        0x88 => Form::rm(
            Sel::Is(Op::Mov),
            Tail::Nothing,
            Arg::Rm(Width::Byte),
            Arg::Reg(Width::Byte),
        ),
        0x89 => Form::rm(
            Sel::Is(Op::Mov),
            Tail::Nothing,
            Arg::Rm(Width::Operand),
            Arg::Reg(Width::Operand),
        ),
        0x8A => Form::rm(
            Sel::Is(Op::Mov),
            Tail::Nothing,
            Arg::Reg(Width::Byte),
            Arg::Rm(Width::Byte),
        ),
        0x8B => Form::rm(
            Sel::Is(Op::Mov),
            Tail::Nothing,
            Arg::Reg(Width::Operand),
            Arg::Rm(Width::Operand),
        ),
        0x8C => Form::rm(
            Sel::Is(Op::MovSreg2Rm),
            Tail::Nothing,
            Arg::Rm(Width::Word),
            Arg::SregField,
        ),
        0x8D => Form::rm(
            Sel::LeaMem,
            Tail::Nothing,
            Arg::Reg(Width::Operand),
            Arg::Rm(Width::Operand),
        ),
        0x8E => Form::rm(Sel::LoadSreg, Tail::Nothing, Arg::SregField, Arg::Rm(Width::Word)),
        0x8F => Form::rm(Sel::Is(Op::Pop), Tail::Nothing, Arg::Rm(Width::Operand), Arg::Absent),
        0x90 => Form::plain(Op::Nop),
        0x91..=0x97 => Form::args(
            Op::Xchg,
            Tail::Nothing,
            Arg::Acc(Width::Operand),
            Arg::Fixed(low3, Width::Operand),
        ),
        0x98 => Form::plain(Op::Cbw),
        0x99 => Form::plain(Op::Cwd),
        0x9A => Form::args(Op::Call { far: true }, Tail::Far, Arg::Far, Arg::Absent),
        0x9B => Form::plain(Op::Wait),
        0x9C => Form::plain(Op::PushF),
        0x9D => Form::plain(Op::PopF),
        0x9E => Form::plain(Op::Sahf),
        0x9F => Form::plain(Op::Lahf),
        0xA0 => Form::args(Op::Mov, Tail::Moffs, Arg::Acc(Width::Byte), Arg::Moffs(Width::Byte)),
        0xA1 => Form::args(
            Op::Mov,
            Tail::Moffs,
            Arg::Acc(Width::Operand),
            Arg::Moffs(Width::Operand),
        ),
        0xA2 => Form::args(Op::Mov, Tail::Moffs, Arg::Moffs(Width::Byte), Arg::Acc(Width::Byte)),
        0xA3 => Form::args(
            Op::Mov,
            Tail::Moffs,
            Arg::Moffs(Width::Operand),
            Arg::Acc(Width::Operand),
        ),
        0xA4 => Form::plain(Op::Movs(Bits::B8)),
        0xA5 => Form::plain(Op::Movs(size)),
        0xA6 => Form::plain(Op::Cmps(Bits::B8)),
        0xA7 => Form::plain(Op::Cmps(size)),
        0xA8 => Form::args(Op::Test, Tail::Byte, Arg::Acc(Width::Byte), Arg::Imm),
        0xA9 => Form::args(Op::Test, Tail::Full, Arg::Acc(Width::Operand), Arg::Imm),
        0xAA => Form::plain(Op::Stos(Bits::B8)),
        0xAB => Form::plain(Op::Stos(size)),
        0xAC => Form::plain(Op::Lods(Bits::B8)),
        0xAD => Form::plain(Op::Lods(size)),
        0xAE => Form::plain(Op::Scas(Bits::B8)),
        0xAF => Form::plain(Op::Scas(size)),
        0xB0..=0xB7 => Form::args(Op::Mov, Tail::Byte, Arg::Fixed(low3, Width::Byte), Arg::Imm),
        0xB8..=0xBF => Form::args(Op::Mov, Tail::Full, Arg::Fixed(low3, Width::Operand), Arg::Imm),
        _ => Form::plain(Op::Unsupported(b)),
    }
}

/// Opcodes 0xC0 to 0xDF.
pub open spec fn row_c_form(b: u8) -> Form {
    match b {
        0xC0 => Form::imm_first_spec(Sel::Group2Imm, Arg::Rm(Width::Byte), Arg::Absent),
        0xC1 => Form::imm_first_spec(Sel::Group2Imm, Arg::Rm(Width::Operand), Arg::Absent),
        0xC2 => Form::tailed_spec(Sel::RetImm(false), Tail::Word),
        0xC3 => Form::plain_spec(Op::Ret { far: false, imm: None }),
        0xC4 => Form::rm_spec(
            Sel::FarLoad(Op::Les),
            Tail::Nothing,
            Arg::Reg(Width::Operand),
            Arg::Rm(Width::Operand),
        ),
        0xC5 => Form::rm_spec(
            Sel::FarLoad(Op::Lds),
            Tail::Nothing,
            Arg::Reg(Width::Operand),
            Arg::Rm(Width::Operand),
        ),
        0xC6 => Form::rm_spec(Sel::Is(Op::Mov), Tail::Byte, Arg::Rm(Width::Byte), Arg::Imm),
        0xC7 => Form::rm_spec(Sel::Is(Op::Mov), Tail::Full, Arg::Rm(Width::Operand), Arg::Imm),
        0xC8 => Form::tailed_spec(Sel::Frame, Tail::Frame),
        0xC9 => Form::plain_spec(Op::Leave),
        0xCA => Form::tailed_spec(Sel::RetImm(true), Tail::Word),
        0xCB => Form::plain_spec(Op::Ret { far: true, imm: None }),
        0xCC => Form::plain_spec(Op::Int3),
        0xCD => Form::tailed_spec(Sel::Vector, Tail::Byte),
        0xCE => Form::plain_spec(Op::Into),
        0xCF => Form::plain_spec(Op::Iret),
        0xD0 => Form::rm_spec(
            Sel::Group2(ShiftBy::One),
            Tail::Nothing,
            Arg::Rm(Width::Byte),
            Arg::Absent,
        ),
        0xD1 => Form::rm_spec(
            Sel::Group2(ShiftBy::One),
            Tail::Nothing,
            Arg::Rm(Width::Operand),
            Arg::Absent,
        ),
        0xD2 => Form::rm_spec(
            Sel::Group2(ShiftBy::Cl),
            Tail::Nothing,
            Arg::Rm(Width::Byte),
            Arg::Absent,
        ),
        0xD3 => Form::rm_spec(
            Sel::Group2(ShiftBy::Cl),
            Tail::Nothing,
            Arg::Rm(Width::Operand),
            Arg::Absent,
        ),
        0xD4 => Form::tailed_spec(Sel::Is(Op::Aam), Tail::Byte),
        0xD5 => Form::tailed_spec(Sel::Is(Op::Aad), Tail::Byte),
        0xD6 => Form::plain_spec(Op::Salc),
        0xD7 => Form::plain_spec(Op::Xlat),
        _ if 0xD8 <= b <= 0xDF => Form::rm_spec(
            Sel::Is(Op::Nop),
            Tail::Nothing,
            Arg::Absent,
            Arg::Absent,
        ),
        _ => Form::plain_spec(Op::Unsupported(b)),
    }
}

fn row_c(b: u8) -> (f: Form)
    ensures
        f == row_c_form(b),
{
    match b {
        0xC0 => Form::imm_first(Sel::Group2Imm, Arg::Rm(Width::Byte), Arg::Absent),
        0xC1 => Form::imm_first(Sel::Group2Imm, Arg::Rm(Width::Operand), Arg::Absent),
        0xC2 => Form::tailed(Sel::RetImm(false), Tail::Word),
        0xC3 => Form::plain(Op::Ret { far: false, imm: None }),
        0xC4 => Form::rm(
            Sel::FarLoad(Op::Les),
            Tail::Nothing,
            Arg::Reg(Width::Operand),
            Arg::Rm(Width::Operand),
        ),
        0xC5 => Form::rm(
            Sel::FarLoad(Op::Lds),
            Tail::Nothing,
            Arg::Reg(Width::Operand),
            Arg::Rm(Width::Operand),
        ),
        0xC6 => Form::rm(Sel::Is(Op::Mov), Tail::Byte, Arg::Rm(Width::Byte), Arg::Imm),
        0xC7 => Form::rm(Sel::Is(Op::Mov), Tail::Full, Arg::Rm(Width::Operand), Arg::Imm),
        0xC8 => Form::tailed(Sel::Frame, Tail::Frame),
        0xC9 => Form::plain(Op::Leave),
        0xCA => Form::tailed(Sel::RetImm(true), Tail::Word),
        0xCB => Form::plain(Op::Ret { far: true, imm: None }),
        0xCC => Form::plain(Op::Int3),
        0xCD => Form::tailed(Sel::Vector, Tail::Byte),
        0xCE => Form::plain(Op::Into),
        0xCF => Form::plain(Op::Iret),
        0xD0 => Form::rm(
            Sel::Group2(ShiftBy::One),
            Tail::Nothing,
            Arg::Rm(Width::Byte),
            Arg::Absent,
        ),
        0xD1 => Form::rm(
            Sel::Group2(ShiftBy::One),
            Tail::Nothing,
            Arg::Rm(Width::Operand),
            Arg::Absent,
        ),
        0xD2 => Form::rm(
            Sel::Group2(ShiftBy::Cl),
            Tail::Nothing,
            Arg::Rm(Width::Byte),
            Arg::Absent,
        ),
        0xD3 => Form::rm(
            Sel::Group2(ShiftBy::Cl),
            Tail::Nothing,
            Arg::Rm(Width::Operand),
            Arg::Absent,
        ),
        0xD4 => Form::tailed(Sel::Is(Op::Aam), Tail::Byte),
        0xD5 => Form::tailed(Sel::Is(Op::Aad), Tail::Byte),
        0xD6 => Form::plain(Op::Salc),
        0xD7 => Form::plain(Op::Xlat),
        0xD8..=0xDF => Form::rm(Sel::Is(Op::Nop), Tail::Nothing, Arg::Absent, Arg::Absent),
        _ => Form::plain(Op::Unsupported(b)),
    }
}

/// Opcodes 0xE0 to 0xFF.
pub open spec fn row_e_form(b: u8) -> Form {
    match b {
        0xE0 => Form::args_spec(Op::Loop(Some(0xE0)), Tail::SignedByte, Arg::Rel, Arg::Absent),
        0xE1 => Form::args_spec(Op::Loop(Some(0xE1)), Tail::SignedByte, Arg::Rel, Arg::Absent),
        0xE2 => Form::args_spec(Op::Loop(None), Tail::SignedByte, Arg::Rel, Arg::Absent),
        0xE3 => Form::args_spec(Op::Jcxz, Tail::SignedByte, Arg::Rel, Arg::Absent),
        0xE4 => Form::args_spec(Op::In, Tail::Byte, Arg::Acc(Width::Byte), Arg::Port),
        0xE5 => Form::args_spec(Op::In, Tail::Byte, Arg::Acc(Width::Operand), Arg::Port),
        0xE6 => Form::args_spec(Op::Out, Tail::Byte, Arg::Port, Arg::Acc(Width::Byte)),
        0xE7 => Form::args_spec(Op::Out, Tail::Byte, Arg::Port, Arg::Acc(Width::Operand)),
        0xE8 => Form::args_spec(Op::Call { far: false }, Tail::SignedFull, Arg::Rel, Arg::Absent),
        0xE9 => Form::args_spec(Op::Jump { far: false }, Tail::SignedFull, Arg::Rel, Arg::Absent),
        0xEA => Form::args_spec(Op::Jump { far: true }, Tail::Far, Arg::Far, Arg::Absent),
        0xEB => Form::args_spec(Op::Jump { far: false }, Tail::SignedByte, Arg::Rel, Arg::Absent),
        0xEC => Form::args_spec(Op::In, Tail::Nothing, Arg::Acc(Width::Byte), Arg::Dx),
        0xED => Form::args_spec(Op::In, Tail::Nothing, Arg::Acc(Width::Operand), Arg::Dx),
        0xEE => Form::args_spec(Op::Out, Tail::Nothing, Arg::Dx, Arg::Acc(Width::Byte)),
        0xEF => Form::args_spec(Op::Out, Tail::Nothing, Arg::Dx, Arg::Acc(Width::Operand)),
        0xF1 => Form::plain_spec(Op::Int(1)),
        0xF4 => Form::plain_spec(Op::Hlt),
        0xF5 => Form::plain_spec(Op::Cmc),
        0xF6 => Form::rm_spec(Sel::Group3, Tail::TestByte, Arg::Rm(Width::Byte), Arg::TestImm),
        0xF7 => Form::rm_spec(Sel::Group3, Tail::TestFull, Arg::Rm(Width::Operand), Arg::TestImm),
        0xF8 => Form::plain_spec(Op::Clc),
        0xF9 => Form::plain_spec(Op::Stc),
        0xFA => Form::plain_spec(Op::Cli),
        0xFB => Form::plain_spec(Op::Sti),
        0xFC => Form::plain_spec(Op::Cld),
        0xFD => Form::plain_spec(Op::Std),
        0xFE => Form::rm_spec(Sel::Group4, Tail::Nothing, Arg::Rm(Width::Byte), Arg::Absent),
        0xFF => Form::rm_spec(Sel::Group5, Tail::Nothing, Arg::Rm(Width::Operand), Arg::Absent),
        _ => Form::plain_spec(Op::Unsupported(b)),
    }
}

fn row_e(b: u8) -> (f: Form)
    ensures
        f == row_e_form(b),
{
    match b {
        0xE0 => Form::args(Op::Loop(Some(0xE0)), Tail::SignedByte, Arg::Rel, Arg::Absent),
        0xE1 => Form::args(Op::Loop(Some(0xE1)), Tail::SignedByte, Arg::Rel, Arg::Absent),
        0xE2 => Form::args(Op::Loop(None), Tail::SignedByte, Arg::Rel, Arg::Absent),
        0xE3 => Form::args(Op::Jcxz, Tail::SignedByte, Arg::Rel, Arg::Absent),
        0xE4 => Form::args(Op::In, Tail::Byte, Arg::Acc(Width::Byte), Arg::Port),
        0xE5 => Form::args(Op::In, Tail::Byte, Arg::Acc(Width::Operand), Arg::Port),
        0xE6 => Form::args(Op::Out, Tail::Byte, Arg::Port, Arg::Acc(Width::Byte)),
        0xE7 => Form::args(Op::Out, Tail::Byte, Arg::Port, Arg::Acc(Width::Operand)),
        0xE8 => Form::args(Op::Call { far: false }, Tail::SignedFull, Arg::Rel, Arg::Absent),
        0xE9 => Form::args(Op::Jump { far: false }, Tail::SignedFull, Arg::Rel, Arg::Absent),
        0xEA => Form::args(Op::Jump { far: true }, Tail::Far, Arg::Far, Arg::Absent),
        0xEB => Form::args(Op::Jump { far: false }, Tail::SignedByte, Arg::Rel, Arg::Absent),
        0xEC => Form::args(Op::In, Tail::Nothing, Arg::Acc(Width::Byte), Arg::Dx),
        0xED => Form::args(Op::In, Tail::Nothing, Arg::Acc(Width::Operand), Arg::Dx),
        0xEE => Form::args(Op::Out, Tail::Nothing, Arg::Dx, Arg::Acc(Width::Byte)),
        0xEF => Form::args(Op::Out, Tail::Nothing, Arg::Dx, Arg::Acc(Width::Operand)),
        0xF1 => Form::plain(Op::Int(1)),
        0xF4 => Form::plain(Op::Hlt),
        0xF5 => Form::plain(Op::Cmc),
        0xF6 => Form::rm(Sel::Group3, Tail::TestByte, Arg::Rm(Width::Byte), Arg::TestImm),
        0xF7 => Form::rm(Sel::Group3, Tail::TestFull, Arg::Rm(Width::Operand), Arg::TestImm),
        0xF8 => Form::plain(Op::Clc),
        0xF9 => Form::plain(Op::Stc),
        0xFA => Form::plain(Op::Cli),
        0xFB => Form::plain(Op::Sti),
        0xFC => Form::plain(Op::Cld),
        0xFD => Form::plain(Op::Std),
        0xFE => Form::rm(Sel::Group4, Tail::Nothing, Arg::Rm(Width::Byte), Arg::Absent),
        0xFF => Form::rm(Sel::Group5, Tail::Nothing, Arg::Rm(Width::Operand), Arg::Absent),
        _ => Form::plain(Op::Unsupported(b)),
    }
}

/// The one-byte opcodes, under the operand-size attribute `o16`. 0x0F, the
/// escape to the two-byte opcodes, and the prefixes are not instructions here.
pub open spec fn one_byte_form(b: u8, o16: bool) -> Form {
    if b < 0x40 && b % 8 < 6 {
        alu_form_spec(b)
    } else if b < 0x40 {
        row0_form(b)
    } else if b < 0x80 {
        row4_form(b, o16)
    } else if b < 0xC0 {
        row8_form(b, o16)
    } else if b < 0xE0 {
        row_c_form(b)
    } else {
        row_e_form(b)
    }
}

/// The one-byte opcodes.
pub fn one_byte(b: u8, o16: bool) -> (f: Form)
    ensures
        f == one_byte_form(b, o16),
        f.wf(),
{
    if b < 0x40 && b % 8 < 6 {
        alu_form(b)
    } else if b < 0x40 {
        row0(b)
    } else if b < 0x80 {
        row4(b, o16)
    } else if b < 0xC0 {
        row8(b, o16)
    } else if b < 0xE0 {
        row_c(b)
    } else {
        row_e(b)
    }
}

/// Opcodes 0x0F 0x00 to 0x0F 0x7F.
pub open spec fn low_half_form(b: u8) -> Form {
    match b {
        0x00 => Form::rm_spec(Sel::Group6, Tail::Nothing, Arg::Rm(Width::Word), Arg::Absent),
        0x01 => Form::rm_spec(Sel::Group7, Tail::Nothing, Arg::Rm(Width::Word), Arg::Absent),
        0x02 => Form::rm_spec(
            Sel::Is(Op::Lar),
            Tail::Nothing,
            Arg::Reg(Width::Operand),
            Arg::Rm(Width::Word),
        ),
        0x03 => Form::rm_spec(
            Sel::Is(Op::Lsl),
            Tail::Nothing,
            Arg::Reg(Width::Operand),
            Arg::Rm(Width::Word),
        ),
        0x06 => Form::plain_spec(Op::Clts),
        0x07 | 0x08 => Form::plain_spec(Op::Invd),
        0x09 => Form::plain_spec(Op::Wbinvd),
        0x20 => Form::system_reg_spec(Sel::Control, 0),
        0x21 => Form::system_reg_spec(Sel::Debug, 0),
        0x22 => Form::system_reg_spec(Sel::Control, 1),
        0x23 => Form::system_reg_spec(Sel::Debug, 1),
        0x30 => Form::plain_spec(Op::Wrmsr),
        0x31 => Form::plain_spec(Op::Rdtsc),
        0x32 => Form::plain_spec(Op::Rdmsr),
        _ if 0x40 <= b <= 0x4F => Form::rm_spec(
            Sel::Is(Op::Cmov(Cond::of(b))),
            Tail::Nothing,
            Arg::Reg(Width::Operand),
            Arg::Rm(Width::Operand),
        ),
        _ => Form::plain_spec(Op::TwoByte(b)),
    }
}

fn low_half(b: u8) -> (f: Form)
    ensures
        f == low_half_form(b),
{
    match b {
        0x00 => Form::rm(Sel::Group6, Tail::Nothing, Arg::Rm(Width::Word), Arg::Absent),
        0x01 => Form::rm(Sel::Group7, Tail::Nothing, Arg::Rm(Width::Word), Arg::Absent),
        0x02 => Form::rm(
            Sel::Is(Op::Lar),
            Tail::Nothing,
            Arg::Reg(Width::Operand),
            Arg::Rm(Width::Word),
        ),
        0x03 => Form::rm(
            Sel::Is(Op::Lsl),
            Tail::Nothing,
            Arg::Reg(Width::Operand),
            Arg::Rm(Width::Word),
        ),
        0x06 => Form::plain(Op::Clts),
        0x07 | 0x08 => Form::plain(Op::Invd),
        0x09 => Form::plain(Op::Wbinvd),
        0x20 => Form::system_reg(Sel::Control, 0),
        0x21 => Form::system_reg(Sel::Debug, 0),
        0x22 => Form::system_reg(Sel::Control, 1),
        0x23 => Form::system_reg(Sel::Debug, 1),
        0x30 => Form::plain(Op::Wrmsr),
        0x31 => Form::plain(Op::Rdtsc),
        0x32 => Form::plain(Op::Rdmsr),
        0x40..=0x4F => Form::rm(
            Sel::Is(Op::Cmov(Cond::from_opcode(b))),
            Tail::Nothing,
            Arg::Reg(Width::Operand),
            Arg::Rm(Width::Operand),
        ),
        _ => Form::plain(Op::TwoByte(b)),
    }
}

/// Opcodes 0x0F 0x80 to 0x0F 0xFF.
pub open spec fn high_half_form(b: u8) -> Form {
    let low3 = (b % 8) as u8;
    match b {
        _ if 0x80 <= b <= 0x8F => Form::args_spec(
            Op::Jcc(Cond::of(b)),
            Tail::SignedFull,
            Arg::Rel,
            Arg::Absent,
        ),
        _ if 0x90 <= b <= 0x9F => Form::rm_spec(
            Sel::Is(Op::Setcc(Cond::of(b))),
            Tail::Nothing,
            Arg::Rm(Width::Byte),
            Arg::Absent,
        ),
        0xA0 => Form::args_spec(Op::Push, Tail::Nothing, Arg::Sreg(Seg::Fs), Arg::Absent),
        0xA1 => Form::plain_spec(Op::PopSeg(Seg::Fs)),
        0xA2 => Form::plain_spec(Op::Cpuid),
        0xA3 => Form::rm_spec(
            Sel::Is(Op::Bit(BitOp::Bt)),
            Tail::Nothing,
            Arg::Rm(Width::Operand),
            Arg::Reg(Width::Operand),
        ),
        0xA4 => Form::imm_first_spec(
            Sel::DshiftImm(true),
            Arg::Rm(Width::Operand),
            Arg::Reg(Width::Operand),
        ),
        0xA5 => Form::rm_spec(
            Sel::Is(Op::Dshift(true, ShiftBy::Cl)),
            Tail::Nothing,
            Arg::Rm(Width::Operand),
            Arg::Reg(Width::Operand),
        ),
        0xA8 => Form::args_spec(Op::Push, Tail::Nothing, Arg::Sreg(Seg::Gs), Arg::Absent),
        0xA9 => Form::plain_spec(Op::PopSeg(Seg::Gs)),
        0xAB => Form::rm_spec(
            Sel::Is(Op::Bit(BitOp::Bts)),
            Tail::Nothing,
            Arg::Rm(Width::Operand),
            Arg::Reg(Width::Operand),
        ),
        0xAC => Form::imm_first_spec(
            Sel::DshiftImm(false),
            Arg::Rm(Width::Operand),
            Arg::Reg(Width::Operand),
        ),
        0xAD => Form::rm_spec(
            Sel::Is(Op::Dshift(false, ShiftBy::Cl)),
            Tail::Nothing,
            Arg::Rm(Width::Operand),
            Arg::Reg(Width::Operand),
        ),
        0xAF => Form::rm_spec(
            Sel::Is(Op::Imul1),
            Tail::Nothing,
            Arg::Reg(Width::Operand),
            Arg::Rm(Width::Operand),
        ),
        0xB0 => Form::rm_spec(
            Sel::Is(Op::CmpXchg),
            Tail::Nothing,
            Arg::Rm(Width::Byte),
            Arg::Reg(Width::Byte),
        ),
        0xB1 => Form::rm_spec(
            Sel::Is(Op::CmpXchg),
            Tail::Nothing,
            Arg::Rm(Width::Operand),
            Arg::Reg(Width::Operand),
        ),
        0xB2 => Form::rm_spec(
            Sel::FarLoad(Op::Lss),
            Tail::Nothing,
            Arg::Reg(Width::Operand),
            Arg::Rm(Width::Operand),
        ),
        0xB3 => Form::rm_spec(
            Sel::Is(Op::Bit(BitOp::Btr)),
            Tail::Nothing,
            Arg::Rm(Width::Operand),
            Arg::Reg(Width::Operand),
        ),
        0xB4 => Form::rm_spec(
            Sel::FarLoad(Op::Lfs),
            Tail::Nothing,
            Arg::Reg(Width::Operand),
            Arg::Rm(Width::Operand),
        ),
        0xB5 => Form::rm_spec(
            Sel::FarLoad(Op::Lgs),
            Tail::Nothing,
            Arg::Reg(Width::Operand),
            Arg::Rm(Width::Operand),
        ),
        0xB6 => Form::rm_spec(
            Sel::Is(Op::Movzx(true)),
            Tail::Nothing,
            Arg::Reg(Width::Operand),
            Arg::Rm(Width::Byte),
        ),
        0xB7 => Form::rm_spec(
            Sel::Is(Op::Movzx(false)),
            Tail::Nothing,
            Arg::Reg(Width::Operand),
            Arg::Rm(Width::Operand),
        ),
        0xBA => Form::imm_first_spec(Sel::Group8, Arg::Rm(Width::Operand), Arg::FirstImm),
        0xBB => Form::rm_spec(
            Sel::Is(Op::Bit(BitOp::Btc)),
            Tail::Nothing,
            Arg::Rm(Width::Operand),
            Arg::Reg(Width::Operand),
        ),
        0xBC => Form::rm_spec(
            Sel::Is(Op::Bit(BitOp::Bsf)),
            Tail::Nothing,
            Arg::Reg(Width::Operand),
            Arg::Rm(Width::Operand),
        ),
        0xBD => Form::rm_spec(
            Sel::Is(Op::Bit(BitOp::Bsr)),
            Tail::Nothing,
            Arg::Reg(Width::Operand),
            Arg::Rm(Width::Operand),
        ),
        0xBE => Form::rm_spec(
            Sel::Is(Op::Movsx(true)),
            Tail::Nothing,
            Arg::Reg(Width::Operand),
            Arg::Rm(Width::Byte),
        ),
        0xBF => Form::rm_spec(
            Sel::Is(Op::Movsx(false)),
            Tail::Nothing,
            Arg::Reg(Width::Operand),
            Arg::Rm(Width::Operand),
        ),
        0xC0 => Form::rm_spec(
            Sel::Is(Op::Xadd),
            Tail::Nothing,
            Arg::Rm(Width::Byte),
            Arg::Reg(Width::Byte),
        ),
        0xC1 => Form::rm_spec(
            Sel::Is(Op::Xadd),
            Tail::Nothing,
            Arg::Rm(Width::Operand),
            Arg::Reg(Width::Operand),
        ),
        _ if 0xC8 <= b <= 0xCF => Form::args_spec(
            Op::Bswap,
            Tail::Nothing,
            Arg::Fixed(low3, Width::Dword),
            Arg::Absent,
        ),
        _ => Form::plain_spec(Op::TwoByte(b)),
    }
}

fn high_half(b: u8) -> (f: Form)
    ensures
        f == high_half_form(b),
{
    let low3: u8 = b % 8;
    match b {
        0x80..=0x8F => Form::args(
            Op::Jcc(Cond::from_opcode(b)),
            Tail::SignedFull,
            Arg::Rel,
            Arg::Absent,
        ),
        0x90..=0x9F => Form::rm(
            Sel::Is(Op::Setcc(Cond::from_opcode(b))),
            Tail::Nothing,
            Arg::Rm(Width::Byte),
            Arg::Absent,
        ),
        0xA0 => Form::args(Op::Push, Tail::Nothing, Arg::Sreg(Seg::Fs), Arg::Absent),
        0xA1 => Form::plain(Op::PopSeg(Seg::Fs)),
        0xA2 => Form::plain(Op::Cpuid),
        0xA3 => Form::rm(
            Sel::Is(Op::Bit(BitOp::Bt)),
            Tail::Nothing,
            Arg::Rm(Width::Operand),
            Arg::Reg(Width::Operand),
        ),
        0xA4 => Form::imm_first(
            Sel::DshiftImm(true),
            Arg::Rm(Width::Operand),
            Arg::Reg(Width::Operand),
        ),
        0xA5 => Form::rm(
            Sel::Is(Op::Dshift(true, ShiftBy::Cl)),
            Tail::Nothing,
            Arg::Rm(Width::Operand),
            Arg::Reg(Width::Operand),
        ),
        0xA8 => Form::args(Op::Push, Tail::Nothing, Arg::Sreg(Seg::Gs), Arg::Absent),
        0xA9 => Form::plain(Op::PopSeg(Seg::Gs)),
        0xAB => Form::rm(
            Sel::Is(Op::Bit(BitOp::Bts)),
            Tail::Nothing,
            Arg::Rm(Width::Operand),
            Arg::Reg(Width::Operand),
        ),
        0xAC => Form::imm_first(
            Sel::DshiftImm(false),
            Arg::Rm(Width::Operand),
            Arg::Reg(Width::Operand),
        ),
        0xAD => Form::rm(
            Sel::Is(Op::Dshift(false, ShiftBy::Cl)),
            Tail::Nothing,
            Arg::Rm(Width::Operand),
            Arg::Reg(Width::Operand),
        ),
        0xAF => Form::rm(
            Sel::Is(Op::Imul1),
            Tail::Nothing,
            Arg::Reg(Width::Operand),
            Arg::Rm(Width::Operand),
        ),
        0xB0 => Form::rm(
            Sel::Is(Op::CmpXchg),
            Tail::Nothing,
            Arg::Rm(Width::Byte),
            Arg::Reg(Width::Byte),
        ),
        0xB1 => Form::rm(
            Sel::Is(Op::CmpXchg),
            Tail::Nothing,
            Arg::Rm(Width::Operand),
            Arg::Reg(Width::Operand),
        ),
        0xB2 => Form::rm(
            Sel::FarLoad(Op::Lss),
            Tail::Nothing,
            Arg::Reg(Width::Operand),
            Arg::Rm(Width::Operand),
        ),
        0xB3 => Form::rm(
            Sel::Is(Op::Bit(BitOp::Btr)),
            Tail::Nothing,
            Arg::Rm(Width::Operand),
            Arg::Reg(Width::Operand),
        ),
        0xB4 => Form::rm(
            Sel::FarLoad(Op::Lfs),
            Tail::Nothing,
            Arg::Reg(Width::Operand),
            Arg::Rm(Width::Operand),
        ),
        0xB5 => Form::rm(
            Sel::FarLoad(Op::Lgs),
            Tail::Nothing,
            Arg::Reg(Width::Operand),
            Arg::Rm(Width::Operand),
        ),
        0xB6 => Form::rm(
            Sel::Is(Op::Movzx(true)),
            Tail::Nothing,
            Arg::Reg(Width::Operand),
            Arg::Rm(Width::Byte),
        ),
        0xB7 => Form::rm(
            Sel::Is(Op::Movzx(false)),
            Tail::Nothing,
            Arg::Reg(Width::Operand),
            Arg::Rm(Width::Operand),
        ),
        0xBA => Form::imm_first(Sel::Group8, Arg::Rm(Width::Operand), Arg::FirstImm),
        0xBB => Form::rm(
            Sel::Is(Op::Bit(BitOp::Btc)),
            Tail::Nothing,
            Arg::Rm(Width::Operand),
            Arg::Reg(Width::Operand),
        ),
        0xBC => Form::rm(
            Sel::Is(Op::Bit(BitOp::Bsf)),
            Tail::Nothing,
            Arg::Reg(Width::Operand),
            Arg::Rm(Width::Operand),
        ),
        0xBD => Form::rm(
            Sel::Is(Op::Bit(BitOp::Bsr)),
            Tail::Nothing,
            Arg::Reg(Width::Operand),
            Arg::Rm(Width::Operand),
        ),
        0xBE => Form::rm(
            Sel::Is(Op::Movsx(true)),
            Tail::Nothing,
            Arg::Reg(Width::Operand),
            Arg::Rm(Width::Byte),
        ),
        0xBF => Form::rm(
            Sel::Is(Op::Movsx(false)),
            Tail::Nothing,
            Arg::Reg(Width::Operand),
            Arg::Rm(Width::Operand),
        ),
        0xC0 => Form::rm(
            Sel::Is(Op::Xadd),
            Tail::Nothing,
            Arg::Rm(Width::Byte),
            Arg::Reg(Width::Byte),
        ),
        0xC1 => Form::rm(
            Sel::Is(Op::Xadd),
            Tail::Nothing,
            Arg::Rm(Width::Operand),
            Arg::Reg(Width::Operand),
        ),
        0xC8..=0xCF => Form::args(
            Op::Bswap,
            Tail::Nothing,
            Arg::Fixed(low3, Width::Dword),
            Arg::Absent,
        ),
        _ => Form::plain(Op::TwoByte(b)),
    }
}

/// The opcodes behind 0x0F.
pub open spec fn two_byte_form(b: u8) -> Form {
    if b < 0x80 {
        low_half_form(b)
    } else {
        high_half_form(b)
    }
}

/// The opcodes behind 0x0F.
pub fn two_byte(b: u8) -> (f: Form)
    ensures
        f == two_byte_form(b),
        f.wf(),
{
    if b < 0x80 {
        low_half(b)
    } else {
        high_half(b)
    }
}

/// The one-byte opcodes number registers that exist.
pub proof fn lemma_one_byte_wf(b: u8, o16: bool)
    ensures
        one_byte_form(b, o16).wf(),
{
}

/// The opcodes behind 0x0F number registers that exist.
pub proof fn lemma_two_byte_wf(b: u8)
    ensures
        two_byte_form(b).wf(),
{
}

} // verus!
