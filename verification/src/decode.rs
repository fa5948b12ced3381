//! The x86 decoder: shared by the interpreter and the block compiler.
//!
//! Produces a `Decoded` instruction from the byte stream at CS:EIP without
//! modifying CPU state. Both engines consume the same representation, so their
//! instruction sets match by construction.

use vstd::prelude::*;

use crate::bits::{
    as_signed16, as_signed32, as_signed8, extend16, extend8, signed16, signed32, signed8, wrap32,
};
use crate::cpu::{CpuState, Mode, Seg, X86};
use crate::mmu::{fetch16, fetch32, fetch8, fetched};
use crate::opcode::{
    Arg, Form, ModRm, Sel, Tail, alu_number, alu_op, lemma_one_byte_wf, lemma_two_byte_wf, one_byte,
    one_byte_form, two_byte, two_byte_form,
};

verus! {

/// Operand / address size.
#[derive(Debug, Clone, Copy, PartialEq, Eq, Structural)]
pub enum Bits {
    B8,
    B16,
    B32,
}

impl Bits {
    /// 16 bits under the attribute `o16`, else 32.
    pub open spec fn by_attribute(o16: bool) -> Bits {
        if o16 {
            Bits::B16
        } else {
            Bits::B32
        }
    }

    /// Size in bytes.
    pub open spec fn size(self) -> u32 {
        match self {
            Bits::B8 => 1,
            Bits::B16 => 2,
            Bits::B32 => 4,
        }
    }

    pub fn is_8(&self) -> (b: bool)
        ensures
            b == (*self == Bits::B8),
    {
        matches!(self, Bits::B8)
    }

    pub fn bytes(self) -> (n: u32)
        ensures
            n == self.size(),
    {
        match self {
            Bits::B8 => 1,
            Bits::B16 => 2,
            Bits::B32 => 4,
        }
    }
}

/// Memory effective address (ModRM memory operand).
#[derive(Debug, Clone, Copy, PartialEq, Eq, Structural)]
pub struct MemRef {
    pub seg: Seg,
    pub base: Option<u8>,  // reg index 0..7
    pub index: Option<u8>, // reg index 0..7
    pub scale: u8,         // 1/2/4/8
    pub disp: i32,         // sign-extended displacement
    pub a16: bool,         // 16-bit effective address
}

/// An operand slot.
#[derive(Debug, Clone, Copy, PartialEq, Eq, Structural)]
pub enum Opnd {
    Absent,
    /// Register. Values 4..7 for 8-bit ops decode as AH/BH/CH/DH (high byte).
    Reg(u8, Bits),
    /// Memory operand.
    Mem(MemRef, Bits),
    /// Zero-extended immediate.
    Imm(u32),
    /// Sign-extended immediate (imm8 -> 16/32).
    ImmSext(u32),
    /// Far pointer literal (call/jmp segment:offset).
    FarPtr {
        sel: u16,
        off: u32,
    },
    /// Relative displacement — target = EIP after instruction + disp.
    Rel {
        disp: i32,
    },
    /// Segment register (ES/CS/SS/DS/FS/GS) as data operand.
    Sreg(Seg),
    /// Implicit accumulator (AL/AX/EAX).
    Acc(Bits),
    /// Implicit port register (DX).
    Dx,
    /// Immediate port number.
    Port(u16),
    /// CL (shift count register).
    Cl,
}

/// REP prefix kind.
#[derive(Debug, Clone, Copy, PartialEq, Eq, Structural)]
pub enum Rep {
    Single,
    Z,  // REP / REPE
    NZ, // REPNE
}

/// Condition codes.
#[derive(Debug, Clone, Copy, PartialEq, Eq, Structural)]
pub enum Cond {
    O,
    No,
    B,
    Ae,
    E,
    Ne,
    Be,
    A,
    S,
    Ns,
    P,
    Np,
    L,
    Ge,
    Le,
    G,
}

impl Cond {
    /// The condition that the low four bits of an opcode number.
    pub open spec fn of(b: u8) -> Cond {
        match b % 16 {
            0 => Cond::O,
            1 => Cond::No,
            2 => Cond::B,
            3 => Cond::Ae,
            4 => Cond::E,
            5 => Cond::Ne,
            6 => Cond::Be,
            7 => Cond::A,
            8 => Cond::S,
            9 => Cond::Ns,
            10 => Cond::P,
            11 => Cond::Np,
            12 => Cond::L,
            13 => Cond::Ge,
            14 => Cond::Le,
            _ => Cond::G,
        }
    }

    pub fn from_opcode(b: u8) -> (c: Cond)
        ensures
            c == Cond::of(b),
    {
        match b % 16 {
            0 => Cond::O,
            1 => Cond::No,
            2 => Cond::B,
            3 => Cond::Ae,
            4 => Cond::E,
            5 => Cond::Ne,
            6 => Cond::Be,
            7 => Cond::A,
            8 => Cond::S,
            9 => Cond::Ns,
            10 => Cond::P,
            11 => Cond::Np,
            12 => Cond::L,
            13 => Cond::Ge,
            14 => Cond::Le,
            _ => Cond::G,
        }
    }
}

/// ALU operation.
#[derive(Debug, Clone, Copy, PartialEq, Eq, Structural)]
pub enum AluOp {
    Add,
    Or,
    Adc,
    Sbb,
    And,
    Sub,
    Xor,
    Cmp,
}

/// Shift/rotate type.
#[derive(Debug, Clone, Copy, PartialEq, Eq, Structural)]
pub enum ShiftKind {
    Rol,
    Ror,
    Rcl,
    Rcr,
    Shl,
    Shr,
    Sar,
}

#[derive(Debug, Clone, Copy, PartialEq, Eq, Structural)]
pub enum ShiftBy {
    One,
    Cl,
    Imm(u8),
}

/// Bit test/scan op.
#[derive(Debug, Clone, Copy, PartialEq, Eq, Structural)]
pub enum BitOp {
    Bt,
    Bts,
    Btr,
    Btc,
    Bsf,
    Bsr,
}

/// Instruction operation.
#[derive(Debug, Clone, Copy, PartialEq, Eq, Structural)]
pub enum Op {
    // ---- ALU ----
    Alu(AluOp), // ops[0]=dst=src operand, ops[1]=other
    Inc,
    Dec,
    Neg,
    Not, // ops[0]=rm
    Mul,
    Imul,
    Div,
    Idiv,                      // ops[0]=rm; implicit AL/AX/EAX
    Imul1,                     // ops[0]=dst reg, ops[1]=src rm, ops[2]=imm or None
    Shift(ShiftKind, ShiftBy), // ops[0]=rm
    Dshift(bool, ShiftBy),     // SHLD/SHRD; ops[0]=dst rm, ops[1]=src reg
    // ---- bit ----
    Test,       // ops[0], ops[1]
    Bit(BitOp), // ops[0]=rm, ops[1]=imm/reg
    // ---- data movement ----
    Mov,
    Movzx(bool), // true if source is 8-bit
    Movsx(bool), // true if source is 8-bit
    Lea,
    Xchg,
    Cmov(Cond),
    Setcc(Cond),
    Push,
    Pop, // ops[0]=rm/reg/imm/sreg
    PushF,
    PopF,
    PushA,
    PopA,
    Call { far: bool },
    Jump { far: bool },
    Ret { far: bool, imm: Option<u16> },
    Jcc(Cond),        // ops[0]=Rel
    Loop(Option<u8>), // None=LOOP, Some(0xE0)=LOOPNE, Some(0xE1)=LOOPE
    Jcxz,
    // ---- strings ----
    Movs(Bits),
    Stos(Bits),
    Lods(Bits),
    Cmps(Bits),
    Scas(Bits),
    Ins(Bits),
    Outs(Bits),
    Xlat,
    // ---- io ----
    In,
    Out,
    // ---- interrupts / system ----
    Int(u8),
    Int3,
    Into,
    Iret,
    Hlt,
    Cli,
    Sti,
    Cld,
    Std,
    Clc,
    Stc,
    Cmc,
    Salc,
    // ---- segments & descriptors ----
    MovSreg2Rm, // MOV r/m16, Sreg
    MovRm2Sreg, // MOV Sreg, r/m16
    PopSeg(Seg),
    Lss,
    Lds,
    Les,
    Lfs,
    Lgs,
    Lar,
    Lsl,
    VErr(bool), // VERR / VERW
    Arpl,
    Lgdt,
    Lidt,
    Sgdt,
    Sidt,
    Lldt,
    Sldt,
    Ltr,
    Str,
    Smsw,
    Lmsw,
    Clts,
    MovCr,
    MovDr,
    // ---- 386 misc ----
    Bswap,
    CmpXchg,
    Xadd,
    Cpuid,
    Rdtsc,
    Rdmsr,
    Wrmsr,
    Wbinvd,
    Invd,
    Invlpg,
    // ---- misc ----
    Nop,
    Wait,
    Daa,
    Das,
    Aaa,
    Aas,
    Aam,
    Aad,
    Cbw,
    Cwd,
    Sahf,
    Lahf,
    Enter(u16, u8),
    Leave,
    // ---- anything else ----
    /// BOUND; ops[0]=index reg, ops[1]=limits in memory.
    Bound,
    Unsupported(u8),
    TwoByte(u8),
}

/// A fully decoded instruction.
#[derive(Debug, Clone, Copy)]
pub struct Decoded {
    pub op: Op,
    pub len: u8,
    pub ops: [Opnd; 4],
    pub rep: Rep,
    pub lock: bool,
    /// Operand-size is 16 for this instruction (else 32).
    pub o16: bool,
    /// Address-size is 16 for this instruction (else 32).
    pub a16: bool,
    /// Segment override applied to the memory operand.
    pub seg_override: Option<Seg>,
}

/// A decoded instruction as a value: the operation, its operands and its
/// attributes.
pub struct Insn {
    pub op: Op,
    pub len: u8,
    pub o0: Opnd,
    pub o1: Opnd,
    pub o2: Opnd,
    pub o3: Opnd,
    pub rep: Rep,
    pub lock: bool,
    pub o16: bool,
    pub a16: bool,
    pub seg_override: Option<Seg>,
}

impl View for Decoded {
    type V = Insn;

    open spec fn view(&self) -> Insn {
        Insn {
            op: self.op,
            len: self.len,
            o0: self.ops@[0],
            o1: self.ops@[1],
            o2: self.ops@[2],
            o3: self.ops@[3],
            rep: self.rep,
            lock: self.lock,
            o16: self.o16,
            a16: self.a16,
            seg_override: self.seg_override,
        }
    }
}

impl MemRef {
    /// The registers of the address exist.
    pub open spec fn wf(self) -> bool {
        &&& self.base matches Some(b) ==> b < 8
        &&& self.index matches Some(i) ==> i < 8
    }
}

impl Opnd {
    /// The registers that the operand names exist.
    pub open spec fn wf(self) -> bool {
        match self {
            Opnd::Reg(r, _) => r < 8,
            Opnd::Mem(m, _) => m.wf(),
            _ => true,
        }
    }
}

impl Insn {
    /// Every operand names registers that exist.
    pub open spec fn wf(self) -> bool {
        self.o0.wf() && self.o1.wf() && self.o2.wf() && self.o3.wf()
    }

    /// Default operand size (B16 with 0x66, B32 with 32-bit opsize).
    pub open spec fn size(self) -> Bits {
        Bits::by_attribute(self.o16)
    }

    /// The relative target: EIP after the instruction + displacement.
    pub open spec fn target(self, next_eip: u32) -> u32 {
        match self.o0 {
            Opnd::Rel { disp } => wrap32(next_eip + disp),
            _ => next_eip,
        }
    }
}

impl Decoded {
    /// Default operand size (B16 with 0x66, B32 with 32-bit opsize).
    pub fn size(&self) -> (b: Bits)
        ensures
            b == self@.size(),
    {
        if self.o16 {
            Bits::B16
        } else {
            Bits::B32
        }
    }

    /// Unconditional (or conditional) relative target EIP computed from the
    /// Rel operand: EIP after the instruction + disp.
    pub fn rel_target(&self, next_eip: u32) -> (t: u32)
        ensures
            t == self@.target(next_eip),
    {
        match self.ops[0] {
            Opnd::Rel { disp } => ((next_eip as i64 + disp as i64 + 0x1_0000_0000)
                % 0x1_0000_0000) as u32,
            _ => next_eip,
        }
    }
}

// ---------------------------------------------------------------------------
// What the bytes at CS:EIP say
// ---------------------------------------------------------------------------

/// The attributes that prefixes set, and how many there were.
#[derive(Debug, Clone, Copy, PartialEq, Eq, Structural)]
pub struct Prefixes {
    pub o16: bool,
    pub a16: bool,
    pub lock: bool,
    pub rep: Rep,
    pub seg: Option<Seg>,
    pub len: u32,
}

impl Prefixes {
    /// The attributes without any prefix.
    pub open spec fn initial(default16: bool) -> Prefixes {
        Prefixes {
            o16: default16,
            a16: default16,
            lock: false,
            rep: Rep::Single,
            seg: None,
            len: 0,
        }
    }

    /// The attributes after one more prefix; `None` where `b` is no prefix.
    pub open spec fn with_prefix(self, b: u8, default16: bool) -> Option<Prefixes> {
        let p = Prefixes { len: (self.len + 1) as u32, ..self };
        match b {
            0x66 => Some(Prefixes { o16: !default16, ..p }),
            0x67 => Some(Prefixes { a16: !default16, ..p }),
            0xF0 => Some(Prefixes { lock: true, ..p }),
            0xF2 => Some(Prefixes { rep: Rep::NZ, ..p }),
            0xF3 => Some(Prefixes { rep: Rep::Z, ..p }),
            0x26 => Some(Prefixes { seg: Some(Seg::Es), ..p }),
            0x2E => Some(Prefixes { seg: Some(Seg::Cs), ..p }),
            0x36 => Some(Prefixes { seg: Some(Seg::Ss), ..p }),
            0x3E => Some(Prefixes { seg: Some(Seg::Ds), ..p }),
            0x64 => Some(Prefixes { seg: Some(Seg::Fs), ..p }),
            0x65 => Some(Prefixes { seg: Some(Seg::Gs), ..p }),
            _ => None,
        }
    }
}

/// The size of a displacement.
#[derive(Debug, Clone, Copy, PartialEq, Eq, Structural)]
pub enum Disp {
    Zero,
    Byte,
    Word,
    UnsignedWord,
    Dword,
}

/// How a memory operand is addressed.
#[derive(Debug, Clone, Copy, PartialEq, Eq, Structural)]
pub struct Shape {
    pub base: Option<u8>,
    pub index: Option<u8>,
    pub scale: u8,
    pub disp: Disp,
}

/// The 16-bit addressing form of a ModRM byte with a memory operand.
pub open spec fn shape16(modrm: u8) -> Shape {
    let m = modrm / 64;
    let rm = modrm % 8;
    let direct = m == 0 && rm == 6;
    let base: Option<u8> = if direct {
        None
    } else {
        match rm {
            0 => Some(3u8),
            1 => Some(3u8),
            2 => Some(5u8),
            3 => Some(5u8),
            4 => Some(6u8),
            5 => Some(7u8),
            6 => Some(5u8),
            _ => Some(3u8),
        }
    };
    let index: Option<u8> = match rm {
        0 => Some(6u8),
        1 => Some(7u8),
        2 => Some(6u8),
        3 => Some(7u8),
        _ => None,
    };
    let disp = if direct {
        Disp::UnsignedWord
    } else if m == 0 {
        Disp::Zero
    } else if m == 1 {
        Disp::Byte
    } else {
        Disp::Word
    };
    Shape { base, index, scale: 1, disp }
}

/// Whether a SIB byte follows the ModRM byte.
pub open spec fn has_sib(modrm: u8, a16: bool) -> bool {
    !a16 && modrm / 64 != 3 && modrm % 8 == 4
}

/// The 32-bit addressing form of a ModRM byte with a memory operand; `sib` is
/// of no account where there is none.
pub open spec fn shape32(modrm: u8, sib: u8) -> Shape {
    let m = modrm / 64;
    let rm = modrm % 8;
    let base_no = if rm == 4 {
        (sib % 8) as u8
    } else {
        rm as u8
    };
    let absolute = m == 0 && base_no == 5;
    Shape {
        base: if absolute {
            None
        } else {
            Some(base_no)
        },
        index: if rm == 4 && sib / 8 % 8 != 4 {
            Some((sib / 8 % 8) as u8)
        } else {
            None
        },
        scale: if rm != 4 || sib / 64 == 0 {
            1
        } else if sib / 64 == 1 {
            2
        } else if sib / 64 == 2 {
            4
        } else {
            8
        },
        disp: if absolute || m == 2 {
            Disp::Dword
        } else if m == 1 {
            Disp::Byte
        } else {
            Disp::Zero
        },
    }
}

/// What stands between the opcode and the bytes at the end: the ModRM byte, the
/// immediate behind it, and the memory operand it describes.
#[derive(Debug, Clone, Copy, PartialEq, Eq, Structural)]
pub struct Fields {
    pub modrm: u8,
    pub first: u8,
    pub mem: Option<MemRef>,
}

impl Fields {
    /// The reg field of the ModRM byte.
    pub open spec fn reg(self) -> u8 {
        (self.modrm / 8 % 8) as u8
    }
}

/// The value at the end of an instruction; `y` is a selector or a nesting
/// level.
#[derive(Debug, Clone, Copy, PartialEq, Eq, Structural)]
pub struct TailVal {
    pub x: u32,
    pub y: u16,
}

/// `Ok` where the operation exists, else the text that says why not.
pub open spec fn accepted(sel: Sel, f: Fields) -> Result<(), Seq<char>> {
    match sel {
        Sel::Group4 if f.reg() > 1 => Err("group FE undefined"@),
        Sel::Group5 if f.reg() == 7 => Err("group FF undefined"@),
        Sel::Group6 if f.reg() > 5 => Err("group 6 undefined"@),
        Sel::Group7 if f.mem is None => Err("group 7 needs memory operand"@),
        Sel::Group7 if f.reg() == 7 => Err("group 7 undefined"@),
        Sel::Group8 if f.reg() < 4 => Err("group 8 undefined"@),
        Sel::BoundMem if f.mem is None => Err("BOUND with register operand"@),
        Sel::LeaMem if f.mem is None => Err("LEA with register operand"@),
        Sel::FarLoad(_) if f.mem is None => Err("LDS/ES/SS/FS/GS with register operand"@),
        Sel::LoadSreg if f.reg() == 1 => Err("MOV CS,r/m unsupported"@),
        Sel::Control if f.mem is Some => Err("MOV CR needs register"@),
        Sel::Debug if f.mem is Some => Err("MOV DR needs register"@),
        _ => Ok(()),
    }
}

/// The shift that the reg field numbers.
pub open spec fn shift_number(n: u8) -> ShiftKind {
    match n {
        0 => ShiftKind::Rol,
        1 => ShiftKind::Ror,
        2 => ShiftKind::Rcl,
        3 => ShiftKind::Rcr,
        4 => ShiftKind::Shl,
        5 => ShiftKind::Shr,
        6 => ShiftKind::Shl,
        _ => ShiftKind::Sar,
    }
}

/// The operation of an accepted encoding.
pub open spec fn operation(sel: Sel, f: Fields, t: TailVal) -> Op {
    let reg = f.reg();
    match sel {
        Sel::Is(op) => op,
        Sel::Group1 => Op::Alu(alu_number(reg)),
        Sel::Group2(by) => Op::Shift(shift_number(reg), by),
        Sel::Group2Imm => Op::Shift(shift_number(reg), ShiftBy::Imm(f.first)),
        Sel::Group3 => match reg {
            0 => Op::Test,
            1 => Op::Test,
            2 => Op::Not,
            3 => Op::Neg,
            4 => Op::Mul,
            5 => Op::Imul,
            6 => Op::Div,
            _ => Op::Idiv,
        },
        Sel::Group4 => if reg == 0 {
            Op::Inc
        } else {
            Op::Dec
        },
        Sel::Group5 => match reg {
            0 => Op::Inc,
            1 => Op::Dec,
            2 => Op::Call { far: false },
            3 => Op::Call { far: true },
            4 => Op::Jump { far: false },
            5 => Op::Jump { far: true },
            _ => Op::Push,
        },
        Sel::Group6 => match reg {
            0 => Op::Sldt,
            1 => Op::Str,
            2 => Op::Lldt,
            3 => Op::Ltr,
            4 => Op::VErr(true),
            _ => Op::VErr(false),
        },
        Sel::Group7 => match reg {
            0 => Op::Sgdt,
            1 => Op::Sidt,
            2 => Op::Lgdt,
            3 => Op::Lidt,
            4 => Op::Smsw,
            5 => Op::Lmsw,
            _ => Op::Invlpg,
        },
        Sel::Group8 => match reg {
            4 => Op::Bit(BitOp::Bt),
            5 => Op::Bit(BitOp::Bts),
            6 => Op::Bit(BitOp::Btr),
            _ => Op::Bit(BitOp::Btc),
        },
        Sel::DshiftImm(left) => Op::Dshift(left, ShiftBy::Imm(f.first)),
        Sel::BoundMem => Op::Bound,
        Sel::LeaMem => Op::Lea,
        Sel::FarLoad(op) => op,
        Sel::LoadSreg => Op::MovRm2Sreg,
        Sel::Control => Op::MovCr,
        Sel::Debug => Op::MovDr,
        Sel::RetImm(far) => Op::Ret { far, imm: Some(t.x as u16) },
        Sel::Frame => Op::Enter(t.x as u16, t.y as u8),
        Sel::Vector => Op::Int(t.x as u8),
    }
}

/// One operand of an instruction.
pub open spec fn operand(arg: Arg, p: Prefixes, f: Fields, t: TailVal) -> Opnd {
    match arg {
        Arg::Absent => Opnd::Absent,
        Arg::Rm(w) => match f.mem {
            Some(m) => Opnd::Mem(m, w.of(p.o16)),
            None => Opnd::Reg((f.modrm % 8) as u8, w.of(p.o16)),
        },
        Arg::Reg(w) => Opnd::Reg(f.reg(), w.of(p.o16)),
        Arg::Fixed(r, w) => Opnd::Reg(r, w.of(p.o16)),
        Arg::SregField => Opnd::Sreg(Seg::of(f.reg())),
        Arg::Sreg(s) => Opnd::Sreg(s),
        Arg::Acc(w) => Opnd::Acc(w.of(p.o16)),
        Arg::Imm => Opnd::Imm(t.x),
        Arg::ImmSext => Opnd::ImmSext(t.x),
        Arg::TestImm => if f.reg() < 2 {
            Opnd::Imm(t.x)
        } else {
            Opnd::Absent
        },
        Arg::FirstImm => Opnd::Imm(f.first as u32),
        Arg::Rel => Opnd::Rel { disp: signed32(t.x) as i32 },
        Arg::Far => Opnd::FarPtr { sel: t.y, off: t.x },
        Arg::Port => Opnd::Port(t.x as u16),
        Arg::Dx => Opnd::Dx,
        Arg::Moffs(w) => Opnd::Mem(
            MemRef {
                seg: match p.seg {
                    Some(s) => s,
                    None => Seg::Ds,
                },
                base: None,
                index: None,
                scale: 1,
                disp: signed32(t.x) as i32,
                a16: p.a16,
            },
            w.of(p.o16),
        ),
        Arg::RegNumber => Opnd::Imm(f.reg() as u32),
        Arg::Number(n) => Opnd::Imm(n),
    }
}

/// The tail that an instruction has once its reg field is known.
pub open spec fn settled(tail: Tail, f: Fields) -> Tail {
    match tail {
        Tail::TestByte => if f.reg() < 2 {
            Tail::Byte
        } else {
            Tail::Nothing
        },
        Tail::TestFull => if f.reg() < 2 {
            Tail::Full
        } else {
            Tail::Nothing
        },
        other => other,
    }
}

/// Text of the error for too many prefixes.
pub open spec fn too_long() -> Seq<char> {
    "instruction exceeds 15-byte limit"@
}

impl CpuState {
    /// 16-bit operands and addresses are the default outside 32-bit code.
    pub open spec fn default16(self) -> bool {
        self.mode() != Mode::Protected32
    }

    /// Offset in the code segment, `at` bytes into the instruction.
    pub open spec fn code_at(self, at: u32) -> u32 {
        self.eip.wrapping_add(at)
    }

    /// Read prefixes as long as there are any.
    pub open spec fn prefixes_from(self, p: Prefixes) -> Result<Prefixes, Seq<char>>
        decreases 15 - p.len,
    {
        match self.fetch8(self.code_at(p.len)) {
            Err(e) => Err(e),
            Ok(b) => match p.with_prefix(b, self.default16()) {
                None => Ok(p),
                Some(q) => if q.len >= 15 || q.len <= p.len {
                    Err(too_long())
                } else {
                    self.prefixes_from(q)
                },
            },
        }
    }

    /// A displacement, and where it ends.
    pub open spec fn displacement(self, d: Disp, at: u32) -> Result<(i32, u32), Seq<char>> {
        match d {
            Disp::Zero => Ok((0i32, at)),
            Disp::Byte => match self.fetch8(self.code_at(at)) {
                Err(e) => Err(e),
                Ok(b) => Ok((signed8(b) as i32, (at + 1) as u32)),
            },
            Disp::Word => match self.fetch16(self.code_at(at)) {
                Err(e) => Err(e),
                Ok(w) => Ok((signed16(w) as i32, (at + 2) as u32)),
            },
            Disp::UnsignedWord => match self.fetch16(self.code_at(at)) {
                Err(e) => Err(e),
                Ok(w) => Ok((w as i32, (at + 2) as u32)),
            },
            Disp::Dword => match self.fetch32(self.code_at(at)) {
                Err(e) => Err(e),
                Ok(v) => Ok((signed32(v) as i32, (at + 4) as u32)),
            },
        }
    }

    /// A memory operand of the form `shape`, and where its displacement ends.
    /// The segment defaults to SS with a BP base, else to DS.
    pub open spec fn shaped(self, shape: Shape, p: Prefixes, at: u32) -> Result<
        (Option<MemRef>, u32),
        Seq<char>,
    > {
        match self.displacement(shape.disp, at) {
            Err(e) => Err(e),
            Ok((disp, end)) => {
                let seg = match p.seg {
                    Some(s) => s,
                    None => if shape.base == Some(5u8) {
                        Seg::Ss
                    } else {
                        Seg::Ds
                    },
                };
                let m = MemRef {
                    seg,
                    base: shape.base,
                    index: shape.index,
                    scale: shape.scale,
                    disp,
                    a16: p.a16,
                };
                Ok((Some(m), end))
            },
        }
    }

    /// The memory operand of a ModRM byte (`None` for a register), and where
    /// its bytes end.
    pub open spec fn rm_mem(self, modrm: u8, p: Prefixes, at: u32) -> Result<
        (Option<MemRef>, u32),
        Seq<char>,
    > {
        if modrm / 64 == 3 {
            Ok((None, at))
        } else if p.a16 {
            self.shaped(shape16(modrm), p, at)
        } else if has_sib(modrm, p.a16) {
            match self.fetch8(self.code_at(at)) {
                Err(e) => Err(e),
                Ok(sib) => self.shaped(shape32(modrm, sib), p, (at + 1) as u32),
            }
        } else {
            self.shaped(shape32(modrm, 0), p, at)
        }
    }

    /// What stands between the opcode and the bytes at the end.
    pub open spec fn fields(self, m: ModRm, p: Prefixes, at: u32) -> Result<
        (Fields, u32),
        Seq<char>,
    > {
        if m == ModRm::Absent {
            Ok((Fields { modrm: 0, first: 0, mem: None }, at))
        } else {
            match self.fetch8(self.code_at(at)) {
                Err(e) => Err(e),
                Ok(modrm) => if m == ModRm::ImmFirst {
                    match self.fetch8(self.code_at((at + 1) as u32)) {
                        Err(e) => Err(e),
                        Ok(first) => match self.rm_mem(modrm, p, (at + 2) as u32) {
                            Err(e) => Err(e),
                            Ok((mem, end)) => Ok((Fields { modrm, first, mem }, end)),
                        },
                    }
                } else {
                    match self.rm_mem(modrm, p, (at + 1) as u32) {
                        Err(e) => Err(e),
                        Ok((mem, end)) => Ok((Fields { modrm, first: 0, mem }, end)),
                    }
                },
            }
        }
    }

    /// A number of 2 bytes if `short`, else 4, and where it ends.
    pub open spec fn number(self, short: bool, at: u32) -> Result<(u32, u32), Seq<char>> {
        if short {
            match self.fetch16(self.code_at(at)) {
                Err(e) => Err(e),
                Ok(w) => Ok((w as u32, (at + 2) as u32)),
            }
        } else {
            match self.fetch32(self.code_at(at)) {
                Err(e) => Err(e),
                Ok(v) => Ok((v, (at + 4) as u32)),
            }
        }
    }

    /// The bytes at the end of the instruction, and the instruction's length.
    pub open spec fn tail_value(self, tail: Tail, p: Prefixes, at: u32) -> Result<
        (TailVal, u32),
        Seq<char>,
    > {
        match tail {
            Tail::Byte => match self.fetch8(self.code_at(at)) {
                Err(e) => Err(e),
                Ok(b) => Ok((TailVal { x: b as u32, y: 0 }, (at + 1) as u32)),
            },
            Tail::SignedByte => match self.fetch8(self.code_at(at)) {
                Err(e) => Err(e),
                Ok(b) => Ok((TailVal { x: wrap32(signed8(b)), y: 0 }, (at + 1) as u32)),
            },
            Tail::Word => match self.number(true, at) {
                Err(e) => Err(e),
                Ok((x, end)) => Ok((TailVal { x, y: 0 }, end)),
            },
            Tail::Full => match self.number(p.o16, at) {
                Err(e) => Err(e),
                Ok((x, end)) => Ok((TailVal { x, y: 0 }, end)),
            },
            Tail::SignedFull => match self.number(p.o16, at) {
                Err(e) => Err(e),
                Ok((x, end)) => if p.o16 {
                    Ok((TailVal { x: wrap32(signed16(x as u16)), y: 0 }, end))
                } else {
                    Ok((TailVal { x, y: 0 }, end))
                },
            },
            Tail::Frame => match self.number(true, at) {
                Err(e) => Err(e),
                Ok((x, mid)) => match self.fetch8(self.code_at(mid)) {
                    Err(e) => Err(e),
                    Ok(b) => Ok((TailVal { x, y: b as u16 }, (mid + 1) as u32)),
                },
            },
            Tail::Far => match self.number(p.o16, at) {
                Err(e) => Err(e),
                Ok((x, mid)) => match self.fetch16(self.code_at(mid)) {
                    Err(e) => Err(e),
                    Ok(y) => Ok((TailVal { x, y }, (mid + 2) as u32)),
                },
            },
            Tail::Moffs => match self.number(p.a16, at) {
                Err(e) => Err(e),
                Ok((x, end)) => Ok((TailVal { x, y: 0 }, end)),
            },
            _ => Ok((TailVal { x: 0, y: 0 }, at)),
        }
    }

    /// The instruction of the opcode map entry `form` whose opcode ends at
    /// `at`.
    pub open spec fn formed(self, form: Form, p: Prefixes, at: u32) -> Result<Insn, Seq<char>> {
        match self.fields(form.modrm, p, at) {
            Err(e) => Err(e),
            Ok((f, mid)) => match accepted(form.sel, f) {
                Err(e) => Err(e),
                Ok(_) => match self.tail_value(settled(form.tail, f), p, mid) {
                    Err(e) => Err(e),
                    Ok((t, end)) => Ok(
                        Insn {
                            op: operation(form.sel, f, t),
                            len: end as u8,
                            o0: operand(form.a, p, f, t),
                            o1: operand(form.b, p, f, t),
                            o2: operand(form.c, p, f, t),
                            o3: Opnd::Absent,
                            rep: p.rep,
                            lock: p.lock,
                            o16: p.o16,
                            a16: p.a16,
                            seg_override: p.seg,
                        },
                    ),
                },
            },
        }
    }

    /// The instruction at CS:EIP, or the text that says why there is none.
    #[verifier::opaque]
    pub open spec fn decoded(self) -> Result<Insn, Seq<char>> {
        match self.prefixes_from(Prefixes::initial(self.default16())) {
            Err(e) => Err(e),
            Ok(p) => match self.fetch8(self.code_at(p.len)) {
                Err(e) => Err(e),
                Ok(b) => if b != 0x0F {
                    self.formed(one_byte_form(b, p.o16), p, (p.len + 1) as u32)
                } else {
                    match self.fetch8(self.code_at((p.len + 1) as u32)) {
                        Err(e) => Err(e),
                        Ok(b2) => self.formed(two_byte_form(b2), p, (p.len + 2) as u32),
                    }
                },
            },
        }
    }
}

/// A decoded instruction by its view, or the characters of the error text.
pub open spec fn decode_outcome(r: Result<Decoded, String>) -> Result<Insn, Seq<char>> {
    match r {
        Ok(d) => Ok(d@),
        Err(e) => Err(e@),
    }
}

// ---------------------------------------------------------------------------
// The decoder
// ---------------------------------------------------------------------------

/// The attributes after the prefix `b`; `None` where it is no prefix.
fn apply_prefix(p: Prefixes, b: u8, default16: bool) -> (q: Option<Prefixes>)
    requires
        p.len < 15,
    ensures
        q == p.with_prefix(b, default16),
{
    let n = Prefixes { len: p.len + 1, ..p };
    match b {
        0x66 => Some(Prefixes { o16: !default16, ..n }),
        0x67 => Some(Prefixes { a16: !default16, ..n }),
        0xF0 => Some(Prefixes { lock: true, ..n }),
        0xF2 => Some(Prefixes { rep: Rep::NZ, ..n }),
        0xF3 => Some(Prefixes { rep: Rep::Z, ..n }),
        0x26 => Some(Prefixes { seg: Some(Seg::Es), ..n }),
        0x2E => Some(Prefixes { seg: Some(Seg::Cs), ..n }),
        0x36 => Some(Prefixes { seg: Some(Seg::Ss), ..n }),
        0x3E => Some(Prefixes { seg: Some(Seg::Ds), ..n }),
        0x64 => Some(Prefixes { seg: Some(Seg::Fs), ..n }),
        0x65 => Some(Prefixes { seg: Some(Seg::Gs), ..n }),
        _ => None,
    }
}

fn scan_prefixes(cpu: &X86) -> (r: Result<Prefixes, String>)
    ensures
        fetched(r) == cpu@.prefixes_from(Prefixes::initial(cpu@.default16())),
        r matches Ok(p) ==> p.len < 15,
{
    let default16 = !matches!(cpu.mode(), Mode::Protected32);
    let mut p = Prefixes {
        o16: default16,
        a16: default16,
        lock: false,
        rep: Rep::Single,
        seg: None,
        len: 0,
    };
    loop
        invariant
            p.len < 15,
            default16 == cpu@.default16(),
            cpu@.prefixes_from(Prefixes::initial(default16)) == cpu@.prefixes_from(p),
        decreases 15 - p.len,
    {
        let b = fetch8(cpu, cpu.eip.wrapping_add(p.len))?;
        match apply_prefix(p, b, default16) {
            None => {
                return Ok(p);
            },
            Some(q) => {
                if q.len >= 15 {
                    return Err("instruction exceeds 15-byte limit".to_owned());
                }
                p = q;
            },
        }
    }
}

fn read_disp(cpu: &X86, d: Disp, at: u32) -> (r: Result<(i32, u32), String>)
    requires
        at < 100,
    ensures
        fetched(r) == cpu@.displacement(d, at),
        r matches Ok((_, end)) ==> at <= end <= at + 4,
{
    let off = cpu.eip.wrapping_add(at);
    match d {
        Disp::Zero => Ok((0, at)),
        Disp::Byte => {
            let b = fetch8(cpu, off)?;
            Ok((as_signed8(b), at + 1))
        },
        Disp::Word => {
            let w = fetch16(cpu, off)?;
            Ok((as_signed16(w), at + 2))
        },
        Disp::UnsignedWord => {
            let w = fetch16(cpu, off)?;
            Ok((w as i32, at + 2))
        },
        Disp::Dword => {
            let v = fetch32(cpu, off)?;
            Ok((as_signed32(v), at + 4))
        },
    }
}

fn form16(modrm: u8) -> (s: Shape)
    ensures
        s == shape16(modrm),
{
    let m: u8 = modrm / 64;
    let rm: u8 = modrm % 8;
    let direct = m == 0 && rm == 6;
    let base: Option<u8> = if direct {
        None
    } else {
        match rm {
            0 => Some(3),  // BX+SI
            1 => Some(3),  // BX+DI
            2 => Some(5),  // BP+SI
            3 => Some(5),  // BP+DI
            4 => Some(6),  // SI
            5 => Some(7),  // DI
            6 => Some(5),  // BP
            _ => Some(3),  // BX
        }
    };
    let index: Option<u8> = match rm {
        0 => Some(6),
        1 => Some(7),
        2 => Some(6),
        3 => Some(7),
        _ => None,
    };
    let disp = if direct {
        Disp::UnsignedWord
    } else if m == 0 {
        Disp::Zero
    } else if m == 1 {
        Disp::Byte
    } else {
        Disp::Word
    };
    Shape { base, index, scale: 1, disp }
}

fn form32(modrm: u8, sib: u8) -> (s: Shape)
    requires
        modrm / 64 != 3,
    ensures
        s == shape32(modrm, sib),
{
    let m: u8 = modrm / 64;
    let rm: u8 = modrm % 8;
    let base_no: u8 = if rm == 4 {
        sib % 8
    } else {
        rm
    };
    let absolute = m == 0 && base_no == 5;
    let base = if absolute {
        None
    } else {
        Some(base_no)
    };
    let index = if rm == 4 && sib / 8 % 8 != 4 {
        Some(sib / 8 % 8)
    } else {
        None
    };
    let scale: u8 = if rm != 4 {
        1
    } else {
        match sib / 64 {
            0 => 1,
            1 => 2,
            2 => 4,
            _ => 8,
        }
    };
    let disp = if absolute || m == 2 {
        Disp::Dword
    } else if m == 1 {
        Disp::Byte
    } else {
        Disp::Zero
    };
    Shape { base, index, scale, disp }
}

/// Decode the memory operand of `modrm`, whose further bytes start at `at`.
fn rm(cpu: &X86, modrm: u8, p: Prefixes, at: u32) -> (r: Result<(Option<MemRef>, u32), String>)
    requires
        at < 50,
    ensures
        fetched(r) == cpu@.rm_mem(modrm, p, at),
        r matches Ok((mem, end)) ==> {
            &&& at <= end <= at + 5
            &&& mem matches Some(m) ==> m.wf()
        },
{
    if modrm / 64 == 3 {
        return Ok((None, at));
    }
    let mut start: u32 = at;
    let shape = if p.a16 {
        form16(modrm)
    } else if modrm % 8 == 4 {
        let sib = fetch8(cpu, cpu.eip.wrapping_add(at))?;
        start = at + 1;
        form32(modrm, sib)
    } else {
        form32(modrm, 0)
    };
    let (disp, end) = read_disp(cpu, shape.disp, start)?;
    let seg = match p.seg {
        Some(s) => s,
        None => match shape.base {
            Some(5) => Seg::Ss,
            _ => Seg::Ds,
        },
    };
    Ok(
        (
            Some(
                MemRef {
                    seg,
                    base: shape.base,
                    index: shape.index,
                    scale: shape.scale,
                    disp,
                    a16: p.a16,
                },
            ),
            end,
        ),
    )
}

fn read_fields(cpu: &X86, m: ModRm, p: Prefixes, at: u32) -> (r: Result<(Fields, u32), String>)
    requires
        at < 20,
    ensures
        fetched(r) == cpu@.fields(m, p, at),
        r matches Ok((f, end)) ==> {
            &&& at <= end <= at + 7
            &&& f.mem matches Some(m) ==> m.wf()
        },
{
    match m {
        ModRm::Absent => Ok((Fields { modrm: 0, first: 0, mem: None }, at)),
        ModRm::Plain => {
            let modrm = fetch8(cpu, cpu.eip.wrapping_add(at))?;
            let (mem, end) = rm(cpu, modrm, p, at + 1)?;
            Ok((Fields { modrm, first: 0, mem }, end))
        },
        ModRm::ImmFirst => {
            let modrm = fetch8(cpu, cpu.eip.wrapping_add(at))?;
            let first = fetch8(cpu, cpu.eip.wrapping_add(at + 1))?;
            let (mem, end) = rm(cpu, modrm, p, at + 2)?;
            Ok((Fields { modrm, first, mem }, end))
        },
    }
}

fn accept(sel: Sel, f: Fields) -> (r: Result<(), String>)
    ensures
        fetched(r) == accepted(sel, f),
{
    let reg: u8 = f.modrm / 8 % 8;
    let is_mem = f.mem.is_some();
    match sel {
        Sel::Group4 => if reg > 1 {
            return Err("group FE undefined".to_owned());
        },
        Sel::Group5 => if reg == 7 {
            return Err("group FF undefined".to_owned());
        },
        Sel::Group6 => if reg > 5 {
            return Err("group 6 undefined".to_owned());
        },
        Sel::Group7 => {
            if !is_mem {
                return Err("group 7 needs memory operand".to_owned());
            }
            if reg == 7 {
                return Err("group 7 undefined".to_owned());
            }
        },
        Sel::Group8 => if reg < 4 {
            return Err("group 8 undefined".to_owned());
        },
        Sel::BoundMem => if !is_mem {
            return Err("BOUND with register operand".to_owned());
        },
        Sel::LeaMem => if !is_mem {
            return Err("LEA with register operand".to_owned());
        },
        Sel::FarLoad(_) => if !is_mem {
            return Err("LDS/ES/SS/FS/GS with register operand".to_owned());
        },
        Sel::LoadSreg => if reg == 1 {
            return Err("MOV CS,r/m unsupported".to_owned());
        },
        Sel::Control => if is_mem {
            return Err("MOV CR needs register".to_owned());
        },
        Sel::Debug => if is_mem {
            return Err("MOV DR needs register".to_owned());
        },
        _ => {},
    }
    Ok(())
}

fn shift_kind(n: u8) -> (k: ShiftKind)
    ensures
        k == shift_number(n),
{
    match n {
        0 => ShiftKind::Rol,
        1 => ShiftKind::Ror,
        2 => ShiftKind::Rcl,
        3 => ShiftKind::Rcr,
        4 => ShiftKind::Shl,
        5 => ShiftKind::Shr,
        6 => ShiftKind::Shl,
        _ => ShiftKind::Sar,
    }
}

fn select(sel: Sel, f: Fields, t: TailVal) -> (op: Op)
    ensures
        op == operation(sel, f, t),
{
    let reg: u8 = f.modrm / 8 % 8;
    match sel {
        Sel::Is(op) => op,
        Sel::Group1 => Op::Alu(alu_op(reg)),
        Sel::Group2(by) => Op::Shift(shift_kind(reg), by),
        Sel::Group2Imm => Op::Shift(shift_kind(reg), ShiftBy::Imm(f.first)),
        Sel::Group3 => match reg {
            0 => Op::Test,
            1 => Op::Test,
            2 => Op::Not,
            3 => Op::Neg,
            4 => Op::Mul,
            5 => Op::Imul,
            6 => Op::Div,
            _ => Op::Idiv,
        },
        Sel::Group4 => if reg == 0 {
            Op::Inc
        } else {
            Op::Dec
        },
        Sel::Group5 => match reg {
            0 => Op::Inc,
            1 => Op::Dec,
            2 => Op::Call { far: false },
            3 => Op::Call { far: true },
            4 => Op::Jump { far: false },
            5 => Op::Jump { far: true },
            _ => Op::Push,
        },
        Sel::Group6 => match reg {
            0 => Op::Sldt,
            1 => Op::Str,
            2 => Op::Lldt,
            3 => Op::Ltr,
            4 => Op::VErr(true),
            _ => Op::VErr(false),
        },
        Sel::Group7 => match reg {
            0 => Op::Sgdt,
            1 => Op::Sidt,
            2 => Op::Lgdt,
            3 => Op::Lidt,
            4 => Op::Smsw,
            5 => Op::Lmsw,
            _ => Op::Invlpg,
        },
        Sel::Group8 => match reg {
            4 => Op::Bit(BitOp::Bt),
            5 => Op::Bit(BitOp::Bts),
            6 => Op::Bit(BitOp::Btr),
            _ => Op::Bit(BitOp::Btc),
        },
        Sel::DshiftImm(left) => Op::Dshift(left, ShiftBy::Imm(f.first)),
        Sel::BoundMem => Op::Bound,
        Sel::LeaMem => Op::Lea,
        Sel::FarLoad(op) => op,
        Sel::LoadSreg => Op::MovRm2Sreg,
        Sel::Control => Op::MovCr,
        Sel::Debug => Op::MovDr,
        Sel::RetImm(far) => Op::Ret { far, imm: Some(t.x as u16) },
        Sel::Frame => Op::Enter(t.x as u16, t.y as u8),
        Sel::Vector => Op::Int(t.x as u8),
    }
}

fn build(arg: Arg, p: Prefixes, f: Fields, t: TailVal) -> (o: Opnd)
    requires
        f.mem matches Some(m) ==> m.wf(),
        arg matches Arg::Fixed(r, _) ==> r < 8,
    ensures
        o == operand(arg, p, f, t),
        o.wf(),
{
    let reg: u8 = f.modrm / 8 % 8;
    match arg {
        Arg::Absent => Opnd::Absent,
        Arg::Rm(w) => match f.mem {
            Some(m) => Opnd::Mem(m, w.bits(p.o16)),
            None => Opnd::Reg(f.modrm % 8, w.bits(p.o16)),
        },
        Arg::Reg(w) => Opnd::Reg(reg, w.bits(p.o16)),
        Arg::Fixed(r, w) => Opnd::Reg(r, w.bits(p.o16)),
        Arg::SregField => Opnd::Sreg(Seg::from_idx(reg)),
        Arg::Sreg(s) => Opnd::Sreg(s),
        Arg::Acc(w) => Opnd::Acc(w.bits(p.o16)),
        Arg::Imm => Opnd::Imm(t.x),
        Arg::ImmSext => Opnd::ImmSext(t.x),
        Arg::TestImm => if reg < 2 {
            Opnd::Imm(t.x)
        } else {
            Opnd::Absent
        },
        Arg::FirstImm => Opnd::Imm(f.first as u32),
        Arg::Rel => Opnd::Rel { disp: as_signed32(t.x) },
        Arg::Far => Opnd::FarPtr { sel: t.y, off: t.x },
        Arg::Port => Opnd::Port(t.x as u16),
        Arg::Dx => Opnd::Dx,
        Arg::Moffs(w) => {
            let seg = match p.seg {
                Some(s) => s,
                None => Seg::Ds,
            };
            Opnd::Mem(
                MemRef {
                    seg,
                    base: None,
                    index: None,
                    scale: 1,
                    disp: as_signed32(t.x),
                    a16: p.a16,
                },
                w.bits(p.o16),
            )
        },
        Arg::RegNumber => Opnd::Imm(reg as u32),
        Arg::Number(n) => Opnd::Imm(n),
    }
}

fn read_number(cpu: &X86, short: bool, at: u32) -> (r: Result<(u32, u32), String>)
    requires
        at < 100,
    ensures
        fetched(r) == cpu@.number(short, at),
        r matches Ok((x, end)) ==> at <= end <= at + 4 && (short ==> x < 0x1_0000),
{
    if short {
        let w = fetch16(cpu, cpu.eip.wrapping_add(at))?;
        Ok((w as u32, at + 2))
    } else {
        let v = fetch32(cpu, cpu.eip.wrapping_add(at))?;
        Ok((v, at + 4))
    }
}

fn read_tail(cpu: &X86, tail: Tail, f: Fields, p: Prefixes, at: u32) -> (r: Result<
    (TailVal, u32),
    String,
>)
    requires
        at < 50,
    ensures
        fetched(r) == cpu@.tail_value(settled(tail, f), p, at),
        r matches Ok((_, end)) ==> at <= end <= at + 6,
{
    let is_test = f.modrm / 8 % 8 < 2;
    match tail {
        Tail::Nothing => Ok((TailVal { x: 0, y: 0 }, at)),
        Tail::Byte | Tail::TestByte => {
            if matches!(tail, Tail::TestByte) && !is_test {
                return Ok((TailVal { x: 0, y: 0 }, at));
            }
            let b = fetch8(cpu, cpu.eip.wrapping_add(at))?;
            Ok((TailVal { x: b as u32, y: 0 }, at + 1))
        },
        Tail::SignedByte => {
            let b = fetch8(cpu, cpu.eip.wrapping_add(at))?;
            Ok((TailVal { x: extend8(b), y: 0 }, at + 1))
        },
        Tail::Word => {
            let (x, end) = read_number(cpu, true, at)?;
            Ok((TailVal { x, y: 0 }, end))
        },
        Tail::Full | Tail::TestFull => {
            if matches!(tail, Tail::TestFull) && !is_test {
                return Ok((TailVal { x: 0, y: 0 }, at));
            }
            let (x, end) = read_number(cpu, p.o16, at)?;
            Ok((TailVal { x, y: 0 }, end))
        },
        Tail::SignedFull => {
            let (x, end) = read_number(cpu, p.o16, at)?;
            if p.o16 {
                Ok((TailVal { x: extend16(x as u16), y: 0 }, end))
            } else {
                Ok((TailVal { x, y: 0 }, end))
            }
        },
        Tail::Frame => {
            let (x, mid) = read_number(cpu, true, at)?;
            let b = fetch8(cpu, cpu.eip.wrapping_add(mid))?;
            Ok((TailVal { x, y: b as u16 }, mid + 1))
        },
        Tail::Far => {
            let (x, mid) = read_number(cpu, p.o16, at)?;
            let y = fetch16(cpu, cpu.eip.wrapping_add(mid))?;
            Ok((TailVal { x, y }, mid + 2))
        },
        Tail::Moffs => {
            let (x, end) = read_number(cpu, p.a16, at)?;
            Ok((TailVal { x, y: 0 }, end))
        },
    }
}

/// Decode the rest of an instruction whose opcode has the map entry `form`.
fn decode_form(cpu: &X86, form: Form, p: Prefixes, at: u32) -> (r: Result<Decoded, String>)
    requires
        p.len < at <= 16,
        form.wf(),
    ensures
        decode_outcome(r) == cpu@.formed(form, p, at),
        r matches Ok(d) ==> d@.wf() && 1 <= d.len <= 29,
{
    let (f, mid) = read_fields(cpu, form.modrm, p, at)?;
    accept(form.sel, f)?;
    let (t, end) = read_tail(cpu, form.tail, f, p, mid)?;
    Ok(
        Decoded {
            op: select(form.sel, f, t),
            len: end as u8,
            ops: [
                build(form.a, p, f, t),
                build(form.b, p, f, t),
                build(form.c, p, f, t),
                Opnd::Absent,
            ],
            rep: p.rep,
            lock: p.lock,
            o16: p.o16,
            a16: p.a16,
            seg_override: p.seg,
        },
    )
}

/// Fetch and decode one instruction at CS:EIP. Returns the decoded instruction
/// with its length. Does *not* advance EIP.
pub fn fetch(cpu: &X86) -> (r: Result<Decoded, String>)
    ensures
        decode_outcome(r) == cpu@.decoded(),
        r matches Ok(d) ==> d@.wf() && 1 <= d.len <= 29,
{
    proof {
        reveal(CpuState::decoded);
    }
    let p = scan_prefixes(cpu)?;
    let b = fetch8(cpu, cpu.eip.wrapping_add(p.len))?;
    if b == 0x0F {
        let b2 = fetch8(cpu, cpu.eip.wrapping_add(p.len + 1))?;
        decode_form(cpu, two_byte(b2), p, p.len + 2)
    } else {
        decode_form(cpu, one_byte(b, p.o16), p, p.len + 1)
    }
}

// ---------------------------------------------------------------------------
// Laws
// ---------------------------------------------------------------------------

/// A decoded instruction names only registers that exist.
pub proof fn decoded_is_well_formed(s: CpuState)
    ensures
        s.decoded() matches Ok(i) ==> i.wf(),
{
    reveal(CpuState::decoded);
    if let Ok(p) = s.prefixes_from(Prefixes::initial(s.default16())) {
        if let Ok(b) = s.fetch8(s.code_at(p.len)) {
            lemma_one_byte_wf(b, p.o16);
            lemma_formed_wf(s, one_byte_form(b, p.o16), p, (p.len + 1) as u32);
            if let Ok(b2) = s.fetch8(s.code_at((p.len + 1) as u32)) {
                lemma_two_byte_wf(b2);
                lemma_formed_wf(s, two_byte_form(b2), p, (p.len + 2) as u32);
            }
        }
    }
}

proof fn lemma_formed_wf(s: CpuState, form: Form, p: Prefixes, at: u32)
    requires
        form.wf(),
    ensures
        s.formed(form, p, at) matches Ok(i) ==> i.wf(),
{
    if let Ok((f, mid)) = s.fields(form.modrm, p, at) {
        assert(f.mem matches Some(m) ==> m.wf());
    }
}

/// Decoding looks only at EIP, CR0, CS and memory: general registers, flags and
/// everything else do not matter.
pub proof fn decoding_depends_on_code_alone(s: CpuState, t: CpuState)
    requires
        s.eip == t.eip,
        s.cr[0] == t.cr[0],
        s.segment(Seg::Cs) == t.segment(Seg::Cs),
        s.mem.bytes == t.mem.bytes,
    ensures
        s.decoded() == t.decoded(),
{
    reveal(CpuState::decoded);
    assert forall|off: u32| #[trigger] s.fetch8(off) == t.fetch8(off) by {
    }
    assert forall|off: u32| #[trigger] s.fetch16(off) == t.fetch16(off) by {
        assert(s.fetch8(off) == t.fetch8(off));
        assert(s.fetch8(off.wrapping_add(1)) == t.fetch8(off.wrapping_add(1)));
    }
    assert forall|off: u32| #[trigger] s.fetch32(off) == t.fetch32(off) by {
        assert(s.fetch16(off) == t.fetch16(off));
        assert(s.fetch16(off.wrapping_add(2)) == t.fetch16(off.wrapping_add(2)));
    }
    assert(same_code(s, t));
    lemma_same_prefixes(s, t, Prefixes::initial(s.default16()));
    if let Ok(p) = s.prefixes_from(Prefixes::initial(s.default16())) {
        assert(s.fetch8(s.code_at(p.len)) == t.fetch8(t.code_at(p.len)));
        if let Ok(b) = s.fetch8(s.code_at(p.len)) {
            lemma_same_formed(s, t, one_byte_form(b, p.o16), p, (p.len + 1) as u32);
            let next = s.code_at((p.len + 1) as u32);
            assert(s.fetch8(next) == t.fetch8(next));
            if let Ok(b2) = s.fetch8(next) {
                lemma_same_formed(s, t, two_byte_form(b2), p, (p.len + 2) as u32);
            }
        }
    }
}

/// Two states in which the same instruction bytes are fetched.
spec fn same_code(s: CpuState, t: CpuState) -> bool {
    &&& s.eip == t.eip
    &&& s.default16() == t.default16()
    &&& forall|off: u32| #[trigger] s.fetch8(off) == t.fetch8(off)
    &&& forall|off: u32| #[trigger] s.fetch16(off) == t.fetch16(off)
    &&& forall|off: u32| #[trigger] s.fetch32(off) == t.fetch32(off)
}

proof fn lemma_same_prefixes(s: CpuState, t: CpuState, p: Prefixes)
    requires
        same_code(s, t),
    ensures
        s.prefixes_from(p) == t.prefixes_from(p),
    decreases 15 - p.len,
{
    if let Ok(b) = s.fetch8(s.code_at(p.len)) {
        if let Some(q) = p.with_prefix(b, s.default16()) {
            if q.len < 15 && q.len > p.len {
                lemma_same_prefixes(s, t, q);
            }
        }
    }
}

proof fn lemma_same_disp(s: CpuState, t: CpuState, d: Disp, at: u32)
    requires
        same_code(s, t),
    ensures
        s.displacement(d, at) == t.displacement(d, at),
{
}

proof fn lemma_same_mem(s: CpuState, t: CpuState, modrm: u8, p: Prefixes, at: u32)
    requires
        same_code(s, t),
    ensures
        s.rm_mem(modrm, p, at) == t.rm_mem(modrm, p, at),
{
    lemma_same_disp(s, t, shape16(modrm).disp, at);
    lemma_same_disp(s, t, shape32(modrm, 0).disp, at);
    assert(s.fetch8(s.code_at(at)) == t.fetch8(t.code_at(at)));
    if let Ok(sib) = s.fetch8(s.code_at(at)) {
        lemma_same_disp(s, t, shape32(modrm, sib).disp, (at + 1) as u32);
    }
}

proof fn lemma_same_fields(s: CpuState, t: CpuState, m: ModRm, p: Prefixes, at: u32)
    requires
        same_code(s, t),
    ensures
        s.fields(m, p, at) == t.fields(m, p, at),
{
    assert(s.fetch8(s.code_at(at)) == t.fetch8(t.code_at(at)));
    if let Ok(modrm) = s.fetch8(s.code_at(at)) {
        lemma_same_mem(s, t, modrm, p, (at + 1) as u32);
        lemma_same_mem(s, t, modrm, p, (at + 2) as u32);
    }
}

proof fn lemma_same_tail(s: CpuState, t: CpuState, tail: Tail, p: Prefixes, at: u32)
    requires
        same_code(s, t),
    ensures
        s.tail_value(tail, p, at) == t.tail_value(tail, p, at),
{
    assert(s.number(true, at) == t.number(true, at));
    assert(s.number(false, at) == t.number(false, at));
}

proof fn lemma_same_formed(s: CpuState, t: CpuState, form: Form, p: Prefixes, at: u32)
    requires
        same_code(s, t),
    ensures
        s.formed(form, p, at) == t.formed(form, p, at),
{
    lemma_same_fields(s, t, form.modrm, p, at);
    if let Ok((f, mid)) = s.fields(form.modrm, p, at) {
        lemma_same_tail(s, t, settled(form.tail, f), p, mid);
    }
}

} // verus!
