//! Lowering: the code of an instruction and of a block.

use vstd::prelude::*;

use crate::bits::{as_word, wrap32};
use crate::cpu::{AccessKind, Seg};
use crate::decode::{AluOp, Bits, Cond, Decoded, Insn, MemRef, Op, Opnd, ShiftBy};
use crate::jit::code::{Expr, Stmt};
use crate::sem::arith::{mask, mask_of};
use crate::sem::compute::is_word;
use crate::sem::misc::port_size;
use crate::sem::operand::{opnd_width, width_of};

verus! {

/// The slot for a first operand.
pub const A: u8 = 0;

/// The slot for a second operand.
pub const B: u8 = 1;

/// The slot for a result.
pub const R: u8 = 2;

/// The slot for the address of a store.
pub const T: u8 = 3;

// ---------------------------------------------------------------------------
// Registers and addresses
// ---------------------------------------------------------------------------

pub open spec fn and_spec(e: Expr, m: u32) -> Expr {
    Expr::And(Box::new(e), Box::new(Expr::Const(m)))
}

fn and(e: Expr, m: u32) -> (r: Expr)
    ensures
        r == and_spec(e, m),
{
    Expr::And(Box::new(e), Box::new(Expr::Const(m)))
}

/// A register at a width, zero-extended.
#[verifier::opaque]
pub open spec fn reg_expr(r: u8, bits: Bits) -> Expr {
    match bits {
        Bits::B8 => if r >= 4 {
            and_spec(Expr::Shr(Box::new(Expr::Reg((r % 4) as u8)), 8), 0xFF)
        } else {
            and_spec(Expr::Reg(r), 0xFF)
        },
        Bits::B16 => and_spec(Expr::Reg(r), 0xFFFF),
        Bits::B32 => Expr::Reg(r),
    }
}

/// Read a register honoring the operand size.
fn reg_val(r: u8, bits: Bits) -> (e: Expr)
    ensures
        e == reg_expr(r, bits),
{
    proof {
        reveal(reg_expr);
    }
    match bits {
        Bits::B8 => if r >= 4 {
            and(Expr::Shr(Box::new(Expr::Reg(r % 4)), 8), 0xFF)
        } else {
            and(Expr::Reg(r), 0xFF)
        },
        Bits::B16 => and(Expr::Reg(r), 0xFFFF),
        Bits::B32 => Expr::Reg(r),
    }
}

/// A register takes the low bits of a slot at a width.
#[verifier::opaque]
pub open spec fn set_reg_stmt(r: u8, bits: Bits, v: u8) -> Stmt {
    match bits {
        Bits::B8 => if r >= 4 {
            Stmt::SetReg(
                (r % 4) as u8,
                Expr::Or(
                    Box::new(and_spec(Expr::Reg((r % 4) as u8), 0xFFFF_00FF)),
                    Box::new(Expr::Shl(Box::new(and_spec(Expr::Slot(v), 0xFF)), 8)),
                ),
            )
        } else {
            Stmt::SetReg(
                r,
                Expr::Or(
                    Box::new(and_spec(Expr::Reg(r), 0xFFFF_FF00)),
                    Box::new(and_spec(Expr::Slot(v), 0xFF)),
                ),
            )
        },
        Bits::B16 => Stmt::SetReg(
            r,
            Expr::Or(
                Box::new(and_spec(Expr::Reg(r), 0xFFFF_0000)),
                Box::new(and_spec(Expr::Slot(v), 0xFFFF)),
            ),
        ),
        Bits::B32 => Stmt::SetReg(r, Expr::Slot(v)),
    }
}

/// Write a register (honoring the operand size).
fn set_reg(r: u8, bits: Bits, v: u8) -> (st: Stmt)
    ensures
        st == set_reg_stmt(r, bits, v),
{
    proof {
        reveal(set_reg_stmt);
    }
    match bits {
        Bits::B8 => if r >= 4 {
            Stmt::SetReg(
                r % 4,
                Expr::Or(
                    Box::new(and(Expr::Reg(r % 4), 0xFFFF_00FF)),
                    Box::new(Expr::Shl(Box::new(and(Expr::Slot(v), 0xFF)), 8)),
                ),
            )
        } else {
            Stmt::SetReg(
                r,
                Expr::Or(
                    Box::new(and(Expr::Reg(r), 0xFFFF_FF00)),
                    Box::new(and(Expr::Slot(v), 0xFF)),
                ),
            )
        },
        Bits::B16 => Stmt::SetReg(
            r,
            Expr::Or(
                Box::new(and(Expr::Reg(r), 0xFFFF_0000)),
                Box::new(and(Expr::Slot(v), 0xFFFF)),
            ),
        ),
        Bits::B32 => Stmt::SetReg(r, Expr::Slot(v)),
    }
}

/// A register of an address, 0 without one.
pub open spec fn part_expr(r: Option<u8>) -> Expr {
    match r {
        Some(n) => Expr::Reg(n),
        None => Expr::Const(0),
    }
}

fn part(r: Option<u8>) -> (e: Expr)
    ensures
        e == part_expr(r),
{
    match r {
        Some(n) => Expr::Reg(n),
        None => Expr::Const(0),
    }
}

/// An effective address (offset within segment).
#[verifier::opaque]
pub open spec fn ea_expr(m: MemRef) -> Expr {
    let sum = Expr::Add(
        Box::new(
            Expr::Add(
                Box::new(part_expr(m.base)),
                Box::new(
                    Expr::Mul(
                        Box::new(part_expr(m.index)),
                        Box::new(Expr::Const(m.scale as u32)),
                    ),
                ),
            ),
        ),
        Box::new(Expr::Const(wrap32(m.disp as int))),
    );
    if m.a16 {
        and_spec(sum, 0xFFFF)
    } else {
        sum
    }
}

/// Compute an effective address.
fn eff_addr(m: &MemRef) -> (e: Expr)
    ensures
        e == ea_expr(*m),
{
    proof {
        reveal(ea_expr);
    }
    let sum = Expr::Add(
        Box::new(
            Expr::Add(
                Box::new(part(m.base)),
                Box::new(
                    Expr::Mul(
                        Box::new(part(m.index)),
                        Box::new(Expr::Const(m.scale as u32)),
                    ),
                ),
            ),
        ),
        Box::new(Expr::Const(as_word(m.disp))),
    );
    if m.a16 {
        and(sum, 0xFFFF)
    } else {
        sum
    }
}

// ---------------------------------------------------------------------------
// Operands
// ---------------------------------------------------------------------------

/// The block is left for the interpreter to run the instruction at `eip`.
pub open spec fn leave_code(eip: u32) -> Seq<Stmt> {
    seq![Stmt::Exit { eip: Expr::Const(eip), status: 1 }]
}

/// A slot takes the value of an operand.
#[verifier::opaque]
pub open spec fn read_code(o: Opnd, kind: AccessKind, eip: u32, to: u8) -> Seq<Stmt> {
    match o {
        Opnd::Reg(r, bits) => seq![Stmt::Let(to, reg_expr(r, bits))],
        Opnd::Acc(bits) => seq![Stmt::Let(to, reg_expr(0, bits))],
        Opnd::Mem(m, bits) => seq![
            Stmt::Let(to, ea_expr(m)),
            Stmt::Load { seg: m.seg, off: to, bits, kind, to, eip },
        ],
        Opnd::Imm(v) => seq![Stmt::Let(to, Expr::Const(v))],
        Opnd::ImmSext(v) => seq![Stmt::Let(to, Expr::Const(v))],
        Opnd::Cl => seq![Stmt::Let(to, reg_expr(1, Bits::B8))],
        Opnd::Dx => seq![Stmt::Let(to, reg_expr(2, Bits::B16))],
        Opnd::Port(p) => seq![Stmt::Let(to, Expr::Const(p as u32))],
        Opnd::Rel { disp } => seq![Stmt::Let(to, Expr::Const(wrap32(disp as int)))],
        Opnd::Sreg(_) => leave_code(eip),
        _ => seq![Stmt::Let(to, Expr::Const(0))],
    }
}

/// An operand takes the value of a slot.
#[verifier::opaque]
pub open spec fn write_code(o: Opnd, v: u8, eip: u32) -> Seq<Stmt> {
    match o {
        Opnd::Reg(r, bits) => seq![set_reg_stmt(r, bits, v)],
        Opnd::Acc(bits) => seq![set_reg_stmt(0, bits, v)],
        Opnd::Mem(m, bits) => seq![
            Stmt::Let(T, ea_expr(m)),
            Stmt::Store { seg: m.seg, off: T, bits, v, eip },
        ],
        _ => Seq::empty(),
    }
}

/// Add a statement.
fn emit(code: &mut Vec<Stmt>, st: Stmt)
    ensures
        final(code)@ == old(code)@ + seq![st],
{
    code.push(st);
    assert(code@ =~= old(code)@ + seq![st]);
}

fn emit_leave(code: &mut Vec<Stmt>, eip: u32)
    ensures
        final(code)@ == old(code)@ + leave_code(eip),
{
    emit(code, Stmt::Exit { eip: Expr::Const(eip), status: 1 });
}

fn opnd_read(code: &mut Vec<Stmt>, o: &Opnd, kind: AccessKind, eip: u32, to: u8)
    ensures
        final(code)@ == old(code)@ + read_code(*o, kind, eip, to),
{
    proof {
        reveal(read_code);
    }
    let e = match *o {
        Opnd::Reg(r, bits) => reg_val(r, bits),
        Opnd::Acc(bits) => reg_val(0, bits),
        Opnd::Mem(m, bits) => {
            emit(code, Stmt::Let(to, eff_addr(&m)));
            emit(code, Stmt::Load { seg: m.seg, off: to, bits, kind, to, eip });
            assert(code@ =~= old(code)@ + read_code(*o, kind, eip, to));
            return;
        },
        Opnd::Imm(v) => Expr::Const(v),
        Opnd::ImmSext(v) => Expr::Const(v),
        Opnd::Cl => reg_val(1, Bits::B8),
        Opnd::Dx => reg_val(2, Bits::B16),
        Opnd::Port(p) => Expr::Const(p as u32),
        Opnd::Rel { disp } => Expr::Const(as_word(disp)),
        Opnd::Sreg(_) => {
            emit_leave(code, eip);
            return;
        },
        _ => Expr::Const(0),
    };
    emit(code, Stmt::Let(to, e));
}

fn opnd_write(code: &mut Vec<Stmt>, o: &Opnd, v: u8, eip: u32)
    ensures
        final(code)@ == old(code)@ + write_code(*o, v, eip),
{
    proof {
        reveal(write_code);
    }
    match *o {
        Opnd::Reg(r, bits) => emit(code, set_reg(r, bits, v)),
        Opnd::Acc(bits) => emit(code, set_reg(0, bits, v)),
        Opnd::Mem(m, bits) => {
            emit(code, Stmt::Let(T, eff_addr(&m)));
            emit(code, Stmt::Store { seg: m.seg, off: T, bits, v, eip });
            assert(code@ =~= old(code)@ + write_code(*o, v, eip));
        },
        _ => {
            assert(code@ =~= old(code)@ + write_code(*o, v, eip));
        },
    }
}

// ---------------------------------------------------------------------------
// Instructions
// ---------------------------------------------------------------------------

/// The block ends with execution going on at `e`, cut to 16 bits outside 32-bit
/// code.
pub open spec fn exit_stmt(e: Expr, wide: bool) -> Stmt {
    Stmt::Exit {
        eip: if wide {
            e
        } else {
            and_spec(e, 0xFFFF)
        },
        status: 0,
    }
}

fn exit(e: Expr, wide: bool) -> (st: Stmt)
    ensures
        st == exit_stmt(e, wide),
{
    if wide {
        Stmt::Exit { eip: e, status: 0 }
    } else {
        Stmt::Exit { eip: and(e, 0xFFFF), status: 0 }
    }
}

/// `a` where slot `c` is not 0, else `b`.
pub open spec fn choice(c: u8, a: u32, b: u32) -> Expr {
    Expr::Select(Box::new(Expr::Slot(c)), Box::new(Expr::Const(a)), Box::new(Expr::Const(b)))
}

fn choose_eip(c: u8, a: u32, b: u32) -> (e: Expr)
    ensures
        e == choice(c, a, b),
{
    Expr::Select(Box::new(Expr::Slot(c)), Box::new(Expr::Const(a)), Box::new(Expr::Const(b)))
}

/// The count of a shift.
pub open spec fn count_expr(by: ShiftBy) -> Expr {
    match by {
        ShiftBy::One => Expr::Const(1),
        ShiftBy::Cl => reg_expr(1, Bits::B8),
        ShiftBy::Imm(c) => Expr::Const(c as u32),
    }
}

/// What MOVZX and MOVSX make of their source in slot `A`.
pub open spec fn widen_expr(o: Opnd, from8: bool, sgn: bool) -> Expr {
    if from8 {
        if sgn {
            Expr::Sext8(Box::new(Expr::Slot(A)))
        } else {
            and_spec(Expr::Slot(A), 0xFF)
        }
    } else if sgn && is_word(o) {
        Expr::Sext16(Box::new(Expr::Slot(A)))
    } else {
        Expr::Slot(A)
    }
}

/// Slot `A` takes the target of a near jump or call.
pub open spec fn target_code(i: Insn, eip: u32, next: u32) -> Seq<Stmt> {
    match i.o0 {
        Opnd::Reg(_, _) => read_code(i.o0, AccessKind::Read, eip, A),
        Opnd::Mem(_, _) => read_code(i.o0, AccessKind::Read, eip, A),
        _ => seq![Stmt::Let(A, Expr::Const(i.target(next)))],
    }
}

/// Slot `A` takes the port of IN and OUT.
pub open spec fn port_code(o: Opnd) -> Seq<Stmt> {
    match o {
        Opnd::Port(p) => seq![Stmt::Let(A, Expr::Const(p as u32))],
        Opnd::Dx => seq![Stmt::Let(A, reg_expr(2, Bits::B16))],
        _ => seq![Stmt::Let(A, Expr::Const(0))],
    }
}

/// Where LOOP goes: slot `B` is what is left of the count, slot `R` tells ZF.
pub open spec fn loop_expr(kind: Option<u8>, target: u32, next: u32) -> Expr {
    let wanted = match kind {
        None => Expr::Const(target),
        Some(k) => if k == 0xE0 {
            choice(R, next, target)
        } else {
            choice(R, target, next)
        },
    };
    Expr::Select(Box::new(Expr::Slot(B)), Box::new(wanted), Box::new(Expr::Const(next)))
}

/// The number of a string operation.
pub open spec fn string_number(op: Op) -> u8 {
    match op {
        Op::Movs(_) => 0,
        Op::Stos(_) => 1,
        Op::Lods(_) => 2,
        Op::Cmps(_) => 3,
        Op::Scas(_) => 4,
        Op::Ins(_) => 5,
        _ => 6,
    }
}

/// The element width of a string operation.
pub open spec fn string_bits(op: Op) -> Bits {
    match op {
        Op::Movs(b) => b,
        Op::Stos(b) => b,
        Op::Lods(b) => b,
        Op::Cmps(b) => b,
        Op::Scas(b) => b,
        Op::Ins(b) => b,
        Op::Outs(b) => b,
        _ => Bits::B8,
    }
}

/// The number of a flag instruction.
pub open spec fn flag_number(op: Op) -> u64 {
    match op {
        Op::Cli => 0,
        Op::Sti => 1,
        Op::Cld => 2,
        Op::Std => 3,
        Op::Clc => 4,
        Op::Stc => 5,
        Op::Cmc => 6,
        _ => 7,
    }
}

/// Arithmetic and moves.
pub open spec fn plain_code(i: Insn, eip: u32) -> Seq<Stmt> {
    let bits = width_of(i.o0, i.size());
    match i.op {
        Op::Alu(op) => read_code(i.o0, AccessKind::Read, eip, A) + read_code(
            i.o1,
            AccessKind::Read,
            eip,
            B,
        ) + seq![Stmt::Alu { op, a: A, b: B, bits, to: R }] + (if op is Cmp {
            Seq::empty()
        } else {
            write_code(i.o0, R, eip)
        }),
        Op::Test => read_code(i.o0, AccessKind::Read, eip, A) + read_code(
            i.o1,
            AccessKind::Read,
            eip,
            B,
        ) + seq![Stmt::Test { a: A, b: B, bits }],
        Op::Inc => read_code(i.o0, AccessKind::Rmw, eip, A) + seq![
            Stmt::IncDec { inc: true, v: A, bits, to: R },
        ] + write_code(i.o0, R, eip),
        Op::Dec => read_code(i.o0, AccessKind::Rmw, eip, A) + seq![
            Stmt::IncDec { inc: false, v: A, bits, to: R },
        ] + write_code(i.o0, R, eip),
        Op::Neg => read_code(i.o0, AccessKind::Rmw, eip, A) + seq![
            Stmt::Neg { v: A, bits, to: R },
        ] + write_code(i.o0, R, eip),
        Op::Not => read_code(i.o0, AccessKind::Rmw, eip, A) + seq![
            Stmt::Let(R, and_spec(Expr::Not(Box::new(Expr::Slot(A))), mask_of(bits))),
        ] + write_code(i.o0, R, eip),
        Op::Shift(kind, by) => read_code(i.o0, AccessKind::Rmw, eip, A) + seq![
            Stmt::Let(B, count_expr(by)),
            Stmt::Shift { kind, v: A, count: B, bits, to: R },
        ] + write_code(i.o0, R, eip),
        Op::Mov => read_code(i.o1, AccessKind::Read, eip, A) + write_code(i.o0, A, eip),
        Op::Movzx(from8) => read_code(i.o1, AccessKind::Read, eip, A) + seq![
            Stmt::Let(R, widen_expr(i.o1, from8, false)),
        ] + write_code(i.o0, R, eip),
        Op::Movsx(from8) => read_code(i.o1, AccessKind::Read, eip, A) + seq![
            Stmt::Let(R, widen_expr(i.o1, from8, true)),
        ] + write_code(i.o0, R, eip),
        Op::Lea => match i.o1 {
            Opnd::Mem(m, _) => seq![Stmt::Let(A, ea_expr(m))] + write_code(i.o0, A, eip),
            _ => leave_code(eip),
        },
        Op::Xchg => read_code(i.o0, AccessKind::Rmw, eip, A) + read_code(
            i.o1,
            AccessKind::Rmw,
            eip,
            B,
        ) + write_code(i.o0, B, eip) + write_code(i.o1, A, eip),
        Op::Setcc(c) => seq![Stmt::Cond { c, to: A }] + write_code(i.o0, A, eip),
        Op::Cmov(c) => if i.o0 is Mem {
            leave_code(eip)
        } else {
            seq![Stmt::Cond { c, to: R }] + read_code(
                i.o1,
                AccessKind::Read,
                eip,
                A,
            ) + read_code(i.o0, AccessKind::Read, eip, B) + seq![
                Stmt::Let(
                    R,
                    Expr::Select(
                        Box::new(Expr::Slot(R)),
                        Box::new(Expr::Slot(A)),
                        Box::new(Expr::Slot(B)),
                    ),
                ),
            ] + write_code(i.o0, R, eip)
        },
        _ => leave_code(eip),
    }
}

/// Stack, port, flag and other instructions that do not jump.
pub open spec fn system_code(i: Insn, eip: u32) -> Seq<Stmt> {
    let size = i.size().size();
    match i.op {
        Op::Push => read_code(i.o0, AccessKind::Read, eip, A) + seq![
            Stmt::Flush(eip),
            Stmt::Push { size, v: A, eip },
            Stmt::Reload,
        ],
        Op::Pop => seq![Stmt::Flush(eip), Stmt::Pop { size, to: A, eip }, Stmt::Reload] + write_code(
            i.o0,
            A,
            eip,
        ),
        Op::In => if i.o0 is Mem {
            leave_code(eip)
        } else {
            port_code(i.o1) + seq![Stmt::IoRead { port: A, size: port_size(i.o0), to: B }]
                + write_code(i.o0, B, eip)
        },
        Op::Out => if i.o1 is Mem || i.o1 is Sreg {
            leave_code(eip)
        } else {
            port_code(i.o0) + read_code(i.o1, AccessKind::Read, eip, B) + seq![
                Stmt::IoWrite { port: A, size: port_size(i.o1), v: B },
            ]
        },
        Op::Xlat => seq![
            Stmt::Let(
                A,
                Expr::Add(
                    Box::new(reg_expr(3, Bits::B16)),
                    Box::new(reg_expr(0, Bits::B8)),
                ),
            ),
            Stmt::Load {
                seg: Seg::Ds,
                off: A,
                bits: Bits::B8,
                kind: AccessKind::Read,
                to: A,
                eip,
            },
            set_reg_stmt(0, Bits::B8, A),
        ],
        Op::Cli | Op::Sti | Op::Cld | Op::Std | Op::Clc | Op::Stc | Op::Cmc | Op::Clts => seq![
            Stmt::FlagOp(flag_number(i.op)),
        ],
        Op::Salc => seq![
            Stmt::Cond { c: Cond::B, to: A },
            Stmt::Let(B, Expr::Mul(Box::new(Expr::Slot(A)), Box::new(Expr::Const(0xFF)))),
            set_reg_stmt(0, Bits::B8, B),
        ],
        Op::Nop | Op::Wait => Seq::empty(),
        _ => leave_code(eip),
    }
}

/// Instructions that end the block.
pub open spec fn jump_code(i: Insn, eip: u32, wide: bool) -> Seq<Stmt> {
    let size = i.size().size();
    let next = eip.wrapping_add(i.len as u32);
    let target = i.target(next);
    match i.op {
        Op::Jcc(c) => seq![
            Stmt::Cond { c, to: A },
            exit_stmt(choice(A, target, next), wide),
        ],
        Op::Jump { far: false } => target_code(i, eip, next) + seq![
            exit_stmt(Expr::Slot(A), wide),
        ],
        Op::Call { far: false } => target_code(i, eip, next) + seq![
            Stmt::Let(B, Expr::Const(next)),
            Stmt::Flush(eip),
            Stmt::Push { size, v: B, eip },
            Stmt::Reload,
            exit_stmt(Expr::Slot(A), wide),
        ],
        Op::Ret { far: false, imm } => seq![Stmt::Flush(eip), Stmt::Pop { size, to: A, eip }] + (
        match imm {
            Some(n) => seq![Stmt::StackAdd(n as u32)],
            None => Seq::empty(),
        }) + seq![Stmt::Reload, exit_stmt(Expr::Slot(A), wide)],
        Op::Loop(kind) => seq![
            Stmt::Let(
                A,
                Expr::Add(Box::new(Expr::Reg(1)), Box::new(Expr::Const(0xFFFF_FFFF))),
            ),
            set_reg_stmt(1, i.size(), A),
            Stmt::Let(
                B,
                if i.o16 {
                    and_spec(Expr::Slot(A), 0xFFFF)
                } else {
                    Expr::Slot(A)
                },
            ),
            Stmt::Cond { c: Cond::E, to: R },
            exit_stmt(loop_expr(kind, target, next), wide),
        ],
        Op::Jcxz => seq![
            Stmt::Let(A, reg_expr(1, Bits::by_attribute(i.a16))),
            exit_stmt(choice(A, next, target), wide),
        ],
        Op::Movs(_) | Op::Stos(_) | Op::Lods(_) | Op::Cmps(_) | Op::Scas(_) | Op::Ins(_) | Op::Outs(
            _,
        ) => if i.a16 == wide {
            leave_code(eip)
        } else {
            seq![
                Stmt::Flush(eip),
                Stmt::Str { op: string_number(i.op), rep: i.rep, bits: string_bits(i.op) },
                Stmt::Reload,
                exit_stmt(Expr::Const(next), wide),
            ]
        },
        _ => leave_code(eip),
    }
}

/// The groups of instructions that are lowered.
#[derive(Debug, Clone, Copy, PartialEq, Eq, Structural)]
pub enum Group {
    Plain,
    System,
    Jump,
}

/// Which group an operation belongs to.
pub open spec fn group_of(op: Op) -> Group {
    match op {
        Op::Push => Group::System,
        Op::Pop => Group::System,
        Op::In => Group::System,
        Op::Out => Group::System,
        Op::Xlat => Group::System,
        Op::Cli => Group::System,
        Op::Sti => Group::System,
        Op::Cld => Group::System,
        Op::Std => Group::System,
        Op::Clc => Group::System,
        Op::Stc => Group::System,
        Op::Cmc => Group::System,
        Op::Clts => Group::System,
        Op::Salc => Group::System,
        Op::Nop => Group::System,
        Op::Wait => Group::System,
        Op::Jcc(_) => Group::Jump,
        Op::Jump { far } => Group::Jump,
        Op::Call { far } => Group::Jump,
        Op::Ret { far, imm } => Group::Jump,
        Op::Loop(_) => Group::Jump,
        Op::Jcxz => Group::Jump,
        Op::Movs(_) => Group::Jump,
        Op::Stos(_) => Group::Jump,
        Op::Lods(_) => Group::Jump,
        Op::Cmps(_) => Group::Jump,
        Op::Scas(_) => Group::Jump,
        Op::Ins(_) => Group::Jump,
        Op::Outs(_) => Group::Jump,
        _ => Group::Plain,
    }
}

/// The code of the instruction `i` at `eip`; `wide` in 32-bit code. What is not
/// lowered leaves the block.
pub open spec fn lowered(i: Insn, eip: u32, wide: bool) -> Seq<Stmt> {
    match group_of(i.op) {
        Group::Plain => plain_code(i, eip),
        Group::System => system_code(i, eip),
        Group::Jump => jump_code(i, eip, wide),
    }
}

fn find_group(op: Op) -> (g: Group)
    ensures
        g == group_of(op),
{
    match op {
        Op::Push | Op::Pop | Op::In | Op::Out | Op::Xlat | Op::Cli | Op::Sti | Op::Cld | Op::Std
        | Op::Clc | Op::Stc | Op::Cmc | Op::Clts | Op::Salc | Op::Nop | Op::Wait => Group::System,
        Op::Jcc(_) | Op::Jump { far: _ } | Op::Call { far: _ } | Op::Ret { far: _, imm: _ }
        | Op::Loop(_) | Op::Jcxz | Op::Movs(_) | Op::Stos(_) | Op::Lods(_) | Op::Cmps(_)
        | Op::Scas(_) | Op::Ins(_) | Op::Outs(_) => Group::Jump,
        _ => Group::Plain,
    }
}

fn shift_count(by: ShiftBy) -> (e: Expr)
    ensures
        e == count_expr(by),
{
    match by {
        ShiftBy::One => Expr::Const(1),
        ShiftBy::Cl => reg_val(1, Bits::B8),
        ShiftBy::Imm(c) => Expr::Const(c as u32),
    }
}

fn widen(o: &Opnd, from8: bool, sgn: bool) -> (e: Expr)
    ensures
        e == widen_expr(*o, from8, sgn),
{
    let word = match *o {
        Opnd::Reg(_, b) => matches!(b, Bits::B16),
        Opnd::Mem(_, b) => matches!(b, Bits::B16),
        _ => false,
    };
    if from8 {
        if sgn {
            Expr::Sext8(Box::new(Expr::Slot(A)))
        } else {
            and(Expr::Slot(A), 0xFF)
        }
    } else if sgn && word {
        Expr::Sext16(Box::new(Expr::Slot(A)))
    } else {
        Expr::Slot(A)
    }
}

fn emit_plain(code: &mut Vec<Stmt>, d: &Decoded, eip: u32)
    ensures
        final(code)@ == old(code)@ + plain_code(d@, eip),
{
    let bits = opnd_width(&d.ops[0], d.size());
    match d.op {
        Op::Alu(op) => {
            opnd_read(code, &d.ops[0], AccessKind::Read, eip, A);
            opnd_read(code, &d.ops[1], AccessKind::Read, eip, B);
            emit(code, Stmt::Alu { op, a: A, b: B, bits, to: R });
            if !matches!(op, AluOp::Cmp) {
                opnd_write(code, &d.ops[0], R, eip);
            }
        },
        Op::Test => {
            opnd_read(code, &d.ops[0], AccessKind::Read, eip, A);
            opnd_read(code, &d.ops[1], AccessKind::Read, eip, B);
            emit(code, Stmt::Test { a: A, b: B, bits });
        },
        Op::Inc => {
            opnd_read(code, &d.ops[0], AccessKind::Rmw, eip, A);
            emit(code, Stmt::IncDec { inc: true, v: A, bits, to: R });
            opnd_write(code, &d.ops[0], R, eip);
        },
        Op::Dec => {
            opnd_read(code, &d.ops[0], AccessKind::Rmw, eip, A);
            emit(code, Stmt::IncDec { inc: false, v: A, bits, to: R });
            opnd_write(code, &d.ops[0], R, eip);
        },
        Op::Neg => {
            opnd_read(code, &d.ops[0], AccessKind::Rmw, eip, A);
            emit(code, Stmt::Neg { v: A, bits, to: R });
            opnd_write(code, &d.ops[0], R, eip);
        },
        Op::Not => {
            opnd_read(code, &d.ops[0], AccessKind::Rmw, eip, A);
            let e = and(Expr::Not(Box::new(Expr::Slot(A))), mask(bits));
            emit(code, Stmt::Let(R, e));
            opnd_write(code, &d.ops[0], R, eip);
        },
        Op::Shift(kind, by) => {
            opnd_read(code, &d.ops[0], AccessKind::Rmw, eip, A);
            emit(code, Stmt::Let(B, shift_count(by)));
            emit(code, Stmt::Shift { kind, v: A, count: B, bits, to: R });
            opnd_write(code, &d.ops[0], R, eip);
        },
        Op::Mov => {
            opnd_read(code, &d.ops[1], AccessKind::Read, eip, A);
            opnd_write(code, &d.ops[0], A, eip);
        },
        Op::Movzx(from8) => {
            opnd_read(code, &d.ops[1], AccessKind::Read, eip, A);
            emit(code, Stmt::Let(R, widen(&d.ops[1], from8, false)));
            opnd_write(code, &d.ops[0], R, eip);
        },
        Op::Movsx(from8) => {
            opnd_read(code, &d.ops[1], AccessKind::Read, eip, A);
            emit(code, Stmt::Let(R, widen(&d.ops[1], from8, true)));
            opnd_write(code, &d.ops[0], R, eip);
        },
        Op::Lea => match d.ops[1] {
            Opnd::Mem(m, _) => {
                emit(code, Stmt::Let(A, eff_addr(&m)));
                opnd_write(code, &d.ops[0], A, eip);
            },
            _ => emit_leave(code, eip),
        },
        Op::Xchg => {
            opnd_read(code, &d.ops[0], AccessKind::Rmw, eip, A);
            opnd_read(code, &d.ops[1], AccessKind::Rmw, eip, B);
            opnd_write(code, &d.ops[0], B, eip);
            opnd_write(code, &d.ops[1], A, eip);
        },
        Op::Setcc(c) => {
            emit(code, Stmt::Cond { c, to: A });
            opnd_write(code, &d.ops[0], A, eip);
        },
        Op::Cmov(c) => {
            if matches!(d.ops[0], Opnd::Mem(_, _)) {
                emit_leave(code, eip);
            } else {
                emit(code, Stmt::Cond { c, to: R });
                opnd_read(code, &d.ops[1], AccessKind::Read, eip, A);
                opnd_read(code, &d.ops[0], AccessKind::Read, eip, B);
                let e = Expr::Select(
                    Box::new(Expr::Slot(R)),
                    Box::new(Expr::Slot(A)),
                    Box::new(Expr::Slot(B)),
                );
                emit(code, Stmt::Let(R, e));
                opnd_write(code, &d.ops[0], R, eip);
            }
        },
        _ => emit_leave(code, eip),
    }
    assert(code@ =~= old(code)@ + plain_code(d@, eip));
}

fn emit_port(code: &mut Vec<Stmt>, o: &Opnd)
    ensures
        final(code)@ == old(code)@ + port_code(*o),
{
    match *o {
        Opnd::Port(p) => emit(code, Stmt::Let(A, Expr::Const(p as u32))),
        Opnd::Dx => emit(code, Stmt::Let(A, reg_val(2, Bits::B16))),
        _ => emit(code, Stmt::Let(A, Expr::Const(0))),
    }
}

fn transfer_size(o: &Opnd) -> (n: u8)
    ensures
        n == port_size(*o),
{
    match *o {
        Opnd::Acc(b) => b.bytes() as u8,
        _ => 1,
    }
}

fn emit_system(code: &mut Vec<Stmt>, d: &Decoded, eip: u32)
    ensures
        final(code)@ == old(code)@ + system_code(d@, eip),
{
    let size = d.size().bytes();
    match d.op {
        Op::Push => {
            opnd_read(code, &d.ops[0], AccessKind::Read, eip, A);
            emit(code, Stmt::Flush(eip));
            emit(code, Stmt::Push { size, v: A, eip });
            emit(code, Stmt::Reload);
        },
        Op::Pop => {
            emit(code, Stmt::Flush(eip));
            emit(code, Stmt::Pop { size, to: A, eip });
            emit(code, Stmt::Reload);
            opnd_write(code, &d.ops[0], A, eip);
        },
        Op::In => {
            if matches!(d.ops[0], Opnd::Mem(_, _)) {
                emit_leave(code, eip);
            } else {
                emit_port(code, &d.ops[1]);
                emit(code, Stmt::IoRead { port: A, size: transfer_size(&d.ops[0]), to: B });
                opnd_write(code, &d.ops[0], B, eip);
            }
        },
        Op::Out => {
            if matches!(d.ops[1], Opnd::Mem(_, _) | Opnd::Sreg(_)) {
                emit_leave(code, eip);
            } else {
                emit_port(code, &d.ops[0]);
                opnd_read(code, &d.ops[1], AccessKind::Read, eip, B);
                emit(code, Stmt::IoWrite { port: A, size: transfer_size(&d.ops[1]), v: B });
            }
        },
        Op::Xlat => {
            let off = Expr::Add(
                Box::new(reg_val(3, Bits::B16)),
                Box::new(reg_val(0, Bits::B8)),
            );
            emit(code, Stmt::Let(A, off));
            emit(
                code,
                Stmt::Load {
                    seg: Seg::Ds,
                    off: A,
                    bits: Bits::B8,
                    kind: AccessKind::Read,
                    to: A,
                    eip,
                },
            );
            emit(code, set_reg(0, Bits::B8, A));
        },
        Op::Cli | Op::Sti | Op::Cld | Op::Std | Op::Clc | Op::Stc | Op::Cmc | Op::Clts => {
            let n: u64 = match d.op {
                Op::Cli => 0,
                Op::Sti => 1,
                Op::Cld => 2,
                Op::Std => 3,
                Op::Clc => 4,
                Op::Stc => 5,
                Op::Cmc => 6,
                _ => 7,
            };
            emit(code, Stmt::FlagOp(n));
        },
        Op::Salc => {
            emit(code, Stmt::Cond { c: Cond::B, to: A });
            let e = Expr::Mul(Box::new(Expr::Slot(A)), Box::new(Expr::Const(0xFF)));
            emit(code, Stmt::Let(B, e));
            emit(code, set_reg(0, Bits::B8, B));
        },
        Op::Nop | Op::Wait => {},
        _ => emit_leave(code, eip),
    }
    assert(code@ =~= old(code)@ + system_code(d@, eip));
}

fn emit_target(code: &mut Vec<Stmt>, d: &Decoded, eip: u32, next: u32)
    ensures
        final(code)@ == old(code)@ + target_code(d@, eip, next),
{
    match d.ops[0] {
        Opnd::Reg(_, _) => opnd_read(code, &d.ops[0], AccessKind::Read, eip, A),
        Opnd::Mem(_, _) => opnd_read(code, &d.ops[0], AccessKind::Read, eip, A),
        _ => emit(code, Stmt::Let(A, Expr::Const(d.rel_target(next)))),
    }
}

fn loop_eip(kind: Option<u8>, target: u32, next: u32) -> (e: Expr)
    ensures
        e == loop_expr(kind, target, next),
{
    let wanted = match kind {
        None => Expr::Const(target),
        Some(k) => if k == 0xE0 {
            choose_eip(R, next, target)
        } else {
            choose_eip(R, target, next)
        },
    };
    Expr::Select(Box::new(Expr::Slot(B)), Box::new(wanted), Box::new(Expr::Const(next)))
}

fn emit_string(code: &mut Vec<Stmt>, d: &Decoded, n: u8, bits: Bits, eip: u32, wide: bool)
    requires
        n == string_number(d@.op),
        bits == string_bits(d@.op),
    ensures
        final(code)@ == old(code)@ + (if d@.a16 == wide {
            leave_code(eip)
        } else {
            seq![
                Stmt::Flush(eip),
                Stmt::Str { op: n, rep: d@.rep, bits },
                Stmt::Reload,
                exit_stmt(Expr::Const(eip.wrapping_add(d@.len as u32)), wide),
            ]
        }),
{
    if d.a16 == wide {
        emit_leave(code, eip);
    } else {
        emit(code, Stmt::Flush(eip));
        emit(code, Stmt::Str { op: n, rep: d.rep, bits });
        emit(code, Stmt::Reload);
        emit(code, exit(Expr::Const(eip.wrapping_add(d.len as u32)), wide));
        assert(code@ =~= old(code)@ + seq![
            Stmt::Flush(eip),
            Stmt::Str { op: n, rep: d@.rep, bits },
            Stmt::Reload,
            exit_stmt(Expr::Const(eip.wrapping_add(d@.len as u32)), wide),
        ]);
    }
}

fn emit_jump(code: &mut Vec<Stmt>, d: &Decoded, eip: u32, wide: bool)
    ensures
        final(code)@ == old(code)@ + jump_code(d@, eip, wide),
{
    let size = d.size().bytes();
    let next = eip.wrapping_add(d.len as u32);
    let target = d.rel_target(next);
    match d.op {
        Op::Jcc(c) => {
            emit(code, Stmt::Cond { c, to: A });
            emit(code, exit(choose_eip(A, target, next), wide));
        },
        Op::Jump { far: false } => {
            emit_target(code, d, eip, next);
            emit(code, exit(Expr::Slot(A), wide));
        },
        Op::Call { far: false } => {
            emit_target(code, d, eip, next);
            emit(code, Stmt::Let(B, Expr::Const(next)));
            emit(code, Stmt::Flush(eip));
            emit(code, Stmt::Push { size, v: B, eip });
            emit(code, Stmt::Reload);
            emit(code, exit(Expr::Slot(A), wide));
        },
        Op::Ret { far: false, imm } => {
            emit(code, Stmt::Flush(eip));
            emit(code, Stmt::Pop { size, to: A, eip });
            if let Some(n) = imm {
                emit(code, Stmt::StackAdd(n as u32));
            }
            emit(code, Stmt::Reload);
            emit(code, exit(Expr::Slot(A), wide));
        },
        Op::Loop(kind) => {
            let dec = Expr::Add(Box::new(Expr::Reg(1)), Box::new(Expr::Const(0xFFFF_FFFF)));
            emit(code, Stmt::Let(A, dec));
            emit(code, set_reg(1, d.size(), A));
            let left = if d.o16 {
                and(Expr::Slot(A), 0xFFFF)
            } else {
                Expr::Slot(A)
            };
            emit(code, Stmt::Let(B, left));
            emit(code, Stmt::Cond { c: Cond::E, to: R });
            emit(code, exit(loop_eip(kind, target, next), wide));
        },
        Op::Jcxz => {
            let cx = if d.a16 {
                reg_val(1, Bits::B16)
            } else {
                reg_val(1, Bits::B32)
            };
            emit(code, Stmt::Let(A, cx));
            emit(code, exit(choose_eip(A, next, target), wide));
        },
        Op::Movs(b) => emit_string(code, d, 0, b, eip, wide),
        Op::Stos(b) => emit_string(code, d, 1, b, eip, wide),
        Op::Lods(b) => emit_string(code, d, 2, b, eip, wide),
        Op::Cmps(b) => emit_string(code, d, 3, b, eip, wide),
        Op::Scas(b) => emit_string(code, d, 4, b, eip, wide),
        Op::Ins(b) => emit_string(code, d, 5, b, eip, wide),
        Op::Outs(b) => emit_string(code, d, 6, b, eip, wide),
        _ => emit_leave(code, eip),
    }
    assert(code@ =~= old(code)@ + jump_code(d@, eip, wide));
}

/// Emit one instruction.
pub fn emit_ins(code: &mut Vec<Stmt>, d: &Decoded, eip: u32, wide: bool)
    ensures
        final(code)@ == old(code)@ + lowered(d@, eip, wide),
{
    match find_group(d.op) {
        Group::Plain => emit_plain(code, d, eip),
        Group::System => emit_system(code, d, eip),
        Group::Jump => emit_jump(code, d, eip, wide),
    }
}

/// The EIP behind an instruction, cut to 16 bits outside 32-bit code.
pub open spec fn following(eip: u32, len: u8, wide: bool) -> u32 {
    let n = eip.wrapping_add(len as u32);
    if wide {
        n
    } else {
        (n % 0x1_0000) as u32
    }
}

/// The code of the instructions `plan`, the first of which is at `eip`.
pub open spec fn lowered_plan(plan: Seq<Insn>, eip: u32, wide: bool) -> Seq<Stmt>
    decreases plan.len(),
{
    if plan.len() == 0 {
        Seq::empty()
    } else {
        lowered(plan[0], eip, wide) + lowered_plan(
            plan.skip(1),
            following(eip, plan[0].len, wide),
            wide,
        )
    }
}

/// The instructions of a plan by their views.
pub open spec fn insns(plan: Seq<Decoded>) -> Seq<Insn> {
    Seq::new(plan.len(), |k: int| plan[k]@)
}

/// The EIP behind an instruction.
pub fn follow(eip: u32, len: u8, wide: bool) -> (n: u32)
    ensures
        n == following(eip, len, wide),
{
    let n = eip.wrapping_add(len as u32);
    if wide {
        n
    } else {
        n % 0x1_0000
    }
}

/// The code of a block: the instructions of the plan, then the way out at
/// `tail_eip`. `tail_status` 0 means "continue at tail EIP with the normal
/// loop", 1 means "run the interpreter at the tail EIP once".
pub open spec fn block_code(
    plan: Seq<Insn>,
    eip0: u32,
    wide: bool,
    tail_eip: u32,
    tail_status: u32,
) -> Seq<Stmt> {
    lowered_plan(plan, eip0, wide) + seq![
        Stmt::Exit { eip: Expr::Const(tail_eip), status: tail_status },
    ]
}

/// Emit one block.
pub fn emit_block(
    plan: &Vec<Decoded>,
    eip0: u32,
    wide: bool,
    tail_eip: u32,
    tail_status: u32,
) -> (code: Vec<Stmt>)
    ensures
        code@ == block_code(insns(plan@), eip0, wide, tail_eip, tail_status),
{
    let mut code: Vec<Stmt> = Vec::new();
    let mut eip: u32 = eip0;
    let mut k: usize = 0;
    assert(insns(plan@).skip(0) =~= insns(plan@));
    assert(code@ + lowered_plan(insns(plan@), eip0, wide) =~= lowered_plan(
        insns(plan@),
        eip0,
        wide,
    ));
    while k < plan.len()
        invariant
            k <= plan@.len(),
            code@ + lowered_plan(insns(plan@).skip(k as int), eip, wide) == lowered_plan(
                insns(plan@),
                eip0,
                wide,
            ),
        decreases plan@.len() - k,
    {
        let ghost before = code@;
        let ghost rest = insns(plan@).skip(k as int);
        emit_ins(&mut code, &plan[k], eip, wide);
        assert(rest[0] == plan@[k as int]@);
        assert(rest.skip(1) =~= insns(plan@).skip(k + 1));
        let len = plan[k].len;
        let n = follow(eip, len, wide);
        assert(before + (lowered(rest[0], eip, wide) + lowered_plan(rest.skip(1), n, wide)) =~= (
        before + lowered(rest[0], eip, wide)) + lowered_plan(rest.skip(1), n, wide));
        eip = n;
        k = k + 1;
    }
    assert(code@ + Seq::<Stmt>::empty() =~= code@);
    emit(&mut code, Stmt::Exit { eip: Expr::Const(tail_eip), status: tail_status });
    code
}

} // verus!
