//! Laws of the instructions that move data and adjust registers and flags.

use vstd::prelude::*;

use crate::bits::{lemma_casts, signed16, signed8, wrap32};
use crate::cpu::{AccessKind, CpuState, ErrorView, Seg};
use crate::decode::{AluOp, Bits, Insn, Op, Opnd};
use crate::flag::{CF, OF, put};
use crate::laws::computing::{behind, completes, destination_width, gives_up, writes_and_completes};
use crate::laws::numbers::modulo;
use crate::laws::places::registers_have_parts;
use crate::mem::{DevEvent, DevLog};
use crate::sem::arith::{alu_result, cond_holds, low};
use crate::sem::compute::{do_imul, do_mov, do_movx};
use crate::sem::control::{do_cmov, do_lea, do_setcc, do_xchg};
use crate::sem::exec::performed;
use crate::sem::misc::{do_bswap, do_exchange_if_equal, do_in, do_out, do_xadd, do_xlat};

verus! {

/// MOV writes the second operand, whole, to the first; the flags stay.
pub proof fn move_instruction(s: CpuState, i: Insn, log: DevLog)
    requires
        i.op is Mov,
    ensures
        ({
            let b = s.operand(i.o1, AccessKind::Read);
            let o = performed(s, i, log);
            if b is Err {
                gives_up(o, s, b->Err_0)
            } else {
                writes_and_completes(o, s, i.o0, b->Ok_0, i)
            }
        }),
{
    reveal(performed);
    reveal(do_mov);
}

/// MOVZX writes the byte or word of the second operand to the first with zeroes
/// above it, MOVSX with copies of its sign: the number written is the unsigned
/// or the signed value, modulo 2^32. A destination that cannot be written is
/// skipped.
pub proof fn widening_instructions(s: CpuState, i: Insn, log: DevLog)
    requires
        i.op is Movzx || i.op is Movsx,
    ensures
        ({
            let b = s.operand(i.o1, AccessKind::Read);
            let o = performed(s, i, log);
            let from8 = i.op == Op::Movzx(true) || i.op == Op::Movsx(true);
            let v = b->Ok_0 as int;
            let word = i.o1 matches Opnd::Reg(_, Bits::B16) || i.o1 matches Opnd::Mem(_, Bits::B16);
            let r: int = if from8 {
                if i.op is Movsx && v % 0x100 >= 0x80 {
                    v % 0x100 + 0xFFFF_FF00
                } else {
                    v % 0x100
                }
            } else if i.op is Movsx && word {
                if v % 0x1_0000 >= 0x8000 {
                    v % 0x1_0000 + 0xFFFF_0000
                } else {
                    v % 0x1_0000
                }
            } else {
                v
            };
            if b is Err {
                gives_up(o, s, b->Err_0)
            } else {
                completes(o, s.assign(i.o0, r as u32, AccessKind::Write).0, behind(s, i))
            }
        }),
{
    reveal(performed);
    reveal(do_movx);
}

/// LEA writes the effective address itself, without reading memory.
pub proof fn address_instruction(s: CpuState, i: Insn, log: DevLog)
    requires
        i.op is Lea,
    ensures
        ({
            let o = performed(s, i, log);
            match i.o1 {
                Opnd::Mem(m, _) => completes(
                    o,
                    s.assign(i.o0, s.ea(m), AccessKind::Write).0,
                    behind(s, i),
                ),
                _ => gives_up(o, s, ErrorView::Internal("LEA mem"@)),
            }
        }),
{
    reveal(performed);
    reveal(do_lea);
}

/// XCHG gives each operand what the other held.
pub proof fn exchange_instruction(s: CpuState, i: Insn, log: DevLog)
    requires
        i.op is Xchg,
    ensures
        ({
            let a = s.operand(i.o0, AccessKind::Rmw);
            let b = s.operand(i.o1, AccessKind::Rmw);
            let o = performed(s, i, log);
            if a is Err {
                gives_up(o, s, a->Err_0)
            } else if b is Err {
                gives_up(o, s, b->Err_0)
            } else {
                let t = s.assign(i.o0, b->Ok_0, AccessKind::Write).0;
                completes(o, t.assign(i.o1, a->Ok_0, AccessKind::Write).0, behind(s, i))
            }
        }),
{
    reveal(performed);
    reveal(do_xchg);
}

/// CMOVcc moves where the condition holds and does nothing, not even read,
/// where it does not; SETcc writes 1 or 0.
pub proof fn conditional_moves(s: CpuState, i: Insn, log: DevLog)
    requires
        i.op is Cmov || i.op is Setcc,
    ensures
        ({
            let o = performed(s, i, log);
            let b = s.operand(i.o1, AccessKind::Read);
            match i.op {
                Op::Cmov(c) => if !cond_holds(s.eflags, c) {
                    completes(o, s, behind(s, i))
                } else if b is Err {
                    gives_up(o, s, b->Err_0)
                } else {
                    completes(o, s.assign(i.o0, b->Ok_0, AccessKind::Write).0, behind(s, i))
                },
                Op::Setcc(c) => {
                    &&& cond_holds(s.eflags, c) ==> writes_and_completes(o, s, i.o0, 1, i)
                    &&& !cond_holds(s.eflags, c) ==> writes_and_completes(o, s, i.o0, 0, i)
                },
                _ => true,
            }
        }),
{
    reveal(performed);
    reveal(do_cmov);
    reveal(do_setcc);
}

/// IMUL with two or three operands: the destination register times the
/// immediate, or the source where there is none, modulo 2^32, and of that the
/// low bits. For 16 bits CF and OF are set exactly when the signed reading of
/// the low word is not the product, else they are clear.
pub proof fn multiply_into_a_register(s: CpuState, i: Insn, log: DevLog)
    requires
        s.wf(),
        i.op is Imul1,
        i.o0.wf(),
    ensures
        ({
            let src = s.operand(i.o1, AccessKind::Read);
            let o = performed(s, i, log);
            match i.o0 {
                Opnd::Reg(r, sz) => if src is Err {
                    gives_up(o, s, src->Err_0)
                } else {
                    let a = s.operand(i.o0, AccessKind::Read)->Ok_0;
                    let b = match i.o2 {
                        Opnd::Imm(v) => v,
                        Opnd::ImmSext(v) => v,
                        _ => src->Ok_0,
                    };
                    let p = (a * b) % 0x1_0000_0000;
                    let x = p % 0x1_0000;
                    let over = sz is B16 && p != (if x < 0x8000 {
                        x
                    } else {
                        x + 0xFFFF_0000
                    });
                    let t = s.assign(i.o0, modulo(p, sz) as u32, AccessKind::Write).0;
                    completes(
                        o,
                        CpuState { eflags: put(put(t.eflags, CF, over), OF, over), ..t },
                        behind(s, i),
                    )
                },
                _ => true,
            }
        }),
{
    reveal(performed);
    reveal(do_imul);
    if let Opnd::Reg(r, sz) = i.o0 {
        lemma_register_operand(s, r, sz);
        let b = match i.o2 {
            Opnd::Imm(v) => v,
            Opnd::ImmSext(v) => v,
            _ => s.operand(i.o1, AccessKind::Read)->Ok_0,
        };
        lemma_word_product(wrap32(s.gpr_at(r, sz) * b), sz);
    }
}

/// A register as an operand.
proof fn lemma_register_operand(s: CpuState, r: u8, sz: Bits)
    ensures
        s.operand(Opnd::Reg(r, sz), AccessKind::Read) == Ok::<u32, ErrorView>(s.gpr_at(r, sz)),
{
    reveal(CpuState::operand);
}

/// What is kept of a product, and whether its low word is the whole of it.
proof fn lemma_word_product(p: u32, sz: Bits)
    ensures
        low(p, sz) == modulo(p as int, sz) as u32,
        ({
            let x = p as int % 0x1_0000;
            wrap32(signed16((p % 0x1_0000) as u16)) == (if x < 0x8000 {
                x
            } else {
                x + 0xFFFF_0000
            })
        }),
{
}

/// CLC, CLD and CLI clear the carry, the direction and the interrupt flag, STC,
/// STD and STI set them, CMC flips the carry; every other flag stays.
pub proof fn flag_instructions(s: CpuState, i: Insn, log: DevLog)
    requires
        i.op is Cli || i.op is Sti || i.op is Cld || i.op is Std || i.op is Clc || i.op is Stc
            || i.op is Cmc,
    ensures
        ({
            let o = performed(s, i, log);
            let f = o.s.eflags;
            let b: u32 = if i.op is Cli || i.op is Sti {
                0x200
            } else if i.op is Cld || i.op is Std {
                0x400
            } else {
                1
            };
            &&& completes(o, CpuState { eflags: f, ..s }, behind(s, i))
            &&& f & !b == s.eflags & !b
            &&& i.op is Cli || i.op is Cld || i.op is Clc ==> f & b == 0
            &&& i.op is Sti || i.op is Std || i.op is Stc ==> f & b == b
            &&& i.op is Cmc ==> (f & 1 == 0 <==> s.eflags & 1 != 0)
        }),
{
    reveal(performed);
    let e = s.eflags;
    lemma_flag_bits(e, 0x200);
    lemma_flag_bits(e, 0x400);
    lemma_flag_bits(e, 1);
}

/// Setting, clearing and flipping bits, and bytes in reverse.
#[verifier::spinoff_prover]
proof fn lemma_flag_bits(e: u32, b: u32)
    by (bit_vector)
    ensures
        (e & !b) & b == 0,
        (e & !b) & !b == e & !b,
        (e | b) & b == b,
        (e | b) & !b == e & !b,
        (e ^ b) & !b == e & !b,
        (e ^ 1) & 1 == 0 <==> e & 1 != 0,
        e & !0xFFu32 == e - e % 0x100,
        b < 0x100 ==> (e & !0xFFu32) | b == e - e % 0x100 + b,
        e & !8u32 == (if e / 8 % 2 == 1 {
            (e - 8) as u32
        } else {
            e
        }),
        (e << 24) | ((e & 0xFF00) << 8) | ((e >> 8) & 0xFF00) | (e >> 24)
            == e % 0x100 * 0x100_0000 + e
            / 0x100 % 0x100 * 0x1_0000 + e / 0x1_0000 % 0x100 * 0x100 + e / 0x100_0000,
        (e & !(1u32 | 0x800u32 | 0x10u32)) & 0x811 == 0,
        (e & !(1u32 | 0x800u32 | 0x10u32)) & 0xC4 == e & 0xC4,
        (e & !(1u32 | 0x800u32 | 0x10u32)) & 0xFFFF_F72A == e & 0xFFFF_F72A,
        (e & !0xFu32) | (b & 0xF) == e - e % 16 + b % 16,
        e & 0xFFFF == e % 0x1_0000,
{
}

/// BSWAP turns the four bytes of a register around.
pub proof fn byte_swap_instruction(s: CpuState, i: Insn, log: DevLog)
    requires
        i.op is Bswap,
    ensures
        ({
            let o = performed(s, i, log);
            match i.o0 {
                Opnd::Reg(r, _) => {
                    let v = s.gpr[r as int];
                    completes(
                        o,
                        CpuState {
                            gpr: s.gpr.update(
                                r as int,
                                (v % 0x100 * 0x100_0000 + v / 0x100 % 0x100 * 0x1_0000
                                    + v / 0x1_0000
                                    % 0x100 * 0x100 + v / 0x100_0000) as u32,
                            ),
                            ..s
                        },
                        behind(s, i),
                    )
                },
                _ => gives_up(o, s, ErrorView::Internal("bswap"@)),
            }
        }),
{
    reveal(performed);
    reveal(do_bswap);
    if let Opnd::Reg(r, _) = i.o0 {
        lemma_flag_bits(s.gpr[r as int], 0);
    }
}

/// XADD adds the second operand to the first, with the flags of ADD, and leaves
/// in the second what the first held.
pub proof fn exchange_and_add(s: CpuState, i: Insn, log: DevLog)
    requires
        i.op is Xadd,
    ensures
        ({
            let a = s.operand(i.o0, AccessKind::Rmw);
            let b = s.operand(i.o1, AccessKind::Rmw);
            let o = performed(s, i, log);
            if a is Err {
                gives_up(o, s, a->Err_0)
            } else if b is Err {
                gives_up(o, s, b->Err_0)
            } else {
                let (r, f) = alu_result(
                    s.eflags,
                    AluOp::Add,
                    a->Ok_0,
                    b->Ok_0,
                    destination_width(i),
                );
                let t = CpuState { eflags: f, ..s }.assign(i.o0, r, AccessKind::Write).0;
                completes(o, t.assign(i.o1, a->Ok_0, AccessKind::Write).0, behind(s, i))
            }
        }),
{
    reveal(performed);
    reveal(do_xadd);
}

/// CMPXCHG compares the accumulator with the first operand, with the flags of
/// CMP: where they are equal the first operand takes the second, else the
/// accumulator takes the first.
pub proof fn compare_and_exchange(s: CpuState, i: Insn, log: DevLog)
    requires
        i.op is CmpXchg,
    ensures
        ({
            let a = s.operand(i.o0, AccessKind::Rmw);
            let b = s.operand(i.o1, AccessKind::Rmw);
            let sz = destination_width(i);
            let acc = s.operand(Opnd::Acc(sz), AccessKind::Read)->Ok_0;
            let o = performed(s, i, log);
            if a is Err {
                gives_up(o, s, a->Err_0)
            } else if b is Err {
                gives_up(o, s, b->Err_0)
            } else {
                let (r, f) = alu_result(s.eflags, AluOp::Cmp, acc, a->Ok_0, sz);
                let t = CpuState { eflags: f, ..s };
                if r == 0 {
                    completes(o, t.assign(i.o0, b->Ok_0, AccessKind::Write).0, behind(s, i))
                } else {
                    completes(
                        o,
                        t.assign(Opnd::Acc(sz), a->Ok_0, AccessKind::Write).0,
                        behind(s, i),
                    )
                }
            }
        }),
{
    reveal(performed);
    reveal(do_exchange_if_equal);
    reveal(CpuState::operand);
    assert forall|t: CpuState, sz: Bits, v: u32| #[trigger]
        t.assign(Opnd::Acc(sz), v, AccessKind::Write).0 == t.with_gpr_at(0, sz, v) by {
        reveal(CpuState::assign);
    }
}

/// XLAT loads AL from DS at BX plus AL.
pub proof fn table_lookup(s: CpuState, i: Insn, log: DevLog)
    requires
        s.wf(),
        i.op is Xlat,
    ensures
        ({
            let o = performed(s, i, log);
            let off = (s.gpr[3] % 0x1_0000 + s.gpr[0] % 0x100) as u32;
            match s.load8(Seg::Ds, off, AccessKind::Read) {
                Err(e) => gives_up(o, s, e),
                Ok(v) => completes(
                    o,
                    CpuState {
                        gpr: s.gpr.update(0, (s.gpr[0] - s.gpr[0] % 0x100 + v) as u32),
                        ..s
                    },
                    behind(s, i),
                ),
            }
        }),
{
    reveal(performed);
    reveal(do_xlat);
    registers_have_parts(s, 0, 0, 0, 0);
    let off = (s.gpr[3] % 0x1_0000 + s.reg8(0)) as u32;
    if let Ok(v) = s.load8(Seg::Ds, off, AccessKind::Read) {
        registers_have_parts(s, 0, v, 0, 0);
    }
}

/// The port that an instruction names: its number, or DX.
pub open spec fn port_number(s: CpuState, o: Opnd) -> u16 {
    match o {
        Opnd::Port(p) => p,
        Opnd::Dx => (s.gpr[2] % 0x1_0000) as u16,
        _ => 0,
    }
}

/// How many bytes the accumulator of a port instruction has.
pub open spec fn transfer_size(o: Opnd) -> u8 {
    match o {
        Opnd::Acc(Bits::B8) => 1,
        Opnd::Acc(Bits::B16) => 2,
        Opnd::Acc(Bits::B32) => 4,
        _ => 1,
    }
}

/// IN hands the device one port read and writes its reply to the accumulator;
/// OUT hands the device one port write of the accumulator. Both add exactly
/// this exchange to the record, where there is a device; without one a port
/// reads 0xFF.
pub proof fn port_instructions(s: CpuState, i: Insn, log: DevLog)
    requires
        i.op is In || i.op is Out,
    ensures
        ({
            let o = performed(s, i, log);
            let v: u32 = match (s.mem.dev, log) {
                (Some(past), Some(all)) => match all[past.len() as int] {
                    DevEvent::In { value, .. } => value,
                    _ => 0xFF,
                },
                _ => 0xFF,
            };
            let data = match s.operand(i.o1, AccessKind::Read) {
                Ok(d) => d,
                Err(_) => 0,
            };
            if i.op is In {
                let e = DevEvent::In {
                    port: port_number(s, i.o1),
                    size: transfer_size(i.o0),
                    value: v,
                };
                let t = CpuState { mem: s.mem.record(e), ..s };
                completes(o, t.assign(i.o0, v, AccessKind::Write).0, behind(s, i))
            } else {
                let e = DevEvent::Out {
                    port: port_number(s, i.o0),
                    size: transfer_size(i.o1),
                    data,
                };
                completes(o, CpuState { mem: s.mem.record(e), ..s }, behind(s, i))
            }
        }),
{
    reveal(performed);
    reveal(do_in);
    reveal(do_out);
    lemma_casts(0, 0, s.gpr[2]);
}

/// Recording an exchange adds it behind the earlier ones and touches no byte;
/// without a device nothing is recorded.
pub proof fn exchanges_are_recorded_in_order(s: CpuState, e: DevEvent)
    ensures
        s.mem.record(e).bytes == s.mem.bytes,
        s.mem.dev is None ==> s.mem.record(e).dev is None,
        s.mem.dev is Some ==> s.mem.record(e).dev is Some && s.mem.record(e).dev->Some_0.len()
            == s.mem.dev->Some_0.len() + 1 && s.mem.record(e).dev->Some_0.last() == e
            && s.mem.record(e).dev->Some_0.drop_last() == s.mem.dev->Some_0,
{
    if let Some(l) = s.mem.dev {
        assert(l.push(e).drop_last() =~= l);
    }
}

/// A sign-extended byte and word.
proof fn lemma_extended(b: u8, w: u16)
    ensures
        wrap32(signed8(b)) as u16 == (if b < 0x80 {
            b as int
        } else {
            b + 0xFF00
        }),
        wrap32(signed16(w)) == (if w < 0x8000 {
            w as int
        } else {
            w + 0xFFFF_0000
        }),
{
    lemma_casts(0, 0, wrap32(signed8(b)));
}

/// CBW fills AH with copies of the sign of AL, CWDE the upper half of EAX with
/// those of the sign of AX: the wider register holds the same signed number.
pub proof fn accumulator_is_widened(s: CpuState, i: Insn, log: DevLog)
    requires
        s.wf(),
        i.op is Cbw,
    ensures
        ({
            let o = performed(s, i, log);
            let a = s.gpr[0] as int;
            let wide = if i.o16 {
                a - a % 0x1_0000 + (if a % 0x100 < 0x80 {
                    a % 0x100
                } else {
                    a % 0x100 + 0xFF00
                })
            } else {
                if a % 0x1_0000 < 0x8000 {
                    a % 0x1_0000
                } else {
                    a % 0x1_0000 + 0xFFFF_0000
                }
            };
            completes(o, CpuState { gpr: s.gpr.update(0, wide as u32), ..s }, behind(s, i))
        }),
{
    reveal(performed);
    registers_have_parts(s, 0, 0, 0, 0);
    lemma_extended(s.reg8(0), s.reg16(0));
    registers_have_parts(
        s,
        0,
        0,
        wrap32(signed8(s.reg8(0))) as u16,
        wrap32(signed16(s.reg16(0))),
    );
}

/// CWD and CDQ fill DX or EDX with copies of the sign of AX or EAX: the pair
/// holds the same signed number.
pub proof fn sign_fills_the_upper_register(s: CpuState, i: Insn, log: DevLog)
    requires
        s.wf(),
        i.op is Cwd,
    ensures
        ({
            let o = performed(s, i, log);
            let (a, d) = (s.gpr[0] as int, s.gpr[2] as int);
            let upper = if i.o16 {
                d - d % 0x1_0000 + (if a % 0x1_0000 < 0x8000 {
                    0int
                } else {
                    0xFFFF
                })
            } else {
                if a < 0x8000_0000 {
                    0int
                } else {
                    0xFFFF_FFFF
                }
            };
            completes(o, CpuState { gpr: s.gpr.update(2, upper as u32), ..s }, behind(s, i))
        }),
{
    reveal(performed);
    registers_have_parts(s, 0, 0, 0, 0);
    registers_have_parts(s, 2, 0, 0, 0);
    registers_have_parts(s, 2, 0, 0xFFFF, 0xFFFF_FFFF);
}

/// SAHF copies AH to the low byte of the flags and LAHF copies it back; SALC
/// fills AL with the carry.
pub proof fn flags_are_copied(s: CpuState, i: Insn, log: DevLog)
    requires
        s.wf(),
        i.op is Sahf || i.op is Lahf || i.op is Salc,
    ensures
        ({
            let o = performed(s, i, log);
            let a = s.gpr[0] as int;
            let t = if i.op is Sahf {
                CpuState {
                    eflags: (s.eflags - s.eflags % 0x100 + a / 0x100 % 0x100) as u32,
                    ..s
                }
            } else if i.op is Lahf {
                CpuState {
                    gpr: s.gpr.update(
                        0,
                        (a - 0x100 * (a / 0x100 % 0x100) + 0x100 * (s.eflags % 0x100)) as u32,
                    ),
                    ..s
                }
            } else if s.eflags & 1 != 0 {
                CpuState { gpr: s.gpr.update(0, (a - a % 0x100 + 0xFF) as u32), ..s }
            } else {
                CpuState { gpr: s.gpr.update(0, (a - a % 0x100) as u32), ..s }
            };
            completes(o, t, behind(s, i))
        }),
{
    reveal(performed);
    lemma_casts(0, 0, s.eflags);
    registers_have_parts(s, 4, s.eflags as u8, 0, 0);
    lemma_flag_bits(s.eflags, s.reg8(4) as u32);
    registers_have_parts(s, 0, 0xFF, 0, 0);
    registers_have_parts(s, 0, 0, 0, 0);
}

/// CPUID names the core, RDTSC gives the cycles in EDX and EAX, CLTS clears bit
/// 3 of CR0; NOP, WAIT, RDMSR, WRMSR, WBINVD, INVD and INVLPG do nothing.
pub proof fn system_copies(s: CpuState, i: Insn, log: DevLog)
    requires
        s.wf(),
        i.op is Cpuid || i.op is Rdtsc || i.op is Clts || i.op is Nop || i.op is Wait
            || i.op is Rdmsr
            || i.op is Wrmsr || i.op is Wbinvd || i.op is Invd || i.op is Invlpg,
    ensures
        ({
            let o = performed(s, i, log);
            let t = o.s;
            &&& completes(o, CpuState { gpr: t.gpr, cr: t.cr, ..s }, behind(s, i))
            &&& t.gpr.len() == 8 && t.cr.len() == 4
            &&& forall|k: int| 4 <= k < 8 ==> t.gpr[k] == s.gpr[k]
            &&& forall|k: int| 1 <= k < 4 ==> t.cr[k] == s.cr[k]
            &&& i.op is Cpuid ==> t.gpr[0] == 1 && t.gpr[1] == 0x486 && t.gpr[2] == 0
                && t.gpr[3] == 0
            &&& i.op is Rdtsc ==> t.gpr[2] * 0x1_0000_0000 + t.gpr[0] == s.cycles && t.gpr[1]
                == s.gpr[1]
                && t.gpr[3] == s.gpr[3]
            &&& i.op is Clts ==> t.gpr == s.gpr && t.cr[0] == (if s.cr[0] as int / 8 % 2 == 1 {
                s.cr[0] - 8
            } else {
                s.cr[0] as int
            })
            &&& !(i.op is Clts) ==> t.cr == s.cr
            &&& !(i.op is Cpuid) && !(i.op is Rdtsc) ==> t.gpr == s.gpr
        }),
{
    reveal(performed);
    lemma_flag_bits(s.cr[0], 0);
    let c = s.cycles;
    assert(((c >> 32) as u32) * 0x1_0000_0000 + (c as u32) == c) by (bit_vector);
}

} // verus!
