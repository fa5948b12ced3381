//! Laws of the string instructions.

use vstd::prelude::*;

use crate::bits::lemma_casts;
use crate::cpu::{AccessKind, CpuState, Seg};
use crate::decode::{AluOp, Bits, Insn, Op, Opnd, Rep};
use crate::laws::computing::{behind, completes, gives_up};
use crate::laws::places::registers_have_parts;
use crate::mem::{DevEvent, DevLog};
use crate::sem::arith::alu_result;
use crate::sem::exec::performed;
use crate::sem::string::{StrMode, StrOp};

verus! {

/// The size of an element in bytes.
pub open spec fn element_bytes(bits: Bits) -> u32 {
    match bits {
        Bits::B8 => 1,
        Bits::B16 => 2,
        Bits::B32 => 4,
    }
}

/// An index or count register at the address size.
pub open spec fn pointer(s: CpuState, r: int, a16: bool) -> u32 {
    if a16 {
        (s.gpr[r] % 0x1_0000) as u32
    } else {
        s.gpr[r]
    }
}

/// The state with `v` in an index or count register, of which with 16-bit
/// addresses only the low half changes.
pub open spec fn with_pointer(s: CpuState, r: int, a16: bool, v: int) -> CpuState {
    let g = s.gpr[r];
    CpuState {
        gpr: s.gpr.update(
            r,
            if a16 {
                (g - g % 0x1_0000 + v % 0x1_0000) as u32
            } else {
                (v % 0x1_0000_0000) as u32
            },
        ),
        ..s
    }
}

/// The index register behind one element: up by its size, or down where the
/// direction flag is set.
pub open spec fn stepped_on(s: CpuState, r: int, m: StrMode) -> CpuState {
    let p = pointer(s, r, m.a16);
    with_pointer(
        s,
        r,
        m.a16,
        if s.eflags & 0x400 != 0 {
            p - element_bytes(m.bits)
        } else {
            p + element_bytes(m.bits)
        },
    )
}

/// The index registers are read and moved at the address size.
pub proof fn indexes_move_by_the_element(s: CpuState, r: u8, m: StrMode)
    requires
        s.wf(),
        r < 8,
    ensures
        s.index_reg(r, m.a16) == pointer(s, r as int, m.a16),
        s.advanced(r, m) == stepped_on(s, r as int, m),
{
    let v = s.index_reg(r, m.a16);
    registers_have_parts(s, r, 0, 0, 0);
    let n = element_bytes(m.bits);
    let up = v.wrapping_add(n);
    let down = v.wrapping_sub(n);
    lemma_casts(0, 0, up);
    lemma_casts(0, 0, down);
    registers_have_parts(s, r, 0, up as u16, up);
    registers_have_parts(s, r, 0, down as u16, down);
    lemma_low_word_of_step(v as int, n as int);
}

/// Steps within 32 and within 16 bits.
proof fn lemma_low_word_of_step(v: int, n: int)
    requires
        0 <= v < 0x1_0000_0000,
        0 <= n <= 4,
    ensures
        (v + n) % 0x1_0000_0000 == (if v + n < 0x1_0000_0000 {
            v + n
        } else {
            v + n - 0x1_0000_0000
        }),
        (v - n) % 0x1_0000_0000 == (if v - n >= 0 {
            v - n
        } else {
            v - n + 0x1_0000_0000
        }),
        (v + n) % 0x1_0000_0000 % 0x1_0000 == (v + n) % 0x1_0000,
        (v - n) % 0x1_0000_0000 % 0x1_0000 == (v - n) % 0x1_0000,
{
}

/// One round of MOVS copies the element at DS:SI to ES:DI and moves both on. An
/// element that cannot be read leaves everything.
pub proof fn one_move(s: CpuState, m: StrMode, log: DevLog)
    requires
        s.wf(),
        m.op is Movs,
        m.strict,
    ensures
        ({
            let n = element_bytes(m.bits);
            let v = s.load(Seg::Ds, pointer(s, 6, m.a16), n, AccessKind::Read);
            let (t, r) = s.store(
                Seg::Es,
                pointer(s, 7, m.a16),
                n,
                v->Ok_0,
                AccessKind::Write,
            );
            let (u, q) = s.string_once(m, log);
            if v is Err {
                u == s && q is Err && q->Err_0 == v->Err_0
            } else if r is Err {
                u == t && q is Err && q->Err_0 == r->Err_0
            } else {
                q is Ok && u == t.advanced(7, m).advanced(6, m)
            }
        }),
{
    reveal(CpuState::string_once);
    indexes_move_by_the_element(s, 6, m);
    indexes_move_by_the_element(s, 7, m);
}

/// One round of STOS writes AL, AX or EAX to ES:DI and moves DI on; one of LODS
/// reads it from DS:SI and moves SI on.
pub proof fn one_store_or_load(s: CpuState, m: StrMode, log: DevLog)
    requires
        s.wf(),
        m.op is Stos || m.op is Lods,
        m.strict,
    ensures
        ({
            let n = element_bytes(m.bits);
            let acc = s.operand(Opnd::Acc(m.bits), AccessKind::Read)->Ok_0;
            let v = s.load(Seg::Ds, pointer(s, 6, m.a16), n, AccessKind::Read);
            let (t, r) = s.store(Seg::Es, pointer(s, 7, m.a16), n, acc, AccessKind::Write);
            let (u, q) = s.string_once(m, log);
            if m.op is Stos {
                if r is Err {
                    u == t && q is Err && q->Err_0 == r->Err_0
                } else {
                    q is Ok && u == t.advanced(7, m)
                }
            } else {
                if v is Err {
                    u == s && q is Err && q->Err_0 == v->Err_0
                } else {
                    q is Ok && u == s.assign(
                        Opnd::Acc(m.bits),
                        v->Ok_0,
                        AccessKind::Write,
                    ).0.advanced(6, m)
                }
            }
        }),
{
    reveal(CpuState::string_once);
    reveal(CpuState::operand);
    reveal(CpuState::assign);
    indexes_move_by_the_element(s, 6, m);
    indexes_move_by_the_element(s, 7, m);
}

/// One round of CMPS compares the element at DS:SI with the one at ES:DI, one
/// of SCAS the accumulator with the element at ES:DI: the flags are those of
/// CMP, and the indexes that were used move on.
pub proof fn one_comparison(s: CpuState, m: StrMode, log: DevLog)
    requires
        s.wf(),
        m.op is Cmps || m.op is Scas,
        m.strict,
    ensures
        ({
            let n = element_bytes(m.bits);
            let acc = s.operand(Opnd::Acc(m.bits), AccessKind::Read)->Ok_0;
            let a = s.load(Seg::Ds, pointer(s, 6, m.a16), n, AccessKind::Read);
            let b = s.load(Seg::Es, pointer(s, 7, m.a16), n, AccessKind::Read);
            let (u, q) = s.string_once(m, log);
            if m.op is Cmps {
                if a is Err {
                    u == s && q is Err && q->Err_0 == a->Err_0
                } else if b is Err {
                    u == s && q is Err && q->Err_0 == b->Err_0
                } else {
                    let f = alu_result(s.eflags, AluOp::Cmp, a->Ok_0, b->Ok_0, m.bits).1;
                    q is Ok && u == CpuState { eflags: f, ..s }.advanced(6, m).advanced(7, m)
                }
            } else {
                if b is Err {
                    u == s && q is Err && q->Err_0 == b->Err_0
                } else {
                    let f = alu_result(s.eflags, AluOp::Cmp, acc, b->Ok_0, m.bits).1;
                    q is Ok && u == CpuState { eflags: f, ..s }.advanced(7, m)
                }
            }
        }),
{
    reveal(CpuState::string_once);
    reveal(CpuState::operand);
    indexes_move_by_the_element(s, 6, m);
    indexes_move_by_the_element(s, 7, m);
}

/// One round of INS writes what the port in DX replies to ES:DI, one of OUTS
/// writes the element at DS:SI to that port; the index moves on, and the
/// exchange is recorded.
pub proof fn one_port_transfer(s: CpuState, m: StrMode, log: DevLog)
    requires
        s.wf(),
        m.op is Ins || m.op is Outs,
        m.strict,
    ensures
        ({
            let n = element_bytes(m.bits);
            let port = (s.gpr[2] % 0x1_0000) as u16;
            let a = s.load(Seg::Ds, pointer(s, 6, m.a16), n, AccessKind::Read);
            let (u, q) = s.string_once(m, log);
            if m.op is Ins {
                let v = s.mem.in_reply(log);
                let e = DevEvent::In { port, size: n as u8, value: v };
                let (t, r) = CpuState { mem: s.mem.record(e), ..s }.store(
                    Seg::Es,
                    pointer(s, 7, m.a16),
                    n,
                    v,
                    AccessKind::Write,
                );
                if r is Err {
                    u == t && q is Err && q->Err_0 == r->Err_0
                } else {
                    q is Ok && u == t.advanced(7, m)
                }
            } else {
                if a is Err {
                    u == s && q is Err && q->Err_0 == a->Err_0
                } else {
                    let e = DevEvent::Out { port, size: n as u8, data: a->Ok_0 };
                    q is Ok && u == CpuState { mem: s.mem.record(e), ..s }.advanced(6, m)
                }
            }
        }),
{
    reveal(CpuState::string_once);
    lemma_casts(0, 0, s.gpr[2]);
    indexes_move_by_the_element(s, 6, m);
    let e = DevEvent::In {
        port: s.gpr[2] as u16,
        size: element_bytes(m.bits) as u8,
        value: s.mem.in_reply(log),
    };
    let t = CpuState { mem: s.mem.record(e), ..s };
    indexes_move_by_the_element(t, 7, m);
}

/// A repeated string instruction does nothing with a count of 0; else it does
/// one round, counts CX or ECX down and goes on with the rest, unless it
/// compares and ZF ends it: REPE at the first difference, REPNE at the first
/// match. A round that fails ends it with the count as it was.
pub proof fn repetition_counts_rounds(s: CpuState, m: StrMode, rep: Rep, n: nat, log: DevLog)
    requires
        0 < n < 0x1_0000_0000,
        m.a16 ==> n < 0x1_0000,
    ensures
        s.string_rounds(m, rep, 0, log).0 == s,
        s.string_rounds(m, rep, 0, log).1 is Ok,
        ({
            let (t, r) = s.string_once(m, log);
            let (u, q) = s.string_rounds(m, rep, n, log);
            let w = t.with_gpr_at(
                1,
                if m.a16 {
                    Bits::B16
                } else {
                    Bits::B32
                },
                (n - 1) as u32,
            );
            let compares = m.op is Cmps || m.op is Scas;
            let equal = w.eflags & 0x40 != 0;
            let ends = compares && (if rep == Rep::NZ {
                equal
            } else {
                !equal
            });
            if r is Err {
                u == t && q is Err && q->Err_0 == r->Err_0
            } else if ends {
                u == w && q is Ok
            } else {
                (u, q) == w.string_rounds(m, rep, (n - 1) as nat, log)
            }
        }),
{
    reveal_with_fuel(CpuState::string_rounds, 2);
}

/// Which prefix repeats: REP and REPE every string instruction, REPNE only a
/// comparison; without one there is a single round. The count is CX or ECX by
/// the address size.
pub proof fn prefixes_repeat(s: CpuState, m: StrMode, rep: Rep, log: DevLog)
    requires
        s.wf(),
    ensures
        ({
            let compares = m.op is Cmps || m.op is Scas;
            if rep == Rep::Z || (rep == Rep::NZ && compares) {
                s.string_done(m, rep, log) == s.string_rounds(
                    m,
                    rep,
                    pointer(s, 1, m.a16) as nat,
                    log,
                )
            } else {
                s.string_done(m, rep, log) == s.string_once(m, log)
            }
        }),
{
    indexes_move_by_the_element(s, 1, m);
}

/// The string instructions: the operation by the opcode, the element size with
/// it, the address size by its attribute. A fault leaves the instruction where
/// it is, so that it goes on from there.
pub proof fn string_instructions(s: CpuState, i: Insn, log: DevLog)
    requires
        i.op is Movs || i.op is Stos || i.op is Lods || i.op is Cmps || i.op is Scas || i.op is Ins
            || i.op is Outs,
    ensures
        ({
            let o = performed(s, i, log);
            let (op, bits) = match i.op {
                Op::Movs(b) => (StrOp::Movs, b),
                Op::Stos(b) => (StrOp::Stos, b),
                Op::Lods(b) => (StrOp::Lods, b),
                Op::Cmps(b) => (StrOp::Cmps, b),
                Op::Scas(b) => (StrOp::Scas, b),
                Op::Ins(b) => (StrOp::Ins, b),
                Op::Outs(b) => (StrOp::Outs, b),
                _ => (StrOp::Movs, Bits::B8),
            };
            let (t, r) = s.string_done(StrMode { op, bits, a16: i.a16, strict: true }, i.rep, log);
            match r {
                Ok(_) => completes(o, t, behind(s, i)),
                Err(e) => gives_up(o, t, e),
            }
        }),
{
    reveal(performed);
}

/// Where a string operation does not stop at faults, an element that cannot be
/// read counts as 0, and one that cannot be written is passed over.
pub proof fn lenient_elements(s: CpuState, m: StrMode, seg: Seg, r: u8, v: u32)
    requires
        s.wf(),
        !m.strict,
        r < 8,
    ensures
        ({
            let n = element_bytes(m.bits);
            let x = s.load(seg, pointer(s, r as int, m.a16), n, AccessKind::Read);
            let (t, _) = s.store(Seg::Es, pointer(s, 7, m.a16), n, v, AccessKind::Write);
            let (u, q) = s.element_stored(v, m);
            &&& s.element(seg, r, m) is Ok
            &&& s.element(seg, r, m)->Ok_0 == (if x is Ok {
                x->Ok_0
            } else {
                0
            })
            &&& q is Ok
            &&& u == t.advanced(7, m)
        }),
{
    indexes_move_by_the_element(s, r, m);
    indexes_move_by_the_element(s, 7, m);
}

} // verus!
