//! Lowered code does what the interpreter does.

use vstd::prelude::*;

use crate::bits::{lemma_turns, wrap32};
use crate::bits::{lemma_low_number_bits, lemma_word_facts};
use crate::cpu::{AccessKind, CpuState, Seg};
use crate::decode::{Bits, MemRef, Opnd};
use crate::jit::code::{
    Expr, Frame, SLOTS, Stmt, effect, eval, lemma_run_concat, lemma_run_one, run,
};
use crate::jit::lower::{T, ea_expr, part_expr, read_code, reg_expr, set_reg_stmt, write_code};
use crate::mem::DevLog;
use crate::mmu::addend;

verus! {

// ---------------------------------------------------------------------------
// Running code piece by piece
// ---------------------------------------------------------------------------

/// What a statement does, if the block has not ended.
pub open spec fn after(st: Stmt, f: Frame, log: DevLog) -> Frame {
    if f.done is Some {
        f
    } else {
        effect(st, f, log)
    }
}

pub proof fn lemma_run_single(st: Stmt, f: Frame, log: DevLog)
    ensures
        run(seq![st], f, log) == after(st, f, log),
{
    if f.done is None {
        lemma_run_one(st, f, log);
    } else {
        lemma_run_done(seq![st], f, log);
    }
}

pub proof fn lemma_run_pair(a: Stmt, b: Stmt, f: Frame, log: DevLog)
    ensures
        run(seq![a, b], f, log) == after(b, after(a, f, log), log),
{
    assert(seq![a, b] =~= seq![a] + seq![b]);
    lemma_run_concat(seq![a], seq![b], f, log);
    lemma_run_single(a, f, log);
    lemma_run_single(b, after(a, f, log), log);
}

pub proof fn lemma_run_triple(a: Stmt, b: Stmt, c: Stmt, f: Frame, log: DevLog)
    ensures
        run(seq![a, b, c], f, log) == after(c, after(b, after(a, f, log), log), log),
{
    assert(seq![a, b, c] =~= seq![a, b] + seq![c]);
    lemma_run_concat(seq![a, b], seq![c], f, log);
    lemma_run_pair(a, b, f, log);
    lemma_run_single(c, after(b, after(a, f, log), log), log);
}

pub proof fn lemma_run3(a: Seq<Stmt>, b: Seq<Stmt>, c: Seq<Stmt>, f: Frame, log: DevLog)
    ensures
        run(a + b + c, f, log) == run(c, run(b, run(a, f, log), log), log),
        run(a, f, log).done is Some ==> run(a + b + c, f, log) == run(a, f, log),
        run(b, run(a, f, log), log).done is Some ==> run(a + b + c, f, log) == run(
            b,
            run(a, f, log),
            log,
        ),
{
    lemma_run_concat(a + b, c, f, log);
    lemma_run_concat(a, b, f, log);
}

pub proof fn lemma_run4(
    a: Seq<Stmt>,
    b: Seq<Stmt>,
    c: Seq<Stmt>,
    d: Seq<Stmt>,
    f: Frame,
    log: DevLog,
)
    ensures
        run(a + b + c + d, f, log) == run(d, run(c, run(b, run(a, f, log), log), log), log),
        run(a, f, log).done is Some ==> run(a + b + c + d, f, log) == run(a, f, log),
        run(b, run(a, f, log), log).done is Some ==> run(a + b + c + d, f, log) == run(
            b,
            run(a, f, log),
            log,
        ),
        run(c, run(b, run(a, f, log), log), log).done is Some ==> run(a + b + c + d, f, log)
            == run(c, run(b, run(a, f, log), log), log),
{
    lemma_run_concat(a + b + c, d, f, log);
    lemma_run3(a, b, c, f, log);
}

/// Nothing runs behind the end of a block.
pub proof fn lemma_run_done(code: Seq<Stmt>, f: Frame, log: DevLog)
    requires
        f.done is Some,
    ensures
        run(code, f, log) == f,
{
    reveal(run);
}

pub proof fn lemma_run_empty(f: Frame, log: DevLog)
    ensures
        run(Seq::<Stmt>::empty(), f, log) == f,
{
    reveal(run);
}

// ---------------------------------------------------------------------------
// Registers and addresses
// ---------------------------------------------------------------------------

/// How register numbers read as signed bytes.
pub proof fn lemma_reg_bits(r: u8)
    requires
        r < 8,
    ensures
        (r as i8) & 7 == r,
        ((r as i8) & 4 != 0) == (r >= 4),
        (r as i8) & 3 == r % 4,
{
    lemma_low_number_bits(0, r);
}

/// Masks as remainders and casts.
pub proof fn lemma_masks(v: u32)
    ensures
        v & 0xFF == v as u8 as u32,
        v & 0xFF == v % 0x100,
        v & 0xFFFF == v as u16 as u32,
        v & 0xFFFF == v % 0x1_0000,
        (v >> 8) & 0xFF == (v >> 8) as u8 as u32,
        v & 0xFFFF_FFFF == v,
{
    lemma_word_facts(v, 0, 0, 0, 0, 0);
}

/// A register expression is the register.
pub proof fn lemma_reg_expr(r: u8, bits: Bits, f: Frame, e: u32)
    requires
        r < 8,
    ensures
        eval(reg_expr(r, bits), f) == f.at(e).gpr_at(r, bits),
{
    reveal(reg_expr);
    reveal_with_fuel(eval, 4);
    lemma_reg_bits(r);
    lemma_masks(f.regs[r as int]);
    lemma_masks(f.regs[r as int % 4]);
}

/// A register write writes the register.
pub proof fn lemma_set_reg(r: u8, bits: Bits, v: u8, f: Frame, e: u32, log: DevLog)
    requires
        r < 8,
        f.wf(),
        f.done is None,
    ensures
        ({
            let g = effect(set_reg_stmt(r, bits, v), f, log);
            &&& g.at(e) == f.at(e).with_gpr_at(r, bits, f.slots[v as int])
            &&& g.s == f.s
            &&& g.slots == f.slots
            &&& g.done is None
            &&& g.wf()
        }),
{
    reveal(set_reg_stmt);
    reveal_with_fuel(eval, 5);
    lemma_reg_bits(r);
    lemma_masks(f.slots[v as int]);
}

/// The sum of an address, taken step by step, is the effective address.
proof fn lemma_address(b: u32, x: u32, k: u8, disp: i32)
    ensures
        ({
            let t = b.wrapping_add(x.wrapping_mul(k as u32)).wrapping_add(wrap32(disp as int));
            &&& t == (b + x * k + disp) % 0x1_0000_0000
            &&& t % 0x1_0000 == (b + x * k + disp) % 0x1_0000
        }),
{
    let p = x * k;
    let m = x.wrapping_mul(k as u32);
    let q = p / 0x1_0000_0000;
    assert(p == m + q * 0x1_0000_0000);
    let t1 = b.wrapping_add(m);
    let w = wrap32(disp as int);
    let t = t1.wrapping_add(w);
    let c1: int = if b + m > u32::MAX {
        1
    } else {
        0
    };
    let c2: int = if disp < 0 {
        1
    } else {
        0
    };
    let c3: int = if t1 + w > u32::MAX {
        1
    } else {
        0
    };
    let turns = c1 + c3 - c2 + q;
    assert(w == disp + c2 * 0x1_0000_0000);
    assert(b + p + disp == t + turns * 0x1_0000_0000);
    lemma_turns(t as int, turns, 0x1_0000_0000);
    lemma_turns(t as int, turns * 0x1_0000, 0x1_0000);
}

/// An address expression is the effective address.
pub proof fn lemma_ea_expr(m: MemRef, f: Frame, e: u32)
    requires
        m.wf(),
        f.wf(),
    ensures
        eval(ea_expr(m), f) == f.at(e).ea(m),
{
    reveal(ea_expr);
    reveal_with_fuel(eval, 5);
    let b = eval(part_expr(m.base), f);
    let x = eval(part_expr(m.index), f);
    assert(b == addend(f.regs, m.base));
    assert(x == addend(f.regs, m.index));
    lemma_address(b, x, m.scale, m.disp);
    let t = b.wrapping_add(x.wrapping_mul(m.scale as u32)).wrapping_add(wrap32(m.disp as int));
    lemma_masks(t);
}

// ---------------------------------------------------------------------------
// Memory
// ---------------------------------------------------------------------------

/// A machine with other general registers and another EIP.
pub open spec fn replaced(s: CpuState, g: Seq<u32>, e: u32) -> CpuState {
    CpuState { gpr: g, eip: e, ..s }
}

/// Where an access lands depends neither on the general registers nor on EIP.
proof fn lemma_located(
    s: CpuState,
    g: Seq<u32>,
    e: u32,
    seg: Seg,
    off: u32,
    size: u32,
    kind: AccessKind,
)
    ensures
        replaced(s, g, e).located(seg, off, size, kind) == s.located(seg, off, size, kind),
{
}

proof fn lemma_byte_access(
    s: CpuState,
    g: Seq<u32>,
    e: u32,
    seg: Seg,
    off: u32,
    v: u8,
    kind: AccessKind,
)
    ensures
        replaced(s, g, e).load8(seg, off, kind) == s.load8(seg, off, kind),
        replaced(s, g, e).store8(seg, off, v, kind).1 == s.store8(seg, off, v, kind).1,
        replaced(s, g, e).store8(seg, off, v, kind).0 == replaced(
            s.store8(seg, off, v, kind).0,
            g,
            e,
        ),
{
    lemma_located(s, g, e, seg, off, 1, kind);
}

proof fn lemma_word_access(
    s: CpuState,
    g: Seq<u32>,
    e: u32,
    seg: Seg,
    off: u32,
    v: u16,
    kind: AccessKind,
)
    ensures
        replaced(s, g, e).load16(seg, off, kind) == s.load16(seg, off, kind),
        replaced(s, g, e).store16(seg, off, v, kind).1 == s.store16(seg, off, v, kind).1,
        replaced(s, g, e).store16(seg, off, v, kind).0 == replaced(
            s.store16(seg, off, v, kind).0,
            g,
            e,
        ),
{
    lemma_byte_access(s, g, e, seg, off, v as u8, kind);
    lemma_byte_access(s, g, e, seg, off.wrapping_add(1), 0, kind);
    let t = s.store8(seg, off, v as u8, kind).0;
    lemma_byte_access(t, g, e, seg, off.wrapping_add(1), (v >> 8) as u8, kind);
}

pub proof fn lemma_dword_access(
    s: CpuState,
    g: Seq<u32>,
    e: u32,
    seg: Seg,
    off: u32,
    v: u32,
    kind: AccessKind,
)
    ensures
        replaced(s, g, e).load32(seg, off, kind) == s.load32(seg, off, kind),
        replaced(s, g, e).store32(seg, off, v, kind).1 == s.store32(seg, off, v, kind).1,
        replaced(s, g, e).store32(seg, off, v, kind).0 == replaced(
            s.store32(seg, off, v, kind).0,
            g,
            e,
        ),
{
    lemma_word_access(s, g, e, seg, off, v as u16, kind);
    lemma_word_access(s, g, e, seg, off.wrapping_add(2), 0, kind);
    let t = s.store16(seg, off, v as u16, kind).0;
    lemma_word_access(t, g, e, seg, off.wrapping_add(2), (v >> 16) as u16, kind);
}

/// Memory accesses look neither at the general registers nor at EIP.
pub proof fn lemma_access_ignores_gpr(
    s: CpuState,
    g: Seq<u32>,
    e: u32,
    seg: Seg,
    off: u32,
    size: u32,
    v: u32,
    kind: AccessKind,
)
    ensures
        ({
            let t = replaced(s, g, e);
            &&& t.load(seg, off, size, kind) == s.load(seg, off, size, kind)
            &&& t.store(seg, off, size, v, kind).1 == s.store(seg, off, size, v, kind).1
            &&& t.store(seg, off, size, v, kind).0 == replaced(
                s.store(seg, off, size, v, kind).0,
                g,
                e,
            )
        }),
{
    reveal(CpuState::load);
    reveal(CpuState::store);
    lemma_byte_access(s, g, e, seg, off, v as u8, kind);
    lemma_word_access(s, g, e, seg, off, v as u16, kind);
    lemma_dword_access(s, g, e, seg, off, v, kind);
}

/// A store changes only memory.
pub proof fn lemma_store_changes_memory(
    s: CpuState,
    seg: Seg,
    off: u32,
    size: u32,
    v: u32,
    kind: AccessKind,
)
    ensures
        s.store(seg, off, size, v, kind).0 == s.with_mem(s.store(seg, off, size, v, kind).0.mem),
{
    reveal(CpuState::store);
}

// ---------------------------------------------------------------------------
// Operands
// ---------------------------------------------------------------------------

/// Code that reads an operand puts its value in the slot, or leaves the block
/// where the operand cannot be read.
pub proof fn lemma_read_code(
    o: Opnd,
    kind: AccessKind,
    eip: u32,
    to: u8,
    f: Frame,
    e: u32,
    log: DevLog,
)
    requires
        o.wf(),
        f.wf(),
        f.done is None,
        to < SLOTS,
    ensures
        ({
            let g = run(read_code(o, kind, eip, to), f, log);
            &&& g.wf()
            &&& match f.at(e).operand(o, kind) {
                Ok(v) => if o is Sreg {
                    g.done == Some((eip, 1u32)) && g.at(e) == f.at(e)
                } else {
                    g == f.with_slot(to, v)
                },
                Err(_) => g.done == Some((eip, 1u32)) && g.at(e) == f.at(e),
            }
        }),
{
    reveal(read_code);
    reveal(CpuState::operand);
    match o {
        Opnd::Mem(m, bits) => {
            let a = Stmt::Let(to, ea_expr(m));
            let l = Stmt::Load { seg: m.seg, off: to, bits, kind, to, eip };
            lemma_run_pair(a, l, f, log);
            lemma_ea_expr(m, f, e);
            lemma_access_ignores_gpr(f.s, f.regs, e, m.seg, f.at(e).ea(m), bits.size(), 0, kind);
            let f1 = f.with_slot(to, f.at(e).ea(m));
            if let Ok(v) = f.at(e).operand(o, kind) {
                assert(f1.slots.update(to as int, v) =~= f.slots.update(to as int, v));
            }
        },
        Opnd::Sreg(_) => {
            lemma_run_single(Stmt::Exit { eip: Expr::Const(eip), status: 1 }, f, log);
        },
        Opnd::Reg(r, bits) => {
            lemma_reg_expr(r, bits, f, e);
            lemma_run_single(Stmt::Let(to, reg_expr(r, bits)), f, log);
        },
        Opnd::Acc(bits) => {
            lemma_reg_expr(0, bits, f, e);
            lemma_run_single(Stmt::Let(to, reg_expr(0, bits)), f, log);
        },
        Opnd::Cl => {
            lemma_reg_expr(1, Bits::B8, f, e);
            lemma_run_single(Stmt::Let(to, reg_expr(1, Bits::B8)), f, log);
        },
        Opnd::Dx => {
            lemma_reg_expr(2, Bits::B16, f, e);
            lemma_run_single(Stmt::Let(to, reg_expr(2, Bits::B16)), f, log);
        },
        Opnd::Imm(v) => {
            lemma_run_single(Stmt::Let(to, Expr::Const(v)), f, log);
        },
        Opnd::ImmSext(v) => {
            lemma_run_single(Stmt::Let(to, Expr::Const(v)), f, log);
        },
        Opnd::Port(p) => {
            lemma_run_single(Stmt::Let(to, Expr::Const(p as u32)), f, log);
        },
        Opnd::Rel { disp } => {
            lemma_run_single(Stmt::Let(to, Expr::Const(wrap32(disp as int))), f, log);
        },
        Opnd::Absent => {
            lemma_run_single(Stmt::Let(to, Expr::Const(0)), f, log);
        },
        Opnd::FarPtr { sel, off } => {
            lemma_run_single(Stmt::Let(to, Expr::Const(0)), f, log);
        },
    }
}

/// Code that writes an operand does what the interpreter does, or leaves the
/// block where the operand cannot be written.
pub proof fn lemma_write_code(o: Opnd, v: u8, eip: u32, f: Frame, e: u32, log: DevLog)
    requires
        o.wf(),
        f.wf(),
        f.done is None,
        v < T,
    ensures
        ({
            let g = run(write_code(o, v, eip), f, log);
            let (s, r) = f.at(e).assign(o, f.slots[v as int], AccessKind::Write);
            &&& g.wf()
            &&& g.at(e) == s
            &&& g.s.seg == f.s.seg && g.s.cr == f.s.cr
            &&& r is Ok ==> g.done is None
            &&& r is Err ==> g.done == Some((eip, 1u32))
            &&& forall|k: int| 0 <= k < SLOTS && k != T ==> g.slots[k] == f.slots[k]
        }),
{
    reveal(write_code);
    reveal(CpuState::assign);
    match o {
        Opnd::Reg(r, bits) => {
            lemma_set_reg(r, bits, v, f, e, log);
            lemma_run_single(set_reg_stmt(r, bits, v), f, log);
        },
        Opnd::Acc(bits) => {
            lemma_set_reg(0, bits, v, f, e, log);
            lemma_run_single(set_reg_stmt(0, bits, v), f, log);
        },
        Opnd::Mem(m, bits) => {
            let a = Stmt::Let(T, ea_expr(m));
            let st = Stmt::Store { seg: m.seg, off: T, bits, v, eip };
            lemma_run_pair(a, st, f, log);
            lemma_ea_expr(m, f, e);
            lemma_access_ignores_gpr(
                f.s,
                f.regs,
                e,
                m.seg,
                f.at(e).ea(m),
                bits.size(),
                f.slots[v as int],
                AccessKind::Write,
            );
            lemma_store_changes_memory(
                f.s,
                m.seg,
                f.at(e).ea(m),
                bits.size(),
                f.slots[v as int],
                AccessKind::Write,
            );
        },
        _ => {
            lemma_run_empty(f, log);
        },
    }
}

} // verus!
