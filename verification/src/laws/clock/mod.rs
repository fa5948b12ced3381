//! What an instruction does, and what the interpreter does from state to state,
//! does not depend on the cycle counter, which only RDTSC reads.

pub mod compute;
pub mod control;
pub mod misc;
pub mod segment;
pub mod steps;

use vstd::prelude::*;

use crate::cpu::{AccessKind, CpuState, Seg, SegVal};
use crate::decode::{AluOp, Bits, Opnd, Rep};
use crate::flag::{IF, on};
use crate::mem::{DevLog, MemState};
use crate::sem::arith::alu_result;
use crate::sem::operand::Outcome;
use crate::sem::string::{StrMode, StrOp};

verus! {

impl CpuState {
    /// The same state at another time.
    pub open spec fn clocked(self, cycles: u64) -> CpuState {
        CpuState { cycles, ..self }
    }

    /// What instructions leave alone: the pending interrupt, whether the CPU waits,
    /// the number of registers, and that there is no device.
    pub open spec fn carries(self, t: CpuState) -> bool {
        &&& t.pending_irq == self.pending_irq
        &&& t.halted == self.halted
        &&& self.mem.dev is None ==> t.mem.dev is None
        &&& self.wf() ==> t.wf()
    }

    /// What instructions keep: the pending interrupt, the number of registers, and
    /// that there is no device; and the CPU comes to wait only with IF set.
    pub open spec fn keeps(self, t: CpuState) -> bool {
        &&& t.pending_irq == self.pending_irq
        &&& t.halted ==> self.halted || on(t.eflags, IF)
        &&& self.mem.dev is None ==> t.mem.dev is None
        &&& self.wf() ==> t.wf()
    }
}

impl Outcome {
    /// The same outcome at another time.
    pub open spec fn clocked(self, cycles: u64) -> Outcome {
        Outcome { s: self.s.clocked(cycles), ..self }
    }
}

// ---------------------------------------------------------------------------
// Registers
// ---------------------------------------------------------------------------

pub broadcast proof fn clock_gpr(s: CpuState, c: u64, n: int, v: u32)
    ensures
        #[trigger] s.clocked(c).with_gpr(n, v) == s.with_gpr(n, v).clocked(c),
{
}

pub broadcast proof fn clock_eip(s: CpuState, c: u64, eip: u32)
    ensures
        #[trigger] s.clocked(c).with_eip(eip) == s.with_eip(eip).clocked(c),
{
}

pub broadcast proof fn clock_flags(s: CpuState, c: u64, f: u32)
    ensures
        #[trigger] s.clocked(c).with_flags(f) == s.with_flags(f).clocked(c),
{
}

pub broadcast proof fn clock_mem(s: CpuState, c: u64, m: MemState)
    ensures
        #[trigger] s.clocked(c).with_mem(m) == s.with_mem(m).clocked(c),
{
}

pub broadcast proof fn clock_seg(s: CpuState, c: u64, seg: Seg, v: SegVal)
    ensures
        #[trigger] s.clocked(c).with_seg(seg, v) == s.with_seg(seg, v).clocked(c),
{
}

pub broadcast proof fn clock_cr(s: CpuState, c: u64, n: int, v: u32)
    ensures
        #[trigger] s.clocked(c).with_cr(n, v) == s.with_cr(n, v).clocked(c),
{
}

pub broadcast proof fn clock_reg8(s: CpuState, c: u64, r: i8, v: u8)
    ensures
        #[trigger] s.clocked(c).with_reg8(r, v) == s.with_reg8(r, v).clocked(c),
{
}

pub broadcast proof fn clock_reg16(s: CpuState, c: u64, r: i8, v: u16)
    ensures
        #[trigger] s.clocked(c).with_reg16(r, v) == s.with_reg16(r, v).clocked(c),
{
}

pub broadcast proof fn clock_reg32(s: CpuState, c: u64, r: i8, v: u32)
    ensures
        #[trigger] s.clocked(c).with_reg32(r, v) == s.with_reg32(r, v).clocked(c),
{
}

pub broadcast proof fn clock_gpr_at(s: CpuState, c: u64, r: u8, bits: Bits, v: u32)
    ensures
        #[trigger] s.clocked(c).with_gpr_at(r, bits, v) == s.with_gpr_at(r, bits, v).clocked(c),
{
}

/// The registers that a signed byte numbers.
proof fn lemma_register_numbers(r: i8)
    ensures
        0 <= r & 7 < 8,
        0 <= r & 3 < 4,
{
    assert(0 <= r & 7 && r & 7 < 8 && 0 <= r & 3 && r & 3 < 4) by (bit_vector);
}

pub broadcast proof fn carry_reg8(s: CpuState, r: i8, v: u8)
    ensures
        s.carries(#[trigger] s.with_reg8(r, v)),
{
    lemma_register_numbers(r);
}

pub broadcast proof fn carry_reg16(s: CpuState, r: i8, v: u16)
    ensures
        s.carries(#[trigger] s.with_reg16(r, v)),
{
    lemma_register_numbers(r);
}

pub broadcast proof fn carry_reg32(s: CpuState, r: i8, v: u32)
    ensures
        s.carries(#[trigger] s.with_reg32(r, v)),
{
    lemma_register_numbers(r);
}

pub broadcast proof fn carry_gpr_at(s: CpuState, r: u8, bits: Bits, v: u32)
    ensures
        s.carries(#[trigger] s.with_gpr_at(r, bits, v)),
{
    broadcast use {carry_reg8, carry_reg16, carry_reg32};

}

pub broadcast group group_registers {
    clock_gpr,
    clock_eip,
    clock_flags,
    clock_mem,
    clock_seg,
    clock_cr,
    clock_reg8,
    clock_reg16,
    clock_reg32,
    clock_gpr_at,
    carry_reg8,
    carry_reg16,
    carry_reg32,
    carry_gpr_at,
}

// ---------------------------------------------------------------------------
// Memory
// ---------------------------------------------------------------------------

pub broadcast proof fn clock_load(
    s: CpuState,
    c: u64,
    seg: Seg,
    off: u32,
    size: u32,
    kind: AccessKind,
)
    ensures
        (#[trigger] s.clocked(c).load(seg, off, size, kind)) == s.load(seg, off, size, kind),
{
    reveal(CpuState::load);
}

pub broadcast proof fn clock_load8(s: CpuState, c: u64, seg: Seg, off: u32, kind: AccessKind)
    ensures
        (#[trigger] s.clocked(c).load8(seg, off, kind)) == s.load8(seg, off, kind),
{
}

pub broadcast proof fn clock_load16(s: CpuState, c: u64, seg: Seg, off: u32, kind: AccessKind)
    ensures
        (#[trigger] s.clocked(c).load16(seg, off, kind)) == s.load16(seg, off, kind),
{
}

pub broadcast proof fn clock_load32(s: CpuState, c: u64, seg: Seg, off: u32, kind: AccessKind)
    ensures
        (#[trigger] s.clocked(c).load32(seg, off, kind)) == s.load32(seg, off, kind),
{
}

pub broadcast proof fn clock_store8(
    s: CpuState,
    c: u64,
    seg: Seg,
    off: u32,
    v: u8,
    kind: AccessKind,
)
    ensures
        (#[trigger] s.clocked(c).store8(seg, off, v, kind)) == (
            s.store8(seg, off, v, kind).0.clocked(c),
            s.store8(seg, off, v, kind).1,
        ),
{
}

pub broadcast proof fn clock_store16(
    s: CpuState,
    c: u64,
    seg: Seg,
    off: u32,
    v: u16,
    kind: AccessKind,
)
    ensures
        (#[trigger] s.clocked(c).store16(seg, off, v, kind)) == (
            s.store16(seg, off, v, kind).0.clocked(c),
            s.store16(seg, off, v, kind).1,
        ),
{
    broadcast use clock_store8;

}

pub broadcast proof fn clock_store32(
    s: CpuState,
    c: u64,
    seg: Seg,
    off: u32,
    v: u32,
    kind: AccessKind,
)
    ensures
        (#[trigger] s.clocked(c).store32(seg, off, v, kind)) == (
            s.store32(seg, off, v, kind).0.clocked(c),
            s.store32(seg, off, v, kind).1,
        ),
{
    broadcast use clock_store16;

}

pub broadcast proof fn clock_store(
    s: CpuState,
    c: u64,
    seg: Seg,
    off: u32,
    size: u32,
    v: u32,
    kind: AccessKind,
)
    ensures
        (#[trigger] s.clocked(c).store(seg, off, size, v, kind)) == (
            s.store(seg, off, size, v, kind).0.clocked(c),
            s.store(seg, off, size, v, kind).1,
        ),
{
    reveal(CpuState::store);
    broadcast use {clock_store8, clock_store16, clock_store32};

}

pub broadcast proof fn carry_store8(s: CpuState, seg: Seg, off: u32, v: u8, kind: AccessKind)
    ensures
        s.carries((#[trigger] s.store8(seg, off, v, kind)).0),
{
}

pub broadcast proof fn carry_store16(s: CpuState, seg: Seg, off: u32, v: u16, kind: AccessKind)
    ensures
        s.carries((#[trigger] s.store16(seg, off, v, kind)).0),
{
    broadcast use carry_store8;

}

pub broadcast proof fn carry_store32(s: CpuState, seg: Seg, off: u32, v: u32, kind: AccessKind)
    ensures
        s.carries((#[trigger] s.store32(seg, off, v, kind)).0),
{
    broadcast use carry_store16;

}

pub broadcast proof fn carry_store(
    s: CpuState,
    seg: Seg,
    off: u32,
    size: u32,
    v: u32,
    kind: AccessKind,
)
    ensures
        s.carries((#[trigger] s.store(seg, off, size, v, kind)).0),
{
    reveal(CpuState::store);
    broadcast use {carry_store8, carry_store16, carry_store32};

}

pub broadcast group group_memory {
    clock_load,
    clock_load8,
    clock_load16,
    clock_load32,
    clock_store,
    clock_store16,
    clock_store32,
    carry_store,
    carry_store16,
    carry_store32,
}

// ---------------------------------------------------------------------------
// Operands and the stack
// ---------------------------------------------------------------------------

pub broadcast proof fn clock_operand(s: CpuState, c: u64, o: Opnd, kind: AccessKind)
    ensures
        (#[trigger] s.clocked(c).operand(o, kind)) == s.operand(o, kind),
{
    reveal(CpuState::operand);
    broadcast use {group_registers, group_memory};

}

pub broadcast proof fn clock_assign(s: CpuState, c: u64, o: Opnd, v: u32, kind: AccessKind)
    ensures
        (#[trigger] s.clocked(c).assign(o, v, kind)) == (
            s.assign(o, v, kind).0.clocked(c),
            s.assign(o, v, kind).1,
        ),
{
    reveal(CpuState::assign);
    broadcast use {group_registers, group_memory};

}

pub broadcast proof fn carry_assign(s: CpuState, o: Opnd, v: u32, kind: AccessKind)
    ensures
        s.carries((#[trigger] s.assign(o, v, kind)).0),
{
    reveal(CpuState::assign);
    broadcast use {group_registers, group_memory};

}

pub broadcast proof fn clock_pushed(s: CpuState, c: u64, size: u32, v: u32)
    ensures
        (#[trigger] s.clocked(c).pushed(size, v)) == (
            s.pushed(size, v).0.clocked(c),
            s.pushed(size, v).1,
        ),
{
    broadcast use {group_registers, group_memory};

}

pub broadcast proof fn carry_pushed(s: CpuState, size: u32, v: u32)
    ensures
        s.carries((#[trigger] s.pushed(size, v)).0),
{
    broadcast use {group_registers, group_memory};

}

pub broadcast proof fn clock_popped(s: CpuState, c: u64, size: u32)
    ensures
        (#[trigger] s.clocked(c).popped(size)) == (s.popped(size).0.clocked(c), s.popped(size).1),
{
    broadcast use {group_registers, group_memory};

}

pub broadcast proof fn carry_popped(s: CpuState, size: u32)
    ensures
        s.carries((#[trigger] s.popped(size)).0),
{
    broadcast use {group_registers, group_memory};

}

pub broadcast group group_operands {
    group_registers,
    clock_operand,
    clock_assign,
    carry_assign,
    clock_pushed,
    carry_pushed,
    clock_popped,
    carry_popped,
}

// ---------------------------------------------------------------------------
// Several words, interrupts, strings
// ---------------------------------------------------------------------------

pub broadcast proof fn clock_pushed_all(s: CpuState, c: u64, size: u32, vals: Seq<u32>)
    ensures
        (#[trigger] s.clocked(c).pushed_all(size, vals)) == (
            s.pushed_all(size, vals).0.clocked(c),
            s.pushed_all(size, vals).1,
        ),
        s.carries(s.pushed_all(size, vals).0),
    decreases vals.len(),
{
    broadcast use group_operands;

    if vals.len() > 0 {
        clock_pushed_all(s.pushed(size, vals[0]).0, c, size, vals.skip(1));
    }
}

pub broadcast proof fn clock_popped_all(s: CpuState, c: u64, size: u32, n: nat)
    ensures
        (#[trigger] s.clocked(c).popped_all(size, n)) == (
            s.popped_all(size, n).0.clocked(c),
            s.popped_all(size, n).1,
        ),
        s.carries(s.popped_all(size, n).0),
    decreases n,
{
    broadcast use group_operands;

    if n > 0 {
        clock_popped_all(s.popped(size).0, c, size, (n - 1) as nat);
    }
}

pub broadcast proof fn clock_frame_links(s: CpuState, c: u64, size: u32, n: nat)
    ensures
        (#[trigger] s.clocked(c).frame_links(size, n)) == s.frame_links(size, n).clocked(c),
        s.carries(s.frame_links(size, n)),
    decreases n,
{
    broadcast use group_operands;

    if n > 0 {
        let v = s.mem.read32(s.gpr[4].wrapping_add(size));
        clock_frame_links(s.pushed(size, v).0, c, size, (n - 1) as nat);
    }
}

pub broadcast proof fn clock_pushed3(s: CpuState, c: u64, size: u32, x: u32, y: u32, z: u32)
    ensures
        (#[trigger] s.clocked(c).pushed3(size, x, y, z)) == (
            s.pushed3(size, x, y, z).0.clocked(c),
            s.pushed3(size, x, y, z).1,
        ),
        s.carries(s.pushed3(size, x, y, z).0),
{
    broadcast use group_operands;

}

proof fn clock_real_interrupt(s: CpuState, c: u64, vector: u8)
    ensures
        s.clocked(c).real_interrupt(vector) == (
            s.real_interrupt(vector).0.clocked(c),
            s.real_interrupt(vector).1,
        ),
        s.carries(s.real_interrupt(vector).0),
{
    broadcast use {group_operands, clock_pushed3};

}

pub broadcast proof fn clock_interrupted(
    s: CpuState,
    c: u64,
    vector: u8,
    has_error: bool,
    code: u32,
)
    ensures
        (#[trigger] s.clocked(c).interrupted(vector, has_error, code)) == (
            s.interrupted(vector, has_error, code).0.clocked(c),
            s.interrupted(vector, has_error, code).1,
        ),
        s.carries(s.interrupted(vector, has_error, code).0),
{
    broadcast use {group_operands, clock_load16, clock_pushed3};

    clock_real_interrupt(s, c, vector);
    clock_real_interrupt(s, c, 13);
}

proof fn clock_element(s: CpuState, c: u64, seg: Seg, r: u8, m: StrMode)
    ensures
        s.clocked(c).element(seg, r, m) == s.element(seg, r, m),
{
    broadcast use clock_load;

}

proof fn clock_advanced(s: CpuState, c: u64, r: u8, m: StrMode)
    ensures
        s.clocked(c).advanced(r, m) == s.advanced(r, m).clocked(c),
        s.carries(s.advanced(r, m)),
{
    broadcast use group_registers;

}

proof fn clock_element_stored(s: CpuState, c: u64, v: u32, m: StrMode)
    ensures
        s.clocked(c).element_stored(v, m) == (
            s.element_stored(v, m).0.clocked(c),
            s.element_stored(v, m).1,
        ),
        s.carries(s.element_stored(v, m).0),
{
    broadcast use {clock_store, carry_store};

    let at = s.index_reg(7, m.a16);
    let t = s.store(Seg::Es, at, m.bits.size(), v, AccessKind::Write).0;
    clock_advanced(t, c, 7, m);
}

/// One round of a string operation.
pub broadcast proof fn clock_string_once(s: CpuState, c: u64, m: StrMode, log: DevLog)
    ensures
        (#[trigger] s.clocked(c).string_once(m, log)) == (
            s.string_once(m, log).0.clocked(c),
            s.string_once(m, log).1,
        ),
        s.carries(s.string_once(m, log).0),
{
    reveal(CpuState::string_once);
    clock_element(s, c, Seg::Ds, 6, m);
    clock_element(s, c, Seg::Es, 7, m);
    let acc = s.gpr_at(0, m.bits);
    let at_si = s.element(Seg::Ds, 6, m);
    let at_di = s.element(Seg::Es, 7, m);
    match m.op {
        StrOp::Movs => {
            if let Ok(v) = at_si {
                clock_element_stored(s, c, v, m);
                clock_advanced(s.element_stored(v, m).0, c, 6, m);
            }
        },
        StrOp::Stos => {
            clock_element_stored(s, c, acc, m);
        },
        StrOp::Lods => {
            if let Ok(v) = at_si {
                broadcast use group_registers;

                clock_advanced(s.with_gpr_at(0, m.bits, v), c, 6, m);
            }
        },
        StrOp::Cmps => {
            if let (Ok(a), Ok(b)) = (at_si, at_di) {
                let t = s.with_flags(alu_result(s.eflags, AluOp::Cmp, a, b, m.bits).1);
                clock_advanced(t, c, 6, m);
                clock_advanced(t.advanced(6, m), c, 7, m);
                assert(s.clocked(c).with_flags(t.eflags) == t.clocked(c));
            }
        },
        StrOp::Scas => {
            if let Ok(b) = at_di {
                let t = s.with_flags(alu_result(s.eflags, AluOp::Cmp, acc, b, m.bits).1);
                clock_advanced(t, c, 7, m);
                assert(s.clocked(c).with_flags(t.eflags) == t.clocked(c));
            }
        },
        StrOp::Ins => {
            let (t, v) = s.port_in(s.gpr[2] as u16, m.bits.size() as u8, log);
            clock_element_stored(t, c, v, m);
            assert(s.clocked(c).port_in(s.gpr[2] as u16, m.bits.size() as u8, log) == (
                t.clocked(c),
                v,
            ));
        },
        StrOp::Outs => {
            if let Ok(v) = at_si {
                let t = s.port_out(s.gpr[2] as u16, m.bits.size() as u8, v);
                clock_advanced(t, c, 6, m);
                assert(s.clocked(c).port_out(s.gpr[2] as u16, m.bits.size() as u8, v) == t.clocked(
                    c,
                ));
            }
        },
    }
}

pub broadcast proof fn clock_string_rounds(
    s: CpuState,
    c: u64,
    m: StrMode,
    rep: Rep,
    n: nat,
    log: DevLog,
)
    ensures
        (#[trigger] s.clocked(c).string_rounds(m, rep, n, log)) == (
            s.string_rounds(m, rep, n, log).0.clocked(c),
            s.string_rounds(m, rep, n, log).1,
        ),
        s.carries(s.string_rounds(m, rep, n, log).0),
    decreases n,
{
    broadcast use {group_operands, clock_string_once};

    if n > 0 {
        let u = s.string_once(m, log).0;
        let t = u.with_gpr_at(1, Bits::by_attribute(m.a16), (n - 1) as u32);
        assert(u.clocked(c).with_gpr_at(1, Bits::by_attribute(m.a16), (n - 1) as u32) == t.clocked(
            c,
        ));
        clock_string_rounds(t, c, m, rep, (n - 1) as nat, log);
    }
}

} // verus!
