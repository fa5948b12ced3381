//! Stack, control-flow and interrupt instructions.

use vstd::prelude::*;

use crate::cpu::{AccessKind, CpuState, Error, ErrorView, OutView, Seg, SegVal, StepOut, X86};
use crate::decode::{Cond, Decoded, Insn, Opnd};
use crate::flag::{IF, OF, ZF, on};
use crate::mem::{DevEvent, continues};
use crate::sem::arith::{cond_holds, cond_true, signed_part, low, signed};
use crate::sem::interrupt::dispatch_interrupt;
use crate::sem::operand::{
    Outcome, eff, ended, failed, go, goes_on, leaving, next_eip, or_left, pop, push, read_opnd,
    write_and_go, write_gpr, write_opnd,
};
use crate::sem::segment::{load_and_go, read_far_pointer};

verus! {

// ---------------------------------------------------------------------------
// Moves
// ---------------------------------------------------------------------------

/// LEA.
#[verifier::opaque]
pub open spec fn do_lea(s: CpuState, i: Insn) -> Outcome {
    match i.o1 {
        Opnd::Mem(m, _) => goes_on(s.assign(i.o0, s.ea(m), AccessKind::Write).0, s.next(i)),
        _ => failed(s, ErrorView::Internal("LEA mem"@)),
    }
}

pub(crate) fn exec_lea(cpu: &mut X86, d: &Decoded) -> (r: Result<StepOut, StepOut>)
    requires
        d@.wf(),
    ensures
        ended(final(cpu)@, r) == do_lea(old(cpu)@, d@),
        final(cpu)@.mem.dev == old(cpu)@.mem.dev,
{
    proof {
        reveal(do_lea);
    }
    let next = next_eip(cpu, d);
    match d.ops[1] {
        Opnd::Mem(m, _) => {
            let ea = eff(cpu, &m);
            let _ = write_opnd(cpu, &d.ops[0], ea);
            go(cpu, next)
        },
        _ => Err(StepOut::Error(Error::Internal("LEA mem".to_owned()))),
    }
}

/// XCHG; a write that faults is dropped.
#[verifier::opaque]
pub open spec fn do_xchg(s: CpuState, i: Insn) -> Outcome {
    match (s.operand(i.o0, AccessKind::Rmw), s.operand(i.o1, AccessKind::Rmw)) {
        (Err(e), _) => failed(s, e),
        (Ok(a), Err(e)) => failed(s, e),
        (Ok(a), Ok(b)) => goes_on(
            s.assign(i.o0, b, AccessKind::Write).0.assign(i.o1, a, AccessKind::Write).0,
            s.next(i),
        ),
    }
}

pub(crate) fn exec_xchg(cpu: &mut X86, d: &Decoded) -> (r: Result<StepOut, StepOut>)
    requires
        d@.wf(),
    ensures
        ended(final(cpu)@, r) == do_xchg(old(cpu)@, d@),
        final(cpu)@.mem.dev == old(cpu)@.mem.dev,
{
    proof {
        reveal(do_xchg);
    }
    let next = next_eip(cpu, d);
    let a = read_opnd(cpu, &d.ops[0], AccessKind::Rmw)?;
    let b = read_opnd(cpu, &d.ops[1], AccessKind::Rmw)?;
    let _ = write_opnd(cpu, &d.ops[0], b);
    let _ = write_opnd(cpu, &d.ops[1], a);
    go(cpu, next)
}

/// CMOVcc; the source is read only where the condition holds.
#[verifier::opaque]
pub open spec fn do_cmov(s: CpuState, i: Insn, c: Cond) -> Outcome {
    if cond_holds(s.eflags, c) {
        match s.operand(i.o1, AccessKind::Read) {
            Err(e) => failed(s, e),
            Ok(v) => goes_on(s.assign(i.o0, v, AccessKind::Write).0, s.next(i)),
        }
    } else {
        goes_on(s, s.next(i))
    }
}

pub(crate) fn exec_cmov(cpu: &mut X86, d: &Decoded, c: Cond) -> (r: Result<StepOut, StepOut>)
    requires
        d@.wf(),
    ensures
        ended(final(cpu)@, r) == do_cmov(old(cpu)@, d@, c),
        final(cpu)@.mem.dev == old(cpu)@.mem.dev,
{
    proof {
        reveal(do_cmov);
    }
    let next = next_eip(cpu, d);
    if cond_true(cpu, c) {
        let v = read_opnd(cpu, &d.ops[1], AccessKind::Read)?;
        let _ = write_opnd(cpu, &d.ops[0], v);
    }
    go(cpu, next)
}

/// SETcc.
#[verifier::opaque]
pub open spec fn do_setcc(s: CpuState, i: Insn, c: Cond) -> Outcome {
    s.assign_and_go(
        i.o0,
        if cond_holds(s.eflags, c) {
            1
        } else {
            0
        },
        s.next(i),
    )
}

pub(crate) fn exec_setcc(cpu: &mut X86, d: &Decoded, c: Cond) -> (r: Result<StepOut, StepOut>)
    requires
        d@.wf(),
    ensures
        ended(final(cpu)@, r) == do_setcc(old(cpu)@, d@, c),
        final(cpu)@.mem.dev == old(cpu)@.mem.dev,
{
    proof {
        reveal(do_setcc);
    }
    let next = next_eip(cpu, d);
    let v: u32 = if cond_true(cpu, c) {
        1
    } else {
        0
    };
    write_and_go(cpu, &d.ops[0], v, next)
}

// ---------------------------------------------------------------------------
// Stack
// ---------------------------------------------------------------------------

fn push_and_go(cpu: &mut X86, size: u32, v: u32, next: u32) -> (r: Result<StepOut, StepOut>)
    ensures
        ended(final(cpu)@, r) == old(cpu)@.push_and_go(size, v, next),
        final(cpu)@.mem.dev == old(cpu)@.mem.dev,
{
    push(cpu, size, v)?;
    cpu.eip = next;
    Ok(StepOut::Continue)
}

/// PUSH.
#[verifier::opaque]
pub open spec fn do_push(s: CpuState, i: Insn) -> Outcome {
    match s.operand(i.o0, AccessKind::Read) {
        Err(e) => failed(s, e),
        Ok(v) => s.push_and_go(i.size().size(), v, s.next(i)),
    }
}

pub(crate) fn exec_push(cpu: &mut X86, d: &Decoded) -> (r: Result<StepOut, StepOut>)
    requires
        d@.wf(),
    ensures
        ended(final(cpu)@, r) == do_push(old(cpu)@, d@),
        final(cpu)@.mem.dev == old(cpu)@.mem.dev,
{
    proof {
        reveal(do_push);
    }
    let next = next_eip(cpu, d);
    let v = read_opnd(cpu, &d.ops[0], AccessKind::Read)?;
    push_and_go(cpu, d.size().bytes(), v, next)
}

/// POP; the operand is addressed after ESP has moved.
#[verifier::opaque]
pub open spec fn do_pop(s: CpuState, i: Insn) -> Outcome {
    let (t, r) = s.popped(i.size().size());
    match r {
        Err(e) => failed(t, e),
        Ok(v) => t.assign_and_go(i.o0, v, s.next(i)),
    }
}

pub(crate) fn exec_pop(cpu: &mut X86, d: &Decoded) -> (r: Result<StepOut, StepOut>)
    requires
        d@.wf(),
    ensures
        ended(final(cpu)@, r) == do_pop(old(cpu)@, d@),
        final(cpu)@.mem.dev == old(cpu)@.mem.dev,
{
    proof {
        reveal(do_pop);
    }
    let next = next_eip(cpu, d);
    let v = pop(cpu, d.size().bytes())?;
    write_and_go(cpu, &d.ops[0], v, next)
}

/// PUSHF and PUSHFD.
#[verifier::opaque]
pub open spec fn do_pushf(s: CpuState, i: Insn) -> Outcome {
    let v = if i.o16 {
        s.eflags & 0xFFFF
    } else {
        s.eflags
    };
    s.push_and_go(i.size().size(), v, s.next(i))
}

pub(crate) fn exec_pushf(cpu: &mut X86, d: &Decoded) -> (r: Result<StepOut, StepOut>)
    ensures
        ended(final(cpu)@, r) == do_pushf(old(cpu)@, d@),
        final(cpu)@.mem.dev == old(cpu)@.mem.dev,
{
    proof {
        reveal(do_pushf);
    }
    let next = next_eip(cpu, d);
    let v = if d.o16 {
        cpu.eflags & 0xFFFF
    } else {
        cpu.eflags
    };
    push_and_go(cpu, d.size().bytes(), v, next)
}

/// POPF and POPFD; TF stays set once it is.
#[verifier::opaque]
pub open spec fn do_popf(s: CpuState, i: Insn) -> Outcome {
    let (t, r) = s.popped(i.size().size());
    match r {
        Err(e) => failed(t, e),
        Ok(v) => goes_on(
            t.with_flags(
                (t.eflags & 0x100) | (if i.o16 {
                    v & 0xFFFF
                } else {
                    v
                }),
            ),
            s.next(i),
        ),
    }
}

pub(crate) fn exec_popf(cpu: &mut X86, d: &Decoded) -> (r: Result<StepOut, StepOut>)
    ensures
        ended(final(cpu)@, r) == do_popf(old(cpu)@, d@),
        final(cpu)@.mem.dev == old(cpu)@.mem.dev,
{
    proof {
        reveal(do_popf);
    }
    let next = next_eip(cpu, d);
    let v = pop(cpu, d.size().bytes())?;
    let f = if d.o16 {
        v & 0xFFFF
    } else {
        v
    };
    cpu.eflags = (cpu.eflags & 0x100) | f;
    go(cpu, next)
}

impl CpuState {
    /// Push the values in order; the first that fails ends it.
    pub open spec fn pushed_all(
        self,
        size: u32,
        vals: Seq<u32>) -> (CpuState,
        Result<(),
        ErrorView>,
    )
        decreases vals.len(),
    {
        if vals.len() == 0 {
            (self, Ok(()))
        } else {
            let (s, r) = self.pushed(size, vals[0]);
            match r {
                Err(e) => (s, Err(e)),
                Ok(_) => s.pushed_all(size, vals.skip(1)),
            }
        }
    }

    /// Pop `n` values; the first that fails ends it.
    pub open spec fn popped_all(self, size: u32, n: nat) -> (CpuState, Result<Seq<u32>, ErrorView>)
        decreases n,
    {
        if n == 0 {
            (self, Ok(Seq::empty()))
        } else {
            let (s, r) = self.popped(size);
            match r {
                Err(e) => (s, Err(e)),
                Ok(v) => {
                    let (t, rest) = s.popped_all(size, (n - 1) as nat);
                    match rest {
                        Err(e) => (t, Err(e)),
                        Ok(vs) => (t, Ok(seq![v] + vs)),
                    }
                },
            }
        }
    }
}

/// What PUSHA pushes: the registers in order, with ESP as it was.
#[verifier::opaque]
pub open spec fn do_pusha(s: CpuState, i: Insn) -> Outcome {
    let (t, r) = s.pushed_all(i.size().size(), s.gpr);
    match r {
        Err(e) => failed(t, e),
        Ok(_) => goes_on(t, s.next(i)),
    }
}

pub(crate) fn exec_pusha(cpu: &mut X86, d: &Decoded) -> (r: Result<StepOut, StepOut>)
    ensures
        ended(final(cpu)@, r) == do_pusha(old(cpu)@, d@),
        final(cpu)@.mem.dev == old(cpu)@.mem.dev,
{
    proof {
        reveal(do_pusha);
    }
    let next = next_eip(cpu, d);
    let size = d.size().bytes();
    let vals = cpu.gpr;
    let mut n: usize = 0;
    assert(vals@.skip(0) =~= vals@);
    while n < 8
        invariant
            n <= 8,
            size == d@.size().size(),
            vals@ == old(cpu)@.gpr,
            cpu@.mem.dev == old(cpu)@.mem.dev,
            next == old(cpu)@.next(d@),
            old(cpu)@.pushed_all(size, vals@) == cpu@.pushed_all(size, vals@.skip(n as int)),
        decreases 8 - n,
    {
        proof {
            reveal(do_pusha);
        }
        assert(vals@.skip(n as int).skip(1) =~= vals@.skip(n + 1));
        push(cpu, size, vals[n])?;
        n = n + 1;
    }
    go(cpu, next)
}

/// POPA: DI, SI, BP, a slot that is skipped, BX, DX, CX, AX.
#[verifier::opaque]
pub open spec fn do_popa(s: CpuState, i: Insn) -> Outcome {
    let sz = i.size();
    let (t, r) = s.popped_all(sz.size(), 8);
    match r {
        Err(e) => failed(t, e),
        Ok(v) => goes_on(
            t.with_gpr_at(7, sz, v[0]).with_gpr_at(6, sz, v[1]).with_gpr_at(5, sz, v[2]).with_gpr_at(
                3,
                sz,
                v[4],
            ).with_gpr_at(2, sz, v[5]).with_gpr_at(1, sz, v[6]).with_gpr_at(0, sz, v[7]),
            s.next(i),
        ),
    }
}

pub(crate) fn exec_popa(cpu: &mut X86, d: &Decoded) -> (r: Result<StepOut, StepOut>)
    ensures
        ended(final(cpu)@, r) == do_popa(old(cpu)@, d@),
        final(cpu)@.mem.dev == old(cpu)@.mem.dev,
{
    proof {
        reveal(do_popa);
    }
    let next = next_eip(cpu, d);
    let sz = d.size();
    let size = sz.bytes();
    let mut v: [u32; 8] = [0;8];
    let mut n: usize = 0;
    while n < 8
        invariant
            n <= 8,
            size == d@.size().size(),
            next == old(cpu)@.next(d@),
            cpu@.mem.dev == old(cpu)@.mem.dev,
            ({
                let (t, rest) = cpu@.popped_all(size, (8 - n) as nat);
                old(cpu)@.popped_all(size, 8) == match rest {
                    Err(e) => (t, Err(e)),
                    Ok(vs) => (t, Ok(v@.take(n as int) + vs)),
                }
            }),
        ensures
            n == 8,
        decreases 8 - n,
    {
        proof {
            reveal(do_popa);
        }
        let ghost before = v@;
        let x = pop(cpu, size)?;
        v[n] = x;
        n = n + 1;
        proof {
            assert(v@.take(n as int) =~= before.take(n - 1).push(x));
            let (t, rest) = cpu@.popped_all(size, (8 - n) as nat);
            if let Ok(vs) = rest {
                assert(before.take(n - 1) + (seq![x] + vs) =~= v@.take(n as int) + vs);
            }
        }
    }
    assert(v@.take(8) + Seq::<u32>::empty() =~= v@);
    write_gpr(cpu, 7, sz, v[0]);
    write_gpr(cpu, 6, sz, v[1]);
    write_gpr(cpu, 5, sz, v[2]);
    write_gpr(cpu, 3, sz, v[4]);
    write_gpr(cpu, 2, sz, v[5]);
    write_gpr(cpu, 1, sz, v[6]);
    write_gpr(cpu, 0, sz, v[7]);
    go(cpu, next)
}

impl CpuState {
    /// The pushes that ENTER makes below the old EBP for its nesting level: each
    /// is the doubleword above the one that was pushed last.
    pub open spec fn frame_links(self, size: u32, n: nat) -> CpuState
        decreases n,
    {
        if n == 0 {
            self
        } else {
            let v = self.mem.read32(self.gpr[4].wrapping_add(size));
            self.pushed(size, v).0.frame_links(size, (n - 1) as nat)
        }
    }
}

/// ENTER: push EBP, link the frames of a nesting level of 3 to 31, let EBP point
/// to the pushed EBP and take `frame` bytes off ESP.
#[verifier::opaque]
pub open spec fn do_enter(s: CpuState, i: Insn, frame: u16, level: u8) -> Outcome {
    let size = i.size().size();
    let (t, r) = s.pushed(size, s.gpr[5]);
    match r {
        Err(e) => failed(t, e),
        Ok(_) => {
            let links: int = if 2 <= level <= 31 {
                level - 2
            } else {
                0
            };
            let u = t.frame_links(size, links as nat).with_gpr(5, t.gpr[4]);
            goes_on(u.with_gpr(4, u.gpr[4].wrapping_sub(frame as u32)), s.next(i))
        },
    }
}

pub(crate) fn exec_enter(cpu: &mut X86, d: &Decoded, frame: u16, level: u8) -> (r: Result<
    StepOut,
    StepOut,
>)
    ensures
        ended(final(cpu)@, r) == do_enter(old(cpu)@, d@, frame, level),
        final(cpu)@.mem.dev == old(cpu)@.mem.dev,
{
    proof {
        reveal(do_enter);
    }
    let next = next_eip(cpu, d);
    let size = d.size().bytes();
    let ebp = cpu.gpr[5];
    push(cpu, size, ebp)?;
    let new_ebp = cpu.gpr[4];
    let ghost t = cpu@;
    let mut left: u8 = if 2 <= level && level <= 31 {
        level - 2
    } else {
        0
    };
    let ghost links = left as nat;
    while left > 0
        invariant
            t.frame_links(size, links) == cpu@.frame_links(size, left as nat),
            cpu@.mem.dev == old(cpu)@.mem.dev,
        decreases left,
    {
        let v = cpu.mem.phys_read32(cpu.gpr[4].wrapping_add(size));
        let _ = push(cpu, size, v);
        left = left - 1;
    }
    cpu.gpr[5] = new_ebp;
    cpu.gpr[4] = cpu.gpr[4].wrapping_sub(frame as u32);
    go(cpu, next)
}

/// LEAVE.
#[verifier::opaque]
pub open spec fn do_leave(s: CpuState, i: Insn) -> Outcome {
    let (t, r) = s.with_gpr(4, s.gpr[5]).popped(i.size().size());
    match r {
        Err(e) => failed(t, e),
        Ok(v) => goes_on(t.with_gpr(5, v), s.next(i)),
    }
}

pub(crate) fn exec_leave(cpu: &mut X86, d: &Decoded) -> (r: Result<StepOut, StepOut>)
    ensures
        ended(final(cpu)@, r) == do_leave(old(cpu)@, d@),
        final(cpu)@.mem.dev == old(cpu)@.mem.dev,
{
    proof {
        reveal(do_leave);
    }
    let next = next_eip(cpu, d);
    cpu.gpr[4] = cpu.gpr[5];
    let v = pop(cpu, d.size().bytes())?;
    cpu.gpr[5] = v;
    go(cpu, next)
}

// ---------------------------------------------------------------------------
// Jumps and calls
// ---------------------------------------------------------------------------

impl CpuState {
    /// Where a near jump goes: a register or memory operand holds the target, else
    /// it is relative.
    pub open spec fn near_target(self, i: Insn) -> Result<u32, ErrorView> {
        match i.o0 {
            Opnd::Reg(_, _) => self.operand(i.o0, AccessKind::Read),
            Opnd::Mem(_, _) => self.operand(i.o0, AccessKind::Read),
            _ => Ok(i.target(self.next(i))),
        }
    }

    /// Where a far jump goes: offset and selector.
    pub open spec fn far_target(self, i: Insn) -> Result<(u32, u16), ErrorView> {
        match i.o0 {
            Opnd::FarPtr { sel, off } => Ok((off, sel)),
            Opnd::Mem(m, _) => self.far_pointer(m.seg, self.ea(m), i.size().size()),
            _ => Err(ErrorView::Internal("far jmp no ptr"@)),
        }
    }
}

fn read_near_target(cpu: &X86, d: &Decoded) -> (r: Result<u32, StepOut>)
    requires
        d@.wf(),
    ensures
        or_left(r) == leaving(cpu@.near_target(d@)),
{
    match d.ops[0] {
        Opnd::Reg(_, _) => read_opnd(cpu, &d.ops[0], AccessKind::Read),
        Opnd::Mem(_, _) => read_opnd(cpu, &d.ops[0], AccessKind::Read),
        _ => Ok(d.rel_target(next_eip(cpu, d))),
    }
}

fn read_far_target(cpu: &X86, d: &Decoded) -> (r: Result<(u32, u16), StepOut>)
    requires
        d@.wf(),
    ensures
        or_left(r) == leaving(cpu@.far_target(d@)),
{
    match d.ops[0] {
        Opnd::FarPtr { sel, off } => Ok((off, sel)),
        Opnd::Mem(m, _) => read_far_pointer(cpu, m.seg, eff(cpu, &m), d.size().bytes()),
        _ => Err(StepOut::Error(Error::Internal("far jmp no ptr".to_owned()))),
    }
}

/// CALL. A near call goes to its relative target, or on behind itself where the
/// operand is none. A far call takes the pointer in the instruction: it pushes CS
/// and the return offset, then gives CS the selector as in real mode.
#[verifier::opaque]
pub open spec fn do_call(s: CpuState, i: Insn, far: bool) -> Outcome {
    let size = i.size().size();
    let next = s.next(i);
    if far {
        match i.o0 {
            Opnd::FarPtr { sel, off } => {
                let (t, r) = s.pushed(size, s.segment(Seg::Cs).sel as u32);
                match r {
                    Err(e) => failed(t, e),
                    Ok(_) => {
                        let (u, r2) = t.pushed(size, next);
                        match r2 {
                            Err(e) => failed(u, e),
                            Ok(_) => goes_on(u.with_seg(Seg::Cs, SegVal::real_spec(sel)), off),
                        }
                    },
                }
            },
            _ => failed(s, ErrorView::Internal("far call no ptr"@)),
        }
    } else {
        s.push_and_go(size, next, i.target(next))
    }
}

pub(crate) fn exec_call(cpu: &mut X86, d: &Decoded, far: bool) -> (r: Result<StepOut, StepOut>)
    requires
        d@.wf(),
    ensures
        ended(final(cpu)@, r) == do_call(old(cpu)@, d@, far),
        final(cpu)@.mem.dev == old(cpu)@.mem.dev,
{
    proof {
        reveal(do_call);
    }
    let next = next_eip(cpu, d);
    let size = d.size().bytes();
    if far {
        match d.ops[0] {
            Opnd::FarPtr { sel, off } => {
                let cs = cpu.seg[1].sel as u32;
                push(cpu, size, cs)?;
                push(cpu, size, next)?;
                cpu.seg[1] = SegVal::real_mode(sel);
                go(cpu, off)
            },
            _ => Err(StepOut::Error(Error::Internal("far call no ptr".to_owned()))),
        }
    } else {
        push_and_go(cpu, size, next, d.rel_target(next))
    }
}

/// JMP.
#[verifier::opaque]
pub open spec fn do_jump(s: CpuState, i: Insn, far: bool) -> Outcome {
    if far {
        match s.far_target(i) {
            Err(e) => failed(s, e),
            Ok((off, sel)) => s.load_and_go(Seg::Cs, sel, off),
        }
    } else {
        match s.near_target(i) {
            Err(e) => failed(s, e),
            Ok(target) => goes_on(s, target),
        }
    }
}

pub(crate) fn exec_jump(cpu: &mut X86, d: &Decoded, far: bool) -> (r: Result<StepOut, StepOut>)
    requires
        d@.wf(),
    ensures
        ended(final(cpu)@, r) == do_jump(old(cpu)@, d@, far),
        final(cpu)@.mem.dev == old(cpu)@.mem.dev,
{
    proof {
        reveal(do_jump);
    }
    if far {
        let (off, sel) = read_far_target(cpu, d)?;
        load_and_go(cpu, Seg::Cs, sel, off)
    } else {
        let target = read_near_target(cpu, d)?;
        go(cpu, target)
    }
}

impl CpuState {
    /// ESP moves up by the immediate of a RET.
    pub open spec fn release(self, imm: Option<u16>) -> CpuState {
        match imm {
            Some(n) => self.with_gpr(4, self.gpr[4].wrapping_add(n as u32)),
            None => self,
        }
    }
}

/// RET. A far return gives CS the selector as in real mode.
#[verifier::opaque]
pub open spec fn do_ret(s: CpuState, i: Insn, far: bool, imm: Option<u16>) -> Outcome {
    let size = i.size().size();
    let (t, r) = s.popped(size);
    match r {
        Err(e) => failed(t, e),
        Ok(ip) => if far {
            let (u, r2) = t.popped(size);
            match r2 {
                Err(e) => failed(u, e),
                Ok(cs) => goes_on(
                    u.with_seg(Seg::Cs, SegVal::real_spec(cs as u16)).release(imm),
                    ip,
                ),
            }
        } else {
            goes_on(t.release(imm), ip)
        },
    }
}

pub(crate) fn exec_ret(cpu: &mut X86, d: &Decoded, far: bool, imm: Option<u16>) -> (r: Result<
    StepOut,
    StepOut,
>)
    ensures
        ended(final(cpu)@, r) == do_ret(old(cpu)@, d@, far, imm),
        final(cpu)@.mem.dev == old(cpu)@.mem.dev,
{
    proof {
        reveal(do_ret);
    }
    let size = d.size().bytes();
    let ip = pop(cpu, size)?;
    if far {
        let cs = pop(cpu, size)?;
        cpu.seg[1] = SegVal::real_mode(cs as u16);
    }
    if let Some(n) = imm {
        cpu.gpr[4] = cpu.gpr[4].wrapping_add(n as u32);
    }
    go(cpu, ip)
}

impl CpuState {
    /// A relative jump where `taken`, else on to the next instruction.
    pub open spec fn branch(self, i: Insn, next: u32, taken: bool) -> Outcome {
        goes_on(
            self,
            if taken {
                i.target(next)
            } else {
                next
            },
        )
    }
}

fn branch(cpu: &mut X86, d: &Decoded, next: u32, taken: bool) -> (r: Result<StepOut, StepOut>)
    ensures
        ended(final(cpu)@, r) == old(cpu)@.branch(d@, next, taken),
        final(cpu)@.mem.dev == old(cpu)@.mem.dev,
{
    let eip = if taken {
        d.rel_target(next)
    } else {
        next
    };
    go(cpu, eip)
}

/// Jcc.
#[verifier::opaque]
pub open spec fn do_jcc(s: CpuState, i: Insn, c: Cond) -> Outcome {
    s.branch(i, s.next(i), cond_holds(s.eflags, c))
}

pub(crate) fn exec_jcc(cpu: &mut X86, d: &Decoded, c: Cond) -> (r: Result<StepOut, StepOut>)
    ensures
        ended(final(cpu)@, r) == do_jcc(old(cpu)@, d@, c),
        final(cpu)@.mem.dev == old(cpu)@.mem.dev,
{
    proof {
        reveal(do_jcc);
    }
    let next = next_eip(cpu, d);
    let taken = cond_true(cpu, c);
    branch(cpu, d, next, taken)
}

/// LOOP, LOOPNE (0xE0) and LOOPE: count CX or ECX down and jump unless it is 0.
#[verifier::opaque]
pub open spec fn do_loop(s: CpuState, i: Insn, kind: Option<u8>) -> Outcome {
    let dec = s.gpr[1].wrapping_sub(1);
    let t = s.with_gpr_at(1, i.size(), dec);
    let more = if i.o16 {
        dec % 0x1_0000 != 0
    } else {
        dec != 0
    };
    let wanted = match kind {
        None => true,
        Some(k) => if k == 0xE0 {
            !on(s.eflags, ZF)
        } else {
            on(s.eflags, ZF)
        },
    };
    t.branch(i, s.next(i), more && wanted)
}

pub(crate) fn exec_loop(cpu: &mut X86, d: &Decoded, kind: Option<u8>) -> (r: Result<
    StepOut,
    StepOut,
>)
    ensures
        ended(final(cpu)@, r) == do_loop(old(cpu)@, d@, kind),
        final(cpu)@.mem.dev == old(cpu)@.mem.dev,
{
    proof {
        reveal(do_loop);
    }
    let next = next_eip(cpu, d);
    let dec = cpu.gpr[1].wrapping_sub(1);
    write_gpr(cpu, 1, d.size(), dec);
    let more = if d.o16 {
        dec % 0x1_0000 != 0
    } else {
        dec != 0
    };
    let zf = cpu.eflags & ZF != 0;
    let wanted = match kind {
        None => true,
        Some(k) => if k == 0xE0 {
            !zf
        } else {
            zf
        },
    };
    branch(cpu, d, next, more && wanted)
}

/// JCXZ and JECXZ.
#[verifier::opaque]
pub open spec fn do_jcxz(s: CpuState, i: Insn) -> Outcome {
    s.branch(
        i,
        s.next(i),
        if i.a16 {
            s.gpr[1] % 0x1_0000 == 0
        } else {
            s.gpr[1] == 0
        },
    )
}

pub(crate) fn exec_jcxz(cpu: &mut X86, d: &Decoded) -> (r: Result<StepOut, StepOut>)
    ensures
        ended(final(cpu)@, r) == do_jcxz(old(cpu)@, d@),
        final(cpu)@.mem.dev == old(cpu)@.mem.dev,
{
    proof {
        reveal(do_jcxz);
    }
    let next = next_eip(cpu, d);
    let taken = if d.a16 {
        cpu.gpr[1] % 0x1_0000 == 0
    } else {
        cpu.gpr[1] == 0
    };
    branch(cpu, d, next, taken)
}

// ---------------------------------------------------------------------------
// Interrupts
// ---------------------------------------------------------------------------

/// INT, INT3 and INTO (where OF is set): the return address is that of the next
/// instruction. Where the interrupt cannot be taken, EIP stays at the instruction.
#[verifier::opaque]
pub open spec fn do_int(s: CpuState, i: Insn, vector: u8) -> Outcome {
    let (t, out) = s.with_eip(s.next(i)).interrupted(vector, false, 0);
    Outcome {
        s: if out is Error {
            t.with_eip(s.eip)
        } else {
            t
        },
        out,
        early: false,
    }
}

pub(crate) fn exec_int(cpu: &mut X86, d: &Decoded, vector: u8) -> (r: Result<StepOut, StepOut>)
    ensures
        ended(final(cpu)@, r) == do_int(old(cpu)@, d@, vector),
        final(cpu)@.mem.dev == old(cpu)@.mem.dev,
{
    proof {
        reveal(do_int);
    }
    let at = cpu.eip;
    cpu.eip = next_eip(cpu, d);
    let out = dispatch_interrupt(cpu, vector, false, 0);
    if matches!(out, StepOut::Error(_)) {
        cpu.eip = at;
    }
    Ok(out)
}

/// INTO.
#[verifier::opaque]
pub open spec fn do_into(s: CpuState, i: Insn) -> Outcome {
    if on(s.eflags, OF) {
        do_int(s, i, 4)
    } else {
        goes_on(s, s.next(i))
    }
}

pub(crate) fn exec_into(cpu: &mut X86, d: &Decoded) -> (r: Result<StepOut, StepOut>)
    ensures
        ended(final(cpu)@, r) == do_into(old(cpu)@, d@),
        final(cpu)@.mem.dev == old(cpu)@.mem.dev,
{
    proof {
        reveal(do_into);
    }
    if cpu.eflags & OF != 0 {
        exec_int(cpu, d, 4)
    } else {
        let next = next_eip(cpu, d);
        go(cpu, next)
    }
}

/// BOUND: interrupt 5, with EIP at the instruction, where the register is
/// outside the signed limits in memory.
#[verifier::opaque]
pub open spec fn do_bound(s: CpuState, i: Insn) -> Outcome {
    match (s.operand(i.o0, AccessKind::Read), i.o1) {
        (Err(e), _) => failed(s, e),
        (Ok(v), Opnd::Mem(m, _)) => {
            let sz = i.size();
            let at = s.ea(m);
            match (
                s.load(m.seg, at, sz.size(), AccessKind::Read),
                s.load(m.seg, at.wrapping_add(sz.size()), sz.size(), AccessKind::Read),
            ) {
                (Err(e), _) => failed(s, e),
                (Ok(lo), Err(e)) => failed(s, e),
                (Ok(lo), Ok(hi)) => {
                    let x = signed(low(v, sz) as int, sz);
                    if signed(low(lo, sz) as int, sz) <= x <= signed(low(hi, sz) as int, sz) {
                        goes_on(s, s.next(i))
                    } else {
                        let (t, out) = s.interrupted(5, false, 0);
                        Outcome { s: t, out, early: true }
                    }
                },
            }
        },
        _ => failed(s, ErrorView::Internal("bound mem"@)),
    }
}

pub(crate) fn exec_bound(cpu: &mut X86, d: &Decoded) -> (r: Result<StepOut, StepOut>)
    requires
        d@.wf(),
    ensures
        ended(final(cpu)@, r) == do_bound(old(cpu)@, d@),
        final(cpu)@.mem.dev == old(cpu)@.mem.dev,
{
    proof {
        reveal(do_bound);
    }
    let next = next_eip(cpu, d);
    let v = read_opnd(cpu, &d.ops[0], AccessKind::Read)?;
    let m = match d.ops[1] {
        Opnd::Mem(m, _) => m,
        _ => {
            return Err(StepOut::Error(Error::Internal("bound mem".to_owned())));
        },
    };
    let sz = d.size();
    let at = eff(cpu, &m);
    let size = sz.bytes();
    let lo = crate::sem::operand::or_leave(
        crate::mmu::peek(cpu, m.seg, at, size, AccessKind::Read),
    )?;
    let hi = crate::sem::operand::or_leave(
        crate::mmu::peek(cpu, m.seg, at.wrapping_add(size), size, AccessKind::Read),
    )?;
    let x = signed_part(v, sz);
    if signed_part(lo, sz) <= x && x <= signed_part(hi, sz) {
        go(cpu, next)
    } else {
        let out = dispatch_interrupt(cpu, 5, false, 0);
        Err(out)
    }
}

/// IRET: IP, CS and FLAGS from the stack; TF stays set once it is.
#[verifier::opaque]
pub open spec fn do_iret(s: CpuState, i: Insn) -> Outcome {
    let (t, r) = s.popped_all(i.size().size(), 3);
    match r {
        Err(e) => failed(t, e),
        Ok(v) => goes_on(
            t.with_seg(Seg::Cs, SegVal::real_spec(v[1] as u16)).with_flags(
                (v[2] & 0xFFFF) | (t.eflags & 0x100),
            ),
            v[0],
        ),
    }
}

/// Three pops in a row, spelled out.
pub proof fn lemma_popped_three(s: CpuState, size: u32)
    ensures
        ({
            let (s1, r1) = s.popped(size);
            let (s2, r2) = s1.popped(size);
            let (s3, r3) = s2.popped(size);
            s.popped_all(size, 3) == match (r1, r2, r3) {
                (Err(e), _, _) => (s1, Err(e)),
                (Ok(_), Err(e), _) => (s2, Err(e)),
                (Ok(_), Ok(_), Err(e)) => (s3, Err(e)),
                (Ok(a), Ok(b), Ok(c)) => (s3, Ok(seq![a, b, c])),
            }
        }),
{
    reveal_with_fuel(CpuState::popped_all, 4);
    let (s1, r1) = s.popped(size);
    let (s2, r2) = s1.popped(size);
    let (s3, r3) = s2.popped(size);
    if let (Ok(a), Ok(b), Ok(c)) = (r1, r2, r3) {
        assert(seq![a] + (seq![b] + (seq![c] + Seq::<u32>::empty())) =~= seq![a, b, c]);
    }
}

pub(crate) fn exec_iret(cpu: &mut X86, d: &Decoded) -> (r: Result<StepOut, StepOut>)
    ensures
        ended(final(cpu)@, r) == do_iret(old(cpu)@, d@),
        final(cpu)@.mem.dev == old(cpu)@.mem.dev,
{
    proof {
        reveal(do_iret);
    }
    let size = d.size().bytes();
    proof {
        lemma_popped_three(cpu@, size);
    }
    let ip = pop(cpu, size)?;
    let cs = pop(cpu, size)?;
    let fl = pop(cpu, size)?;
    cpu.seg[1] = SegVal::real_mode(cs as u16);
    cpu.eflags = (fl & 0xFFFF) | (cpu.eflags & 0x100);
    go(cpu, ip)
}

/// HLT: with interrupts enabled the CPU waits behind the instruction while the
/// devices run, else nothing could wake it and execution stops.
#[verifier::opaque]
pub open spec fn do_hlt(s: CpuState, i: Insn) -> Outcome {
    let t = s.with_eip(s.next(i));
    if on(s.eflags, IF) {
        Outcome {
            s: CpuState { halted: true, ..t }.with_mem(s.mem.record(DevEvent::Tick { cycles: 1 })),
            out: OutView::Continue,
            early: false,
        }
    } else {
        Outcome { s: t, out: OutView::Error(ErrorView::Halt), early: false }
    }
}

pub(crate) fn exec_hlt(cpu: &mut X86, d: &Decoded) -> (r: Result<StepOut, StepOut>)
    ensures
        ended(final(cpu)@, r) == do_hlt(old(cpu)@, d@),
        continues(final(cpu)@.mem.dev, old(cpu)@.mem.dev),
{
    proof {
        reveal(do_hlt);
    }
    cpu.eip = next_eip(cpu, d);
    if cpu.eflags & IF != 0 {
        // Run devices to give interrupts a chance.
        cpu.halted = true;
        cpu.mem.tick_device(1);
        Ok(StepOut::Continue)
    } else {
        Ok(StepOut::Error(Error::Halt))
    }
}

} // verus!
