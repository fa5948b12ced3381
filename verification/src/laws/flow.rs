//! Laws of the stack and of the instructions that change where execution goes on.

use vstd::prelude::*;

use crate::bits::{lemma_casts, lemma_word_facts};
use crate::cpu::{AccessKind, CpuState, ErrorView, OutView, Seg, SegVal};
use crate::decode::{Bits, Insn, Op, Opnd};
use crate::flag::{IF, OF, ZF, on};
use crate::laws::computing::{behind, completes, gives_up, writes_and_completes};
use crate::laws::numbers::{half, modulo, span};
use crate::laws::places::registers_have_parts;
use crate::mem::{DevEvent, DevLog};
use crate::sem::arith::{cond_holds, low, signed};
use crate::sem::control::{
    do_bound, do_call, do_enter, do_hlt, do_int, do_into, do_iret, do_jcc, do_jcxz, do_jump,
    do_leave, do_loop, do_pop, do_popa, do_popf, do_push, do_pusha, do_pushf, do_ret,
};
use crate::sem::exec::performed;
use crate::sem::operand::Outcome;

verus! {

/// The operand size of an instruction in bytes.
pub open spec fn operand_bytes(i: Insn) -> u32 {
    if i.o16 {
        2
    } else {
        4
    }
}

/// A stack pointer moved by a word: only its low half changes.
proof fn lemma_word_step(esp: u32)
    ensures
        (esp & 0xFFFF_0000) | (esp as u16).wrapping_sub(2) as u32 == esp - esp % 0x1_0000 + (esp
            - 2) % 0x1_0000,
        (esp & 0xFFFF_0000) | (esp as u16).wrapping_add(2) as u32 == esp - esp % 0x1_0000 + (esp
            + 2) % 0x1_0000,
{
    lemma_casts(0, 0, esp);
    let a = (esp as u16).wrapping_sub(2);
    let b = (esp as u16).wrapping_add(2);
    lemma_word_facts(esp, 0, 0, 0, a, 0);
    lemma_word_facts(esp, 0, 0, 0, b, 0);
}

/// Pushing: the stack pointer goes down by the size, with 2 bytes within its
/// low half, the number is written at SS and the new stack pointer, and where
/// it cannot be written the stack pointer stays. Popping: the number is read at
/// SS and the whole of ESP, and the stack pointer goes up.
pub proof fn stack_moves_by_the_size(s: CpuState, size: u32, v: u32)
    requires
        size == 2 || size == 4,
    ensures
        ({
            let esp = s.gpr[4] as int;
            let down = if size == 2 {
                esp - esp % 0x1_0000 + (esp - 2) % 0x1_0000
            } else {
                (esp - 4) % 0x1_0000_0000
            };
            let up = if size == 2 {
                esp - esp % 0x1_0000 + (esp + 2) % 0x1_0000
            } else {
                (esp + 4) % 0x1_0000_0000
            };
            let (t, r) = s.store(Seg::Ss, down as u32, size, v, AccessKind::Write);
            let (u, q) = s.pushed(size, v);
            &&& r is Ok ==> q is Ok && u == (CpuState {
                gpr: t.gpr.update(4, down as u32),
                ..t
            })
            &&& r is Err ==> q is Err && q->Err_0 == r->Err_0 && u == t
            &&& match s.load(Seg::Ss, s.gpr[4], size, AccessKind::Read) {
                Ok(x) => s.popped(size) == (
                    CpuState { gpr: s.gpr.update(4, up as u32), ..s },
                    Ok::<u32, ErrorView>(x),
                ),
                Err(e) => s.popped(size) == (s, Err::<u32, ErrorView>(e)),
            }
        }),
{
    let esp = s.gpr[4];
    lemma_word_step(esp);
    assert(esp.wrapping_sub(4) == (esp - 4) % 0x1_0000_0000);
    assert(esp.wrapping_add(4) == (esp + 4) % 0x1_0000_0000);
}

/// A push of `v` ends the instruction.
pub open spec fn pushes_and_goes(o: Outcome, s: CpuState, size: u32, v: u32, eip: u32) -> bool {
    let (t, r) = s.pushed(size, v);
    match r {
        Ok(_) => completes(o, t, eip),
        Err(e) => gives_up(o, t, e),
    }
}

/// PUSH pushes its operand, PUSHF the flags, of which 2 bytes with a 16-bit
/// operand size; POP pops into its operand, POPF into the flags, where bit 8
/// stays set once it is.
pub proof fn push_and_pop_instructions(s: CpuState, i: Insn, log: DevLog)
    requires
        i.op is Push || i.op is Pop || i.op is PushF || i.op is PopF,
    ensures
        ({
            let o = performed(s, i, log);
            let a = s.operand(i.o0, AccessKind::Read);
            let size = operand_bytes(i);
            let (t, r) = s.popped(size);
            match i.op {
                Op::Push => if a is Err {
                    gives_up(o, s, a->Err_0)
                } else {
                    pushes_and_goes(o, s, size, a->Ok_0, behind(s, i))
                },
                Op::PushF => pushes_and_goes(
                    o,
                    s,
                    size,
                    if i.o16 {
                        (s.eflags % 0x1_0000) as u32
                    } else {
                        s.eflags
                    },
                    behind(s, i),
                ),
                Op::Pop => match r {
                    Err(e) => gives_up(o, t, e),
                    Ok(v) => writes_and_completes(o, t, i.o0, v, i),
                },
                _ => match r {
                    Err(e) => gives_up(o, t, e),
                    Ok(v) => completes(
                        o,
                        CpuState {
                            eflags: (s.eflags & 0x100) | (if i.o16 {
                                (v % 0x1_0000) as u32
                            } else {
                                v
                            }),
                            ..t
                        },
                        behind(s, i),
                    ),
                },
            }
        }),
{
    reveal(performed);
    reveal(do_push);
    reveal(do_pop);
    reveal(do_pushf);
    reveal(do_popf);
    lemma_low_word_mask(s.eflags);
    if let Ok(v) = s.popped(operand_bytes(i)).1 {
        lemma_low_word_mask(v);
    }
}

/// The low word of a number.
proof fn lemma_low_word_mask(v: u32)
    ensures
        v & 0xFFFF == (v % 0x1_0000) as u32,
{
    lemma_word_facts(v, 0, 0, 0, 0, 0);
}

/// PUSHA pushes the eight registers in the order of their numbers, as they were
/// before the first push; the first that cannot be written ends it.
pub proof fn push_all_instruction(s: CpuState, i: Insn, log: DevLog)
    requires
        s.wf(),
        i.op is PushA,
    ensures
        ({
            let o = performed(s, i, log);
            let n = operand_bytes(i);
            let p0 = s.pushed(n, s.gpr[0]);
            let p1 = p0.0.pushed(n, s.gpr[1]);
            let p2 = p1.0.pushed(n, s.gpr[2]);
            let p3 = p2.0.pushed(n, s.gpr[3]);
            let p4 = p3.0.pushed(n, s.gpr[4]);
            let p5 = p4.0.pushed(n, s.gpr[5]);
            let p6 = p5.0.pushed(n, s.gpr[6]);
            let p7 = p6.0.pushed(n, s.gpr[7]);
            if p0.1 is Err {
                gives_up(o, p0.0, p0.1->Err_0)
            } else if p1.1 is Err {
                gives_up(o, p1.0, p1.1->Err_0)
            } else if p2.1 is Err {
                gives_up(o, p2.0, p2.1->Err_0)
            } else if p3.1 is Err {
                gives_up(o, p3.0, p3.1->Err_0)
            } else if p4.1 is Err {
                gives_up(o, p4.0, p4.1->Err_0)
            } else if p5.1 is Err {
                gives_up(o, p5.0, p5.1->Err_0)
            } else if p6.1 is Err {
                gives_up(o, p6.0, p6.1->Err_0)
            } else if p7.1 is Err {
                gives_up(o, p7.0, p7.1->Err_0)
            } else {
                completes(o, p7.0, behind(s, i))
            }
        }),
{
    reveal(performed);
    reveal(do_pusha);
    let n = operand_bytes(i);
    let g = s.gpr;
    let p0 = s.pushed(n, g[0]);
    let p1 = p0.0.pushed(n, g[1]);
    let p2 = p1.0.pushed(n, g[2]);
    let p3 = p2.0.pushed(n, g[3]);
    let p4 = p3.0.pushed(n, g[4]);
    let p5 = p4.0.pushed(n, g[5]);
    let p6 = p5.0.pushed(n, g[6]);
    let p7 = p6.0.pushed(n, g[7]);
    lemma_pushed_all(s, n, g);
    if p0.1 is Ok {
        lemma_pushed_all(p0.0, n, g.skip(1));
        assert(g.skip(1).skip(1) =~= g.skip(2));
        if p1.1 is Ok {
            lemma_pushed_all(p1.0, n, g.skip(2));
            assert(g.skip(2).skip(1) =~= g.skip(3));
            if p2.1 is Ok {
                lemma_pushed_all(p2.0, n, g.skip(3));
                assert(g.skip(3).skip(1) =~= g.skip(4));
                if p3.1 is Ok {
                    lemma_pushed_all(p3.0, n, g.skip(4));
                    assert(g.skip(4).skip(1) =~= g.skip(5));
                    if p4.1 is Ok {
                        lemma_pushed_all(p4.0, n, g.skip(5));
                        assert(g.skip(5).skip(1) =~= g.skip(6));
                        if p5.1 is Ok {
                            lemma_pushed_all(p5.0, n, g.skip(6));
                            assert(g.skip(6).skip(1) =~= g.skip(7));
                            if p6.1 is Ok {
                                lemma_pushed_all(p6.0, n, g.skip(7));
                                assert(g.skip(7).skip(1) =~= g.skip(8));
                                if p7.1 is Ok {
                                    lemma_pushed_all(p7.0, n, g.skip(8));
                                }
                            }
                        }
                    }
                }
            }
        }
    }
}

/// One step of pushing several numbers.
proof fn lemma_pushed_all(s: CpuState, size: u32, vals: Seq<u32>)
    ensures
        vals.len() == 0 ==> s.pushed_all(size, vals) == (s, Ok::<(), ErrorView>(())),
        vals.len() > 0 ==> ({
            let (t, r) = s.pushed(size, vals[0]);
            s.pushed_all(size, vals) == (match r {
                Err(e) => (t, Err::<(), ErrorView>(e)),
                Ok(_) => t.pushed_all(size, vals.skip(1)),
            })
        }),
{
    reveal_with_fuel(CpuState::pushed_all, 1);
}

/// One step of popping several numbers.
proof fn lemma_popped_all(s: CpuState, size: u32, n: nat)
    ensures
        s.popped_all(size, 0) == (s, Ok::<Seq<u32>, ErrorView>(Seq::empty())),
        n > 0 ==> ({
            let (t, r) = s.popped(size);
            let (u, rest) = t.popped_all(size, (n - 1) as nat);
            s.popped_all(size, n) == (if r is Err {
                (t, Err::<Seq<u32>, ErrorView>(r->Err_0))
            } else if rest is Err {
                (u, Err::<Seq<u32>, ErrorView>(rest->Err_0))
            } else {
                (u, Ok::<Seq<u32>, ErrorView>(seq![r->Ok_0] + rest->Ok_0))
            })
        }),
{
    reveal_with_fuel(CpuState::popped_all, 2);
}

/// POPA pops eight numbers and writes all but the fourth to the registers DI,
/// SI, BP, BX, DX, CX and AX, in this order, at the operand size; the fourth,
/// where SP was pushed, is dropped.
pub proof fn pop_all_instruction(s: CpuState, i: Insn, log: DevLog)
    requires
        i.op is PopA,
    ensures
        ({
            let o = performed(s, i, log);
            let n = operand_bytes(i);
            let sz = if i.o16 {
                Bits::B16
            } else {
                Bits::B32
            };
            let p0 = s.popped(n);
            let p1 = p0.0.popped(n);
            let p2 = p1.0.popped(n);
            let p3 = p2.0.popped(n);
            let p4 = p3.0.popped(n);
            let p5 = p4.0.popped(n);
            let p6 = p5.0.popped(n);
            let p7 = p6.0.popped(n);
            &&& p0.1 is Err ==> gives_up(o, p0.0, p0.1->Err_0)
            &&& p0.1 is Ok && p1.1 is Ok && p2.1 is Ok && p3.1 is Ok && p4.1 is Ok
                && p5.1 is Ok && p6.1 is Ok
                && p7.1 is Ok ==> {
                let t = p7.0.with_gpr_at(7, sz, p0.1->Ok_0).with_gpr_at(
                    6,
                    sz,
                    p1.1->Ok_0,
                ).with_gpr_at(5, sz, p2.1->Ok_0).with_gpr_at(3, sz, p4.1->Ok_0).with_gpr_at(
                    2,
                    sz,
                    p5.1->Ok_0,
                ).with_gpr_at(1, sz, p6.1->Ok_0).with_gpr_at(0, sz, p7.1->Ok_0);
                completes(o, t, behind(s, i))
            }
        }),
{
    reveal(performed);
    reveal(do_popa);
    lemma_eight(s, operand_bytes(i));
}

/// Eight numbers popped one after the other.
#[verifier::spinoff_prover]
proof fn lemma_eight(s: CpuState, n: u32)
    ensures
        ({
            let p0 = s.popped(n);
            let p1 = p0.0.popped(n);
            let p2 = p1.0.popped(n);
            let p3 = p2.0.popped(n);
            let p4 = p3.0.popped(n);
            let p5 = p4.0.popped(n);
            let p6 = p5.0.popped(n);
            let p7 = p6.0.popped(n);
            let (t, r) = s.popped_all(n, 8);
            let v = r->Ok_0;
            &&& p0.1 is Err ==> t == p0.0 && r is Err && r->Err_0 == p0.1->Err_0
            &&& p0.1 is Ok && p1.1 is Ok && p2.1 is Ok && p3.1 is Ok && p4.1 is Ok
                && p5.1 is Ok && p6.1 is Ok
                && p7.1 is Ok ==> r is Ok && t == p7.0 && v[0] == p0.1->Ok_0 && v[1]
                    == p1.1->Ok_0 && v[2]
                == p2.1->Ok_0 && v[4] == p4.1->Ok_0 && v[5] == p5.1->Ok_0 && v[6]
                    == p6.1->Ok_0 && v[7]
                == p7.1->Ok_0
        }),
{
    let p0 = s.popped(n);
    let p1 = p0.0.popped(n);
    let p2 = p1.0.popped(n);
    let p3 = p2.0.popped(n);
    let p4 = p3.0.popped(n);
    let p5 = p4.0.popped(n);
    let p6 = p5.0.popped(n);
    let p7 = p6.0.popped(n);
    lemma_popped_all(p7.0, n, 0);
    lemma_popped_all(p6.0, n, 1);
    lemma_popped_all(p5.0, n, 2);
    lemma_popped_all(p4.0, n, 3);
    lemma_popped_all(p3.0, n, 4);
    lemma_popped_all(p2.0, n, 5);
    lemma_popped_all(p1.0, n, 6);
    lemma_popped_all(p0.0, n, 7);
    lemma_popped_all(s, n, 8);
}

/// LEAVE takes ESP from EBP and pops EBP.
pub proof fn leave_instruction(s: CpuState, i: Insn, log: DevLog)
    requires
        i.op is Leave,
    ensures
        ({
            let o = performed(s, i, log);
            let (t, r) = CpuState { gpr: s.gpr.update(4, s.gpr[5]), ..s }.popped(operand_bytes(i));
            match r {
                Err(e) => gives_up(o, t, e),
                Ok(v) => completes(o, CpuState { gpr: t.gpr.update(5, v), ..t }, behind(s, i)),
            }
        }),
{
    reveal(performed);
    reveal(do_leave);
}

/// ENTER without nesting pushes EBP, takes EBP from the stack pointer behind it
/// and moves ESP down by the size of the frame.
pub proof fn enter_instruction(s: CpuState, i: Insn, log: DevLog)
    requires
        s.wf(),
        i.op is Enter,
        i.op->Enter_1 <= 2,
    ensures
        ({
            let o = performed(s, i, log);
            let (t, r) = s.pushed(operand_bytes(i), s.gpr[5]);
            let frame = i.op->Enter_0;
            let g = t.gpr.update(5, t.gpr[4]);
            let gpr = g.update(4, ((g[4] - frame) % 0x1_0000_0000) as u32);
            match r {
                Err(e) => gives_up(o, t, e),
                Ok(_) => completes(o, CpuState { gpr, ..t }, behind(s, i)),
            }
        }),
{
    reveal(performed);
    reveal(do_enter);
    let (t, r) = s.pushed(operand_bytes(i), s.gpr[5]);
    assert(t.frame_links(operand_bytes(i), 0) == t);
    let frame = i.op->Enter_0;
    let g = t.gpr.update(5, t.gpr[4]);
    assert(g[4].wrapping_sub(frame as u32) == (g[4] - frame) % 0x1_0000_0000);
}

/// Each nesting level of ENTER above the second pushes the dword that lies in
/// memory right above the number pushed last.
pub proof fn enter_links_frames(s: CpuState, size: u32, n: nat)
    requires
        n > 0,
    ensures
        s.frame_links(size, 0) == s,
        s.frame_links(size, n) == s.pushed(
            size,
            s.mem.read32(((s.gpr[4] + size) % 0x1_0000_0000) as u32),
        ).0.frame_links(size, (n - 1) as nat),
{
    assert(s.gpr[4].wrapping_add(size) == (s.gpr[4] + size) % 0x1_0000_0000);
}

/// Where a relative operand leads: so many bytes behind the instruction, or
/// before it, modulo 2^32.
pub open spec fn relative_target(s: CpuState, i: Insn) -> u32 {
    match i.o0 {
        Opnd::Rel { disp } => ((s.eip + i.len + disp) % 0x1_0000_0000) as u32,
        _ => ((s.eip + i.len) % 0x1_0000_0000) as u32,
    }
}

/// The target in the terms of the decoder.
proof fn lemma_target(s: CpuState, i: Insn)
    ensures
        i.target(s.next(i)) == relative_target(s, i),
        behind(s, i) == s.next(i),
{
    let next = s.next(i) as int;
    assert(next == (s.eip + i.len) % 0x1_0000_0000);
    match i.o0 {
        Opnd::Rel { disp } => {
            assert((next + disp) % 0x1_0000_0000 == (s.eip + i.len + disp) % 0x1_0000_0000);
        },
        _ => {},
    }
}

/// Jcc goes to its target where the condition holds, else on; the rest of the
/// state stays.
pub proof fn conditional_jump(s: CpuState, i: Insn, log: DevLog)
    requires
        i.op is Jcc,
    ensures
        match i.op {
            Op::Jcc(c) => {
                &&& cond_holds(s.eflags, c) ==> completes(
                    performed(s, i, log),
                    s,
                    relative_target(s, i),
                )
                &&& !cond_holds(s.eflags, c) ==> completes(performed(s, i, log), s, behind(s, i))
            },
            _ => true,
        },
{
    reveal(performed);
    reveal(do_jcc);
    lemma_target(s, i);
}

/// JCXZ and JECXZ go to their target where the count register is 0.
pub proof fn jump_on_zero_count(s: CpuState, i: Insn, log: DevLog)
    requires
        i.op is Jcxz,
    ensures
        ({
            let zero = if i.a16 {
                s.gpr[1] % 0x1_0000 == 0
            } else {
                s.gpr[1] == 0
            };
            &&& zero ==> completes(performed(s, i, log), s, relative_target(s, i))
            &&& !zero ==> completes(performed(s, i, log), s, behind(s, i))
        }),
{
    reveal(performed);
    reveal(do_jcxz);
    lemma_target(s, i);
}

/// LOOP counts CX or ECX down and goes to its target while it is not 0; LOOPE
/// and LOOPNE only while ZF is set or clear as well. No flag changes.
pub proof fn counted_jump(s: CpuState, i: Insn, log: DevLog)
    requires
        s.wf(),
        i.op is Loop,
    ensures
        ({
            let o = performed(s, i, log);
            let c = s.gpr[1] as int;
            let left = if i.o16 {
                (c - 1) % 0x1_0000
            } else {
                (c - 1) % 0x1_0000_0000
            };
            let reg = if i.o16 {
                c - c % 0x1_0000 + left
            } else {
                left
            };
            let wanted = match i.op {
                Op::Loop(Some(0xE0u8)) => s.eflags & 0x40 == 0,
                Op::Loop(Some(_)) => s.eflags & 0x40 != 0,
                _ => true,
            };
            let t = CpuState { gpr: s.gpr.update(1, reg as u32), ..s };
            &&& left != 0 && wanted ==> completes(o, t, relative_target(s, i))
            &&& !(left != 0 && wanted) ==> completes(o, t, behind(s, i))
        }),
{
    reveal(performed);
    reveal(do_loop);
    lemma_target(s, i);
    let dec = s.gpr[1].wrapping_sub(1);
    lemma_casts(0, 0, dec);
    registers_have_parts(s, 1, 0, dec as u16, dec);
    lemma_counted(s.gpr[1] as int);
}

/// Counting down within the low word.
proof fn lemma_counted(c: int)
    requires
        0 <= c < 0x1_0000_0000,
    ensures
        (c - 1) % 0x1_0000_0000 == (if c == 0 {
            0xFFFF_FFFF
        } else {
            c - 1
        }),
        (c - 1) % 0x1_0000_0000 % 0x1_0000 == (c - 1) % 0x1_0000,
{
}

/// JMP goes to the number in its register or memory operand, or to its relative
/// target; a far JMP loads CS with the selector and goes to the offset of its
/// far pointer.
pub proof fn jump_instructions(s: CpuState, i: Insn, log: DevLog)
    requires
        i.op is Jump,
    ensures
        ({
            let o = performed(s, i, log);
            let a = s.operand(i.o0, AccessKind::Read);
            if i.op == (Op::Jump { far: false }) {
                if i.o0 is Reg || i.o0 is Mem {
                    match a {
                        Ok(v) => completes(o, s, v),
                        Err(e) => gives_up(o, s, e),
                    }
                } else {
                    completes(o, s, relative_target(s, i))
                }
            } else {
                match i.o0 {
                    Opnd::FarPtr { sel, off } => loads_and_goes(o, s, Seg::Cs, sel, off),
                    Opnd::Mem(m, _) => match s.far_pointer(m.seg, s.ea(m), operand_bytes(i)) {
                        Ok((off, sel)) => loads_and_goes(o, s, Seg::Cs, sel, off),
                        Err(e) => gives_up(o, s, e),
                    },
                    _ => gives_up(o, s, ErrorView::Internal("far jmp no ptr"@)),
                }
            }
        }),
{
    reveal(performed);
    reveal(do_jump);
    lemma_target(s, i);
}

/// A segment register takes a selector, and execution goes on at `eip`.
pub open spec fn loads_and_goes(o: Outcome, s: CpuState, seg: Seg, sel: u16, eip: u32) -> bool {
    match s.segment_value(seg, sel) {
        Ok(v) => completes(o, CpuState { seg: s.seg.update(seg.number() as int, v), ..s }, eip),
        Err(e) => gives_up(o, s, e),
    }
}

/// What real mode keeps of a selector: a segment of 64 KB at sixteen times the
/// selector.
pub open spec fn real_segment(sel: u16, v: SegVal) -> bool {
    &&& v.sel == sel
    &&& v.desc.base == 16 * sel
    &&& v.desc.limit == 0xFFFF
    &&& !v.desc.g && !v.desc.db && v.desc.p && !v.desc.avl
    &&& v.desc.typ == 0x93 && v.desc.dpl == 0
}

/// CALL pushes the offset behind it and goes to its relative target. A far CALL
/// pushes CS and then that offset, and goes to the offset of its pointer in the
/// segment at sixteen times its selector.
pub proof fn call_instructions(s: CpuState, i: Insn, log: DevLog)
    requires
        i.op is Call,
    ensures
        ({
            let o = performed(s, i, log);
            let n = operand_bytes(i);
            if i.op == (Op::Call { far: false }) {
                pushes_and_goes(o, s, n, behind(s, i), relative_target(s, i))
            } else {
                match i.o0 {
                    Opnd::FarPtr { sel, off } => {
                        let (t, r) = s.pushed(n, s.seg[1].sel as u32);
                        let (u, q) = t.pushed(n, behind(s, i));
                        if r is Err {
                            gives_up(o, t, r->Err_0)
                        } else if q is Err {
                            gives_up(o, u, q->Err_0)
                        } else {
                            let v = SegVal::real_spec(sel);
                            &&& real_segment(sel, v)
                            &&& completes(o, CpuState { seg: u.seg.update(1, v), ..u }, off)
                        }
                    },
                    _ => gives_up(o, s, ErrorView::Internal("far call no ptr"@)),
                }
            }
        }),
{
    reveal(performed);
    reveal(do_call);
    lemma_target(s, i);
}

/// RET pops the offset to go to; a far RET pops the selector of the segment
/// behind it. An immediate moves ESP up afterwards.
pub proof fn return_instructions(s: CpuState, i: Insn, log: DevLog)
    requires
        i.op is Ret,
    ensures
        ({
            let o = performed(s, i, log);
            let n = operand_bytes(i);
            let (t, r) = s.popped(n);
            let (u, q) = t.popped(n);
            match i.op {
                Op::Ret { far, imm } => if r is Err {
                    gives_up(o, t, r->Err_0)
                } else if far && q is Err {
                    gives_up(o, u, q->Err_0)
                } else {
                    let w = if far {
                        CpuState { seg: u.seg.update(1, SegVal::real_spec(q->Ok_0 as u16)), ..u }
                    } else {
                        t
                    };
                    let by: int = match imm {
                        Some(k) => k as int,
                        None => 0,
                    };
                    let gpr = w.gpr.update(4, ((w.gpr[4] + by) % 0x1_0000_0000) as u32);
                    completes(
                        o,
                        if imm is Some {
                            CpuState { gpr, ..w }
                        } else {
                            w
                        },
                        r->Ok_0,
                    )
                },
                _ => true,
            }
        }),
{
    reveal(performed);
    reveal(do_ret);
    if let Op::Ret { far, imm } = i.op {
        if let Some(k) = imm {
            assert forall|w: CpuState| #[trigger]
                w.gpr[4].wrapping_add(k as u32) == (w.gpr[4] + k) % 0x1_0000_0000 by {}
        }
    }
}

/// INT raises its vector, INT3 vector 3, INTO vector 4 where OF is set; the
/// offset behind the instruction is where the handler returns to. Where the
/// interrupt cannot be raised execution stays at the instruction.
pub proof fn interrupt_instructions(s: CpuState, i: Insn, log: DevLog)
    requires
        i.op is Int || i.op is Int3 || i.op is Into,
    ensures
        ({
            let o = performed(s, i, log);
            let vector = match i.op {
                Op::Int(v) => v,
                Op::Int3 => 3,
                _ => 4,
            };
            let (t, out) = CpuState { eip: behind(s, i), ..s }.interrupted(vector, false, 0);
            if i.op is Into && s.eflags & 0x800 == 0 {
                completes(o, s, behind(s, i))
            } else {
                &&& o.out == out
                &&& !o.early
                &&& out is Error ==> o.s == (CpuState { eip: s.eip, ..t })
                &&& !(out is Error) ==> o.s == t
            }
        }),
{
    reveal(performed);
    reveal(do_int);
    reveal(do_into);
}

/// BOUND goes on where the register lies between the two bounds in memory, the
/// lower one first and all three read as signed; else it raises interrupt 5 at
/// the instruction itself.
pub proof fn bound_instruction(s: CpuState, i: Insn, log: DevLog)
    requires
        i.op is Bound,
    ensures
        ({
            let o = performed(s, i, log);
            let a = s.operand(i.o0, AccessKind::Read);
            let n = operand_bytes(i);
            let sz = if i.o16 {
                Bits::B16
            } else {
                Bits::B32
            };
            match i.o1 {
                Opnd::Mem(m, _) => {
                    let at = s.ea(m);
                    let lo = s.load(m.seg, at, n, AccessKind::Read);
                    let hi = s.load(m.seg, at.wrapping_add(n), n, AccessKind::Read);
                    let x = value(a->Ok_0, sz);
                    if a is Err {
                        gives_up(o, s, a->Err_0)
                    } else if lo is Err {
                        gives_up(o, s, lo->Err_0)
                    } else if hi is Err {
                        gives_up(o, s, hi->Err_0)
                    } else if value(lo->Ok_0, sz) <= x && x <= value(hi->Ok_0, sz) {
                        completes(o, s, behind(s, i))
                    } else {
                        o.early && (o.s, o.out) == s.interrupted(5, false, 0)
                    }
                },
                _ => true,
            }
        }),
{
    reveal(performed);
    reveal(do_bound);
    let a = s.operand(i.o0, AccessKind::Read)->Ok_0;
    let n = operand_bytes(i);
    let sz = if i.o16 {
        Bits::B16
    } else {
        Bits::B32
    };
    lemma_value(a, sz);
    if let Opnd::Mem(m, _) = i.o1 {
        let at = s.ea(m);
        lemma_value(s.load(m.seg, at, n, AccessKind::Read)->Ok_0, sz);
        lemma_value(s.load(m.seg, at.wrapping_add(n), n, AccessKind::Read)->Ok_0, sz);
    }
}

/// The signed reading of the low bits.
proof fn lemma_value(v: u32, sz: Bits)
    ensures
        value(v, sz) == signed(low(v, sz) as int, sz),
{
    reveal(value);
}

/// The low bits of a number as a signed number.
#[verifier::opaque]
pub open spec fn value(v: u32, sz: Bits) -> int {
    let x = modulo(v as int, sz);
    if x < half(sz) {
        x
    } else {
        x - span(sz)
    }
}

/// HLT goes on behind itself. With IF set the core is halted while the device
/// runs a cycle; with IF clear it stops for good.
pub proof fn halt_instruction(s: CpuState, i: Insn, log: DevLog)
    requires
        i.op is Hlt,
    ensures
        ({
            let o = performed(s, i, log);
            &&& !o.early
            &&& s.eflags & 0x200 != 0 ==> o.out == OutView::Continue && o.s == (CpuState {
                eip: behind(s, i),
                halted: true,
                mem: s.mem.record(DevEvent::Tick { cycles: 1 }),
                ..s
            })
            &&& s.eflags & 0x200 == 0 ==> o.out == OutView::Error(ErrorView::Halt) && o.s
                == (CpuState {
                eip: behind(s, i),
                ..s
            })
        }),
{
    reveal(performed);
    reveal(do_hlt);
}

/// An interrupt in real mode pushes FLAGS, CS and IP, clears bits 8 to 10 of
/// the flags, and goes on at the offset and the segment in the table of
/// four-byte entries at address 0.
pub proof fn real_mode_interrupts(s: CpuState, vector: u8, code: u32)
    requires
        s.cr[0] & 1 == 0,
    ensures
        ({
            let (u, out) = s.interrupted(vector, false, code);
            let (p1, r1) = s.pushed(2, (s.eflags % 0x1_0000) as u32);
            let (p2, r2) = p1.pushed(2, s.seg[1].sel as u32);
            let (p3, r3) = p2.pushed(2, (s.eip % 0x1_0000) as u32);
            let off = s.mem.read16((4 * vector) as u32);
            let sel = s.mem.read16((4 * vector + 2) as u32);
            if r1 is Err {
                u == p1 && out == OutView::Error(r1->Err_0)
            } else if r2 is Err {
                u == p2 && out == OutView::Error(r2->Err_0)
            } else if r3 is Err {
                u == p3 && out == OutView::Error(r3->Err_0)
            } else {
                &&& out is Interrupt
                &&& u == (CpuState {
                    eip: off as u32,
                    eflags: p3.eflags & 0xFFFF_F8FF,
                    seg: p3.seg.update(1, SegVal::real_spec(sel)),
                    ..p3
                })
                &&& real_segment(sel, SegVal::real_spec(sel))
            }
        }),
{
    lemma_low_word_mask(s.eflags);
    lemma_word_facts(0, 0, 0, 0, 0, 0);
}

/// IRET pops the offset, the segment and the flags, in this order, and goes on
/// there; of the flags the low word is taken, and bit 8 stays set once it is.
pub proof fn interrupt_return(s: CpuState, i: Insn, log: DevLog)
    requires
        i.op is Iret,
    ensures
        ({
            let o = performed(s, i, log);
            let n = operand_bytes(i);
            let (t1, r1) = s.popped(n);
            let (t2, r2) = t1.popped(n);
            let (t3, r3) = t2.popped(n);
            if r1 is Err {
                gives_up(o, t1, r1->Err_0)
            } else if r2 is Err {
                gives_up(o, t2, r2->Err_0)
            } else if r3 is Err {
                gives_up(o, t3, r3->Err_0)
            } else {
                completes(
                    o,
                    CpuState {
                        seg: t3.seg.update(1, SegVal::real_spec(r2->Ok_0 as u16)),
                        eflags: (r3->Ok_0 % 0x1_0000) as u32 | (t3.eflags & 0x100),
                        ..t3
                    },
                    r1->Ok_0,
                )
            }
        }),
{
    reveal(performed);
    reveal(do_iret);
    let n = operand_bytes(i);
    reveal_with_fuel(CpuState::popped_all, 4);
    let (t1, r1) = s.popped(n);
    let (t2, r2) = t1.popped(n);
    let (t3, r3) = t2.popped(n);
    if r1 is Ok && r2 is Ok && r3 is Ok {
        lemma_low_word_mask(r3->Ok_0);
        let v = seq![r1->Ok_0] + (seq![r2->Ok_0] + (seq![r3->Ok_0] + Seq::<u32>::empty()));
        assert(s.popped_all(n, 3).1 == Ok::<Seq<u32>, ErrorView>(v));
        assert(v[0] == r1->Ok_0 && v[1] == r2->Ok_0 && v[2] == r3->Ok_0);
    }
}

/// An interrupt in protected mode goes through the eight-byte entry of its
/// vector in the table that IDTR names. A vector beyond the table, and a level
/// that the entry forbids, are errors. Else EFLAGS, CS, EIP and the error code
/// are pushed as dwords, IF is cleared, and execution goes on at the offset
/// whose low word is the first and whose high word is the third word of the
/// entry, in the segment that the second one selects.
pub proof fn protected_mode_interrupts(s: CpuState, vector: u8, has_error: bool, code: u32)
    requires
        s.cr[0] & 1 != 0,
    ensures
        ({
            let (u, out) = s.interrupted(vector, has_error, code);
            let base = s.idtr.base.wrapping_add((8 * vector) as u32);
            let lo = s.gate_word(base);
            let sel = s.gate_word(base.wrapping_add(2));
            let hi = s.gate_word(base.wrapping_add(4));
            let dpl = hi as int / 0x2000 % 4;
            let (p1, r1) = s.pushed(4, s.eflags);
            let (p2, r2) = p1.pushed(4, s.seg[1].sel as u32);
            let (p3, r3) = p2.pushed(4, s.eip);
            let (p4, r4) = p3.pushed(4, code);
            if 8 * vector > s.idtr.limit + 1 {
                u == s && out is Error
            } else if s.seg[1].desc.dpl > dpl {
                u == s && out == OutView::Error(ErrorView::Internal("gate DPL < CPL"@))
            } else if r1 is Err {
                u == p1 && out == OutView::Error(r1->Err_0)
            } else if r2 is Err {
                u == p2 && out == OutView::Error(r2->Err_0)
            } else if r3 is Err {
                u == p3 && out == OutView::Error(r3->Err_0)
            } else if r4 is Err {
                u == p4 && out == OutView::Error(r4->Err_0)
            } else {
                &&& out is Interrupt
                &&& u == (CpuState {
                    eip: (lo + 0x1_0000 * hi) as u32,
                    eflags: p4.eflags & 0xFFFF_FDFF,
                    seg: p4.seg.update(1, SegVal::real_spec(sel)),
                    ..p4
                })
            }
        }),
{
    let base = s.idtr.base.wrapping_add((8 * vector) as u32);
    let lo = s.gate_word(base);
    let hi = s.gate_word(base.wrapping_add(4));
    lemma_word_facts(0, 0, 0, 0, lo, hi);
    lemma_word_facts(0, 0, 0, 0, hi, 0);
}

} // verus!
