//! Laws of the stack and of interrupts, in real mode.

use vstd::prelude::*;

use crate::bits::lemma_turns;
use crate::cpu::{AccessKind, CpuState, ErrorView, Seg, SegVal};
use crate::decode::Insn;
use crate::flag::IF;
use crate::jit::laws::{lemma_dword_access, replaced};
use crate::laws::memory::{
    dword_mapped, lemma_places_differ, lemma_real_word, real_place, word_mapped,
};
use crate::mem::{MemState, lemma_word_parts, word};
use crate::sem::control::{do_int, do_iret, do_popf, do_pushf, lemma_popped_three};

verus! {

/// A real-mode state.
pub open spec fn in_real_mode(s: CpuState) -> bool {
    s.wf() && !s.protected()
}

/// The word that a push writes is mapped.
pub open spec fn room_for_word(s: CpuState) -> bool {
    word_mapped(s, s.mem, Seg::Ss, below(s.gpr[4]))
}

/// The doubleword that a push writes is mapped.
pub open spec fn room_for_dword(s: CpuState) -> bool {
    dword_mapped(s, s.mem, Seg::Ss, s.gpr[4].wrapping_sub(4))
}

/// The three words that an interrupt pushes are mapped.
pub open spec fn room_for_frame(s: CpuState) -> bool {
    let b1 = below(s.gpr[4]);
    let b2 = below(b1);
    &&& word_mapped(s, s.mem, Seg::Ss, b1)
    &&& word_mapped(s, s.mem, Seg::Ss, b2)
    &&& word_mapped(s, s.mem, Seg::Ss, below(b2))
}

/// The offset of the stack word below `sp`, which wraps within its low half.
pub open spec fn below(sp: u32) -> u32 {
    (sp & 0xFFFF_0000) | (sp as u16).wrapping_sub(2) as u32
}

/// The stack pointer moves by two within its low half.
proof fn lemma_below(sp: u32)
    ensures
        below(sp) == (if sp % 0x1_0000 >= 2 {
            sp - 2
        } else {
            sp + 0xFFFE
        }),
        (below(sp) & 0xFFFF_0000) | (below(sp) as u16).wrapping_add(2) as u32 == sp,
{
    let w = sp as u16;
    let x = w.wrapping_sub(2);
    let hi = sp & 0xFFFF_0000;
    assert(w == sp % 0x1_0000 && hi == sp - w && hi % 0x1_0000 == 0
        && hi <= 0xFFFF_0000) by (bit_vector)
        requires
            hi == sp & 0xFFFF_0000,
            w == sp as u16,
    ;
    lemma_join(hi, x);
    lemma_join(hi, w);
    let y = hi | x as u32;
    lemma_join(hi, (y as u16).wrapping_add(2));
}

/// A low half below a high half.
proof fn lemma_join(hi: u32, x: u16)
    requires
        hi % 0x1_0000 == 0,
    ensures
        hi | x as u32 == hi + x,
        (hi | x as u32) & 0xFFFF_0000 == hi,
        (hi | x as u32) as u16 == x,
{
    assert(hi | x as u32 == hi + x && (hi | x as u32) & 0xFFFF_0000 == hi && (hi | x as u32) as u16
        == x) by (bit_vector)
        requires
            hi % 0x1_0000 == 0,
    ;
}

/// Memory after a word was pushed below `sp`.
pub open spec fn word_below(s: CpuState, m: MemState, sp: u32, v: u16) -> MemState {
    m.write8(real_place(s, Seg::Ss, below(sp)), v as u8).write8(
        real_place(s, Seg::Ss, below(sp).wrapping_add(1)),
        (v >> 8) as u8,
    )
}

/// What a push of a word does.
pub proof fn push_writes_below(s: CpuState, v: u32)
    requires
        in_real_mode(s),
    ensures
        s.pushed(2, v) == (
            s.with_mem(word_below(s, s.mem, s.gpr[4], v as u16)).with_gpr(4, below(s.gpr[4])),
            Ok::<(), ErrorView>(()),
        ),
        in_real_mode(s.pushed(2, v).0),
{
    reveal(CpuState::store);
    lemma_real_word(s, Seg::Ss, below(s.gpr[4]), v as u16, AccessKind::Write);
}

/// What a pop of a word does.
proof fn lemma_pop(s: CpuState)
    requires
        in_real_mode(s),
    ensures
        s.popped(2) == (
            s.with_gpr(4, (s.gpr[4] & 0xFFFF_0000) | (s.gpr[4] as u16).wrapping_add(2) as u32),
            Ok::<u32, ErrorView>(
                word(
                    s.mem.read8(real_place(s, Seg::Ss, s.gpr[4])),
                    s.mem.read8(real_place(s, Seg::Ss, s.gpr[4].wrapping_add(1))),
                ) as u32,
            ),
        ),
{
    reveal(CpuState::load);
    lemma_real_word(s, Seg::Ss, s.gpr[4], 0, AccessKind::Read);
}

/// A word that was pushed is popped again, and ESP is where it was: memory below
/// the stack is all that has changed.
pub proof fn pop_undoes_push(s: CpuState, v: u32)
    requires
        in_real_mode(s),
        room_for_word(s),
    ensures
        ({
            let t = s.pushed(2, v).0;
            &&& s.pushed(2, v).1 is Ok
            &&& t.popped(2) == (s.with_mem(t.mem), Ok::<u32, ErrorView>((v as u16) as u32))
        }),
{
    push_writes_below(s, v);
    let t = s.pushed(2, v).0;
    lemma_pop(t);
    lemma_below(s.gpr[4]);
    lemma_word_at(s, s.mem, s.gpr[4], v as u16);
    assert(t.gpr.update(4, s.gpr[4]) =~= s.gpr);
}

/// The word that was pushed below `sp` is there.
proof fn lemma_word_at(s: CpuState, m: MemState, sp: u32, v: u16)
    requires
        word_mapped(s, m, Seg::Ss, below(sp)),
    ensures
        ({
            let n = word_below(s, m, sp, v);
            &&& n.bytes.dom() =~= m.bytes.dom()
            &&& word(
                n.read8(real_place(s, Seg::Ss, below(sp))),
                n.read8(real_place(s, Seg::Ss, below(sp).wrapping_add(1))),
            ) == v
        }),
{
    lemma_below(sp);
    lemma_word_parts(v, 0);
    lemma_places_differ(s, Seg::Ss, below(sp), below(sp).wrapping_add(1));
}

/// PUSHF and POPF in a row give the flags back.
pub proof fn popf_undoes_pushf(s: CpuState, push: Insn, pop: Insn)
    requires
        in_real_mode(s),
        room_for_word(s),
        push.o16,
        pop.o16,
    ensures
        ({
            let t = do_pushf(s, push);
            let u = do_popf(t.s, pop);
            &&& t.out is Continue
            &&& u.out is Continue
            &&& u.s.eflags == s.eflags & 0xFFFF
            &&& u.s.gpr == s.gpr
        }),
{
    reveal(do_pushf);
    reveal(do_popf);
    let f = s.eflags & 0xFFFF;
    pop_undoes_push(s, f);
    let t = s.pushed(2, f).0;
    let e = do_pushf(s, push).s;
    assert(e == t.with_eip(e.eip));
    push_writes_below(s, f);
    lemma_pop(t);
    lemma_pop(e);
    let g = s.eflags;
    assert((((g & 0xFFFF) as u16) as u32) & 0xFFFF == g & 0xFFFF && (g & 0x100) | (g & 0xFFFF) == g
        & 0xFFFF) by (bit_vector);
}

/// The word at `off`.
pub open spec fn word_at(s: CpuState, m: MemState, off: u32) -> u16 {
    word(
        m.read8(real_place(s, Seg::Ss, off)),
        m.read8(real_place(s, Seg::Ss, off.wrapping_add(1))),
    )
}

/// Whether two words on the stack have no byte in common.
pub open spec fn apart(a: u32, b: u32) -> bool {
    &&& (a - b) % 0x10_0000 != 0
    &&& (a.wrapping_add(1) - b) % 0x10_0000 != 0
    &&& (a - b.wrapping_add(1)) % 0x10_0000 != 0
}

/// Writing a word leaves the words that have no byte in common with it.
proof fn lemma_word_kept(s: CpuState, m: MemState, sp: u32, v: u16, off: u32)
    requires
        apart(off, below(sp)),
    ensures
        word_at(s, word_below(s, m, sp, v), off) == word_at(s, m, off),
{
    let b = below(sp);
    assert((off.wrapping_add(1) - b.wrapping_add(1)) % 0x10_0000 != 0) by {
        let c: int = if off == u32::MAX {
            -4096
        } else {
            0
        };
        let d: int = if b == u32::MAX {
            4096
        } else {
            0
        };
        assert(off.wrapping_add(1) - b.wrapping_add(1) == (off - b) + (c + d) * 0x10_0000);
        lemma_turns(off - b, c + d, 0x10_0000);
    }
    lemma_places_differ(s, Seg::Ss, off, b);
    lemma_places_differ(s, Seg::Ss, off.wrapping_add(1), b);
    lemma_places_differ(s, Seg::Ss, off, b.wrapping_add(1));
    lemma_places_differ(s, Seg::Ss, off.wrapping_add(1), b.wrapping_add(1));
}

/// Words that are pushed one after the other have no byte in common.
proof fn lemma_below_apart(sp: u32)
    ensures
        apart(below(sp), below(below(sp))),
        apart(below(sp), below(below(below(sp)))),
{
    lemma_below(sp);
    lemma_below(below(sp));
    lemma_below(below(below(sp)));
}

/// Three words pushed in a row, as they lie on the stack.
proof fn lemma_push3(s: CpuState, a: u32, b: u32, c: u32)
    requires
        in_real_mode(s),
        room_for_frame(s),
    ensures
        ({
            let (t, r) = s.pushed3(2, a, b, c);
            let b1 = below(s.gpr[4]);
            let b2 = below(b1);
            let b3 = below(b2);
            &&& r is Ok
            &&& t == s.with_mem(t.mem).with_gpr(4, b3)
            &&& in_real_mode(t)
            &&& word_at(s, t.mem, b3) == c as u16
            &&& word_at(s, t.mem, b2) == b as u16
            &&& word_at(s, t.mem, b1) == a as u16
        }),
{
    let b1 = below(s.gpr[4]);
    let b2 = below(b1);
    let b3 = below(b2);
    push_writes_below(s, a);
    let s1 = s.pushed(2, a).0;
    push_writes_below(s1, b);
    let s2 = s1.pushed(2, b).0;
    push_writes_below(s2, c);
    let s3 = s2.pushed(2, c).0;
    lemma_word_at(s, s.mem, s.gpr[4], a as u16);
    lemma_word_at(s1, s1.mem, b1, b as u16);
    lemma_word_at(s2, s2.mem, b2, c as u16);
    lemma_below_apart(s.gpr[4]);
    lemma_below_apart(b1);
    lemma_word_kept(s1, s1.mem, b1, b as u16, b1);
    lemma_word_kept(s2, s2.mem, b2, c as u16, b1);
    lemma_word_kept(s2, s2.mem, b2, c as u16, b2);
    assert(s.gpr.update(4, b1).update(4, b2).update(4, b3) =~= s.gpr.update(4, b3));
}

/// Three words popped in a row.
proof fn lemma_pop3(s: CpuState, sp: u32)
    requires
        in_real_mode(s),
        s.gpr[4] == below(below(below(sp))),
    ensures
        s.popped_all(2, 3) == (
            s.with_gpr(4, sp),
            Ok::<Seq<u32>, ErrorView>(
                seq![
                    word_at(s, s.mem, below(below(below(sp)))) as u32,
                    word_at(s, s.mem, below(below(sp))) as u32,
                    word_at(s, s.mem, below(sp)) as u32,
                ],
            ),
        ),
{
    let b1 = below(sp);
    let b2 = below(b1);
    lemma_below(sp);
    lemma_below(b1);
    lemma_below(b2);
    lemma_pop(s);
    let s1 = s.with_gpr(4, b2);
    lemma_pop(s1);
    let s2 = s.with_gpr(4, b1);
    assert(s1.gpr.update(4, b1) =~= s2.gpr);
    lemma_pop(s2);
    assert(s2.gpr.update(4, sp) =~= s.gpr.update(4, sp));
    lemma_popped_three(s, 2);
}

/// IRET undoes a real-mode interrupt: execution goes on at the address and with
/// the flags (their low 16 bits) that were current when the interrupt came, and
/// the general registers, ESP among them, are what they were.
pub proof fn iret_undoes_interrupt(s: CpuState, vector: u8, i: Insn)
    requires
        in_real_mode(s),
        room_for_frame(s),
        i.o16,
    ensures
        ({
            let (t, out) = s.interrupted(vector, false, 0);
            let u = do_iret(t, i);
            &&& out is Interrupt
            &&& t.eip == s.mem.read16((vector * 4) as u32)
            &&& t.eflags & 0x200 == 0
            &&& u.out is Continue
            &&& u.s == CpuState {
                eip: (s.eip % 0x1_0000) as u32,
                eflags: s.eflags & 0xFFFF,
                mem: t.mem,
                ..s
            }.with_seg(Seg::Cs, SegVal::real_spec(s.segment(Seg::Cs).sel))
        }),
{
    reveal(do_iret);
    let f = s.eflags & 0xFFFF;
    let cs = s.segment(Seg::Cs).sel;
    let ip = (s.eip % 0x1_0000) as u32;
    lemma_push3(s, f, cs as u32, ip);
    let p = s.pushed3(2, f, cs as u32, ip).0;
    let t = s.interrupted(vector, false, 0).0;
    lemma_pop3(t, s.gpr[4]);
    let e = s.eflags;
    let eip = s.eip;
    assert(((e & 0xFFFF) as u16) as u32 & 0xFFFF | (e & !0x700u32) & 0x100 == e & 0xFFFF && (e
        & !0x700u32) & 0x200 == 0 && (cs as u32) as u16 == cs && ((cs as u32) as u16) as u32 as u16
        == cs && ((eip % 0x1_0000) as u16) as u32 == eip % 0x1_0000) by (bit_vector);
    assert(p.gpr.update(4, s.gpr[4]) =~= s.gpr);
    let new = SegVal::real_spec(s.mem.read16((vector * 4 + 2) as u32));
    assert(s.seg.update(1, new).update(1, SegVal::real_spec(cs)) =~= s.seg.update(
        1,
        SegVal::real_spec(cs),
    ));
}

/// Whatever the mode, an interrupt that is taken leaves IF clear.
pub proof fn interrupt_masks_the_next(s: CpuState, vector: u8, has_error: bool, code: u32)
    ensures
        ({
            let (t, out) = s.interrupted(vector, has_error, code);
            out is Interrupt ==> t.eflags & IF == 0
        }),
{
    assert((forall|e: u32| #[trigger] (e & !0x200u32) & 0x200 == 0) && (forall|e: u32| #[trigger]
        (e & !0x700u32) & 0x200 == 0)) by (bit_vector);
}

/// An INT instruction whose interrupt cannot be taken leaves EIP at itself.
pub proof fn failed_int_stays_at_the_instruction(s: CpuState, call: Insn, vector: u8)
    ensures
        do_int(s, call, vector).out is Error ==> do_int(s, call, vector).s.eip == s.eip,
{
    reveal(do_int);
}

/// A doubleword written to mapped real-mode memory reads back.
pub proof fn real_dword_reads_back(s: CpuState, seg: Seg, off: u32, v: u32)
    requires
        !s.protected(),
        dword_mapped(s, s.mem, seg, off),
    ensures
        ({
            let (t, r) = s.store32(seg, off, v, AccessKind::Write);
            &&& r is Ok
            &&& t == s.with_mem(t.mem)
            &&& t.mem.bytes.dom() =~= s.mem.bytes.dom()
            &&& t.load32(seg, off, AccessKind::Read) == Ok::<u32, ErrorView>(v)
        }),
{
    let lo = v as u16;
    let hi = (v >> 16) as u16;
    let o1 = off.wrapping_add(1);
    let o2 = off.wrapping_add(2);
    let o3 = o2.wrapping_add(1);
    lemma_real_word(s, seg, off, lo, AccessKind::Write);
    let s1 = s.store16(seg, off, lo, AccessKind::Write).0;
    lemma_real_word(s1, seg, o2, hi, AccessKind::Write);
    let t = s1.store16(seg, o2, hi, AccessKind::Write).0;
    lemma_real_word(t, seg, off, 0, AccessKind::Read);
    lemma_real_word(t, seg, o2, 0, AccessKind::Read);
    lemma_places_differ(s, seg, off, o1);
    lemma_places_differ(s, seg, off, o2);
    lemma_places_differ(s, seg, off, o3);
    lemma_places_differ(s, seg, o1, o2);
    lemma_places_differ(s, seg, o1, o3);
    lemma_places_differ(s, seg, o2, o3);
    lemma_word_parts(lo, v);
    lemma_word_parts(hi, v);
}

/// A doubleword that was pushed is popped again, and ESP is where it was.
pub proof fn pop_undoes_push_of_dword(s: CpuState, v: u32)
    requires
        in_real_mode(s),
        room_for_dword(s),
    ensures
        ({
            let t = s.pushed(4, v).0;
            &&& s.pushed(4, v).1 is Ok
            &&& in_real_mode(t)
            &&& t == s.with_mem(t.mem).with_gpr(4, s.gpr[4].wrapping_sub(4))
            &&& t.popped(4) == (s.with_mem(t.mem), Ok::<u32, ErrorView>(v))
        }),
{
    reveal(CpuState::load);
    reveal(CpuState::store);
    let sp = s.gpr[4].wrapping_sub(4);
    real_dword_reads_back(s, Seg::Ss, sp, v);
    let u = s.store32(Seg::Ss, sp, v, AccessKind::Write).0;
    let t = s.pushed(4, v).0;
    lemma_dword_access(u, t.gpr, u.eip, Seg::Ss, sp, 0, AccessKind::Read);
    assert(t == replaced(u, t.gpr, u.eip));
    assert(t.gpr.update(4, s.gpr[4]) =~= s.gpr);
}

/// PUSHFD and POPFD in a row give all 32 bits of the flags back.
pub proof fn popfd_undoes_pushfd(s: CpuState, push: Insn, pop: Insn)
    requires
        in_real_mode(s),
        room_for_dword(s),
        !push.o16,
        !pop.o16,
    ensures
        ({
            let t = do_pushf(s, push);
            let u = do_popf(t.s, pop);
            &&& t.out is Continue
            &&& u.out is Continue
            &&& u.s.eflags == s.eflags
            &&& u.s.gpr == s.gpr
        }),
{
    reveal(do_pushf);
    reveal(do_popf);
    reveal(CpuState::load);
    let g = s.eflags;
    pop_undoes_push_of_dword(s, g);
    let t = s.pushed(4, g).0;
    let e = do_pushf(s, push).s;
    lemma_dword_access(t, t.gpr, e.eip, Seg::Ss, t.gpr[4], 0, AccessKind::Read);
    assert(e == replaced(t, t.gpr, e.eip));
    assert((g & 0x100) | g == g) by (bit_vector);
}

/// A software interrupt in real mode, answered with IRET, goes on behind the
/// instruction, with the flags it had.
pub proof fn software_interrupt_returns_behind_it(s: CpuState, call: Insn, vector: u8, iret: Insn)
    requires
        in_real_mode(s),
        room_for_frame(s),
        iret.o16,
    ensures
        ({
            let t = do_int(s, call, vector);
            let u = do_iret(t.s, iret);
            &&& t.out is Interrupt
            &&& u.out is Continue
            &&& u.s.eip == s.next(call) % 0x1_0000
            &&& u.s.eflags == s.eflags & 0xFFFF
            &&& u.s.gpr == s.gpr
            &&& u.s.segment(Seg::Cs) == SegVal::real_spec(s.segment(Seg::Cs).sel)
        }),
{
    reveal(do_int);
    iret_undoes_interrupt(s.with_eip(s.next(call)), vector, iret);
}

} // verus!
