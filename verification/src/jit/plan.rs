//! Which instructions are compiled, and how a block is traced.

use vstd::prelude::*;

use crate::cpu::{CpuState, Mode, Seg, X86};
use crate::decode::{Decoded, Insn, Op, Opnd, Rep, fetch};
use crate::jit::lower::{follow, following, insns};

verus! {

/// How an instruction takes part in a block.
#[derive(Debug, Clone, Copy, PartialEq, Eq, Structural)]
pub enum NatKind {
    /// It is compiled, and the block goes on.
    Native,
    /// It is compiled, and ends the block.
    Terminal,
    /// The interpreter runs it.
    Fallback,
}

/// Whether a stack instruction moves a value that compiled code can move.
pub open spec fn stack_operand(o: Opnd) -> bool {
    o is Reg || o is Mem || o is Imm || o is ImmSext
}

/// How the instruction `i` takes part in a block.
pub open spec fn part_of_block(i: Insn) -> NatKind {
    match i.op {
        Op::Alu(_) | Op::Test | Op::Inc | Op::Dec | Op::Neg | Op::Not | Op::Shift(_, _) | Op::Mov
        | Op::Movzx(_) | Op::Movsx(_) | Op::Lea | Op::Xchg | Op::Setcc(_) | Op::Cmov(_) | Op::In
        | Op::Out | Op::Xlat | Op::Nop | Op::Wait | Op::Salc | Op::Cli | Op::Sti | Op::Cld | Op::Std
        | Op::Clc | Op::Stc | Op::Cmc | Op::Clts => if i.rep == Rep::Single {
            NatKind::Native
        } else {
            NatKind::Fallback
        },
        Op::Push | Op::Pop => if stack_operand(i.o0) && i.rep == Rep::Single {
            NatKind::Native
        } else {
            NatKind::Fallback
        },
        Op::Movs(_) | Op::Stos(_) | Op::Lods(_) | Op::Cmps(_) | Op::Scas(_) | Op::Ins(_) | Op::Outs(
            _,
        ) => NatKind::Terminal,
        Op::Jcc(_) | Op::Loop(_) | Op::Jcxz => NatKind::Terminal,
        Op::Jump { far } => if far {
            NatKind::Fallback
        } else {
            NatKind::Terminal
        },
        Op::Call { far } => if far {
            NatKind::Fallback
        } else {
            NatKind::Terminal
        },
        Op::Ret { far, imm } => if far {
            NatKind::Fallback
        } else {
            NatKind::Terminal
        },
        _ => NatKind::Fallback,
    }
}

/// How an instruction takes part in a block.
pub fn nat_kind(d: &Decoded) -> (k: NatKind)
    ensures
        k == part_of_block(d@),
{
    match d.op {
        Op::Alu(_) | Op::Test | Op::Inc | Op::Dec | Op::Neg | Op::Not | Op::Shift(_, _) | Op::Mov
        | Op::Movzx(_) | Op::Movsx(_) | Op::Lea | Op::Xchg | Op::Setcc(_) | Op::Cmov(_) | Op::In
        | Op::Out | Op::Xlat | Op::Nop | Op::Wait | Op::Salc | Op::Cli | Op::Sti | Op::Cld | Op::Std
        | Op::Clc | Op::Stc | Op::Cmc | Op::Clts => {
            if matches!(d.rep, Rep::Single) {
                NatKind::Native
            } else {
                NatKind::Fallback
            }
        },
        Op::Push | Op::Pop => {
            let movable = matches!(
                d.ops[0],
                Opnd::Reg(_, _) | Opnd::Mem(_, _) | Opnd::Imm(_) | Opnd::ImmSext(_)
            );
            if movable && matches!(d.rep, Rep::Single) {
                NatKind::Native
            } else {
                NatKind::Fallback
            }
        },
        Op::Movs(_) | Op::Stos(_) | Op::Lods(_) | Op::Cmps(_) | Op::Scas(_) | Op::Ins(_) | Op::Outs(
            _,
        ) => NatKind::Terminal,
        Op::Jcc(_) | Op::Loop(_) | Op::Jcxz => NatKind::Terminal,
        Op::Jump { far: false } => NatKind::Terminal,
        Op::Call { far: false } => NatKind::Terminal,
        Op::Ret { far: false, imm: _ } => NatKind::Terminal,
        _ => NatKind::Fallback,
    }
}

/// The place of a block: selector and offset of its first instruction.
pub open spec fn key_of(s: CpuState) -> u64 {
    ((s.segment(Seg::Cs).sel as u64) << 32) | s.eip as u64
}

/// The place of a block.
pub fn block_key(cpu: &X86) -> (k: u64)
    ensures
        k == key_of(cpu@),
{
    ((cpu.seg[1].sel as u64) << 32) | cpu.eip as u64
}

/// A signature of the state that a block was compiled under: CR0 and the
/// descriptor tables.
pub open spec fn signature(s: CpuState) -> u64 {
    let gl = s.gdtr.limit as u32;
    let il = s.idtr.limit as u32;
    let g = s.gdtr.base ^ (gl << 16);
    let i = s.idtr.base ^ ((il << 24) | (il >> 8));
    (s.cr[0] as u64) ^ ((g as u64) << 16) ^ ((i as u64) << 40)
}

/// A signature of the state that a block was compiled under.
pub fn state_sig(cpu: &X86) -> (sig: u64)
    ensures
        sig == signature(cpu@),
{
    let gl = cpu.gdtr.limit as u32;
    let il = cpu.idtr.limit as u32;
    let g = cpu.gdtr.base ^ (gl << 16);
    let i = cpu.idtr.base ^ ((il << 24) | (il >> 8));
    (cpu.cr[0] as u64) ^ ((g as u64) << 16) ^ ((i as u64) << 40)
}

/// A traced block: its instructions, where it starts and what comes behind.
pub struct Plan {
    pub insns: Vec<Decoded>,
    pub eip0: u32,
    /// Whether it is 32-bit code.
    pub wide: bool,
    pub tail_eip: u32,
    /// 0 where the last instruction ends the block, 1 where the interpreter has
    /// to run the instruction at `tail_eip`.
    pub tail_status: u32,
}

/// The instructions of a block from `cur` on, where `n` are already found; the
/// EIP of what ends it, and its status. `None` where an instruction cannot be
/// decoded.
pub open spec fn traced(s: CpuState, cur: u32, n: nat) -> Option<(Seq<Insn>, u32, u32)>
    decreases 255 - n,
{
    match s.with_eip(cur).decoded() {
        Err(_) => None,
        Ok(i) => match part_of_block(i) {
            NatKind::Native => if n < 255 {
                match traced(s, following(cur, i.len, !s.default16()), n + 1) {
                    None => None,
                    Some((rest, tail, status)) => Some((seq![i] + rest, tail, status)),
                }
            } else {
                Some((Seq::empty(), cur, 1))
            },
            NatKind::Terminal => Some((seq![i], cur, 0)),
            NatKind::Fallback => Some((Seq::empty(), cur, 1)),
        },
    }
}

/// The block at CS:EIP; `None` where there is nothing to compile.
pub open spec fn plan_at(s: CpuState) -> Option<(Seq<Insn>, u32, u32)> {
    match traced(s, s.eip, 0) {
        None => None,
        Some((p, tail, status)) => if p.len() == 0 {
            None
        } else {
            Some((p, tail, status))
        },
    }
}

/// Trace-decode a straight-line run of native instructions. EIP of the CPU is
/// moved along and put back.
pub fn trace(cpu: &mut X86) -> (p: Option<Plan>)
    ensures
        final(cpu)@ == old(cpu)@,
        match p {
            None => plan_at(old(cpu)@) is None,
            Some(p) => {
                &&& plan_at(old(cpu)@) == Some((insns(p.insns@), p.tail_eip, p.tail_status))
                &&& p.eip0 == old(cpu)@.eip
                &&& p.wide == !old(cpu)@.default16()
                &&& p.insns@.len() <= 256
                &&& forall|k: int| 0 <= k < p.insns@.len() ==> (#[trigger] p.insns@[k])@.wf()
            },
        },
{
    let ghost s = cpu@;
    let eip0 = cpu.eip;
    let wide = matches!(cpu.mode(), Mode::Protected32);
    let mut found: Vec<Decoded> = Vec::new();
    let mut cur: u32 = eip0;
    let mut result: Option<u32> = None;
    let mut going: bool = true;
    assert(s.with_eip(eip0) == s);
    assert(insns(found@) =~= Seq::<Insn>::empty());
    while going
        invariant
            s == old(cpu)@,
            cpu@ == s.with_eip(cpu@.eip),
            wide == !s.default16(),
            eip0 == s.eip,
            forall|k: int| 0 <= k < found@.len() ==> (#[trigger] found@[k])@.wf(),
            going ==> found@.len() <= 255,
            going ==> traced(s, eip0, 0) == (match traced(s, cur, found@.len()) {
                None => None,
                Some((rest, tail, status)) => Some((insns(found@) + rest, tail, status)),
            }),
            !going ==> found@.len() <= 256,
            !going ==> match result {
                None => traced(s, eip0, 0) is None,
                Some(status) => traced(s, eip0, 0) == Some((insns(found@), cur, status)),
            },
        decreases (if going {
            256 - found@.len()
        } else {
            0
        }),
    {
        cpu.eip = cur;
        assert(cpu@ == s.with_eip(cur));
        match fetch(cpu) {
            Err(_) => {
                result = None;
                going = false;
            },
            Ok(d) => {
                let ghost before = found@;
                match nat_kind(&d) {
                    NatKind::Native => {
                        if found.len() < 255 {
                            found.push(d);
                            proof {
                                assert(insns(found@) =~= insns(before).push(d@));
                                let next = following(cur, d.len, wide);
                                if let Some((rest, tail, status)) = traced(
                                    s,
                                    next,
                                    found@.len(),
                                ) {
                                    assert(insns(before) + (seq![d@] + rest) =~= insns(found@)
                                        + rest);
                                }
                            }
                            cur = follow(cur, d.len, wide);
                        } else {
                            assert(insns(found@) + Seq::<Insn>::empty() =~= insns(found@));
                            result = Some(1);
                            going = false;
                        }
                    },
                    NatKind::Terminal => {
                        found.push(d);
                        assert(insns(found@) =~= insns(before) + seq![d@]);
                        result = Some(0);
                        going = false;
                    },
                    NatKind::Fallback => {
                        assert(insns(found@) + Seq::<Insn>::empty() =~= insns(found@));
                        result = Some(1);
                        going = false;
                    },
                }
            },
        }
    }
    cpu.eip = eip0;
    match result {
        None => None,
        Some(status) => if found.len() == 0 {
            None
        } else {
            Some(Plan { insns: found, eip0, wide, tail_eip: cur, tail_status: status })
        },
    }
}

} // verus!
