//! Laws of addressing: which registers and displacements a ModRM byte stands for.

use vstd::prelude::*;

use crate::cpu::{CpuState, Seg};
use crate::decode::{MemRef, Prefixes};
use crate::mmu::addend;

verus! {

/// `b` as a signed byte.
pub open spec fn byte_value(b: u8) -> int {
    if b < 0x80 {
        b as int
    } else {
        b - 0x100
    }
}

/// The sum of the registers that a 16-bit ModRM byte names.
pub open spec fn register_sum(gpr: Seq<u32>, modrm: u8) -> int {
    let (bx, bp, si, di) = (gpr[3] as int, gpr[5] as int, gpr[6] as int, gpr[7] as int);
    if modrm % 8 == 0 {
        bx + si
    } else if modrm % 8 == 1 {
        bx + di
    } else if modrm % 8 == 2 {
        bp + si
    } else if modrm % 8 == 3 {
        bp + di
    } else if modrm % 8 == 4 {
        si
    } else if modrm % 8 == 5 {
        di
    } else if modrm % 8 == 6 {
        if modrm / 64 == 0 {
            0
        } else {
            bp
        }
    } else {
        bx
    }
}

/// The segment of a memory operand: the override, else SS where the address
/// starts from BP or EBP, else DS.
pub open spec fn operand_segment(p: Prefixes, from_bp: bool) -> Seg {
    if p.seg is Some {
        p.seg->Some_0
    } else if from_bp {
        Seg::Ss
    } else {
        Seg::Ds
    }
}

/// A 16-bit memory operand: the sum of the registers that the 8086 table lists
/// for the r/m field (BX+SI, BX+DI, BP+SI, BP+DI, SI, DI, BP or none, BX) and
/// the displacement, which is absent, a signed byte or a word, modulo 65536.
/// Only where the bytes of the displacement cannot be fetched is there no
/// operand.
pub proof fn sixteen_bit_operands(s: CpuState, modrm: u8, p: Prefixes, at: u32)
    requires
        p.a16,
        modrm < 0xC0,
        at < 0x100,
    ensures
        ({
            let word_follows = modrm / 64 == 2 || (modrm / 64 == 0 && modrm % 8 == 6);
            let byte = s.fetch8(s.eip.wrapping_add(at));
            let word = s.fetch16(s.eip.wrapping_add(at));
            let sum = register_sum(s.gpr, modrm);
            let seg = operand_segment(
                p,
                modrm % 8 == 2 || modrm % 8 == 3 || (modrm % 8 == 6 && modrm / 64 != 0),
            );
            match s.rm_mem(modrm, p, at) {
                Ok((mem, end)) => {
                    &&& mem is Some
                    &&& mem->Some_0.seg == seg
                    &&& mem->Some_0.a16
                    &&& modrm / 64 == 1 ==> byte is Ok && s.ea(mem->Some_0) == (sum + byte_value(
                        byte->Ok_0,
                    )) % 0x1_0000 && end == at + 1
                    &&& word_follows ==> word is Ok && s.ea(mem->Some_0) == (sum + word->Ok_0)
                        % 0x1_0000 && end == at + 2
                    &&& modrm / 64 == 0 && modrm % 8 != 6 ==> s.ea(mem->Some_0) == sum % 0x1_0000
                        && end == at
                },
                Err(e) => (modrm / 64 == 1 && byte == Err::<u8, Seq<char>>(e)) || (word_follows
                    && word == Err::<u16, Seq<char>>(e)),
            }
        }),
{
    match s.rm_mem(modrm, p, at) {
        Ok((Some(r), end)) => {
            lemma_ea16(s, r);
            if modrm / 64 == 2 {
                let w = s.fetch16(s.eip.wrapping_add(at))->Ok_0;
                lemma_word_turn(register_sum(s.gpr, modrm), w);
            }
        },
        _ => {},
    }
}

/// An offset within 64 KB by its parts.
proof fn lemma_ea16(s: CpuState, r: MemRef)
    requires
        r.a16,
        r.scale == 1,
    ensures
        s.ea(r) == (addend(s.gpr, r.base) + addend(s.gpr, r.index) + r.disp) % 0x1_0000,
{
    let i = addend(s.gpr, r.index);
    assert(i * 1 == i) by (nonlinear_arith);
}

/// A word counts the same signed and unsigned within 64 KB.
proof fn lemma_word_turn(sum: int, w: u16)
    ensures
        (sum + (if w < 0x8000 {
            w as int
        } else {
            w - 0x1_0000
        })) % 0x1_0000 == (sum + w) % 0x1_0000,
{
}

/// A 32-bit memory operand without a SIB byte: one register, or with mod 0 and
/// r/m 5 none, and a displacement that is absent, a signed byte or a dword,
/// modulo 2^32.
pub proof fn thirty_two_bit_operands(s: CpuState, modrm: u8, p: Prefixes, at: u32)
    requires
        !p.a16,
        modrm < 0xC0,
        modrm % 8 != 4,
        at < 0x100,
    ensures
        ({
            let absolute = modrm / 64 == 0 && modrm % 8 == 5;
            let byte = s.fetch8(s.eip.wrapping_add(at));
            let dword = s.fetch32(s.eip.wrapping_add(at));
            let base = if absolute {
                0
            } else {
                s.gpr[modrm as int % 8] as int
            };
            let seg = operand_segment(p, modrm % 8 == 5 && !absolute);
            match s.rm_mem(modrm, p, at) {
                Ok((mem, end)) => {
                    &&& mem is Some
                    &&& mem->Some_0.seg == seg
                    &&& !mem->Some_0.a16
                    &&& modrm / 64 == 1 ==> byte is Ok && s.ea(mem->Some_0) == (base + byte_value(
                        byte->Ok_0,
                    )) % 0x1_0000_0000 && end == at + 1
                    &&& modrm / 64 == 2 || absolute ==> dword is Ok && s.ea(mem->Some_0) == (base
                        + dword->Ok_0) % 0x1_0000_0000 && end == at + 4
                    &&& modrm / 64 == 0 && !absolute ==> s.ea(mem->Some_0) == base && end == at
                },
                Err(e) => (modrm / 64 == 1 && byte == Err::<u8, Seq<char>>(e)) || ((modrm / 64 == 2
                    || absolute) && dword == Err::<u32, Seq<char>>(e)),
            }
        }),
{
    match s.rm_mem(modrm, p, at) {
        Ok((Some(r), end)) => {
            lemma_ea32(s, r);
            if modrm / 64 == 2 || modrm / 64 == 0 {
                let v = s.fetch32(s.eip.wrapping_add(at))->Ok_0;
                lemma_dword_turn(addend(s.gpr, r.base), v);
            }
        },
        _ => {},
    }
}

/// An offset within 4 GB by its parts.
proof fn lemma_ea32(s: CpuState, r: MemRef)
    requires
        !r.a16,
    ensures
        r.index is None ==> s.ea(r) == (addend(s.gpr, r.base) + r.disp) % 0x1_0000_0000,
        r.index is Some ==> s.ea(r) == (addend(s.gpr, r.base) + s.gpr[r.index->Some_0 as int]
            * r.scale + r.disp) % 0x1_0000_0000,
{
    assert(0 * (r.scale as int) == 0) by (nonlinear_arith);
}

/// A dword counts the same signed and unsigned within 4 GB.
proof fn lemma_dword_turn(sum: int, v: u32)
    ensures
        (sum + (if v < 0x8000_0000 {
            v as int
        } else {
            v - 0x1_0000_0000
        })) % 0x1_0000_0000 == (sum + v) % 0x1_0000_0000,
{
}

/// A 32-bit memory operand with a SIB byte: the base register, none with mod 0
/// and base 5, plus the index register, none with index 4, times 1, 2, 4 or 8,
/// plus the displacement, modulo 2^32.
pub proof fn scaled_operands(s: CpuState, modrm: u8, p: Prefixes, at: u32)
    requires
        !p.a16,
        modrm < 0xC0,
        modrm % 8 == 4,
        at < 0x100,
    ensures
        ({
            let first = s.fetch8(s.eip.wrapping_add(at));
            let sib = first->Ok_0;
            let absolute = modrm / 64 == 0 && sib % 8 == 5;
            let next = (at + 1) as u32;
            let byte = s.fetch8(s.eip.wrapping_add(next));
            let dword = s.fetch32(s.eip.wrapping_add(next));
            let base = if absolute {
                0
            } else {
                s.gpr[sib as int % 8] as int
            };
            let times: int = if sib < 0x40 {
                1
            } else if sib < 0x80 {
                2
            } else if sib < 0xC0 {
                4
            } else {
                8
            };
            let index = if sib / 8 % 8 == 4 {
                0
            } else {
                s.gpr[sib as int / 8 % 8] * times
            };
            match s.rm_mem(modrm, p, at) {
                Ok((mem, end)) => {
                    &&& first is Ok
                    &&& mem is Some
                    &&& mem->Some_0.seg == operand_segment(p, sib % 8 == 5 && !absolute)
                    &&& !mem->Some_0.a16
                    &&& modrm / 64 == 1 ==> byte is Ok && s.ea(mem->Some_0) == (base + index
                        + byte_value(byte->Ok_0)) % 0x1_0000_0000 && end == at + 2
                    &&& modrm / 64 == 2 || absolute ==> dword is Ok && s.ea(mem->Some_0) == (base
                        + index + dword->Ok_0) % 0x1_0000_0000 && end == at + 5
                    &&& modrm / 64 == 0 && !absolute ==> s.ea(mem->Some_0) == (base + index)
                        % 0x1_0000_0000 && end == at + 1
                },
                Err(e) => {
                    ||| first == Err::<u8, Seq<char>>(e)
                    ||| modrm / 64 == 1 && byte == Err::<u8, Seq<char>>(e)
                    ||| (modrm / 64 == 2 || absolute) && dword == Err::<u32, Seq<char>>(e)
                },
            }
        }),
{
    match s.rm_mem(modrm, p, at) {
        Ok((Some(r), end)) => {
            let sib = s.fetch8(s.eip.wrapping_add(at))->Ok_0;
            lemma_ea32(s, r);
            let next = (at + 1) as u32;
            if modrm / 64 == 2 || modrm / 64 == 0 {
                let v = s.fetch32(s.eip.wrapping_add(next))->Ok_0;
                let i = match r.index {
                    Some(n) => s.gpr[n as int] * r.scale,
                    None => 0,
                };
                lemma_dword_turn(addend(s.gpr, r.base) + i, v);
            }
        },
        _ => {},
    }
}

/// With mod 3 the r/m field names a register: no byte follows and no memory is
/// addressed.
pub proof fn register_operands(s: CpuState, modrm: u8, p: Prefixes, at: u32)
    requires
        modrm >= 0xC0,
    ensures
        s.rm_mem(modrm, p, at) == Ok::<(Option<MemRef>, u32), Seq<char>>((None, at)),
{
}

} // verus!
