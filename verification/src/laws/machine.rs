//! Laws of the machine around the instructions: steps, reset, memory map,
//! pacing and text.

use vstd::prelude::*;

use crate::cpu::{AccessKind, CpuState, ErrorView, OutView, Seg};
use crate::decode::{Insn, Op, Prefixes};
use crate::device::cmos::CmosState;
use crate::device::machine::MachineState;
use crate::interp::{ran, stepped};
use crate::mem::{DevEvent, DevLog, MemState};
use crate::mmu::Translate;
use crate::pc::{Pace, PaceAction, current_vectors, is_vga, pc_memory};
use crate::sem::exec::{delivered, instruction_done, performed};
use crate::text::{digit_char, digits, hex2_text, hex_text};

verus! {

/// A step in which no interrupt is due, of a core that is not halted and has
/// interrupts off: the cycle counter goes up by one, the instruction at CS:EIP
/// is decoded and performed, and where it goes on the device runs for a cycle.
/// Outside 32-bit code EIP is cut to 16 bits, unless the instruction was given
/// up. What cannot be decoded is an error that leaves everything but the
/// counter.
pub proof fn a_step_performs_the_next_instruction(s: CpuState, log: DevLog)
    requires
        s.eflags & 0x200 == 0,
        !s.halted,
    ensures
        ({
            let t = CpuState { cycles: s.cycles.wrapping_add(1), ..s };
            let (u, out) = stepped(s, log);
            match t.decoded() {
                Err(e) => u == t && out == OutView::Error(ErrorView::Unsupported(e)),
                Ok(i) => {
                    let o = performed(t, i, log);
                    let cut = !o.early && !(o.s.cr[0] & 1 != 0 && o.s.seg[1].desc.db);
                    let w = if cut {
                        CpuState { eip: (o.s.eip % 0x1_0000) as u32, ..o.s }
                    } else {
                        o.s
                    };
                    &&& out == o.out
                    &&& out is Continue ==> u == (CpuState {
                        mem: w.mem.record(DevEvent::Tick { cycles: 1 }),
                        ..w
                    })
                    &&& !(out is Continue) ==> u == w
                },
            }
        }),
{
    reveal(stepped);
    reveal(delivered);
    reveal(instruction_done);
}

/// A step of a core with interrupts on takes the pending vector, or asks the
/// device for one; a vector is delivered and wakes the core. Without one a
/// halted core lets the device run for a cycle, and an instruction is next
/// otherwise.
pub proof fn a_step_takes_interrupts_first(s: CpuState, log: DevLog)
    requires
        s.eflags & 0x200 != 0,
    ensures
        ({
            let asked = s.mem.ack_reply(log);
            let t = match s.pending_irq {
                Some(_) => CpuState { pending_irq: None, ..s },
                None => CpuState { mem: s.mem.record(DevEvent::Ack { vector: asked }), ..s },
            };
            let v = match s.pending_irq {
                Some(v) => Some(v),
                None => asked,
            };
            let (u, out) = delivered(s, log);
            match v {
                Some(n) => out is Some && (u, out->Some_0) == CpuState {
                    halted: false,
                    ..t
                }.interrupted(n, false, 0),
                None => if s.halted {
                    out == Some(OutView::Continue) && u == (CpuState {
                        mem: t.mem.record(DevEvent::Tick { cycles: 1 }),
                        ..t
                    })
                } else {
                    out is None && u == t
                },
            }
        }),
{
    reveal(delivered);
}

/// The state after a reset: general and control registers 0, bit 1 of the flags
/// alone set, the data segments at 0, and the code segment with the selector
/// 0xF000 at 0xF0000 and EIP 0xFFF0, so that the first instruction lies 16
/// bytes below 1 MB. Nothing is pending, and the core runs.
pub proof fn reset_state_is_fixed(mem: MemState, force: bool, k: int)
    ensures
        ({
            let s = CpuState::reset_state(mem, force);
            &&& s.gpr.len() == 8 && s.seg.len() == 6 && s.cr.len() == 4
            &&& 0 <= k < 8 ==> s.gpr[k] == 0
            &&& 0 <= k < 4 ==> s.cr[k] == 0
            &&& 0 <= k < 6 && k != 1 ==> s.seg[k].sel == 0 && s.seg[k].desc.base == 0
                && s.seg[k].desc.limit
                == 0xFFFF && !s.seg[k].desc.g
            &&& s.seg[1].sel == 0xF000 && s.seg[1].desc.base == 0xF0000 && s.seg[1].desc.limit
                == 0xFFFF
                && !s.seg[1].desc.g && !s.seg[1].desc.db && s.seg[1].desc.p
                    && s.seg[1].desc.typ == 0x9B
            &&& s.eip == 0xFFF0 && s.eflags == 2
            &&& s.gdtr.base == 0 && s.gdtr.limit == 0 && s.idtr.base == 0 && s.idtr.limit == 0
            &&& s.pending_irq is None && !s.halted && s.cycles == 0
            &&& s.mem == mem && s.force_interp == force
        }),
{
}

/// The memory of a PC: the system BIOS from 0xE0000 on, the VGA BIOS from
/// 0xC0000 on, where they overlap the latter, and zeroes in the display memory
/// and in the RAM up to 16 MB. Above that nothing is mapped.
pub proof fn pc_memory_map(bios: Seq<u8>, vga_bios: Seq<u8>, addr: u32)
    requires
        bios.len() <= 0x2_0000,
        vga_bios.len() <= 0x2_0000,
    ensures
        ({
            let m = pc_memory(bios, vga_bios);
            let in_vga = 0xC0000 <= addr && addr < 0xC0000 + vga_bios.len();
            let in_bios = 0xE0000 <= addr && addr < 0xE0000 + bios.len();
            &&& m.dom().contains(addr) <==> addr < 0x100_0000
            &&& in_vga ==> m[addr] == vga_bios[addr - 0xC0000]
            &&& in_bios && !in_vga ==> m[addr] == bios[addr - 0xE0000]
            &&& addr < 0x100_0000 && !in_vga && !in_bios ==> m[addr] == 0
        }),
{
}

/// A run stops as soon as it is past its limit; else a frame is drawn once at
/// least 100000 instructions have passed since the last, and never earlier.
pub proof fn frames_are_paced(p: Pace, n: u64, max_steps: u64)
    requires
        p.wf(),
        p.steps + n <= 0xFFFF_FFFF_FFFF_FFFF,
    ensures
        ({
            let (q, a) = p.advanced(n, max_steps);
            let total = p.steps + n;
            &&& q.steps == total
            &&& a == PaceAction::Stop <==> total > max_steps
            &&& a == PaceAction::Render <==> total <= max_steps && total - p.last_render >= 100000
            &&& a == PaceAction::Run <==> total <= max_steps && total - p.last_render < 100000
            &&& a == PaceAction::Render ==> q.last_render == total
            &&& a != PaceAction::Render ==> q.last_render == p.last_render
        }),
{
}

/// The display adapter owns the ports from 0x3B4 to 0x3DF.
pub proof fn display_ports(port: u16)
    ensures
        is_vga(port) <==> 0x3B4 <= port && port < 0x3E0,
{
}

/// The vectors that lead to the current instruction: those, in ascending order,
/// whose four-byte entry at the start of memory holds the offset EIP and then
/// the selector of CS.
pub proof fn vectors_that_lead_here(s: CpuState, n: nat, v: u32)
    requires
        n <= 256,
    ensures
        current_vectors(s, n).contains(v) <==> v < n && s.mem.read16((4 * v) as u32) == s.eip
            && s.mem.read16(
            (4 * v + 2) as u32,
        ) == s.seg[1].sel,
        forall|i: int, j: int|
            0 <= i < j < current_vectors(s, n).len()
                ==> current_vectors(s, n)[i] < current_vectors(s, n)[j],
        forall|i: int| 0 <= i < current_vectors(s, n).len() ==> current_vectors(s, n)[i] < n,
    decreases n,
{
    if n > 0 {
        vectors_that_lead_here(s, (n - 1) as nat, v);
        let before = current_vectors(s, (n - 1) as nat);
        let last = (n - 1) as u32;
        let now = current_vectors(s, n);
        if now != before {
            assert(now =~= before.push(last));
            assert(now[before.len() as int] == last);
            assert forall|x: u32| before.contains(x) implies now.contains(x) by {
                let i = before.index_of(x);
                assert(now[i] == x);
            }
            if now.contains(v) && v != last {
                let i = now.index_of(v);
                assert(before[i] == v);
            }
        }
    }
}

/// The number that digits stand for in a base.
pub open spec fn numeral(s: Seq<char>, base: nat) -> int
    decreases s.len(),
{
    if s.len() == 0 {
        0
    } else {
        numeral(s.drop_last(), base) * base + digit_value(s.last())
    }
}

/// The value of a digit: `0` to `9`, then `a` to `f`.
pub open spec fn digit_value(c: char) -> int {
    if c <= '9' {
        c as int - '0' as int
    } else {
        c as int - 'a' as int + 10
    }
}

/// The digits of a number stand for that number, and the first is 0 only where
/// it is the only one.
pub proof fn digits_stand_for_the_number(n: nat, base: nat)
    requires
        2 <= base <= 16,
    ensures
        numeral(digits(n, base), base) == n,
        digits(n, base).len() >= 1,
        digits(n, base).len() > 1 ==> digit_value(digits(n, base)[0]) != 0,
        n > 0 ==> digit_value(digits(n, base)[0]) != 0,
        forall|i: int|
            0 <= i < digits(n, base).len()
                ==> 0 <= digit_value(#[trigger] digits(n, base)[i]) < base,
    decreases n,
{
    reveal_with_fuel(numeral, 2);
    if n < base {
        lemma_digit(n as int);
        let d = digits(n, base);
        assert(d =~= seq![digit_char(n as int)]);
        assert(d.drop_last() =~= Seq::<char>::empty());
    } else {
        crate::text::lemma_quotient_shrinks(n, base);
        let q = n / base;
        let r = (n % base) as int;
        assert(q >= 1 && n == q * base + r && 0 <= r < base) by (nonlinear_arith)
            requires
                base >= 2,
                n >= base,
                q == n / base,
                r == n % base,
        ;
        digits_stand_for_the_number(q, base);
        lemma_digit(r);
        let d = digits(q, base).push(digit_char(r));
        assert(digits(n, base) == d);
        assert(d.drop_last() =~= digits(q, base));
        assert(d.last() == digit_char(r));
        assert(d[0] == digits(q, base)[0]);
        assert forall|i: int| 0 <= i < d.len() implies 0 <= digit_value(#[trigger] d[i]) < base by {
            if i < d.len() - 1 {
                assert(d[i] == digits(q, base)[i]);
            }
        }
    }
}

/// A digit and its character.
proof fn lemma_digit(d: int)
    requires
        0 <= d < 16,
    ensures
        digit_value(digit_char(d)) == d,
{
}

/// Addresses are written with `0x` and their hexadecimal digits, opcodes with
/// two digits at least.
pub proof fn hexadecimal_texts(n: nat)
    ensures
        hex_text(n) == seq!['0', 'x'] + digits(n, 16),
        n >= 16 ==> hex2_text(n) == seq!['0', 'x'] + digits(n, 16),
        n < 16 ==> hex2_text(n) == seq!['0', 'x', '0'] + digits(n, 16),
{
    reveal_strlit("0x");
    reveal_strlit("0x0");
    assert("0x"@ =~= seq!['0', 'x']);
    assert("0x0"@ =~= seq!['0', 'x', '0']);
}

/// How a fault is reported: by the linear address of a page fault and the
/// offset of a segment fault, in hexadecimal.
pub proof fn faults_are_reported(s: CpuState, seg: Seg, off: u32, size: u32, kind: AccessKind)
    ensures
        match s.translated(seg, off, size, kind) {
            Translate::Phys(p) => s.located(seg, off, size, kind) == Ok::<u32, ErrorView>(p),
            Translate::PageFault { addr, .. } => s.located(seg, off, size, kind)
                == Err::<u32, ErrorView>(
                ErrorView::Internal("page fault at "@ + hex_text(addr as nat)),
            ),
            Translate::SegFault { addr, .. } => s.located(seg, off, size, kind)
                == Err::<u32, ErrorView>(
                ErrorView::Internal("segment fault at "@ + hex_text(addr as nat)),
            ),
        },
{
}

/// What a device replies to an acknowledge is the next exchange of the record,
/// where it is one; without a device there is no vector.
pub proof fn acknowledge_replies(s: CpuState, log: DevLog)
    ensures
        s.mem.dev is None ==> s.mem.ack_reply(log) is None && s.mem.in_reply(log) == 0xFF,
        s.mem.dev is Some && log is Some ==> ({
            let next = log->Some_0[s.mem.dev->Some_0.len() as int];
            &&& next is Ack ==> s.mem.ack_reply(log) == next->vector
            &&& next is In ==> s.mem.in_reply(log) == next->value
        }),
{
}

/// More than 14 prefixes are refused.
pub proof fn prefixes_are_limited(s: CpuState, p: Prefixes, b: u8)
    requires
        p.len == 14,
        s.fetch8(s.eip.wrapping_add(14)) == Ok::<u8, Seq<char>>(b),
        p.with_prefix(b, s.default16()) is Some,
    ensures
        s.prefixes_from(p) == Err::<Prefixes, Seq<char>>("instruction exceeds 15-byte limit"@),
{
}

/// The devices at power-on: every interrupt line masked, with vectors from 8
/// and from 0x70 on; channel 0 of the timer counting 65536 cycles and every
/// channel taking low and high byte; the keyboard controller with status 0x20
/// and the serial port idle.
pub proof fn devices_at_power_on()
    ensures
        ({
            let m = MachineState::initial();
            let (a, b) = (m.pic.master, m.pic.slave);
            &&& a.base == 8 && a.imr == 0xFF && a.irr == 0 && a.isr == 0 && a.icw_step == 0
                && !a.auto_eoi
            &&& b.base == 0x70 && b.imr == 0xFF && b.irr == 0 && b.isr == 0 && b.icw_step == 0
                && !b.auto_eoi
            &&& m.pit.wf()
            &&& m.pit.phases[0] == 65536 && m.pit.phases[1] == 0 && m.pit.phases[2] == 0
            &&& forall|k: int|
                0 <= k < 3 ==> #[trigger] m.pit.count[k] == 0 && m.pit.reload[k] == 0
                    && m.pit.gate[k]
                    && m.pit.access[k] == 3 && m.pit.low_byte[k] && !m.pit.latched[k]
            &&& !m.pit.out2 && !m.pit.timer_fired
            &&& m.ps2.status == 0x20 && !m.ps2.has_data && m.ps2.queue.len() == 0
            &&& m.serial.lcr == 3 && m.serial.lsr == 0x60 && m.serial.msr == 0x10 && !m.serial.dlab
                && m.serial.out.len() == 0
            &&& m.fdc.dor == 0 && m.fdc.params_needed == 0 && m.fdc.result.len() == 0
            &&& m.total_cycles == 0 && m.debug_bytes.len() == 0
        }),
{
}

/// The registers of the clock chip at power-on: a date and a time, the status
/// registers, the drive and the memory size; the rest is 0.
pub proof fn clock_chip_at_power_on(k: int)
    requires
        0 <= k < 0x80,
    ensures
        ({
            let c = CmosState::initial();
            let v = c.regs[k];
            &&& c.sel == 0 && c.nmi_mask == 1 && c.regs.len() == 0x80
            &&& k == 0 ==> v == 7
            &&& k == 2 || k == 4 ==> v == 6
            &&& k == 7 || k == 8 || k == 0x3D ==> v == 1
            &&& k == 9 ==> v == 26
            &&& k == 0x0A ==> v == 0x26
            &&& k == 0x0B || k == 0x16 ==> v == 2
            &&& k == 0x0D || k == 0x15 ==> v == 0x80
            &&& k == 0x10 ==> v == 0x10
            &&& k == 0x19 || k == 0x31 || k == 0x33 ==> v == 0x3F
            &&& k == 1 || k == 3 || k == 5 || k == 6 || k == 0x0C || (0x11 <= k < 0x15)
                || k > 0x3D ==> v == 0
        }),
{
}

/// An opcode that is not implemented is an error that names it and where it is;
/// nothing else happens.
pub proof fn unsupported_opcodes_are_errors(s: CpuState, i: Insn, log: DevLog, b: u8)
    requires
        i.op == Op::Unsupported(b) || i.op == Op::TwoByte(b),
    ensures
        performed(s, i, log).s == s,
        performed(s, i, log).out == OutView::Error(
            ErrorView::Unsupported(
                "opcode "@ + hex2_text(b as nat) + " at eip "@ + hex_text(s.eip as nat),
            ),
        ),
{
    reveal(performed);
}

/// A fetch beyond the code segment says where and how far it reaches; a vector
/// beyond the interrupt table says which.
pub proof fn limits_are_reported(s: CpuState, off: u32, vector: u8, code: u32)
    requires
        s.cr[0] & 1 != 0,
    ensures
        ({
            let last = s.seg[1].desc.last_offset();
            off > last ==> s.fetch8(off) is Err && s.fetch8(off)->Err_0 == "CS limit exceeded (EIP "@ + hex_text(
                off as nat,
            ) + " > limit "@ + hex_text(last as nat) + ")"@
        }),
        8 * vector > s.idtr.limit + 1 ==> s.interrupted(vector, false, code) == (
            s,
            OutView::Error(
                ErrorView::Internal(
                    "IDT limit ("@ + digits(s.idtr.limit as nat, 10) + ") exceeded for vector "@ + digits(
                        vector as nat,
                        10,
                    ),
                ),
            ),
        ),
{
}

/// A run of no step leaves everything; a longer one is a step and, unless that
/// met an error, the rest of the run.
pub proof fn runs_are_steps(s: CpuState, n: nat, log: DevLog)
    requires
        n > 0,
    ensures
        ran(s, 0, log).0 == s,
        ran(s, 0, log).1 is Ok,
        ({
            let (t, out) = stepped(s, log);
            match out {
                OutView::Error(e) => ran(s, n, log).0 == t && ran(s, n, log).1 is Err
                    && ran(s, n, log).1->Err_0
                    == e,
                _ => ran(s, n, log) == ran(t, (n - 1) as nat, log),
            }
        }),
{
    reveal_with_fuel(ran, 2);
}

} // verus!
