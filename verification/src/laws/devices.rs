//! Laws of the devices: what their ports do.

use vstd::prelude::*;

use crate::bits::lemma_casts;
use crate::device::cmos::{CmosState, DmaState};
use crate::device::fdc::FdcState;
use crate::device::machine::MachineState;
use crate::device::pic::{Irq, Pic, PicChip};
use crate::device::pit::PitState;
use crate::device::ps2::Ps2State;
use crate::device::serial::SerialState;

verus! {

/// Bytes of a count, bits of commands, and single lines.
#[verifier::spinoff_prover]
proof fn lemma_byte_bits(c: u16, v: u8, k: u8, n: u8, w: u8)
    ensures
        (c & 0xFF00) | v as u16 == c - c % 0x100 + v,
        (c & 0x00FF) | (v as u16) << 8 == c % 0x100 + 0x100 * v,
        c as u8 == c % 0x100,
        v & 0xF8 == v - v % 8,
        v & 2 == 0 <==> v / 2 % 2 == 0,
        v & 4 == 0 <==> v / 4 % 2 == 0,
        v & 8 == 0 <==> v / 8 % 2 == 0,
        v & 0x10 == 0 <==> v / 0x10 % 2 == 0,
        v & 0x18 == 0 <==> v / 8 % 4 == 0,
        v & 0x20 == 0 <==> v / 0x20 % 2 == 0,
        v & 0x80 == 0 <==> v < 0x80,
        v < 2 ==> v | 0x80 == v + 0x80,
        (v & 0xF) | 0xF0 == 0xF0 + v % 16,
        v | 0x01 == v - v % 2 + 1,
        v & !0x01u8 == v - v % 2,
        v | 0x40 == (if v / 0x40 % 2 == 1 {
            v as int
        } else {
            v + 0x40
        }),
        k < 8 && n < 8 && k == n ==> (w | (1u8 << n)) & (1u8 << k) != 0,
        k < 8 && n < 8 && k != n ==> (w | (1u8 << n)) & (1u8 << k) == w & (1u8 << k),
        k < 8 && n < 8 && k == n ==> (w & !(1u8 << n)) & (1u8 << k) == 0,
        k < 8 && n < 8 && k != n ==> (w & !(1u8 << n)) & (1u8 << k) == w & (1u8 << k),
{
    assert(((c & 0xFF00) | v as u16 == c - c % 0x100 + v) && ((c & 0x00FF) | (v as u16) << 8
        == c % 0x100
        + 0x100 * v) && (c as u8 == c % 0x100) && (v & 0xF8 == v - v % 8) && (v & 2 == 0
            <==> v / 2 % 2 == 0)
        && (v & 4 == 0 <==> v / 4 % 2 == 0) && (v & 8 == 0 <==> v / 8 % 2 == 0) && (v & 0x10
            == 0 <==> v / 0x10
        % 2 == 0) && (v & 0x18 == 0 <==> v / 8 % 4 == 0) && (v & 0x20 == 0 <==> v / 0x20 % 2
            == 0) && (v & 0x80
        == 0 <==> v < 0x80) && (v < 2 ==> v | 0x80 == v + 0x80) && ((v & 0xF) | 0xF0 == 0xF0
            + v % 16) && (v
        | 0x01 == v - v % 2 + 1) && (v & !0x01u8 == v - v % 2) && (v | 0x40
            == (if v / 0x40 % 2 == 1 {
        v as int
    } else {
        v + 0x40
    })) && (k < 8 && n < 8 && k == n ==> (w | (1u8 << n)) & (1u8 << k) != 0) && (k < 8
        && n < 8 && k != n ==> (
    w | (1u8 << n)) & (1u8 << k) == w & (1u8 << k)) && (k < 8 && n < 8 && k == n
        ==> (w & !(1u8 << n)) & (1u8
        << k) == 0) && (k < 8 && n < 8 && k != n ==> (w & !(1u8 << n)) & (1u8 << k)
            == w & (1u8 << k)))
        by (bit_vector);
}

/// A channel of the timer takes its count by its access mode: mode 1 the low
/// byte, mode 2 the high byte, any other mode the low byte first and then the
/// high byte. Once its count is complete it starts over with it, a count of 0
/// standing for 65536 cycles; other channels are not touched.
pub proof fn timer_counts_are_written(p: PitState, port: u16, v: u8, other: int)
    requires
        p.wf(),
        0x40 <= port <= 0x42,
        0 <= other < 3,
        other != port - 0x40,
    ensures
        ({
            let ch = port - 0x40;
            let q = p.written(port, v);
            let c = p.count[ch] as int;
            let mode = p.access[ch];
            let low = mode == 1 || (mode != 2 && p.low_byte[ch]);
            let complete = mode == 1 || mode == 2 || !p.low_byte[ch];
            let n = if low {
                c - c % 0x100 + v
            } else {
                c % 0x100 + 0x100 * v
            };
            &&& q.wf()
            &&& q.count[ch] == n
            &&& complete ==> q.reload[ch] == n && q.phases[ch] == (if n == 0 {
                65536
            } else {
                n
            })
            &&& !complete ==> q.reload[ch] == p.reload[ch] && q.phases[ch] == p.phases[ch]
            &&& q.low_byte[ch] == (if mode == 1 || mode == 2 {
                p.low_byte[ch]
            } else {
                !p.low_byte[ch]
            })
            &&& q.count[other] == p.count[other] && q.reload[other] == p.reload[other]
                && q.phases[other]
                == p.phases[other] && q.low_byte[other] == p.low_byte[other]
            &&& q.gate == p.gate && q.latch == p.latch && q.latched == p.latched && q.access
                == p.access
                && q.out2 == p.out2 && q.timer_fired == p.timer_fired
        }),
{
    lemma_byte_bits(p.count[port - 0x40], v, 0, 0, 0);
}

/// A read of a channel gives the latched byte once, else the low byte of its count.
pub proof fn timer_counts_are_read(p: PitState, port: u16)
    requires
        p.wf(),
        0x40 <= port <= 0x42,
    ensures
        ({
            let ch = port - 0x40;
            let (q, v) = p.read_value(port);
            &&& p.latched[ch] ==> v == p.latch[ch] && q == (PitState {
                latched: p.latched.update(ch, false),
                ..p
            })
            &&& !p.latched[ch] ==> v == p.count[ch] as int % 0x100 && q == p
        }),
{
    lemma_byte_bits(p.count[port - 0x40], 0, 0, 0, 0);
}

/// A command for the timer. Its upper two bits number the channel, the next two
/// its access mode, which starts with the low byte; 0 there changes nothing.
/// Channel 3 latches the low byte of the count of each channel whose bit, bit 1
/// for channel 0, is clear.
pub proof fn timer_commands(p: PitState, v: u8, k: int)
    requires
        p.wf(),
        0 <= k < 3,
    ensures
        ({
            let q = p.commanded(v);
            let ch = v as int / 64;
            let mode = v as int / 16 % 4;
            let named = ch < 3 && mode != 0 && k == ch;
            let bit = if k == 0 {
                v as int / 2 % 2
            } else if k == 1 {
                v as int / 4 % 2
            } else {
                v as int / 8 % 2
            };
            let taken = ch == 3 && bit == 0;
            &&& q.wf()
            &&& q.access[k] == (if named {
                mode
            } else {
                p.access[k] as int
            })
            &&& q.low_byte[k] == (named || p.low_byte[k])
            &&& q.latched[k] == (taken || p.latched[k])
            &&& q.latch[k] == (if taken {
                p.count[k] as int % 0x100
            } else {
                p.latch[k] as int
            })
            &&& q.count == p.count && q.reload == p.reload && q.phases == p.phases && q.gate
                == p.gate
                && q.out2 == p.out2 && q.timer_fired == p.timer_fired
        }),
{
    lemma_byte_bits(p.count[0], v, 0, 0, 0);
    lemma_byte_bits(p.count[1], v, 0, 0, 0);
    lemma_byte_bits(p.count[2], v, 0, 0, 0);
}

/// A channel counts its cycles down. With its gate closed, or with nothing to
/// count, it stands still, but for channel 0, which then starts over. When the
/// cycles reach the end it starts over; channel 0 fires the timer, and channel
/// 2 turns its output around.
pub proof fn timer_channels_count_down(p: PitState, ch: int, cycles: u64)
    requires
        p.wf(),
        0 <= ch < 3,
    ensures
        ({
            let q = p.channel_ticked(ch, cycles);
            let full: int = if p.reload[ch] == 0 {
                65536
            } else {
                p.reload[ch] as int
            };
            let left: int = if ch == 0 && p.phases[ch] == 0 {
                full
            } else {
                p.phases[ch] as int
            };
            let runs = p.gate[ch] && left != 0;
            let over = runs && cycles >= left;
            &&& !runs ==> q == p
            &&& runs ==> q.phases[ch] == (if over {
                full
            } else {
                left - cycles
            })
            &&& q.out2 == (p.out2 != (over && ch == 2))
            &&& q.timer_fired == (p.timer_fired || (over && ch == 0))
            &&& forall|k: int| 0 <= k < 3 && k != ch ==> q.phases[k] == p.phases[k]
            &&& q.count == p.count && q.reload == p.reload && q.gate == p.gate && q.latch == p.latch
                && q.latched == p.latched && q.access == p.access && q.low_byte == p.low_byte
        }),
{
}

/// A request sets its bit on the chip that its line belongs to, the master for
/// lines 0 to 7 and the slave for 8 to 15, and nothing else.
pub proof fn requests_are_raised(p: Pic, irq: u8, k: u8)
    requires
        irq < 16,
        k < 8,
    ensures
        ({
            let q = p.raised(irq);
            let n = (irq % 8) as u8;
            &&& irq < 8 ==> q == (Pic { master: PicChip { irr: q.master.irr, ..p.master }, ..p }) && (
            q.master.irr & (1u8 << k) != 0 <==> k == n || p.master.irr & (1u8 << k) != 0)
            &&& irq >= 8 ==> q == (Pic { slave: PicChip { irr: q.slave.irr, ..p.slave }, ..p }) && (
            q.slave.irr & (1u8 << k) != 0 <==> k == n || p.slave.irr & (1u8 << k) != 0)
        }),
{
    let n = (irq % 8) as u8;
    lemma_byte_bits(0, 0, k, n, p.master.irr);
    lemma_byte_bits(0, 0, k, n, p.slave.irr);
}

/// A request that goes into service leaves the request bits and enters the
/// service bits; the others stay.
pub proof fn requests_go_into_service(c: PicChip, line: u8, k: u8)
    requires
        line < 8,
        k < 8,
    ensures
        ({
            let d = c.served(line);
            &&& d == (PicChip { irr: d.irr, isr: d.isr, ..c })
            &&& d.irr & (1u8 << k) != 0 <==> k != line && c.irr & (1u8 << k) != 0
            &&& d.isr & (1u8 << k) != 0 <==> k == line || c.isr & (1u8 << k) != 0
        }),
{
    lemma_byte_bits(0, 0, k, line, c.irr);
    lemma_byte_bits(0, 0, k, line, c.isr);
}

/// An acknowledge takes the slave first, with line 2 of the master going into
/// service as well, and else the master; the vector is the base of the chip
/// plus the number of its line.
pub proof fn acknowledge_asks_the_slave_first(p: Pic)
    ensures
        ({
            let (q, v) = p.acknowledged();
            match (p.slave.due(), p.master.due()) {
                (Some(n), _) => {
                    &&& v == Some(((p.slave.base + n) % 0x100) as u8)
                    &&& q.slave == p.slave.served(n)
                    &&& q.master == p.master.served(2)
                },
                (None, Some(n)) => {
                    &&& v == Some(((p.master.base + n) % 0x100) as u8)
                    &&& q.master == p.master.served(n)
                    &&& q.slave == p.slave
                },
                (None, None) => v is None && q == p,
            }
        }),
{
}

/// A command with bit 4 set starts the initialisation: it clears the chip and
/// masks every line. One with bits 3 and 4 clear and bit 5 set ends the
/// interrupt in service, unless the chip is being initialised. Others do
/// nothing.
pub proof fn interrupt_chip_commands(c: PicChip, v: u8)
    ensures
        ({
            let d = c.commanded(v);
            if v / 0x10 % 2 == 1 {
                d.base == c.base && d.irr == 0 && d.isr == 0 && d.imr == 0xFF && d.icw_step
                    == 1 && !d.auto_eoi
            } else if v / 8 % 2 == 0 && v / 0x20 % 2 == 1 && c.icw_step == 0 {
                d == c.ended()
            } else {
                d == c
            }
        }),
{
    lemma_byte_bits(0, v, 0, 0, 0);
    assert(v / 8 % 4 == 0 <==> v / 8 % 2 == 0 && v / 16 % 2 == 0);
}

/// The data port takes the three words of the initialisation in order: the base
/// of the vectors, a multiple of 8, the cascade, and the mode, whose bit 1 ends
/// interrupts by itself. At any other time it takes the mask.
pub proof fn interrupt_chip_data(c: PicChip, v: u8)
    ensures
        ({
            let d = c.data_written(v);
            &&& d.irr == c.irr && d.isr == c.isr
            &&& c.icw_step == 1 ==> d.base == v - v % 8 && d.icw_step == 2 && d.imr == c.imr
                && d.auto_eoi
                == c.auto_eoi
            &&& c.icw_step == 2 ==> d.icw_step == 3 && d.base == c.base && d.imr == c.imr
                && d.auto_eoi
                == c.auto_eoi
            &&& c.icw_step == 3 ==> d.icw_step == 0 && d.base == c.base && d.imr == c.imr
                && (d.auto_eoi <==> v
                / 2 % 2 == 1)
            &&& c.icw_step == 0 || c.icw_step > 3 ==> d.imr == v && d.icw_step == 0 && d.base
                == c.base
                && d.auto_eoi == c.auto_eoi
        }),
{
    lemma_byte_bits(0, v, 0, 0, 0);
}

/// The ports of the pair: 0x20 and 0x21 are the master's command and data port,
/// 0xA0 and 0xA1 the slave's. Command ports read the lines in service, data
/// ports the mask.
pub proof fn interrupt_ports(p: Pic, v: u8)
    ensures
        p.port_value(0x20) == p.master.isr && p.port_value(0x21) == p.master.imr
            && p.port_value(0xA0)
            == p.slave.isr && p.port_value(0xA1) == p.slave.imr,
        p.written(0x20, v) == (Pic { master: p.master.commanded(v), slave: p.slave }),
        p.written(0x21, v) == (Pic { master: p.master.data_written(v), slave: p.slave }),
        p.written(0xA0, v) == (Pic { master: p.master, slave: p.slave.commanded(v) }),
        p.written(0xA1, v) == (Pic { master: p.master, slave: p.slave.data_written(v) }),
        Irq::Timer.number() == 0 && Irq::Keyboard.number() == 1 && Irq::PicSlave.number() == 2
            && Irq::Serial2.number() == 3 && Irq::Serial1.number() == 4 && Irq::Fdc.number() == 6
            && Irq::Rtc.number() == 8 && Irq::Ps2Mouse.number() == 12 && Irq::Ide.number() == 14,
{
}

/// The clock chip: port 0x70 takes the number of a register in its low seven
/// bits and the NMI mask in the eighth, and reads the mask with bit 7 set; port
/// 0x71 is the register. Port 0x08 of the DMA chip reads the mask with the
/// upper four bits set.
pub proof fn clock_chip_ports(c: CmosState, v: u8, d: DmaState)
    ensures
        c.written(0x70, v).sel == v % 0x80,
        c.written(0x70, v).nmi_mask == v / 0x80,
        c.written(0x70, v).regs == c.regs,
        c.sel < 0x80 ==> c.written(0x71, v)
            == (CmosState { regs: c.regs.update(c.sel as int, v), ..c }),
        c.sel < 0x80 ==> c.port_value(0x71) == c.regs[c.sel as int],
        c.nmi_mask < 2 ==> c.port_value(0x70) == 0x80 + c.nmi_mask,
        d.port_value(0x08) == 0xF0 + d.mask % 16,
        d.port_value(0xDA) == 0,
{
    lemma_byte_bits(0, c.nmi_mask, 0, 0, 0);
    lemma_byte_bits(0, d.mask, 0, 0, 0);
}

/// The keyboard controller: its status has bit 0 set exactly while a byte waits
/// once one was read or put there. Commands 0x20, 0xAA, 0xA9 and 0xAB answer
/// with the command byte, 0x55, 0 and 0; command 0x60 takes the next data byte
/// as the command byte. Other data goes to the keyboard, which acknowledges
/// what it knows with 0xFA and a reset with 0xAA after it.
pub proof fn keyboard_controller_ports(s: Ps2State, v: u8)
    ensures
        ({
            let c = s.written(0x64, v);
            let answers = v == 0x20 || v == 0xAA || v == 0xA9 || v == 0xAB;
            &&& c.command == v && c.command_byte == s.command_byte && c.queue == s.queue
            &&& answers ==> c.has_data && c.status == s.status - s.status % 2 + 1 && c.data
                == (if v == 0x20 {
                s.command_byte
            } else if v == 0xAA {
                0x55
            } else {
                0
            })
            &&& !answers ==> c.has_data == s.has_data && c.status == s.status && c.data == s.data
        }),
        ({
            let d = s.written(0x60, v);
            let known = v == 0xFF || v == 0xF4 || v == 0xF5 || v == 0xF6 || v == 0xED || v == 0xF3;
            if s.command == 0x60 {
                d == (Ps2State { command_byte: v, command: 0, ..s })
            } else if known {
                &&& d.data == v && d.has_data && d.status == s.status - s.status % 2 + 1
                    && d.command
                    == s.command && d.command_byte == s.command_byte
                &&& v == 0xFF ==> d.queue == s.queue.push(0xFA).push(0xAA)
                &&& v != 0xFF ==> d.queue == s.queue.push(0xFA)
            } else {
                d == (Ps2State { data: v, ..s })
            }
        }),
        ({
            let (r, x) = s.read_value(0x60);
            &&& s.queue.len() > 0 ==> x == s.queue[0] && r.queue == s.queue.skip(1)
            &&& s.queue.len() == 0 ==> x == s.data && r.queue == s.queue
            &&& r.data == x
            &&& r.has_data == (s.queue.len() > 1)
            &&& r.status == (if s.queue.len() > 1 {
                s.status - s.status % 2 + 1
            } else {
                s.status - s.status % 2
            })
            &&& r.command == s.command && r.command_byte == s.command_byte
        }),
        s.read_value(0x64) == (s, s.status),
{
    lemma_byte_bits(0, s.status, 0, 0, 0);
    let t = (s.status - s.status % 2) as u8;
    lemma_byte_bits(0, t, 0, 0, 0);
    assert((s.status & !0x01) == t);
    assert(s.queue + seq![0xFAu8, 0xAAu8] =~= s.queue.push(0xFA).push(0xAA));
    assert(s.queue + seq![0xFAu8] =~= s.queue.push(0xFA));
}

/// The serial port: 0x3F8 sends a byte, unless bit 7 of the line control makes
/// it the divisor; 0x3F9, 0x3FB and 0x3FC take the interrupt, line and modem
/// control. The line status reads bit 6 set after a byte was sent.
pub proof fn serial_ports(s: SerialState, v: u8)
    ensures
        s.written(0x3F9, v) == (SerialState { ier: v, ..s }),
        s.written(0x3FB, v) == (SerialState { lcr: v, dlab: v >= 0x80, ..s }),
        s.written(0x3FC, v) == (SerialState { mcr: v, ..s }),
        s.dlab ==> s.written(0x3F8, v) == s,
        !s.dlab ==> s.written(0x3F8, v) == (SerialState {
            thr: v,
            lsr: (if s.lsr / 0x40 % 2 == 1 {
                s.lsr as int
            } else {
                s.lsr + 0x40
            }) as u8,
            out: s.out.push(v),
            ..s
        }),
        s.port_value(0x3FA) == 1 && s.port_value(0x3FB) == s.lcr && s.port_value(0x3FC) == s.mcr
            && s.port_value(0x3FD) == s.lsr && s.port_value(0x3FE) == s.msr,
{
    lemma_byte_bits(0, v, 0, 0, 0);
    lemma_byte_bits(0, s.lsr, 0, 0, 0);
}

/// The floppy controller: the status has bit 7 set, and bit 6 while a result
/// waits; results come in order. A reset that ends, bit 2 of the output
/// register going from clear to set, raises its interrupt. A command is the low
/// five bits of the first byte: 7 has one parameter and 15 two, and their last
/// one raises the interrupt; 8 leaves two result bytes.
pub proof fn floppy_controller_ports(f: FdcState, v: u8)
    ensures
        f.read_value(0x3F4) == (
            f,
            if f.result.len() == 0 {
                0x80u8
            } else {
                0xC0u8
            },
        ),
        f.result.len() > 0 ==> f.read_value(0x3F5) == (
            FdcState { result: f.result.skip(1), ..f },
            f.result[0],
        ),
        f.result.len() == 0 ==> f.read_value(0x3F5) == (f, f.data),
        f.written(0x3F2, v).0 == (FdcState { dor: v, ..f }),
        f.written(0x3F2, v).1 <==> f.dor / 4 % 2 == 0 && v / 4 % 2 == 1,
        f.params_needed == 0 ==> ({
            let (g, irq) = f.written(0x3F5, v);
            &&& !irq
            &&& g.data == v && g.command == v % 0x20 && g.dor == f.dor
            &&& g.params_needed == (if v % 0x20 == 7 {
                1int
            } else if v % 0x20 == 15 {
                2
            } else {
                0
            })
            &&& g.result == (if v % 0x20 == 8 {
                seq![0x20u8, 0u8]
            } else {
                f.result
            })
        }),
        f.params_needed > 0 ==> ({
            let (g, irq) = f.written(0x3F5, v);
            &&& g == (FdcState { data: v, params_needed: (f.params_needed - 1) as u8, ..f })
            &&& irq <==> f.params_needed == 1 && (f.command == 7 || f.command == 15)
        }),
{
    lemma_byte_bits(0, f.dor, 0, 0, 0);
    lemma_byte_bits(0, v, 0, 0, 0);
}

/// Which device a port write reaches; the low byte of the data is written. A
/// port of no device takes nothing.
pub proof fn port_writes_reach_their_device(s: MachineState, port: u16, data: u32)
    ensures
        ({
            let t = s.port_out(port, data);
            let v = (data % 0x100) as u8;
            &&& port == 0x20 || port == 0x21 || port == 0xA0 || port == 0xA1 ==> t
                == (MachineState {
                pic: s.pic.written(port, v),
                ..s
            })
            &&& 0x40 <= port <= 0x42 ==> t.pit == s.pit.written(port, v) && t.pic == s.pic
                && t.cmos == s.cmos
                && t.fdc == s.fdc && t.ps2 == s.ps2 && t.serial == s.serial
            &&& port == 0x43 ==> t.pit == s.pit.commanded(v) && t.pic == s.pic && t.cmos
                == s.cmos && t.fdc
                == s.fdc && t.ps2 == s.ps2 && t.serial == s.serial
            &&& port == 0x70 || port == 0x71 ==> t
                == (MachineState { cmos: s.cmos.written(port, v), ..s })
            &&& port == 0x60 || port == 0x64 ==> t
                == (MachineState { ps2: s.ps2.written(port, v), ..s })
            &&& port == 0x3F8 || 0x3FA <= port <= 0x3FE ==> t == (MachineState {
                serial: s.serial.written(port, v),
                ..s
            })
            &&& 0x3F0 <= port <= 0x3F7 ==> t == (MachineState {
                fdc: s.fdc.written(port, v).0,
                pic: if s.fdc.written(port, v).1 {
                    s.pic.raised(6)
                } else {
                    s.pic
                },
                ..s
            })
            &&& port == 0xE9 || port == 0x402 || port == 0x403 ==> t == (MachineState {
                debug_bytes: s.debug_bytes.push(v),
                ..s
            })
            &&& port == 0x61 || port == 0x80 || port > 0x403 ==> t == s
        }),
{
    lemma_casts(0, 0, data);
}

/// Which device answers a port read; a port of no device reads 0xFF.
pub proof fn port_reads_come_from_their_device(s: MachineState, port: u16)
    ensures
        ({
            let (t, v) = s.port_in(port);
            &&& port == 0x20 || port == 0x21 || port == 0xA0 || port == 0xA1 ==> t == s && v
                == s.pic.port_value(port)
            &&& 0x40 <= port <= 0x43 ==> t
                == (MachineState { pit: s.pit.read_value(port).0, ..s }) && v
                == s.pit.read_value(port).1
            &&& port == 0x61 ==> t == s && v == (if s.pit.out2 {
                0x30int
            } else {
                0x10
            })
            &&& port == 0x70 || port == 0x71 ==> t == s && v == s.cmos.port_value(port)
            &&& port == 0x60 || port == 0x64 ==> t
                == (MachineState { ps2: s.ps2.read_value(port).0, ..s }) && v
                == s.ps2.read_value(port).1
            &&& port == 0x3F8 || 0x3FA <= port <= 0x3FE ==> t == s && v == s.serial.port_value(port)
            &&& 0x3F0 <= port <= 0x3F7 ==> t
                == (MachineState { fdc: s.fdc.read_value(port).0, ..s }) && v
                == s.fdc.read_value(port).1
            &&& port == 0x80 || port > 0x403 ==> t == s && v == 0xFF
        }),
{
}

/// Cycles that pass move the clock and the timer on; a timer that fires
/// requests line 0, once.
pub proof fn cycles_pass(s: MachineState, cycles: u64)
    ensures
        ({
            let t = s.ticked(cycles);
            &&& t.total_cycles == (s.total_cycles + cycles) % 0x1_0000_0000_0000_0000
            &&& t.pit == s.pit.ticked(cycles)
            &&& t.pit.timer_fired ==> t.pic == s.pic.raised(0) && t.timer_irqs_raised == (
            s.timer_irqs_raised + 1) % 0x1_0000_0000_0000_0000
            &&& !t.pit.timer_fired ==> t.pic == s.pic && t.timer_irqs_raised == s.timer_irqs_raised
            &&& t.cmos == s.cmos && t.fdc == s.fdc && t.ps2 == s.ps2 && t.serial == s.serial
        }),
{
}

/// Writes and commands for channel 0 of the timer are counted, and the last byte
/// and when it came are kept; other channels leave the counts.
pub proof fn timer_writes_are_counted(s: MachineState, v: u8, port: u16)
    ensures
        ({
            let t = s.port_out(0x40, v as u32);
            &&& t.pit0_writes == (s.pit0_writes + 1) % 0x1_0000_0000_0000_0000
            &&& t.last_pit0_write == v && t.last_pit0_cycle == s.total_cycles
            &&& t.pit0_cmds == s.pit0_cmds && t.last_pit0_cmd == s.last_pit0_cmd
        }),
        ({
            let t = s.port_out(0x43, v as u32);
            &&& v < 0x40 ==> t.pit0_cmds == (s.pit0_cmds + 1) % 0x1_0000_0000_0000_0000
                && t.last_pit0_cmd == v && t.last_pit0_cycle == s.total_cycles
            &&& v >= 0x40 ==> t.pit0_cmds == s.pit0_cmds && t.last_pit0_cmd == s.last_pit0_cmd
                && t.last_pit0_cycle == s.last_pit0_cycle
            &&& t.pit0_writes == s.pit0_writes
        }),
        port == 0x41 || port == 0x42 ==> s.port_out(port, v as u32).pit0_writes == s.pit0_writes,
{
    lemma_casts(0, v, 0);
}

/// The DMA chip takes a mode at its ports but 0x09, which takes nothing.
pub proof fn dma_writes(s: MachineState, port: u16, v: u8)
    ensures
        port == 0x08 || 0x0A <= port <= 0x0D || port == 0xDA ==> s.port_out(port, v as u32) == (
        MachineState { dma: DmaState { mode: v, ..s.dma }, ..s }),
        s.port_out(0x09, v as u32) == s,
        port == 0x08 || port == 0xDA ==> s.port_in(port) == (s, s.dma.port_value(port) as u32),
{
    lemma_casts(0, v, 0);
}

/// What the debugger sees of the machine.
pub proof fn debugger_sees_the_machine(s: MachineState)
    ensures
        ({
            let d = s.debug_view();
            &&& d.total_cycles == s.total_cycles && d.timer_irqs_raised == s.timer_irqs_raised
            &&& d.pic_imr == s.pic.master.imr && d.pic_irr == s.pic.master.irr && d.pic_isr
                == s.pic.master.isr
            &&& d.pit_reload0 == s.pit.reload[0] && d.pit_phase0 == s.pit.phases[0]
                && d.pit_timer_fired == s.pit.timer_fired
            &&& d.pit0_cmds == s.pit0_cmds && d.pit0_writes == s.pit0_writes
            &&& d.last_pit0_cmd == s.last_pit0_cmd && d.last_pit0_write == s.last_pit0_write
                && d.last_pit0_cycle == s.last_pit0_cycle
        }),
{
}

} // verus!
