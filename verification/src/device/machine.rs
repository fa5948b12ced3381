//! The machine: all devices behind their ports.

use vstd::prelude::*;

use crate::device::cmos::{Cmos, CmosState, Dma, DmaState};
use crate::device::fdc::{Fdc, FdcState};
use crate::device::pic::{Irq, Pic};
use crate::device::pit::{Pit, PitState};
use crate::device::ps2::{Ps2Kbd, Ps2State};
use crate::device::serial::{Serial, SerialState};
use crate::mem::{DevEvent, Device};

verus! {

/// The devices of a PC.
pub struct Machine {
    pub pic: Pic,
    pub pit: Pit,
    pub cmos: Cmos,
    pub dma: Dma,
    pub fdc: Fdc,
    pub ps2: Ps2Kbd,
    pub serial: Serial,
    /// Port E9 debug output from the Bochs BIOS.
    pub debug_bytes: Vec<u8>,
    pub total_cycles: u64,
    pub timer_irqs_raised: u64,
    pub pit0_cmds: u64,
    pub pit0_writes: u64,
    pub last_pit0_cmd: u8,
    pub last_pit0_write: u8,
    pub last_pit0_cycle: u64,
    /// The exchanges with the CPU so far.
    pub exchanges: Ghost<Seq<DevEvent>>,
}

/// The state of a `Machine`.
pub struct MachineState {
    pub pic: Pic,
    pub pit: PitState,
    pub cmos: CmosState,
    pub dma: DmaState,
    pub fdc: FdcState,
    pub ps2: Ps2State,
    pub serial: SerialState,
    pub debug_bytes: Seq<u8>,
    pub total_cycles: u64,
    pub timer_irqs_raised: u64,
    pub pit0_cmds: u64,
    pub pit0_writes: u64,
    pub last_pit0_cmd: u8,
    pub last_pit0_write: u8,
    pub last_pit0_cycle: u64,
}

impl View for Machine {
    type V = MachineState;

    open spec fn view(&self) -> MachineState {
        MachineState {
            pic: self.pic,
            pit: self.pit@,
            cmos: self.cmos@,
            dma: self.dma@,
            fdc: self.fdc@,
            ps2: self.ps2@,
            serial: self.serial@,
            debug_bytes: self.debug_bytes@,
            total_cycles: self.total_cycles,
            timer_irqs_raised: self.timer_irqs_raised,
            pit0_cmds: self.pit0_cmds,
            pit0_writes: self.pit0_writes,
            last_pit0_cmd: self.last_pit0_cmd,
            last_pit0_write: self.last_pit0_write,
            last_pit0_cycle: self.last_pit0_cycle,
        }
    }
}

/// A summary of the timer and the interrupt controller.
#[derive(Debug, Clone, Copy, PartialEq, Eq, Structural)]
pub struct MachineDebug {
    pub total_cycles: u64,
    pub pic_imr: u8,
    pub pic_irr: u8,
    pub pic_isr: u8,
    pub pit_reload0: u16,
    pub pit_phase0: u64,
    pub pit_timer_fired: bool,
    pub timer_irqs_raised: u64,
    pub pit0_cmds: u64,
    pub pit0_writes: u64,
    pub last_pit0_cmd: u8,
    pub last_pit0_write: u8,
    pub last_pit0_cycle: u64,
}

/// The devices that ports belong to.
#[derive(Debug, Clone, Copy, PartialEq, Eq, Structural)]
pub enum PortOwner {
    Pic,
    Pit,
    PitCommand,
    System,
    Cmos,
    Dma,
    Fdc,
    Ps2,
    Serial,
    Debug,
    Nobody,
}

impl PortOwner {
    /// The device behind `port`.
    pub open spec fn of(port: u16) -> PortOwner {
        if port == 0x20 || port == 0x21 || port == 0xA0 || port == 0xA1 {
            PortOwner::Pic
        } else if 0x40 <= port <= 0x42 {
            PortOwner::Pit
        } else if port == 0x43 {
            PortOwner::PitCommand
        } else if port == 0x61 {
            PortOwner::System
        } else if port == 0x70 || port == 0x71 {
            PortOwner::Cmos
        } else if 0x08 <= port <= 0x0D || port == 0xDA {
            PortOwner::Dma
        } else if 0x3F0 <= port <= 0x3F7 {
            PortOwner::Fdc
        } else if port == 0x60 || port == 0x64 {
            PortOwner::Ps2
        } else if port == 0x3F8 || 0x3FA <= port <= 0x3FE {
            PortOwner::Serial
        } else if port == 0x402 || port == 0x403 || port == 0xE9 {
            PortOwner::Debug
        } else {
            PortOwner::Nobody
        }
    }

    /// The device behind `port`.
    pub fn find(port: u16) -> (o: PortOwner)
        ensures
            o == PortOwner::of(port),
    {
        match port {
            0x20 | 0x21 | 0xA0 | 0xA1 => PortOwner::Pic,
            0x40..=0x42 => PortOwner::Pit,
            0x43 => PortOwner::PitCommand,
            0x61 => PortOwner::System,
            0x70 | 0x71 => PortOwner::Cmos,
            0x08..=0x0D | 0xDA => PortOwner::Dma,
            0x3F0..=0x3F7 => PortOwner::Fdc,
            0x60 | 0x64 => PortOwner::Ps2,
            0x3F8 => PortOwner::Serial,
            0x3FA..=0x3FE => PortOwner::Serial,
            0x402 | 0x403 | 0xE9 => PortOwner::Debug,
            _ => PortOwner::Nobody,
        }
    }
}

impl MachineState {
    pub open spec fn initial() -> MachineState {
        MachineState {
            pic: Pic::initial(),
            pit: PitState::initial(),
            cmos: CmosState::initial(),
            dma: DmaState::initial(),
            fdc: FdcState::initial(),
            ps2: Ps2State::initial(),
            serial: SerialState::initial(),
            debug_bytes: Seq::empty(),
            total_cycles: 0,
            timer_irqs_raised: 0,
            pit0_cmds: 0,
            pit0_writes: 0,
            last_pit0_cmd: 0,
            last_pit0_write: 0,
            last_pit0_cycle: 0,
        }
    }

    /// A port read: the state after it, and the value.
    pub open spec fn port_in(self, port: u16) -> (MachineState, u32) {
        match PortOwner::of(port) {
            PortOwner::Pic => (self, self.pic.port_value(port) as u32),
            PortOwner::Pit | PortOwner::PitCommand => {
                let (pit, v) = self.pit.read_value(port);
                (MachineState { pit, ..self }, v as u32)
            },
            // Bit 4 is always set; bit 5 is the output of timer channel 2.
            PortOwner::System => (
                self,
                if self.pit.out2 {
                    0x30
                } else {
                    0x10
                },
            ),
            PortOwner::Cmos => (self, self.cmos.port_value(port) as u32),
            PortOwner::Dma => (self, self.dma.port_value(port) as u32),
            PortOwner::Fdc => {
                let (fdc, v) = self.fdc.read_value(port);
                (MachineState { fdc, ..self }, v as u32)
            },
            PortOwner::Ps2 => {
                let (ps2, v) = self.ps2.read_value(port);
                (MachineState { ps2, ..self }, v as u32)
            },
            PortOwner::Serial => (self, self.serial.port_value(port) as u32),
            PortOwner::Debug => (self, 0),
            PortOwner::Nobody => (self, 0xFF),
        }
    }

    /// A write to a channel of the timer; writes to channel 0 are counted.
    pub open spec fn pit_out(self, port: u16, v: u8) -> MachineState {
        let s = MachineState { pit: self.pit.written(port, v), ..self };
        if port == 0x40 {
            MachineState {
                pit0_writes: self.pit0_writes.wrapping_add(1),
                last_pit0_write: v,
                last_pit0_cycle: self.total_cycles,
                ..s
            }
        } else {
            s
        }
    }

    /// A command for the timer; commands for channel 0 are counted.
    pub open spec fn pit_command(self, v: u8) -> MachineState {
        let s = MachineState { pit: self.pit.commanded(v), ..self };
        if v < 0x40 {
            MachineState {
                pit0_cmds: self.pit0_cmds.wrapping_add(1),
                last_pit0_cmd: v,
                last_pit0_cycle: self.total_cycles,
                ..s
            }
        } else {
            s
        }
    }

    /// A port write of the low byte of `data`.
    pub open spec fn port_out(self, port: u16, data: u32) -> MachineState {
        let v = data as u8;
        match PortOwner::of(port) {
            PortOwner::Pic => MachineState { pic: self.pic.written(port, v), ..self },
            PortOwner::Pit => self.pit_out(port, v),
            PortOwner::PitCommand => self.pit_command(v),
            PortOwner::Cmos => MachineState { cmos: self.cmos.written(port, v), ..self },
            PortOwner::Dma => if port == 0x09 {
                self
            } else {
                MachineState { dma: DmaState { mode: v, ..self.dma }, ..self }
            },
            PortOwner::Fdc => {
                let (fdc, irq) = self.fdc.written(port, v);
                MachineState {
                    fdc,
                    pic: if irq {
                        self.pic.raised(Irq::Fdc.number())
                    } else {
                        self.pic
                    },
                    ..self
                }
            },
            PortOwner::Ps2 => MachineState { ps2: self.ps2.written(port, v), ..self },
            PortOwner::Serial => MachineState { serial: self.serial.written(port, v), ..self },
            PortOwner::Debug => MachineState { debug_bytes: self.debug_bytes.push(v), ..self },
            _ => self,
        }
    }

    /// `cycles` pass; an expiry of the timer requests its interrupt.
    pub open spec fn ticked(self, cycles: u64) -> MachineState {
        let pit = self.pit.ticked(cycles);
        let s = MachineState { pit, total_cycles: self.total_cycles.wrapping_add(cycles), ..self };
        if pit.timer_fired {
            MachineState {
                pic: self.pic.raised(Irq::Timer.number()),
                timer_irqs_raised: self.timer_irqs_raised.wrapping_add(1),
                ..s
            }
        } else {
            s
        }
    }

    pub open spec fn debug_view(self) -> MachineDebug {
        MachineDebug {
            total_cycles: self.total_cycles,
            pic_imr: self.pic.master.imr,
            pic_irr: self.pic.master.irr,
            pic_isr: self.pic.master.isr,
            pit_reload0: self.pit.reload[0],
            pit_phase0: self.pit.phases[0],
            pit_timer_fired: self.pit.timer_fired,
            timer_irqs_raised: self.timer_irqs_raised,
            pit0_cmds: self.pit0_cmds,
            pit0_writes: self.pit0_writes,
            last_pit0_cmd: self.last_pit0_cmd,
            last_pit0_write: self.last_pit0_write,
            last_pit0_cycle: self.last_pit0_cycle,
        }
    }
}

impl Machine {
    pub fn new() -> (m: Machine)
        ensures
            m@ == MachineState::initial(),
            m.exchanges@ == Seq::<DevEvent>::empty(),
    {
        Machine {
            pic: Pic::new(),
            pit: Pit::new(),
            cmos: Cmos::new(),
            dma: Dma::new(),
            fdc: Fdc::new(),
            ps2: Ps2Kbd::new(),
            serial: Serial::new(),
            debug_bytes: Vec::new(),
            total_cycles: 0,
            timer_irqs_raised: 0,
            pit0_cmds: 0,
            pit0_writes: 0,
            last_pit0_cmd: 0,
            last_pit0_write: 0,
            last_pit0_cycle: 0,
            exchanges: Ghost(Seq::empty()),
        }
    }

    pub fn debug_state(&self) -> (d: MachineDebug)
        ensures
            d == self@.debug_view(),
    {
        MachineDebug {
            total_cycles: self.total_cycles,
            pic_imr: self.pic.master.imr,
            pic_irr: self.pic.master.irr,
            pic_isr: self.pic.master.isr,
            pit_reload0: self.pit.reload[0],
            pit_phase0: self.pit.phases[0],
            pit_timer_fired: self.pit.timer_fired,
            timer_irqs_raised: self.timer_irqs_raised,
            pit0_cmds: self.pit0_cmds,
            pit0_writes: self.pit0_writes,
            last_pit0_cmd: self.last_pit0_cmd,
            last_pit0_write: self.last_pit0_write,
            last_pit0_cycle: self.last_pit0_cycle,
        }
    }

    fn port_read(&mut self, port: u16) -> (v: u32)
        ensures
            (final(self)@, v) == old(self)@.port_in(port),
            final(self).exchanges == old(self).exchanges,
    {
        match PortOwner::find(port) {
            PortOwner::Pic => self.pic.read(port) as u32,
            PortOwner::Pit => self.pit.read(port) as u32,
            PortOwner::PitCommand => self.pit.read(port) as u32,
            PortOwner::System => if self.pit.out2 {
                0x30
            } else {
                0x10
            },
            PortOwner::Cmos => self.cmos.read(port) as u32,
            PortOwner::Dma => self.dma.read(port) as u32,
            PortOwner::Fdc => self.fdc.read(port) as u32,
            PortOwner::Ps2 => self.ps2.read(port) as u32,
            PortOwner::Serial => self.serial.read(port) as u32,
            PortOwner::Debug => 0,
            PortOwner::Nobody => 0xFF,
        }
    }

    fn port_write(&mut self, port: u16, data: u32)
        ensures
            final(self)@ == old(self)@.port_out(port, data),
            final(self).exchanges == old(self).exchanges,
    {
        let v = data as u8;
        match PortOwner::find(port) {
            PortOwner::Pic => self.pic.write(port, v),
            PortOwner::Pit => {
                if port == 0x40 {
                    self.pit0_writes = self.pit0_writes.wrapping_add(1);
                    self.last_pit0_write = v;
                    self.last_pit0_cycle = self.total_cycles;
                }
                self.pit.write(port, v);
            },
            PortOwner::PitCommand => {
                if v < 0x40 {
                    self.pit0_cmds = self.pit0_cmds.wrapping_add(1);
                    self.last_pit0_cmd = v;
                    self.last_pit0_cycle = self.total_cycles;
                }
                self.pit.cmd(v);
            },
            PortOwner::Cmos => self.cmos.write(port, v),
            PortOwner::Dma => {
                if port != 0x09 {
                    self.dma.write(port, v);
                }
            },
            PortOwner::Fdc => {
                if self.fdc.write(port, v) {
                    self.pic.raise(Irq::Fdc.line());
                }
            },
            PortOwner::Ps2 => self.ps2.write(port, v),
            PortOwner::Serial => self.serial.write(port, v),
            PortOwner::Debug => {
                self.debug_bytes.push(v);
            },
            PortOwner::System | PortOwner::Nobody => {},
        }
    }

    fn advance(&mut self, cycles: u64)
        ensures
            final(self)@ == old(self)@.ticked(cycles),
            final(self).exchanges == old(self).exchanges,
    {
        self.total_cycles = self.total_cycles.wrapping_add(cycles);
        self.pit.tick(cycles);
        if self.pit.timer_fired {
            self.pic.raise(Irq::Timer.line());
            self.timer_irqs_raised = self.timer_irqs_raised.wrapping_add(1);
        }
    }
}

impl Default for Machine {
    fn default() -> (m: Self)
        ensures
            m@ == MachineState::initial(),
    {
        Machine::new()
    }
}

impl Device for Machine {
    open spec fn exchanges(&self) -> Seq<DevEvent> {
        self.exchanges@
    }

    fn io_read(&mut self, port: u16, size: u8) -> (v: u32)
        ensures
            (final(self)@, v) == old(self)@.port_in(port),
    {
        let v = self.port_read(port);
        self.exchanges = Ghost(self.exchanges@.push(DevEvent::In { port, size, value: v }));
        v
    }

    fn io_write(&mut self, port: u16, size: u8, data: u32)
        ensures
            final(self)@ == old(self)@.port_out(port, data),
    {
        self.port_write(port, data);
        self.exchanges = Ghost(self.exchanges@.push(DevEvent::Out { port, size, data }));
    }

    fn ack_irq(&mut self) -> (vector: Option<u8>)
        ensures
            final(self)@ == (MachineState { pic: old(self).pic.acknowledged().0, ..old(self)@ }),
            vector == old(self).pic.acknowledged().1,
    {
        let vector = self.pic.ack();
        self.exchanges = Ghost(self.exchanges@.push(DevEvent::Ack { vector }));
        vector
    }

    fn tick(&mut self, cycles: u64)
        ensures
            final(self)@ == old(self)@.ticked(cycles),
    {
        self.advance(cycles);
        self.exchanges = Ghost(self.exchanges@.push(DevEvent::Tick { cycles }));
    }
}

/// A byte for the debug port is kept, and changes nothing else.
pub proof fn debug_port_keeps_bytes(s: MachineState, data: u32)
    ensures
        s.port_out(0xE9, data) == (MachineState {
            debug_bytes: s.debug_bytes.push(data as u8),
            ..s
        }),
{
}

/// The output of timer channel 2 is bit 5 of the system port.
pub proof fn channel_2_shows_at_the_system_port(s: MachineState)
    ensures
        s.port_in(0x61).0 == s,
        s.port_in(0x61).1 & 0x20 != 0 <==> s.pit.out2,
{
    assert(0x30u32 & 0x20 != 0 && 0x10u32 & 0x20 == 0) by (bit_vector);
}

/// An expiry of the timer is acknowledged as the vector of line 0, unless the
/// line is masked or the slave has a request.
pub proof fn timer_expiry_reaches_the_cpu(s: MachineState, cycles: u64)
    requires
        s.pit.wf(),
        s.pit.gate[0],
        0 < s.pit.phases[0] <= cycles,
        s.pic.master.imr & 1 == 0,
        s.pic.slave.due() is None,
    ensures
        s.ticked(cycles).pic.acknowledged().1 == Some(s.pic.master.base),
{
    let t = s.ticked(cycles);
    let (irr, imr) = (s.pic.master.irr, s.pic.master.imr);
    assert(imr & 1 == 0 ==> ((irr | (1u8 << 0u8)) & !imr) & (1u8 << 0u8) != 0) by (bit_vector);
    assert(t.pic.master.irr == irr | (1u8 << 0u8));
    assert(t.pic.master.due() == Some(0u8));
}

} // verus!
