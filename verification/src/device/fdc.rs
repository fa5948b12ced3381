//! NEC uPD765 / Intel 8272 floppy controller (minimal POST/boot stub).

use std::collections::VecDeque;

use vstd::prelude::*;

verus! {

/// Floppy disk controller.
pub struct Fdc {
    pub dor: u8,
    pub data: u8,
    pub command: u8,
    pub params_needed: u8,
    pub result: VecDeque<u8>,
}

/// The state of an `Fdc`.
pub struct FdcState {
    pub dor: u8,
    pub data: u8,
    pub command: u8,
    pub params_needed: u8,
    pub result: Seq<u8>,
}

impl View for Fdc {
    type V = FdcState;

    open spec fn view(&self) -> FdcState {
        FdcState {
            dor: self.dor,
            data: self.data,
            command: self.command,
            params_needed: self.params_needed,
            result: self.result@,
        }
    }
}

/// How many parameter bytes follow a command.
pub open spec fn fdc_params(command: u8) -> u8 {
    match command {
        0x07 => 1,
        0x0F => 2,
        _ => 0,
    }
}

impl FdcState {
    pub open spec fn initial() -> FdcState {
        FdcState { dor: 0, data: 0, command: 0, params_needed: 0, result: Seq::empty() }
    }

    /// A read: the status tells whether a result byte waits, the data port hands
    /// the results out in order.
    pub open spec fn read_value(self, port: u16) -> (FdcState, u8) {
        match port {
            0x3F4 => (
                self,
                if self.result.len() == 0 {
                    0x80
                } else {
                    0xC0
                },
            ),
            0x3F5 => if self.result.len() == 0 {
                (self, self.data)
            } else {
                (FdcState { result: self.result.skip(1), ..self }, self.result[0])
            },
            0x3F7 => (self, 0x00),
            _ => (self, 0xFF),
        }
    }

    /// A byte for the data port: a command, or a parameter of the last command.
    pub open spec fn data_written(self, val: u8) -> (FdcState, bool) {
        if self.params_needed == 0 {
            let command = (val % 0x20) as u8;
            (
                FdcState {
                    data: val,
                    command,
                    params_needed: fdc_params(command),
                    result: if command == 0x08 {
                        seq![0x20, 0x00]
                    } else {
                        self.result
                    },
                    ..self
                },
                false,
            )
        } else {
            let left = (self.params_needed - 1) as u8;
            (
                FdcState { data: val, params_needed: left, ..self },
                left == 0 && (self.command == 0x07 || self.command == 0x0F),
            )
        }
    }

    /// A write, and whether it raises the interrupt: the end of a reset, of a
    /// recalibration or of a seek.
    pub open spec fn written(self, port: u16, val: u8) -> (FdcState, bool) {
        match port {
            0x3F2 => (FdcState { dor: val, ..self }, self.dor & 0x04 == 0 && val & 0x04 != 0),
            0x3F5 => self.data_written(val),
            _ => (self, false),
        }
    }
}

impl Fdc {
    pub fn new() -> (f: Fdc)
        ensures
            f@ == FdcState::initial(),
    {
        Fdc { dor: 0, data: 0, command: 0, params_needed: 0, result: VecDeque::new() }
    }

    pub fn read(&mut self, port: u16) -> (v: u8)
        ensures
            (final(self)@, v) == old(self)@.read_value(port),
    {
        match port {
            // Main Status Register: RQM set; DIO follows whether a result byte
            // is waiting for the CPU.
            0x3F4 => if self.result.len() == 0 {
                0x80
            } else {
                0xC0
            },
            0x3F5 => match self.result.pop_front() {
                Some(b) => {
                    assert(self.result@ =~= old(self).result@.skip(1));
                    b
                },
                None => self.data,
            },
            // Digital input register: disk-change line inactive.
            0x3F7 => 0x00,
            _ => 0xFF,
        }
    }

    fn write_data(&mut self, val: u8) -> (irq: bool)
        ensures
            (final(self)@, irq) == old(self)@.data_written(val),
    {
        self.data = val;
        if self.params_needed == 0 {
            self.command = val % 0x20;
            self.params_needed = match self.command {
                0x07 => 1,  // recalibrate
                0x08 => {
                    self.result.clear();
                    self.result.push_back(0x20);  // seek/recal complete
                    self.result.push_back(0x00);  // present cylinder
                    assert(self.result@ =~= seq![0x20u8, 0x00u8]);
                    0
                },
                0x0F => 2,  // seek
                _ => 0,
            };
            false
        } else {
            self.params_needed = self.params_needed - 1;
            self.params_needed == 0 && matches!(self.command, 0x07 | 0x0F)
        }
    }

    pub fn write(&mut self, port: u16, val: u8) -> (irq: bool)
        ensures
            (final(self)@, irq) == old(self)@.written(port, val),
    {
        match port {
            0x3F2 => {
                let reset_released = self.dor & 0x04 == 0 && val & 0x04 != 0;
                self.dor = val;
                reset_released
            },
            0x3F5 => self.write_data(val),
            _ => false,
        }
    }
}

impl Default for Fdc {
    fn default() -> (f: Self)
        ensures
            f@ == FdcState::initial(),
    {
        Fdc::new()
    }
}

/// Sense-interrupt reports the end of a seek on cylinder 0: the status tells of
/// the two result bytes until both are read.
pub proof fn sense_interrupt_reports_two_bytes(f: FdcState)
    requires
        f.params_needed == 0,
    ensures
        ({
            let g = f.written(0x3F5, 0x08).0;
            let h = g.read_value(0x3F5).0;
            let k = h.read_value(0x3F5).0;
            &&& g.read_value(0x3F4).1 == 0xC0
            &&& g.read_value(0x3F5).1 == 0x20
            &&& h.read_value(0x3F4).1 == 0xC0
            &&& h.read_value(0x3F5).1 == 0x00
            &&& k.read_value(0x3F4).1 == 0x80
        }),
{
}

/// A seek takes two parameters and a recalibration one; the last raises the
/// interrupt.
pub proof fn seek_ends_with_its_last_parameter(f: FdcState, a: u8, b: u8)
    requires
        f.params_needed == 0,
    ensures
        ({
            let (g, r1) = f.written(0x3F5, 0x0F);
            let (h, r2) = g.written(0x3F5, a);
            let (k, r3) = h.written(0x3F5, b);
            !r1 && !r2 && r3 && k.params_needed == 0
        }),
        ({
            let (g, r1) = f.written(0x3F5, 0x07);
            let (h, r2) = g.written(0x3F5, a);
            !r1 && r2 && h.params_needed == 0
        }),
{
}

} // verus!
