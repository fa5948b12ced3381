//! UART16550A serial port.

use vstd::prelude::*;

verus! {

/// Serial port; what it sent is in `out`.
pub struct Serial {
    pub thr: u8,
    pub ier: u8,
    pub lcr: u8,
    pub mcr: u8,
    pub lsr: u8,
    pub msr: u8,
    pub dlab: bool,
    pub out: Vec<u8>,
}

/// The state of a `Serial`.
pub struct SerialState {
    pub thr: u8,
    pub ier: u8,
    pub lcr: u8,
    pub mcr: u8,
    pub lsr: u8,
    pub msr: u8,
    pub dlab: bool,
    pub out: Seq<u8>,
}

impl View for Serial {
    type V = SerialState;

    open spec fn view(&self) -> SerialState {
        SerialState {
            thr: self.thr,
            ier: self.ier,
            lcr: self.lcr,
            mcr: self.mcr,
            lsr: self.lsr,
            msr: self.msr,
            dlab: self.dlab,
            out: self.out@,
        }
    }
}

impl SerialState {
    pub open spec fn initial() -> SerialState {
        SerialState {
            thr: 0,
            ier: 0,
            lcr: 0x03,
            mcr: 0,
            lsr: 0x60,
            msr: 0x10,
            dlab: false,
            out: Seq::empty(),
        }
    }

    pub open spec fn port_value(self, port: u16) -> u8 {
        match port {
            0x3FA => 0x01,
            0x3FB => self.lcr,
            0x3FC => self.mcr,
            0x3FD => self.lsr,
            0x3FE => self.msr,
            _ => 0,
        }
    }

    /// A write; the data port sends the byte unless it stands for the divisor.
    pub open spec fn written(self, port: u16, val: u8) -> SerialState {
        match port {
            0x3FB => SerialState { lcr: val, dlab: val & 0x80 != 0, ..self },
            0x3F8 => if self.dlab {
                self
            } else {
                SerialState {
                    thr: val,
                    lsr: self.lsr | 0x40,
                    out: self.out.push(val),
                    ..self
                }
            },
            0x3F9 => SerialState { ier: val, ..self },
            0x3FC => SerialState { mcr: val, ..self },
            _ => self,
        }
    }
}

impl Serial {
    pub fn new() -> (s: Serial)
        ensures
            s@ == SerialState::initial(),
    {
        Serial {
            thr: 0,
            ier: 0,
            lcr: 0x03,
            mcr: 0,
            lsr: 0x60,
            msr: 0x10,
            dlab: false,
            out: Vec::new(),
        }
    }

    pub fn read(&mut self, port: u16) -> (v: u8)
        ensures
            final(self)@ == old(self)@,
            v == old(self)@.port_value(port),
    {
        match port {
            0x3FA => 0x01,
            0x3FB => self.lcr,
            0x3FC => self.mcr,
            0x3FD => self.lsr,
            0x3FE => self.msr,
            _ => 0,
        }
    }

    pub fn write(&mut self, port: u16, val: u8)
        ensures
            final(self)@ == old(self)@.written(port, val),
    {
        match port {
            0x3FB => {
                self.lcr = val;
                self.dlab = val & 0x80 != 0;
            },
            0x3F8 => {
                if !self.dlab {
                    self.thr = val;
                    self.lsr = self.lsr | 0x40;
                    self.out.push(val);
                }
            },
            0x3F9 => {
                self.ier = val;
            },
            0x3FC => {
                self.mcr = val;
            },
            _ => {},
        }
    }
}

impl Default for Serial {
    fn default() -> (s: Self)
        ensures
            s@ == SerialState::initial(),
    {
        Serial::new()
    }
}

/// With the divisor closed, bytes are sent in the order in which they are
/// written.
pub proof fn bytes_are_sent_in_order(s: SerialState, a: u8, b: u8)
    requires
        !s.dlab,
    ensures
        s.written(0x3F8, a).written(0x3F8, b).out == s.out.push(a).push(b),
{
}

} // verus!
