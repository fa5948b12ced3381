//! 8042 keyboard controller.

use std::collections::VecDeque;

use vstd::prelude::*;

verus! {

/// Keyboard controller.
pub struct Ps2Kbd {
    pub command: u8,
    pub command_byte: u8,
    pub status: u8,
    pub data: u8,
    pub has_data: bool,
    pub scancode_queue: VecDeque<u8>,
}

/// The state of a `Ps2Kbd`.
pub struct Ps2State {
    pub command: u8,
    pub command_byte: u8,
    pub status: u8,
    pub data: u8,
    pub has_data: bool,
    pub queue: Seq<u8>,
}

impl View for Ps2Kbd {
    type V = Ps2State;

    open spec fn view(&self) -> Ps2State {
        Ps2State {
            command: self.command,
            command_byte: self.command_byte,
            status: self.status,
            data: self.data,
            has_data: self.has_data,
            queue: self.scancode_queue@,
        }
    }
}

/// What the keyboard answers to a command byte: an acknowledge, and after a
/// reset the result of its self-test.
pub open spec fn keyboard_reply(val: u8) -> Seq<u8> {
    match val {
        0xFF => seq![0xFA, 0xAA],
        0xF4 => seq![0xFA],
        0xF5 => seq![0xFA],
        0xF6 => seq![0xFA],
        0xED => seq![0xFA],
        0xF3 => seq![0xFA],
        _ => Seq::empty(),
    }
}

impl Ps2State {
    pub open spec fn initial() -> Ps2State {
        Ps2State {
            command: 0,
            command_byte: 0,
            status: 0x20,
            data: 0,
            has_data: false,
            queue: Seq::empty(),
        }
    }

    /// The output buffer holds `data`.
    pub open spec fn with_output(self, data: u8) -> Ps2State {
        Ps2State { data, has_data: true, status: self.status | 0x01, ..self }
    }

    /// The data port hands out the next byte of the queue, or the last byte
    /// again; the status then tells whether there is more.
    pub open spec fn data_read(self) -> Ps2State {
        let queue = if self.queue.len() == 0 {
            self.queue
        } else {
            self.queue.skip(1)
        };
        let more = queue.len() != 0;
        Ps2State {
            data: if self.queue.len() == 0 {
                self.data
            } else {
                self.queue[0]
            },
            queue,
            has_data: more,
            status: if more {
                (self.status & !0x01) | 0x01
            } else {
                self.status & !0x01
            },
            ..self
        }
    }

    pub open spec fn read_value(self, port: u16) -> (Ps2State, u8) {
        match port {
            0x60 => (self.data_read(), self.data_read().data),
            0x64 => (self, self.status),
            _ => (self, 0xFF),
        }
    }

    /// A write to the data port: the command byte after command 0x60, else a
    /// byte for the keyboard.
    pub open spec fn data_written(self, val: u8) -> Ps2State {
        let reply = keyboard_reply(val);
        if self.command == 0x60 {
            Ps2State { command_byte: val, command: 0, ..self }
        } else if reply.len() == 0 {
            Ps2State { data: val, ..self }
        } else {
            Ps2State {
                data: val,
                queue: self.queue + reply,
                status: self.status | 0x01,
                has_data: true,
                ..self
            }
        }
    }

    /// A write to the command port: reading the command byte, the self-test and
    /// the interface tests put an answer in the output buffer.
    pub open spec fn commanded(self, val: u8) -> Ps2State {
        let s = Ps2State { command: val, ..self };
        match val {
            0x20 => s.with_output(self.command_byte),
            0xAA => s.with_output(0x55),
            0xAB => s.with_output(0x00),
            0xA9 => s.with_output(0x00),
            _ => s,
        }
    }

    pub open spec fn written(self, port: u16, val: u8) -> Ps2State {
        match port {
            0x60 => self.data_written(val),
            0x64 => self.commanded(val),
            _ => self,
        }
    }
}

impl Ps2Kbd {
    pub fn new() -> (k: Ps2Kbd)
        ensures
            k@ == Ps2State::initial(),
    {
        Ps2Kbd {
            command: 0,
            command_byte: 0,
            status: 0x20,  // self-test passed
            data: 0,
            has_data: false,
            scancode_queue: VecDeque::new(),
        }
    }

    pub fn inject(&mut self, scancode: u8)
        ensures
            final(self)@ == (Ps2State {
                queue: old(self)@.queue.push(scancode),
                status: old(self)@.status | 0x01,
                ..old(self)@
            }),
    {
        self.scancode_queue.push_back(scancode);
        self.status = self.status | 0x01;
    }

    pub fn read(&mut self, port: u16) -> (v: u8)
        ensures
            (final(self)@, v) == old(self)@.read_value(port),
    {
        match port {
            0x60 => {
                if let Some(code) = self.scancode_queue.pop_front() {
                    self.data = code;
                    assert(self.scancode_queue@ =~= old(self).scancode_queue@.skip(1));
                }
                self.status = self.status & !0x01;
                self.has_data = false;
                if self.scancode_queue.len() != 0 {
                    self.status = self.status | 0x01;
                    self.has_data = true;
                }
                self.data
            },
            0x64 => self.status,
            _ => 0xFF,
        }
    }

    fn put_output(&mut self, data: u8)
        ensures
            final(self)@ == old(self)@.with_output(data),
    {
        self.data = data;
        self.has_data = true;
        self.status = self.status | 0x01;
    }

    pub fn write(&mut self, port: u16, val: u8)
        ensures
            final(self)@ == old(self)@.written(port, val),
    {
        match port {
            0x60 => {
                if self.command == 0x60 {
                    self.command_byte = val;
                    self.command = 0;
                    return;
                }
                // 8042 data port: A20 line / keyboard commands.
                self.data = val;
                match val {
                    0xFF => {
                        self.scancode_queue.push_back(0xFA);
                        self.scancode_queue.push_back(0xAA);
                        assert(self.scancode_queue@ =~= old(self).scancode_queue@ + keyboard_reply(
                            val,
                        ));
                        self.status = self.status | 0x01;
                        self.has_data = true;
                    },
                    0xF4 | 0xF5 | 0xF6 | 0xED | 0xF3 => {
                        self.scancode_queue.push_back(0xFA);
                        assert(self.scancode_queue@ =~= old(self).scancode_queue@ + keyboard_reply(
                            val,
                        ));
                        self.status = self.status | 0x01;
                        self.has_data = true;
                    },
                    _ => {},
                }
            },
            0x64 => {
                self.command = val;
                match val {
                    0x20 => {
                        // Read command byte.
                        let b = self.command_byte;
                        self.put_output(b);
                    },
                    0xAA => {
                        // self-test: reply 0x55 in the output buffer.
                        self.put_output(0x55);
                    },
                    0xAB | 0xA9 => {
                        // Interface tests: 0 means OK.
                        self.put_output(0x00);
                    },
                    // 0x60: the next write to port 0x60 sets the command byte.
                    // 0xAD, 0xAE, 0xA7, 0xA8: disable/enable keyboard or
                    // auxiliary device. 0xFE: pulse reset.
                    _ => {},
                }
            },
            _ => {},
        }
    }
}

impl Default for Ps2Kbd {
    fn default() -> (k: Self)
        ensures
            k@ == Ps2State::initial(),
    {
        Ps2Kbd::new()
    }
}

/// Scan codes come out of the data port in the order in which they went in.
pub proof fn scancodes_come_in_order(s: Ps2State)
    requires
        s.queue.len() > 0,
    ensures
        s.read_value(0x60).1 == s.queue[0],
        s.read_value(0x60).0.queue == s.queue.skip(1),
        s.read_value(0x60).0.has_data <==> s.queue.len() > 1,
{
}

} // verus!
