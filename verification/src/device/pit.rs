//! 8254 interval timer.

use vstd::prelude::*;

verus! {

/// 8254 PIT with its three channels.
pub struct Pit {
    pub count: [u16; 3],
    pub reload: [u16; 3],
    /// Remaining cycles until the next countdown.
    pub phases: [u64; 3],
    pub gate: [bool; 3],
    /// Channel 2 output level (toggles on expiry); read via port 0x61 bit 5.
    pub out2: bool,
    pub latch: [u8; 3],
    pub latched: [bool; 3],
    /// True when channel 0 expired (drives the timer IRQ).
    pub timer_fired: bool,
    /// 8254 access mode: 1=low byte, 2=high byte, 3=low/high.
    pub access: [u8; 3],
    /// Write pointer for 16-bit loads.
    pub low_byte: [bool; 3],
}

/// The state of a `Pit`.
pub struct PitState {
    pub count: Seq<u16>,
    pub reload: Seq<u16>,
    pub phases: Seq<u64>,
    pub gate: Seq<bool>,
    pub out2: bool,
    pub latch: Seq<u8>,
    pub latched: Seq<bool>,
    pub timer_fired: bool,
    pub access: Seq<u8>,
    pub low_byte: Seq<bool>,
}

impl View for Pit {
    type V = PitState;

    open spec fn view(&self) -> PitState {
        PitState {
            count: self.count@,
            reload: self.reload@,
            phases: self.phases@,
            gate: self.gate@,
            out2: self.out2,
            latch: self.latch@,
            latched: self.latched@,
            timer_fired: self.timer_fired,
            access: self.access@,
            low_byte: self.low_byte@,
        }
    }
}

/// The number of cycles that a reload value stands for.
pub open spec fn period(reload: u16) -> u64 {
    if reload == 0 {
        65_536
    } else {
        reload as u64
    }
}

impl PitState {
    pub open spec fn wf(self) -> bool {
        self.count.len() == 3 && self.reload.len() == 3 && self.phases.len() == 3
            && self.gate.len() == 3 && self.latch.len() == 3 && self.latched.len() == 3
            && self.access.len() == 3 && self.low_byte.len() == 3
    }

    /// The state after power-on: channel 0 runs, the others wait for a count.
    pub open spec fn initial() -> PitState {
        PitState {
            count: seq![0, 0, 0],
            reload: seq![0, 0, 0],
            phases: seq![65_536, 0, 0],
            gate: seq![true, true, true],
            out2: false,
            latch: seq![0, 0, 0],
            latched: seq![false, false, false],
            timer_fired: false,
            access: seq![3, 3, 3],
            low_byte: seq![true, true, true],
        }
    }

    /// A channel's count gets a new low or high byte.
    pub open spec fn with_count_byte(self, ch: int, val: u8, low: bool) -> PitState {
        PitState {
            count: self.count.update(
                ch,
                if low {
                    (self.count[ch] & 0xFF00) | val as u16
                } else {
                    (self.count[ch] & 0x00FF) | (val as u16) << 8
                },
            ),
            ..self
        }
    }

    /// A channel starts over with its count.
    pub open spec fn restarted(self, ch: int) -> PitState {
        PitState {
            reload: self.reload.update(ch, self.count[ch]),
            phases: self.phases.update(ch, period(self.count[ch])),
            ..self
        }
    }

    /// A write to a channel. It starts over once its count is complete: with
    /// every byte for one-byte access, with the high byte otherwise.
    pub open spec fn written(self, port: u16, val: u8) -> PitState {
        let ch = port - 0x40;
        if ch >= 3 {
            self
        } else if self.access[ch] == 1 {
            self.with_count_byte(ch, val, true).restarted(ch)
        } else if self.access[ch] == 2 {
            self.with_count_byte(ch, val, false).restarted(ch)
        } else if self.low_byte[ch] {
            PitState {
                low_byte: self.low_byte.update(ch, false),
                ..self.with_count_byte(ch, val, true)
            }
        } else {
            PitState {
                low_byte: self.low_byte.update(ch, true),
                ..self.with_count_byte(ch, val, false).restarted(ch)
            }
        }
    }

    /// What reading a channel gives: a latched value once, else the low byte of
    /// the count.
    pub open spec fn read_value(self, port: u16) -> (PitState, u8) {
        let ch = port - 0x40;
        if ch >= 3 {
            (self, 0xFF)
        } else if self.latched[ch] {
            (PitState { latched: self.latched.update(ch, false), ..self }, self.latch[ch])
        } else {
            (self, self.count[ch] as u8)
        }
    }

    /// The low byte of a channel's count is latched.
    pub open spec fn with_latch(self, ch: int) -> PitState {
        PitState {
            latched: self.latched.update(ch, true),
            latch: self.latch.update(ch, self.count[ch] as u8),
            ..self
        }
    }

    /// A write to the command port: a read-back command latches the channels
    /// whose bit is clear, else the access mode of one channel is set.
    pub open spec fn commanded(self, val: u8) -> PitState {
        let ch = val as int / 64;
        let access = (val / 16 % 4) as u8;
        if ch == 3 {
            let a = if val & 0x02 == 0 {
                self.with_latch(0)
            } else {
                self
            };
            let b = if val & 0x04 == 0 {
                a.with_latch(1)
            } else {
                a
            };
            if val & 0x08 == 0 {
                b.with_latch(2)
            } else {
                b
            }
        } else if access == 0 {
            self
        } else {
            PitState {
                access: self.access.update(ch, access),
                low_byte: self.low_byte.update(ch, true),
                ..self
            }
        }
    }

    /// One channel after `cycles`. Channel 0 restarts by itself; expiry fires the
    /// timer on channel 0 and toggles the output of channel 2.
    pub open spec fn channel_ticked(self, ch: int, cycles: u64) -> PitState {
        let phase = if ch == 0 && self.phases[ch] == 0 {
            period(self.reload[ch])
        } else {
            self.phases[ch]
        };
        if !self.gate[ch] || phase == 0 {
            self
        } else if cycles >= phase {
            PitState {
                phases: self.phases.update(ch, period(self.reload[ch])),
                out2: if ch == 2 {
                    !self.out2
                } else {
                    self.out2
                },
                timer_fired: self.timer_fired || ch == 0,
                ..self
            }
        } else {
            PitState { phases: self.phases.update(ch, (phase - cycles) as u64), ..self }
        }
    }

    /// The timer after `cycles`.
    pub open spec fn ticked(self, cycles: u64) -> PitState {
        PitState { timer_fired: false, ..self }.channel_ticked(0, cycles).channel_ticked(
            1,
            cycles,
        ).channel_ticked(2, cycles)
    }
}

impl Pit {
    pub fn new() -> (p: Pit)
        ensures
            p@ == PitState::initial(),
    {
        let p = Pit {
            count: [0;3],
            reload: [0;3],
            phases: [65_536, 0, 0],
            gate: [true;3],
            out2: false,
            latch: [0;3],
            latched: [false;3],
            timer_fired: false,
            access: [3;3],
            low_byte: [true;3],
        };
        proof {
            let i = PitState::initial();
            assert(p@.count =~= i.count);
            assert(p@.reload =~= i.reload);
            assert(p@.phases =~= i.phases);
            assert(p@.gate =~= i.gate);
            assert(p@.latch =~= i.latch);
            assert(p@.latched =~= i.latched);
            assert(p@.access =~= i.access);
            assert(p@.low_byte =~= i.low_byte);
        }
        p
    }

    pub fn read(&mut self, port: u16) -> (v: u8)
        requires
            port >= 0x40,
        ensures
            (final(self)@, v) == old(self)@.read_value(port),
    {
        let ch = (port - 0x40) as usize;
        if ch >= 3 {
            return 0xFF;
        }
        if self.latched[ch] {
            self.latched[ch] = false;
            return self.latch[ch];
        }
        // Best effort: return the running count low byte.
        self.count[ch] as u8
    }

    pub fn write(&mut self, port: u16, val: u8)
        requires
            port >= 0x40,
        ensures
            final(self)@ == old(self)@.written(port, val),
    {
        let ch = (port - 0x40) as usize;
        if ch >= 3 {
            return;
        }
        match self.access[ch] {
            1 => {
                self.set_count_byte(ch, val, true);
                self.reload_counter(ch);
            },
            2 => {
                self.set_count_byte(ch, val, false);
                self.reload_counter(ch);
            },
            _ => {
                let low = self.low_byte[ch];
                self.set_count_byte(ch, val, low);
                if !low {
                    self.reload_counter(ch);
                }
                self.low_byte[ch] = !low;
            },
        }
    }

    fn set_count_byte(&mut self, ch: usize, val: u8, low: bool)
        requires
            ch < 3,
        ensures
            final(self)@ == old(self)@.with_count_byte(ch as int, val, low),
    {
        self.count[ch] = if low {
            (self.count[ch] & 0xFF00) | val as u16
        } else {
            (self.count[ch] & 0x00FF) | (val as u16) << 8
        };
    }

    pub fn effective_reload(reload: u16) -> (n: u64)
        ensures
            n == period(reload),
    {
        if reload == 0 {
            65_536
        } else {
            reload as u64
        }
    }

    fn reload_counter(&mut self, ch: usize)
        requires
            ch < 3,
        ensures
            final(self)@ == old(self)@.restarted(ch as int),
    {
        self.reload[ch] = self.count[ch];
        self.phases[ch] = Self::effective_reload(self.reload[ch]);
    }

    fn latch_count(&mut self, ch: usize)
        requires
            ch < 3,
        ensures
            final(self)@ == old(self)@.with_latch(ch as int),
    {
        self.latched[ch] = true;
        self.latch[ch] = self.count[ch] as u8;
    }

    pub fn cmd(&mut self, val: u8)
        ensures
            final(self)@ == old(self)@.commanded(val),
    {
        let ch = (val / 64) as usize;
        if ch == 3 {
            // Read-back / latch command.
            if val & 0x02 == 0 {
                self.latch_count(0);
            }
            if val & 0x04 == 0 {
                self.latch_count(1);
            }
            if val & 0x08 == 0 {
                self.latch_count(2);
            }
            return;
        }
        let access: u8 = val / 16 % 4;
        if access == 0 {
            return;  // latch count
        }
        self.access[ch] = access;
        self.low_byte[ch] = true;
    }

    fn tick_channel(&mut self, ch: usize, cycles: u64)
        requires
            ch < 3,
        ensures
            final(self)@ == old(self)@.channel_ticked(ch as int, cycles),
    {
        if !self.gate[ch] {
            return;
        }
        let mut phase: u64 = self.phases[ch];
        if ch == 0 && phase == 0 {
            phase = Self::effective_reload(self.reload[ch]);
        }
        if phase == 0 {
            return;
        }
        if cycles >= phase {
            self.phases[ch] = Self::effective_reload(self.reload[ch]);
            if ch == 2 {
                self.out2 = !self.out2;
            }
            if ch == 0 {
                self.timer_fired = true;
            }
        } else {
            self.phases[ch] = phase - cycles;
        }
    }

    pub fn tick(&mut self, cycles: u64)
        ensures
            final(self)@ == old(self)@.ticked(cycles),
    {
        self.timer_fired = false;
        self.tick_channel(0, cycles);
        self.tick_channel(1, cycles);
        self.tick_channel(2, cycles);
    }
}

impl Default for Pit {
    fn default() -> (p: Self)
        ensures
            p@ == PitState::initial(),
    {
        Pit::new()
    }
}

// ---------------------------------------------------------------------------
// Laws
// ---------------------------------------------------------------------------

/// The timer fires exactly when the cycles reach what is left of channel 0's
/// period, and then starts a full period: the reload value, where 0 stands for
/// 65536.
pub proof fn timer_fires_when_period_is_over(p: PitState, cycles: u64)
    requires
        p.wf(),
        p.gate[0],
        p.phases[0] > 0,
    ensures
        p.ticked(cycles).timer_fired <==> cycles >= p.phases[0],
        p.ticked(cycles).phases[0] == (if cycles >= p.phases[0] {
            period(p.reload[0])
        } else {
            (p.phases[0] - cycles) as u64
        }),
{
}

/// Short ticks add up: as long as channel 0 does not expire, two ticks do to it
/// what one of their sum does.
pub proof fn ticks_add_up(p: PitState, a: u64, b: u64)
    requires
        p.wf(),
        p.gate[0],
        a + b < p.phases[0],
    ensures
        !p.ticked(a).timer_fired,
        p.ticked(a).ticked(b).phases[0] == p.ticked((a + b) as u64).phases[0],
        p.ticked(a).ticked(b).timer_fired == p.ticked((a + b) as u64).timer_fired,
{
}

/// Two bytes written to a channel in low/high access, low byte first, are the
/// count it starts over with.
pub proof fn low_high_writes_load_the_count(p: PitState, port: u16, lo: u8, hi: u8)
    requires
        p.wf(),
        0x40 <= port <= 0x42,
        p.access[port - 0x40] == 3,
        p.low_byte[port - 0x40],
    ensures
        ({
            let q = p.written(port, lo).written(port, hi);
            let count = (hi * 256 + lo) as u16;
            &&& q.reload[port - 0x40] == count
            &&& q.phases[port - 0x40] == period(count)
            &&& q.low_byte[port - 0x40]
        }),
{
    let c = p.count[port - 0x40];
    assert((((c & 0xFF00) | lo as u16) & 0x00FF) | (hi as u16) << 8 == hi * 256 + lo)
        by (bit_vector);
}

} // verus!
