//! Dual 8259 interrupt controller.

use vstd::prelude::*;

verus! {

/// Interrupt request lines of a PC.
#[derive(Debug, Clone, Copy, PartialEq, Eq, Structural)]
pub enum Irq {
    Timer,
    Keyboard,
    PicSlave,
    Serial2,
    Serial1,
    Fdc,
    Rtc,
    Ps2Mouse,
    Ide,
}

impl Irq {
    /// The number of the line.
    pub open spec fn number(self) -> u8 {
        match self {
            Irq::Timer => 0,
            Irq::Keyboard => 1,
            Irq::PicSlave => 2,
            Irq::Serial2 => 3,
            Irq::Serial1 => 4,
            Irq::Fdc => 6,
            Irq::Rtc => 8,
            Irq::Ps2Mouse => 12,
            Irq::Ide => 14,
        }
    }

    /// The number of the line.
    pub fn line(self) -> (n: u8)
        ensures
            n == self.number(),
            n < 16,
    {
        match self {
            Irq::Timer => 0,
            Irq::Keyboard => 1,
            Irq::PicSlave => 2,
            Irq::Serial2 => 3,
            Irq::Serial1 => 4,
            Irq::Fdc => 6,
            Irq::Rtc => 8,
            Irq::Ps2Mouse => 12,
            Irq::Ide => 14,
        }
    }
}

/// The lowest bit of `v` that is set, from bit `i` on.
pub open spec fn first_set(v: u8, i: u8) -> Option<u8>
    decreases 8 - i,
{
    if i >= 8 {
        None
    } else if v & (1u8 << i) != 0 {
        Some(i)
    } else {
        first_set(v, (i + 1) as u8)
    }
}

/// `v` without its lowest bit that is set.
pub open spec fn lowest_cleared(v: u8) -> u8 {
    if v == 0 {
        0
    } else {
        v & ((v - 1) as u8)
    }
}

fn clear_lowest(v: u8) -> (r: u8)
    ensures
        r == lowest_cleared(v),
{
    if v == 0 {
        0
    } else {
        v & (v - 1)
    }
}

/// One 8259.
#[derive(Debug, Clone, Copy, PartialEq, Eq, Structural)]
pub struct PicChip {
    /// The vector of line 0.
    pub base: u8,
    /// Requests.
    pub irr: u8,
    /// Requests in service.
    pub isr: u8,
    /// Masked lines.
    pub imr: u8,
    /// Next ICW index (0 = idle OCW).
    pub icw_step: u8,
    pub auto_eoi: bool,
}

impl PicChip {
    /// A chip after power-on: everything masked.
    pub open spec fn initial(base: u8) -> PicChip {
        PicChip { base, irr: 0, isr: 0, imr: 0xFF, icw_step: 0, auto_eoi: false }
    }

    /// The line of highest priority that is requested and not masked.
    pub open spec fn due(self) -> Option<u8> {
        first_set(self.irr & !self.imr, 0)
    }

    /// The request on `line` goes into service.
    pub open spec fn served(self, line: u8) -> PicChip {
        PicChip { irr: self.irr & !(1u8 << line), isr: self.isr | (1u8 << line), ..self }
    }

    /// An acknowledge cycle: the chip after it, and the vector.
    pub open spec fn acknowledged(self) -> (PicChip, Option<u8>) {
        match self.due() {
            None => (self, None),
            Some(i) => (self.served(i), Some(self.base.wrapping_add(i))),
        }
    }

    /// The request in service with the highest priority ends.
    pub open spec fn ended(self) -> PicChip {
        PicChip { isr: lowest_cleared(self.isr), ..self }
    }

    /// A write to the command port: ICW1 starts the initialisation, an OCW2 with
    /// the EOI bit ends an interrupt, the rest is ignored.
    pub open spec fn commanded(self, val: u8) -> PicChip {
        if val & 0x10 != 0 {
            PicChip { base: self.base, irr: 0, isr: 0, imr: 0xFF, icw_step: 1, auto_eoi: false }
        } else if val & 0x18 == 0 && self.icw_step == 0 && val & 0x20 != 0 {
            self.ended()
        } else {
            self
        }
    }

    /// A write to the data port: ICW2 to ICW4 after ICW1, otherwise the mask.
    pub open spec fn data_written(self, val: u8) -> PicChip {
        match self.icw_step {
            1 => PicChip { base: val & 0xF8, icw_step: 2, ..self },
            2 => PicChip { icw_step: 3, ..self },
            3 => PicChip { auto_eoi: val & 0x02 != 0, icw_step: 0, ..self },
            _ => PicChip { imr: val, icw_step: 0, ..self },
        }
    }

    pub fn new(base: u8) -> (c: PicChip)
        ensures
            c == PicChip::initial(base),
    {
        PicChip { base, irr: 0, isr: 0, imr: 0xFF, icw_step: 0, auto_eoi: false }
    }

    pub fn raise(&mut self, irq: u8)
        requires
            irq < 8,
        ensures
            *final(self) == (PicChip { irr: old(self).irr | (1u8 << irq), ..*old(self) }),
    {
        self.irr = self.irr | (1u8 << irq);
    }

    /// Highest priority unmasked pending request.
    pub fn lowest_i(&self) -> (i: Option<u8>)
        ensures
            i == self.due(),
            i matches Some(n) ==> n < 8,
    {
        let pending = self.irr & !self.imr;
        let mut i: u8 = 0;
        while i < 8
            invariant
                i <= 8,
                pending == self.irr & !self.imr,
                first_set(pending, 0) == first_set(pending, i),
            decreases 8 - i,
        {
            if pending & (1u8 << i) != 0 {
                return Some(i);
            }
            i = i + 1;
        }
        None
    }

    pub fn ack(&mut self) -> (vector: Option<u8>)
        ensures
            (*final(self), vector) == old(self).acknowledged(),
    {
        match self.lowest_i() {
            None => None,
            Some(i) => {
                self.irr = self.irr & !(1u8 << i);
                self.isr = self.isr | (1u8 << i);
                Some(self.base.wrapping_add(i))
            },
        }
    }

    pub fn eoi(&mut self)
        ensures
            *final(self) == old(self).ended(),
    {
        self.isr = clear_lowest(self.isr);
    }

    pub fn write_cmd(&mut self, val: u8)
        ensures
            *final(self) == old(self).commanded(val),
    {
        if val & 0x10 != 0 {
            // ICW1: initialize.
            self.icw_step = 1;
            self.imr = 0xFF;
            self.irr = 0;
            self.isr = 0;
            self.auto_eoi = false;
            return;
        }
        if val & 0x18 == 0 && self.icw_step == 0 && val & 0x20 != 0 {
            // OCW2: non-specific EOI.
            self.isr = clear_lowest(self.isr);
        }
    }

    pub fn write_data(&mut self, val: u8)
        ensures
            *final(self) == old(self).data_written(val),
    {
        match self.icw_step {
            1 => {
                self.base = val & 0xF8;
                self.icw_step = 2;
            },
            2 => {
                // ICW3 (cascade mask) or ICW4 if single.
                self.icw_step = 3;
            },
            3 => {
                self.auto_eoi = val & 0x02 != 0;
                self.icw_step = 0;
            },
            _ => {
                self.imr = val;
                self.icw_step = 0;
            },
        }
    }
}

impl Default for PicChip {
    fn default() -> (c: Self)
        ensures
            c == PicChip::initial(0),
    {
        PicChip::new(0)
    }
}

/// 8259 PIC pair.
#[derive(Debug, Clone, Copy, PartialEq, Eq, Structural)]
pub struct Pic {
    pub master: PicChip,
    pub slave: PicChip,
}

impl Pic {
    /// The pair after power-on, with the vectors of a PC.
    pub open spec fn initial() -> Pic {
        Pic { master: PicChip::initial(0x08), slave: PicChip::initial(0x70) }
    }

    /// Line `irq` requests an interrupt.
    pub open spec fn raised(self, irq: u8) -> Pic {
        let bit = 1u8 << ((irq % 8) as u8);
        if irq < 8 {
            Pic { master: PicChip { irr: self.master.irr | bit, ..self.master }, ..self }
        } else {
            Pic { slave: PicChip { irr: self.slave.irr | bit, ..self.slave }, ..self }
        }
    }

    /// An acknowledge cycle. The slave goes first; the line that it is cascaded
    /// to is then in service on the master.
    pub open spec fn acknowledged(self) -> (Pic, Option<u8>) {
        if self.slave.due() is Some {
            let (slave, v) = self.slave.acknowledged();
            (Pic { master: self.master.served(2), slave }, v)
        } else {
            let (master, v) = self.master.acknowledged();
            (Pic { master, ..self }, v)
        }
    }

    /// The end of an interrupt: on the slave too where the cascade is in
    /// service.
    pub open spec fn ended(self) -> Pic {
        Pic {
            slave: if self.master.isr & 4 != 0 {
                self.slave.ended()
            } else {
                self.slave
            },
            master: self.master.ended(),
        }
    }

    /// What a port of the pair reads as.
    pub open spec fn port_value(self, port: u16) -> u8 {
        match port {
            0x20 => self.master.isr,
            0x21 => self.master.imr,
            0xA0 => self.slave.isr,
            0xA1 => self.slave.imr,
            _ => 0xFF,
        }
    }

    /// A write to a port of the pair.
    pub open spec fn written(self, port: u16, val: u8) -> Pic {
        match port {
            0x20 => Pic { master: self.master.commanded(val), ..self },
            0x21 => Pic { master: self.master.data_written(val), ..self },
            0xA0 => Pic { slave: self.slave.commanded(val), ..self },
            0xA1 => Pic { slave: self.slave.data_written(val), ..self },
            _ => self,
        }
    }

    pub fn new() -> (p: Pic)
        ensures
            p == Pic::initial(),
    {
        Pic { master: PicChip::new(0x08), slave: PicChip::new(0x70) }
    }

    /// Raise an IRQ line (0..15).
    pub fn raise(&mut self, irq: u8)
        ensures
            *final(self) == old(self).raised(irq),
    {
        if irq < 8 {
            self.master.raise(irq);
        } else {
            self.slave.raise(irq % 8);
        }
    }

    /// INTA: return the vector for the highest priority request.
    pub fn ack(&mut self) -> (vector: Option<u8>)
        ensures
            (*final(self), vector) == old(self).acknowledged(),
    {
        if self.slave.lowest_i().is_some() {
            let v = self.slave.ack();
            self.master.irr = self.master.irr & !(1u8 << 2u8);
            self.master.isr = self.master.isr | (1u8 << 2u8);
            return v;
        }
        self.master.ack()
    }

    /// End-of-interrupt (non-specific).
    pub fn eoi(&mut self)
        ensures
            *final(self) == old(self).ended(),
    {
        if self.master.isr & 4 != 0 {
            self.slave.eoi();
        }
        self.master.eoi();
    }

    pub fn read(&mut self, port: u16) -> (v: u8)
        ensures
            *final(self) == *old(self),
            v == old(self).port_value(port),
    {
        match port {
            0x20 => self.master.isr,
            0x21 => self.master.imr,
            0xA0 => self.slave.isr,
            0xA1 => self.slave.imr,
            _ => 0xFF,
        }
    }

    pub fn write(&mut self, port: u16, val: u8)
        ensures
            *final(self) == old(self).written(port, val),
    {
        match port {
            0x20 => self.master.write_cmd(val),
            0x21 => self.master.write_data(val),
            0xA0 => self.slave.write_cmd(val),
            0xA1 => self.slave.write_data(val),
            _ => {},
        }
    }
}

impl Default for Pic {
    fn default() -> (p: Self)
        ensures
            p == Pic::initial(),
    {
        Pic::new()
    }
}

// ---------------------------------------------------------------------------
// Laws
// ---------------------------------------------------------------------------

/// `first_set` finds the lowest bit that is set, and nothing only where there is
/// none.
proof fn lemma_first_set(v: u8, i: u8)
    requires
        i <= 8,
    ensures
        match first_set(v, i) {
            Some(n) => {
                &&& i <= n < 8
                &&& v & (1u8 << n) != 0
                &&& forall|k: u8| i <= k < n ==> v & #[trigger] (1u8 << k) == 0
            },
            None => forall|k: u8| i <= k < 8 ==> v & #[trigger] (1u8 << k) == 0,
        },
    decreases 8 - i,
{
    if i < 8 && v & (1u8 << i) == 0 {
        lemma_first_set(v, (i + 1) as u8);
    }
}

/// An acknowledge takes the request of highest priority: it was requested and
/// not masked, no line of higher priority was both, it is in service afterwards
/// and no longer requested, and its vector is the chip's base plus its line.
/// Where nothing is acknowledged every request is masked.
pub proof fn acknowledge_takes_highest_priority(c: PicChip)
    ensures
        match c.due() {
            Some(n) => {
                let (after, vector) = c.acknowledged();
                &&& n < 8
                &&& c.irr & (1u8 << n) != 0
                &&& c.imr & (1u8 << n) == 0
                &&& forall|k: u8|
                    k < n ==> c.irr & #[trigger] (1u8 << k) == 0 || c.imr & (1u8 << k) != 0
                &&& after.isr & (1u8 << n) != 0
                &&& after.irr & (1u8 << n) == 0
                &&& vector == Some(c.base.wrapping_add(n))
            },
            None => {
                &&& c.acknowledged() == (c, None::<u8>)
                &&& forall|k: u8|
                    k < 8 ==> c.irr & #[trigger] (1u8 << k) == 0 || c.imr & (1u8 << k) != 0
            },
        },
{
    let pending = c.irr & !c.imr;
    lemma_first_set(pending, 0);
    let (irr, imr, isr) = (c.irr, c.imr, c.isr);
    assert forall|k: u8| k < 8 && pending & #[trigger] (1u8 << k) == 0 implies irr & (1u8 << k) == 0
        || imr & (1u8 << k) != 0 by {
        assert(k < 8 && (irr & !imr) & (1u8 << k) == 0 ==> irr & (1u8 << k) == 0 || imr & (1u8
            << k) != 0) by (bit_vector);
    }
    if let Some(n) = c.due() {
        assert(n < 8 && (irr & !imr) & (1u8 << n) != 0 ==> irr & (1u8 << n) != 0 && imr & (1u8 << n)
            == 0 && (isr | (1u8 << n)) & (1u8 << n) != 0 && (irr & !(1u8 << n)) & (1u8 << n) == 0)
            by (bit_vector);
    }
}

/// A non-specific EOI ends the interrupt in service with the highest priority
/// and leaves the others in service.
pub proof fn eoi_ends_highest_priority(c: PicChip, k: u8)
    requires
        k < 8,
    ensures
        match first_set(c.isr, 0) {
            Some(n) => c.ended().isr & (1u8 << k) == (if k == n {
                0
            } else {
                c.isr & (1u8 << k)
            }),
            None => c.ended() == c,
        },
        c.icw_step == 0 ==> c.commanded(0x20) == c.ended(),
{
    let v = c.isr;
    lemma_first_set(v, 0);
    assert(0x20u8 & 0x10 == 0 && 0x20u8 & 0x18 == 0 && 0x20u8 & 0x20 != 0 && (v != 0
        ==> v & 1u8 << 0u8 != 0 || v & 1u8 << 1u8 != 0 || v & 1u8 << 2u8 != 0 || v & 1u8
        << 3u8 != 0 || v & 1u8 << 4u8 != 0 || v & 1u8 << 5u8 != 0 || v & 1u8 << 6u8 != 0 || v & 1u8
        << 7u8 != 0)) by (bit_vector);
    if let Some(n) = first_set(v, 0) {
        assert forall|j: u8| j < n implies v & #[trigger] (1u8 << j) == 0 by {}
        // No bit below n, so v is a multiple of 2^n.
        assert(v & (((1u8 << n) - 1) as u8) == 0) by {
            lemma_low_bits_clear(v, n);
        }
        assert(0u8 & (1u8 << n) == 0 && (v & (((1u8 << n) - 1) as u8) == 0
            && v & (1u8 << n) != 0 && n
            < 8 && k < 8 ==> (v & ((v - 1) as u8)) & (1u8 << k) == if k == n {
            0
        } else {
            v & (1u8 << k)
        })) by (bit_vector);
    }
}

/// Where the bits below `n` are clear one by one, they are clear together.
proof fn lemma_low_bits_clear(v: u8, n: u8)
    requires
        n < 8,
        forall|k: u8| k < n ==> v & #[trigger] (1u8 << k) == 0,
    ensures
        v & (((1u8 << n) - 1) as u8) == 0,
    decreases n,
{
    let m = if n == 0 {
        0u8
    } else {
        (n - 1) as u8
    };
    assert(v & (((1u8 << 0u8) - 1) as u8) == 0 && (m < 7 && v & (((1u8 << m) - 1) as u8) == 0
        && v & (
    1u8 << m) == 0 ==> v & (((1u8 << ((m + 1) as u8)) - 1) as u8) == 0)) by (bit_vector);
    if n > 0 {
        lemma_low_bits_clear(v, m);
        assert(v & (1u8 << m) == 0);
        assert(n == (m + 1) as u8);
    }
}

/// While a chip is masked as after power-on or ICW1, no request gets through.
pub proof fn masked_chip_is_silent(c: PicChip)
    requires
        c.imr == 0xFF,
    ensures
        c.acknowledged() == (c, None::<u8>),
{
    let irr = c.irr;
    lemma_first_set(irr & !c.imr, 0);
    let n = match c.due() {
        Some(n) => n,
        None => 0u8,
    };
    assert(irr & !0xFFu8 == 0 && 0u8 & (1u8 << n) == 0) by (bit_vector);
}

} // verus!
