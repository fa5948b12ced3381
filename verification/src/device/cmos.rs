//! MC146818 CMOS with the NMI mask, and the 8237 DMA controller.

use vstd::prelude::*;

verus! {

/// CMOS registers and NMI mask.
pub struct Cmos {
    pub regs: [u8; 0x80],
    /// The register that port 0x71 gives access to.
    pub sel: u8,
    pub nmi_mask: u8,
}

/// The state of a `Cmos`.
pub struct CmosState {
    pub regs: Seq<u8>,
    pub sel: u8,
    pub nmi_mask: u8,
}

impl View for Cmos {
    type V = CmosState;

    open spec fn view(&self) -> CmosState {
        CmosState { regs: self.regs@, sel: self.sel, nmi_mask: self.nmi_mask }
    }
}

/// What register `i` holds at power-on.
pub open spec fn cmos_default(i: int) -> u8 {
    if i == 0x00 {
        0x07
    } else if i == 0x02 || i == 0x04 {
        0x06
    } else if i == 0x07 || i == 0x08 || i == 0x3D {
        0x01
    } else if i == 0x09 {
        26
    } else if i == 0x0A {
        0x26
    } else if i == 0x0B {
        0x02
    } else if i == 0x0D || i == 0x15 {
        0x80
    } else if i == 0x10 {
        0x10
    } else if i == 0x16 {
        0x02
    } else if i == 0x19 || i == 0x31 || i == 0x33 {
        0x3F
    } else {
        0
    }
}

impl CmosState {
    pub open spec fn initial() -> CmosState {
        CmosState { regs: Seq::new(0x80, |i: int| cmos_default(i)), sel: 0, nmi_mask: 1 }
    }

    pub open spec fn port_value(self, port: u16) -> u8 {
        match port {
            0x70 => self.nmi_mask | 0x80,
            0x71 => self.regs[self.sel as int % 0x80],
            _ => 0xFF,
        }
    }

    /// Port 0x70 selects a register and the NMI mask, port 0x71 writes the
    /// selected register.
    pub open spec fn written(self, port: u16, val: u8) -> CmosState {
        match port {
            0x70 => CmosState { sel: (val % 0x80) as u8, nmi_mask: (val / 0x80) as u8, ..self },
            0x71 => if self.sel < 0x80 {
                CmosState { regs: self.regs.update(self.sel as int, val), ..self }
            } else {
                self
            },
            _ => self,
        }
    }
}

impl Cmos {
    pub fn new() -> (c: Cmos)
        ensures
            c@ == CmosState::initial(),
    {
        let mut regs = [0u8;0x80];
        // RTC time (rough values; the Bochs BIOS mostly polls the UIP bit).
        regs[0x00] = 0x07;
        regs[0x02] = 0x06;
        regs[0x04] = 0x06;
        regs[0x07] = 0x01;
        regs[0x08] = 0x01;
        regs[0x09] = 26;
        regs[0x0A] = 0x26;
        regs[0x0B] = 0x02;
        regs[0x0D] = 0x80;
        // Drive types: A = 1.44 MB, B = none.
        regs[0x10] = 0x10;
        // Base memory 640K, low byte first.
        regs[0x15] = 0x80;
        regs[0x16] = 0x02;
        // Extended memory 16128 KB (16 MB - 640K).
        regs[0x19] = 0x3F;
        regs[0x31] = 0x3F;
        regs[0x33] = 0x3F;
        // Bochs BIOS boot sequence, packed as 4-bit device ids. 0 is invalid;
        // leave a normal floppy-first order so POST does not underflow the
        // boot-device index before INT 19h.
        regs[0x3D] = 0x01;
        assert(regs@ =~= CmosState::initial().regs);
        Cmos { regs, sel: 0, nmi_mask: 1 }
    }

    pub fn read(&mut self, port: u16) -> (v: u8)
        ensures
            final(self)@ == old(self)@,
            v == old(self)@.port_value(port),
    {
        match port {
            0x70 => self.nmi_mask | 0x80,
            0x71 => self.regs[(self.sel % 0x80) as usize],
            _ => 0xFF,
        }
    }

    pub fn write(&mut self, port: u16, val: u8)
        ensures
            final(self)@ == old(self)@.written(port, val),
    {
        match port {
            0x70 => {
                self.sel = val % 0x80;
                self.nmi_mask = val / 0x80;
            },
            0x71 => {
                let sel = self.sel as usize;
                if sel < 0x80 {
                    self.regs[sel] = val;
                }
            },
            _ => {},
        }
    }
}

impl Default for Cmos {
    fn default() -> (c: Self)
        ensures
            c@ == CmosState::initial(),
    {
        Cmos::new()
    }
}

/// 8237 DMA controller.
pub struct Dma {
    pub page_regs: [u8; 0x10],
    pub mode: u8,
    pub mask: u8,
}

/// The state of a `Dma`.
pub struct DmaState {
    pub page_regs: Seq<u8>,
    pub mode: u8,
    pub mask: u8,
}

impl View for Dma {
    type V = DmaState;

    open spec fn view(&self) -> DmaState {
        DmaState { page_regs: self.page_regs@, mode: self.mode, mask: self.mask }
    }
}

impl DmaState {
    pub open spec fn initial() -> DmaState {
        DmaState { page_regs: Seq::new(0x10, |i: int| 0u8), mode: 0, mask: 0 }
    }

    pub open spec fn port_value(self, port: u16) -> u8 {
        match port {
            0x08 => (self.mask & 0xF) | 0xF0,
            0xDA => 0x00,
            _ => 0xFF,
        }
    }
}

impl Dma {
    pub fn new() -> (d: Dma)
        ensures
            d@ == DmaState::initial(),
    {
        let d = Dma { page_regs: [0;0x10], mode: 0, mask: 0 };
        assert(d@.page_regs =~= DmaState::initial().page_regs);
        d
    }

    pub fn read(&mut self, port: u16) -> (v: u8)
        ensures
            final(self)@ == old(self)@,
            v == old(self)@.port_value(port),
    {
        match port {
            0x08 => (self.mask & 0xF) | 0xF0,
            0xDA => 0x00,
            _ => 0xFF,
        }
    }

    /// Every port sets the mode.
    pub fn write(&mut self, _port: u16, val: u8)
        ensures
            final(self)@ == (DmaState { mode: val, ..old(self)@ }),
    {
        self.mode = val;
    }
}

impl Default for Dma {
    fn default() -> (d: Self)
        ensures
            d@ == DmaState::initial(),
    {
        Dma::new()
    }
}

/// A CMOS register reads back what was written to it through the ports, and the
/// other registers keep their values.
pub proof fn cmos_register_reads_back(c: CmosState, reg: u8, val: u8, other: u8)
    requires
        c.regs.len() == 0x80,
        reg < 0x80,
        other < 0x80,
    ensures
        ({
            let d = c.written(0x70, reg).written(0x71, val);
            &&& d.written(0x70, reg).port_value(0x71) == val
            &&& other != reg ==> d.written(0x70, other).port_value(0x71) == c.written(
                0x70,
                other,
            ).port_value(0x71)
        }),
{
}

} // verus!
