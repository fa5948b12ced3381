//! Physical address space: RAM/ROM/VGA regions plus the host-device I/O bridge.
//!
//! `Mem` is the single addressable memory map owned by the CPU. Physical
//! accesses go through region lookups, where the region mapped last wins; port
//! I/O is delegated to the machine's `Device`.

use vstd::prelude::*;

use crate::bits::lemma_word_facts;

verus! {

// ---------------------------------------------------------------------------
// The model
// ---------------------------------------------------------------------------

/// One exchange with the host device.
pub enum DevEvent {
    /// A port read of `size` bytes, answered with `value`.
    In { port: u16, size: u8, value: u32 },
    /// A port write of `size` bytes.
    Out { port: u16, size: u8, data: u32 },
    /// An interrupt-acknowledge cycle, answered with `vector`.
    Ack { vector: Option<u8> },
    /// The passing of `cycles` clock cycles.
    Tick { cycles: u64 },
}

/// The exchanges with the host device so far, or `None` without a device.
pub type DevLog = Option<Seq<DevEvent>>;

/// Whether `log` continues `base`: the same exchanges, and possibly more.
pub open spec fn continues(log: DevLog, base: DevLog) -> bool {
    match (log, base) {
        (Some(l), Some(b)) => b.len() <= l.len() && forall|i: int|
            0 <= i < b.len() ==> #[trigger] l[i] == b[i],
        (None, None) => true,
        _ => false,
    }
}

/// A log continues itself.
pub proof fn lemma_continues_self(log: DevLog)
    ensures
        continues(log, log),
{
}

/// Continuing is transitive.
pub proof fn lemma_continues_trans(a: DevLog, b: DevLog, c: DevLog)
    requires
        continues(a, b),
        continues(b, c),
    ensures
        continues(a, c),
{
    if a is Some {
        let (x, y, z) = (a->0, b->0, c->0);
        assert forall|i: int| 0 <= i < z.len() implies #[trigger] x[i] == z[i] by {
            assert(y[i] == z[i]);
        }
    }
}

/// A physical address space: the byte at each mapped address, and the record of
/// the exchanges with the device.
pub struct MemState {
    pub bytes: Map<u32, u8>,
    pub dev: DevLog,
}

impl MemState {
    /// The byte at `addr`; unmapped addresses float high.
    pub open spec fn read8(self, addr: u32) -> u8 {
        if self.bytes.dom().contains(addr) {
            self.bytes[addr]
        } else {
            0xFF
        }
    }

    /// The little-endian word at `addr`.
    pub open spec fn read16(self, addr: u32) -> u16 {
        word(self.read8(addr), self.read8(addr.wrapping_add(1)))
    }

    /// The little-endian doubleword at `addr`.
    pub open spec fn read32(self, addr: u32) -> u32 {
        dword(self.read16(addr), self.read16(addr.wrapping_add(2)))
    }

    /// Storing `val` at `addr`; stores to unmapped addresses are lost.
    pub open spec fn write8(self, addr: u32, val: u8) -> MemState {
        if self.bytes.dom().contains(addr) {
            MemState { bytes: self.bytes.insert(addr, val), ..self }
        } else {
            self
        }
    }

    /// Storing the two bytes of `val`, low byte first.
    pub open spec fn write16(self, addr: u32, val: u16) -> MemState {
        self.write8(addr, val as u8).write8(addr.wrapping_add(1), (val >> 8) as u8)
    }

    /// Storing the four bytes of `val`, low byte first.
    pub open spec fn write32(self, addr: u32, val: u32) -> MemState {
        self.write16(addr, val as u16).write16(addr.wrapping_add(2), (val >> 16) as u16)
    }

    /// Storing `data[..n]` at consecutive addresses from `addr`.
    pub open spec fn write_block(self, addr: u32, data: Seq<u8>, n: nat) -> MemState
        decreases n,
    {
        if n == 0 {
            self
        } else {
            self.write_block(addr, data, (n - 1) as nat).write8(
                addr.wrapping_add(((n - 1) % 0x1_0000_0000) as u32),
                data[n - 1],
            )
        }
    }

    /// Recording one exchange, where there is a device.
    pub open spec fn record(self, e: DevEvent) -> MemState {
        match self.dev {
            Some(l) => MemState { dev: Some(l.push(e)), ..self },
            None => self,
        }
    }

    /// What the device answers to a port read, by the log that covers it.
    pub open spec fn in_reply(self, log: DevLog) -> u32 {
        match (self.dev, log) {
            (Some(l), Some(t)) => match t[l.len() as int] {
                DevEvent::In { value, .. } => value,
                _ => 0xFF,
            },
            _ => 0xFF,
        }
    }

    /// What the device answers to an interrupt acknowledge, by the log that
    /// covers it.
    pub open spec fn ack_reply(self, log: DevLog) -> Option<u8> {
        match (self.dev, log) {
            (Some(l), Some(t)) => match t[l.len() as int] {
                DevEvent::Ack { vector } => vector,
                _ => None,
            },
            _ => None,
        }
    }
}

/// The word with the given low and high bytes.
pub open spec fn word(lo: u8, hi: u8) -> u16 {
    (lo as u16) | ((hi as u16) << 8)
}

/// The doubleword with the given low and high words.
pub open spec fn dword(lo: u16, hi: u16) -> u32 {
    (lo as u32) | ((hi as u32) << 16)
}

// ---------------------------------------------------------------------------
// Regions
// ---------------------------------------------------------------------------

/// A contiguous physical memory region.
pub trait MemRegion: Send {
    /// The bytes of the region.
    spec fn bytes(&self) -> Seq<u8>;

    fn len(&self) -> (n: usize)
        ensures
            n == self.bytes().len(),
    ;

    fn read8(&self, off: u32) -> (v: u8)
        requires
            off < self.bytes().len(),
        ensures
            v == self.bytes()[off as int],
    ;

    fn write8(&mut self, off: u32, val: u8)
        requires
            off < old(self).bytes().len(),
        ensures
            final(self).bytes() == old(self).bytes().update(off as int, val),
    ;
}

/// Plain byte storage (RAM, or a writable ROM image).
pub struct Ram {
    bytes: Vec<u8>,
}

impl Ram {
    /// Zeroed storage of `size` bytes.
    pub fn new(size: usize) -> (r: Ram)
        ensures
            r.bytes() == Seq::new(size as nat, |i: int| 0u8),
    {
        let r = Ram { bytes: vec![0u8; size] };
        assert(r.bytes@ =~= Seq::new(size as nat, |i: int| 0u8));
        r
    }

    /// Storage that starts out as `data`.
    pub fn with_data(data: Vec<u8>) -> (r: Ram)
        ensures
            r.bytes() == data@,
    {
        Ram { bytes: data }
    }

    pub fn as_bytes(&self) -> (s: &[u8])
        ensures
            s@ == self.bytes(),
    {
        self.bytes.as_slice()
    }

    pub fn as_mut_bytes(&mut self) -> (s: &mut [u8])
        ensures
            s@ == old(self).bytes(),
            final(self).bytes() == final(s)@,
    {
        self.bytes.as_mut_slice()
    }
}

impl MemRegion for Ram {
    closed spec fn bytes(&self) -> Seq<u8> {
        self.bytes@
    }

    fn len(&self) -> (n: usize) {
        self.bytes.len()
    }

    fn read8(&self, off: u32) -> (v: u8) {
        self.bytes[off as usize]
    }

    fn write8(&mut self, off: u32, val: u8) {
        self.bytes[off as usize] = val;
    }
}

/// VGA adapter memory (0xA0000..0xC0000). Read/write; the machine's renderer
/// polls it back to produce frames.
pub struct VgaMem {
    bytes: Vec<u8>,
}

impl VgaMem {
    pub fn new() -> (r: VgaMem)
        ensures
            r.bytes() == Seq::new(0x20000, |i: int| 0u8),
    {
        let r = VgaMem { bytes: vec![0u8; 0x20000] };
        assert(r.bytes@ =~= Seq::new(0x20000, |i: int| 0u8));
        r
    }

    pub fn as_bytes(&self) -> (s: &[u8])
        ensures
            s@ == self.bytes(),
    {
        self.bytes.as_slice()
    }
}

impl Default for VgaMem {
    fn default() -> (r: Self)
        ensures
            r.bytes() == Seq::new(0x20000, |i: int| 0u8),
    {
        Self::new()
    }
}

impl MemRegion for VgaMem {
    closed spec fn bytes(&self) -> Seq<u8> {
        self.bytes@
    }

    fn len(&self) -> (n: usize) {
        self.bytes.len()
    }

    fn read8(&self, off: u32) -> (v: u8) {
        self.bytes[off as usize]
    }

    fn write8(&mut self, off: u32, val: u8) {
        self.bytes[off as usize] = val;
    }
}

// ---------------------------------------------------------------------------
// The host device
// ---------------------------------------------------------------------------

/// Host machine device: port I/O, IRQ acknowledge, and per-tick clock.
///
/// `exchanges` is the record of what has passed between the device and its user:
/// each method adds the exchange that it is, with the answer that it gave.
pub trait Device: Send {
    /// Nothing is known of the record of a device that does not define it, beyond
    /// what the methods say.
    closed spec fn exchanges(&self) -> Seq<DevEvent> {
        let record = arbitrary::<spec_fn(&Self) -> Seq<DevEvent>>();
        record(self)
    }

    fn io_read(&mut self, port: u16, size: u8) -> (v: u32)
        ensures
            final(self).exchanges() == old(self).exchanges().push(
                DevEvent::In { port, size, value: v },
            ),
    ;

    fn io_write(&mut self, port: u16, size: u8, data: u32)
        ensures
            final(self).exchanges() == old(self).exchanges().push(
                DevEvent::Out { port, size, data },
            ),
    ;

    /// Returns the interrupt vector for the PIC's highest-priority pending
    /// request and takes it into service (interrupt acknowledge cycle).
    fn ack_irq(&mut self) -> (vector: Option<u8>)
        ensures
            final(self).exchanges() == old(self).exchanges().push(DevEvent::Ack { vector }),
    ;

    /// Called from the run loops to advance time in device land.
    fn tick(&mut self, cycles: u64)
        ensures
            final(self).exchanges() == old(self).exchanges().push(DevEvent::Tick { cycles }),
    ;
}

// ---------------------------------------------------------------------------
// The memory map
// ---------------------------------------------------------------------------

/// A mapped physical region: addresses `start..end`.
pub struct Region<M = Box<dyn MemRegion>> {
    start: u32,
    end: u32,
    memory: M,
}

impl<M> Region<M> {
    spec fn covers(self, addr: u32) -> bool {
        self.start <= addr < self.end
    }

    fn new(start: u32, end: u32, memory: M) -> (r: Self)
        ensures
            r.start == start,
            r.end == end,
            r.memory == memory,
    {
        Region { start, end, memory }
    }

    fn contains(&self, addr: u32) -> (b: bool)
        ensures
            b == self.covers(addr),
    {
        addr >= self.start && addr < self.end
    }
}

/// Index of the last of `regions` that covers `addr`.
spec fn top(regions: Seq<Region<Box<dyn MemRegion>>>, addr: u32) -> Option<int>
    decreases regions.len(),
{
    if regions.len() == 0 {
        None
    } else if regions.last().covers(addr) {
        Some(regions.len() - 1)
    } else {
        top(regions.drop_last(), addr)
    }
}

/// The byte at each mapped address.
spec fn image(regions: Seq<Region<Box<dyn MemRegion>>>) -> Map<u32, u8> {
    Map::new(
        |a: u32| top(regions, a) is Some,
        |a: u32|
            {
                let r = regions[top(regions, a)->0];
                r.memory.bytes()[a - r.start]
            },
    )
}

/// What `top` finds is the last covering region, and only that.
proof fn lemma_top(regions: Seq<Region<Box<dyn MemRegion>>>, addr: u32)
    ensures
        match top(regions, addr) {
            Some(i) => 0 <= i < regions.len() && regions[i].covers(addr) && forall|j: int|
                i < j < regions.len() ==> !(#[trigger] regions[j]).covers(addr),
            None => forall|j: int| 0 <= j < regions.len() ==> !(#[trigger] regions[j]).covers(addr),
        },
    decreases regions.len(),
{
    if regions.len() > 0 && !regions.last().covers(addr) {
        lemma_top(regions.drop_last(), addr);
        assert forall|j: int|
            top(regions, addr) is Some && top(regions, addr)->0 < j < regions.len() implies !(
        #[trigger] regions[j]).covers(addr) by {
            if j < regions.len() - 1 {
                assert(regions.drop_last()[j] == regions[j]);
            }
        }
        assert forall|j: int|
            top(regions, addr) is None && 0 <= j < regions.len() implies !(
        #[trigger] regions[j]).covers(addr) by {
            if j < regions.len() - 1 {
                assert(regions.drop_last()[j] == regions[j]);
            }
        }
    }
}

/// The regions of a memory map, in the order in which they were mapped.
struct RegionTable {
    regions: Vec<Region<Box<dyn MemRegion>>>,
}

impl RegionTable {
    #[verifier::type_invariant]
    spec fn wf(self) -> bool {
        forall|i: int|
            0 <= i < self.regions@.len() ==> {
                let r = #[trigger] self.regions@[i];
                r.start <= r.end && r.end - r.start <= r.memory.bytes().len()
            }
    }

    spec fn image(self) -> Map<u32, u8> {
        image(self.regions@)
    }

    fn empty() -> (t: RegionTable)
        ensures
            t.image() == Map::<u32, u8>::empty(),
    {
        let t = RegionTable { regions: Vec::new() };
        assert(t.image() =~= Map::<u32, u8>::empty());
        t
    }

    fn find(&self, addr: u32) -> (r: Option<usize>)
        ensures
            match r {
                Some(i) => top(self.regions@, addr) == Some(i as int),
                None => top(self.regions@, addr) is None,
            },
    {
        let mut n: usize = self.regions.len();
        assert(self.regions@.take(n as int) =~= self.regions@);
        while n > 0
            invariant
                n <= self.regions@.len(),
                top(self.regions@.take(n as int), addr) == top(self.regions@, addr),
            decreases n,
        {
            assert(self.regions@.take(n as int).drop_last() =~= self.regions@.take(n - 1));
            if self.regions[n - 1].contains(addr) {
                return Some(n - 1);
            }
            n = n - 1;
        }
        None
    }

    fn read8(&self, addr: u32) -> (v: u8)
        ensures
            v == (if self.image().dom().contains(addr) {
                self.image()[addr]
            } else {
                0xFF
            }),
    {
        proof {
            use_type_invariant(self);
            lemma_top(self.regions@, addr);
        }
        match self.find(addr) {
            Some(i) => self.regions[i].memory.read8(addr - self.regions[i].start),
            None => 0xFF,
        }
    }

    fn write8(&mut self, addr: u32, val: u8)
        ensures
            final(self).image() == (if old(self).image().dom().contains(addr) {
                old(self).image().insert(addr, val)
            } else {
                old(self).image()
            }),
    {
        proof {
            use_type_invariant(&*self);
            lemma_top(self.regions@, addr);
        }
        if let Some(i) = self.find(addr) {
            let mut regions: Vec<Region<Box<dyn MemRegion>>> = Vec::new();
            std::mem::swap(&mut regions, &mut self.regions);
            let off = addr - regions[i].start;
            regions[i].memory.write8(off, val);
            proof {
                let (before, after) = (old(self).regions@, regions@);
                assert forall|j: int| 0 <= j < after.len() && j != i implies #[trigger] after[j]
                    == before[j] by {}
                assert forall|a: u32| top(after, a) == top(before, a) by {
                    lemma_top(after, a);
                    lemma_top(before, a);
                    lemma_same_top(before, after, a);
                }
                assert forall|a: u32| image(before).dom().contains(a) implies #[trigger] image(
                    after,
                )[a] == image(before).insert(addr, val)[a] by {
                    lemma_top(before, a);
                }
                assert(image(after) =~= image(before).insert(addr, val));
            }
            std::mem::swap(&mut regions, &mut self.regions);
        }
    }

    /// Map `region` over what was there.
    fn add(&mut self, region: Region<Box<dyn MemRegion>>)
        requires
            region.start <= region.end,
            region.end - region.start <= region.memory.bytes().len(),
        ensures
            final(self).image() == old(self).image().union_prefer_right(
                window(region.start, (region.end - region.start) as nat, region.memory.bytes()),
            ),
    {
        proof {
            use_type_invariant(&*self);
        }
        let mut regions: Vec<Region<Box<dyn MemRegion>>> = Vec::new();
        std::mem::swap(&mut regions, &mut self.regions);
        regions.push(region);
        proof {
            let (before, after) = (old(self).regions@, regions@);
            assert(after.drop_last() =~= before);
            assert forall|a: u32| top(before, a) is Some implies 0 <= #[trigger] top(before, a)->0
                < before.len() by {
                lemma_top(before, a);
            }
            assert(image(after) =~= image(before).union_prefer_right(
                window(region.start, (region.end - region.start) as nat, region.memory.bytes()),
            ));
        }
        std::mem::swap(&mut regions, &mut self.regions);
    }
}

/// Regions that cover the same addresses have the same top one.
proof fn lemma_same_top(
    a: Seq<Region<Box<dyn MemRegion>>>,
    b: Seq<Region<Box<dyn MemRegion>>>,
    addr: u32,
)
    requires
        a.len() == b.len(),
        forall|j: int|
            0 <= j < a.len() ==> (#[trigger] a[j]).start == b[j].start && a[j].end == b[j].end,
    ensures
        top(a, addr) == top(b, addr),
    decreases a.len(),
{
    if a.len() > 0 {
        assert(a.last().covers(addr) == b.last().covers(addr)) by {
            assert(a[a.len() - 1].start == b[a.len() - 1].start);
        }
        assert forall|j: int| 0 <= j < a.len() - 1 implies (#[trigger] a.drop_last()[j]).start
            == b.drop_last()[j].start && a.drop_last()[j].end == b.drop_last()[j].end by {
            assert(a[j].start == b[j].start);
        }
        lemma_same_top(a.drop_last(), b.drop_last(), addr);
    }
}

/// The map of the first `len` of `bytes` to the addresses from `start`.
pub open spec fn window(start: u32, len: nat, bytes: Seq<u8>) -> Map<u32, u8> {
    Map::new(|a: u32| start <= a < start + len, |a: u32| bytes[a - start])
}

/// The physical memory map.
pub struct Mem {
    table: RegionTable,
    device: Option<Box<dyn Device>>,
}

impl View for Mem {
    type V = MemState;

    closed spec fn view(&self) -> MemState {
        MemState {
            bytes: self.table.image(),
            dev: match self.device {
                Some(d) => Some((*d).exchanges()),
                None => None,
            },
        }
    }
}

impl Default for Mem {
    fn default() -> (m: Self)
        ensures
            m@ == (MemState { bytes: Map::empty(), dev: None }),
    {
        Self::new()
    }
}

impl Mem {
    /// An empty map without a device.
    pub fn new() -> (m: Mem)
        ensures
            m@ == (MemState { bytes: Map::empty(), dev: None }),
    {
        Mem { table: RegionTable::empty(), device: None }
    }

    /// Install the default PC layout: 16 MB RAM at 0..0x1000000.
    pub fn install_default_ram(&mut self)
        ensures
            final(self)@ == (MemState {
                bytes: old(self)@.bytes.union_prefer_right(
                    window(0, 0x100_0000, Seq::new(0x100_0000, |i: int| 0u8)),
                ),
                ..old(self)@
            }),
    {
        self.add_ram(0, 16 * 1024 * 1024);
    }

    /// Connect the host device.
    pub fn install_device(&mut self, dev: Box<dyn Device>)
        ensures
            final(self)@ == (MemState { dev: Some((*dev).exchanges()), ..old(self)@ }),
    {
        let device = Some(dev);
        self.connect(device);
    }

    /// Put `device` in the place of the host device.
    pub(crate) fn connect(&mut self, device: Option<Box<dyn Device>>)
        ensures
            final(self)@ == (MemState {
                dev: match device {
                    Some(d) => Some((*d).exchanges()),
                    None => None,
                },
                ..old(self)@
            }),
    {
        self.device = device;
    }

    /// The host device, for its owner to look at.
    pub fn device_mut(&mut self) -> (d: Option<&mut Box<dyn Device>>)
        ensures
            match d {
                Some(d) => old(self)@.dev == Some((*d).exchanges()) && final(self)@ == (MemState {
                    dev: Some((*final(d)).exchanges()),
                    ..old(self)@
                }),
                None => old(self)@.dev is None && final(self)@ == old(self)@,
            },
    {
        match &mut self.device {
            Some(d) => Some(d),
            None => None,
        }
    }

    /// Map a generic region of `len` bytes at physical `start`.
    pub fn add_region(&mut self, start: u32, len: usize, region: Box<dyn MemRegion>)
        requires
            start + len <= u32::MAX,
            len <= region.bytes().len(),
        ensures
            final(self)@ == (MemState {
                bytes: old(self)@.bytes.union_prefer_right(
                    window(start, len as nat, region.bytes()),
                ),
                ..old(self)@
            }),
    {
        let mapped = Region::new(start, start + len as u32, region);
        self.table.add(mapped);
    }

    /// Map fresh RAM at `start`..`start+size`.
    pub fn add_ram(&mut self, start: u32, size: usize)
        requires
            start + size <= u32::MAX,
        ensures
            final(self)@ == (MemState {
                bytes: old(self)@.bytes.union_prefer_right(
                    window(start, size as nat, Seq::new(size as nat, |i: int| 0u8)),
                ),
                ..old(self)@
            }),
    {
        self.add_region(start, size, Box::new(Ram::new(size)));
    }

    /// Map a ROM image (kept writable — real BIOS code writes to its own image
    /// region while shadowing into RAM; that is benign).
    pub fn add_rom(&mut self, start: u32, data: Vec<u8>)
        requires
            start + data@.len() <= u32::MAX,
        ensures
            final(self)@ == (MemState {
                bytes: old(self)@.bytes.union_prefer_right(
                    window(start, data@.len(), data@),
                ),
                ..old(self)@
            }),
    {
        let len = data.len();
        self.add_region(start, len, Box::new(Ram::with_data(data)));
    }

    /// Map a VGA framebuffer region.
    pub fn add_vga(&mut self, start: u32)
        requires
            start + 0x20000 <= u32::MAX,
        ensures
            final(self)@ == (MemState {
                bytes: old(self)@.bytes.union_prefer_right(
                    window(start, 0x20000, Seq::new(0x20000, |i: int| 0u8)),
                ),
                ..old(self)@
            }),
    {
        self.add_region(start, 0x20000, Box::new(VgaMem::new()));
    }

    /// Overwrite bytes in a mapped region (used to load firmware/disk images).
    /// Silently ignores unmapped addresses (matches reads returning 0xFF).
    pub fn load_region(&mut self, start: u32, data: &[u8])
        ensures
            final(self)@ == old(self)@.write_block(start, data@, data@.len()),
    {
        self.phys_write_block(start, data);
    }

    /// Copy bytes out of the map (used by the CGA renderer to grab VRAM).
    pub fn copy_from_phys(&mut self, start: u32, out: &mut [u8])
        ensures
            final(self)@ == old(self)@,
            final(out)@ == Seq::new(
                old(out)@.len(),
                |i: int| old(self)@.read8(start.wrapping_add((i % 0x1_0000_0000) as u32)),
            ),
    {
        self.phys_read_block(start, out);
    }

    pub fn phys_read8(&self, addr: u32) -> (v: u8)
        ensures
            v == self@.read8(addr),
    {
        self.table.read8(addr)
    }

    pub fn phys_write8(&mut self, addr: u32, val: u8)
        ensures
            final(self)@ == old(self)@.write8(addr, val),
    {
        self.table.write8(addr, val);
    }

    pub fn phys_read16(&self, addr: u32) -> (v: u16)
        ensures
            v == self@.read16(addr),
    {
        (self.phys_read8(addr) as u16) | ((self.phys_read8(addr.wrapping_add(1)) as u16) << 8)
    }

    pub fn phys_read32(&self, addr: u32) -> (v: u32)
        ensures
            v == self@.read32(addr),
    {
        (self.phys_read16(addr) as u32) | ((self.phys_read16(addr.wrapping_add(2)) as u32) << 16)
    }

    pub fn phys_write16(&mut self, addr: u32, val: u16)
        ensures
            final(self)@ == old(self)@.write16(addr, val),
    {
        self.phys_write8(addr, val as u8);
        self.phys_write8(addr.wrapping_add(1), (val >> 8) as u8);
    }

    pub fn phys_write32(&mut self, addr: u32, val: u32)
        ensures
            final(self)@ == old(self)@.write32(addr, val),
    {
        self.phys_write16(addr, val as u16);
        self.phys_write16(addr.wrapping_add(2), (val >> 16) as u16);
    }

    /// Block read used by string instructions (`movs`, `lods`, …).
    pub fn phys_read_block(&mut self, addr: u32, out: &mut [u8])
        ensures
            final(self)@ == old(self)@,
            final(out)@ == Seq::new(
                old(out)@.len(),
                |i: int| old(self)@.read8(addr.wrapping_add((i % 0x1_0000_0000) as u32)),
            ),
    {
        let n = out.len();
        let mut i: usize = 0;
        let mut off: u32 = 0;
        while i < n
            invariant
                n == out@.len(),
                n == old(out)@.len(),
                i <= n,
                off as int == i as int % 0x1_0000_0000,
                self@ == old(self)@,
                forall|j: int|
                    0 <= j < i ==> #[trigger] out@[j] == self@.read8(
                        addr.wrapping_add((j % 0x1_0000_0000) as u32),
                    ),
            decreases n - i,
        {
            out[i] = self.phys_read8(addr.wrapping_add(off));
            i = i + 1;
            off = off.wrapping_add(1);
        }
        assert(out@ =~= Seq::new(
            old(out)@.len(),
            |i: int| old(self)@.read8(addr.wrapping_add((i % 0x1_0000_0000) as u32)),
        ));
    }

    /// Block write used by string instructions (`movs`, `stos`, …).
    pub fn phys_write_block(&mut self, addr: u32, data: &[u8])
        ensures
            final(self)@ == old(self)@.write_block(addr, data@, data@.len()),
    {
        let mut i: usize = 0;
        let mut off: u32 = 0;
        while i < data.len()
            invariant
                i <= data@.len(),
                off as int == i as int % 0x1_0000_0000,
                self@ == old(self)@.write_block(addr, data@, i as nat),
            decreases data@.len() - i,
        {
            self.phys_write8(addr.wrapping_add(off), data[i]);
            i = i + 1;
            off = off.wrapping_add(1);
        }
    }

    // ---- port I/O ----

    /// Read a port; without a device the bus floats high.
    pub fn io_read(&mut self, port: u16, size: u8) -> (v: u32)
        ensures
            final(self)@ == old(self)@.record(DevEvent::In { port, size, value: v }),
            old(self)@.dev is None ==> v == 0xFF,
    {
        match &mut self.device {
            Some(d) => d.io_read(port, size),
            None => 0xFF,
        }
    }

    pub fn io_write(&mut self, port: u16, size: u8, data: u32)
        ensures
            final(self)@ == old(self)@.record(DevEvent::Out { port, size, data }),
    {
        if let Some(d) = &mut self.device {
            d.io_write(port, size, data);
        }
    }

    /// Ask the machine's PIC which vector is in service (INTA cycle).
    pub fn ack_irq(&mut self) -> (vector: Option<u8>)
        ensures
            final(self)@ == old(self)@.record(DevEvent::Ack { vector }),
            old(self)@.dev is None ==> vector is None,
    {
        match &mut self.device {
            Some(d) => d.ack_irq(),
            None => None,
        }
    }

    /// Walk the machine's timers.
    pub fn tick_device(&mut self, cycles: u64)
        ensures
            final(self)@ == old(self)@.record(DevEvent::Tick { cycles }),
    {
        if let Some(d) = &mut self.device {
            d.tick(cycles);
        }
    }
}

// ---------------------------------------------------------------------------
// Laws
// ---------------------------------------------------------------------------

/// Every address from `addr` on, `n` of them, is mapped.
pub open spec fn mapped(m: MemState, addr: u32, n: nat) -> bool {
    forall|i: int|
        0 <= i < n ==> m.bytes.dom().contains(
            #[trigger] addr.wrapping_add((i % 0x1_0000_0000) as u32),
        )
}

/// A mapped byte reads back what was written; every other address keeps its
/// byte, and the same addresses are mapped as before.
pub proof fn byte_reads_back(m: MemState, addr: u32, val: u8)
    ensures
        m.bytes.dom().contains(addr) ==> m.write8(addr, val).read8(addr) == val,
        forall|b: u32| b != addr ==> (#[trigger] m.write8(addr, val).read8(b)) == m.read8(b),
        m.write8(addr, val).bytes.dom() =~= m.bytes.dom(),
{
}

/// Reads of an unmapped address float high, and writes to it are lost.
pub proof fn unmapped_floats_high(m: MemState, addr: u32, val: u8)
    requires
        !m.bytes.dom().contains(addr),
    ensures
        m.read8(addr) == 0xFF,
        m.write8(addr, val) == m,
{
}

/// Two bytes make up the word they were taken from, and two words the
/// doubleword.
pub proof fn lemma_word_parts(v: u16, d: u32)
    ensures
        word(v as u8, (v >> 8) as u8) == v,
        dword(d as u16, (d >> 16) as u16) == d,
{
    lemma_word_facts(d, 0, 0, 0, v, 0);
}

/// A mapped word reads back what was written.
pub proof fn word_reads_back(m: MemState, addr: u32, val: u16)
    requires
        mapped(m, addr, 2),
    ensures
        m.write16(addr, val).read16(addr) == val,
        m.write16(addr, val).bytes.dom() =~= m.bytes.dom(),
{
    lemma_word_parts(val, 0);
    assert(addr.wrapping_add((0int % 0x1_0000_0000) as u32) == addr);
    assert(addr.wrapping_add((1int % 0x1_0000_0000) as u32) == addr.wrapping_add(1));
}

/// A mapped doubleword reads back what was written.
pub proof fn dword_reads_back(m: MemState, addr: u32, val: u32)
    requires
        mapped(m, addr, 4),
    ensures
        m.write32(addr, val).read32(addr) == val,
        m.write32(addr, val).bytes.dom() =~= m.bytes.dom(),
{
    lemma_word_parts(val as u16, val);
    lemma_word_parts((val >> 16) as u16, val);
    assert(addr.wrapping_add((0int % 0x1_0000_0000) as u32) == addr);
    assert(addr.wrapping_add((1int % 0x1_0000_0000) as u32) == addr.wrapping_add(1));
    assert(addr.wrapping_add((2int % 0x1_0000_0000) as u32) == addr.wrapping_add(2));
    assert(addr.wrapping_add((3int % 0x1_0000_0000) as u32) == addr.wrapping_add(2).wrapping_add(
        1,
    ));
}

/// A block that was written to mapped memory reads back byte by byte.
pub proof fn block_reads_back(m: MemState, addr: u32, data: Seq<u8>, n: nat, i: int)
    requires
        mapped(m, addr, n),
        n <= data.len(),
        n <= 0x1_0000_0000,
        0 <= i < n,
    ensures
        m.write_block(addr, data, n).read8(addr.wrapping_add(i as u32)) == data[i],
        m.write_block(addr, data, n).bytes.dom() =~= m.bytes.dom(),
    decreases n,
{
    let before = m.write_block(addr, data, (n - 1) as nat);
    let last = addr.wrapping_add(((n - 1) % 0x1_0000_0000) as u32);
    lemma_block_keeps_map(m, addr, data, (n - 1) as nat);
    assert(m.bytes.dom().contains(addr.wrapping_add(((n - 1) % 0x1_0000_0000) as u32)));
    if i < n - 1 {
        block_reads_back(m, addr, data, (n - 1) as nat, i);
        assert(addr.wrapping_add(i as u32) != last);
    } else {
        assert((n - 1) % 0x1_0000_0000 == n - 1) by (nonlinear_arith)
            requires
                0 < n <= 0x1_0000_0000,
        ;
    }
}

/// Writing a block maps and unmaps nothing.
pub proof fn lemma_block_keeps_map(m: MemState, addr: u32, data: Seq<u8>, n: nat)
    ensures
        m.write_block(addr, data, n).bytes.dom() =~= m.bytes.dom(),
    decreases n,
{
    if n > 0 {
        lemma_block_keeps_map(m, addr, data, (n - 1) as nat);
    }
}

/// A region that is added later shadows what was mapped before: inside its window
/// its own bytes are read, outside nothing changes.
pub proof fn later_region_shadows(m: MemState, start: u32, data: Seq<u8>, addr: u32)
    requires
        start + data.len() <= u32::MAX,
    ensures
        ({
            let n = MemState {
                bytes: m.bytes.union_prefer_right(window(start, data.len(), data)),
                ..m
            };
            n.read8(addr) == (if start <= addr < start + data.len() {
                data[addr - start]
            } else {
                m.read8(addr)
            })
        }),
{
}

} // verus!
