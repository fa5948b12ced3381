//! Memory management: linear-address computation (16/32-bit effective
//! addresses), segment translation (real + protected), paging (386 CR0.PG),
//! and the shared low-level accessors used by the decoder and both engines.

use vstd::prelude::*;
use vstd::string::*;

use crate::bits::lemma_turns;
use crate::cpu::{AccessKind, CpuState, Error, ErrorView, Seg, X86, outcome};
use crate::mem::{dword, word};
use crate::text::{hex_text, to_hex};

verus! {

/// Result of a translation.
#[derive(Debug, Clone, Copy, PartialEq, Eq, Structural)]
pub enum Translate {
    /// Real/PM direct: physical address.
    Phys(u32),
    /// Page fault: page-present / page-write flags.
    PageFault { present: bool, write: bool, addr: u32 },
    /// Segment fault: general protection or SS.
    SegFault { ss: bool, addr: u32 },
}

/// The value of the register that `r` numbers, 0 without one.
pub open spec fn addend(gpr: Seq<u32>, r: Option<u8>) -> int {
    match r {
        Some(n) => gpr[n as int] as int,
        None => 0,
    }
}

/// The effective address base + index * scale + displacement, modulo the size
/// of the address space.
pub open spec fn effective(
    gpr: Seq<u32>,
    base: Option<u8>,
    index: Option<u8>,
    scale: u8,
    disp: i32,
    a16: bool,
) -> u32 {
    let sum = addend(gpr, base) + addend(gpr, index) * scale + disp;
    if a16 {
        (sum % 0x1_0000) as u32
    } else {
        (sum % 0x1_0000_0000) as u32
    }
}

/// Physical address of the entry for slot `n` in the table at the page that
/// `pointer` names.
pub open spec fn entry_addr(pointer: u32, n: int) -> u32 {
    (pointer as int / 4096 * 4096 + 4 * n) as u32
}

impl CpuState {
    /// The directory entry that covers the linear address `lin`.
    pub open spec fn page_dir_entry(self, lin: u32) -> u32 {
        self.mem.read32(entry_addr(self.cr[3], lin as int / 0x40_0000))
    }

    /// The table entry that covers the linear address `lin`.
    pub open spec fn page_table_entry(self, lin: u32) -> u32 {
        self.mem.read32(entry_addr(self.page_dir_entry(lin), lin as int / 4096 % 1024))
    }

    /// The two-level page walk.
    pub open spec fn paged(self, lin: u32, kind: AccessKind) -> Translate {
        let pde = self.page_dir_entry(lin);
        let pte = self.page_table_entry(lin);
        let write = kind is Write || kind is Rmw;
        if pde & 1 == 0 || pte & 1 == 0 {
            Translate::PageFault { present: false, write: false, addr: lin }
        } else if write && (pde & 2 == 0 || pte & 2 == 0) {
            Translate::PageFault { present: true, write: true, addr: lin }
        } else if self.cpl() != 0 && (pde & 4 == 0 || pte & 4 == 0) {
            Translate::PageFault { present: true, write, addr: lin }
        } else {
            Translate::Phys((pte as int / 4096 * 4096 + lin as int % 4096) as u32)
        }
    }

    /// Where the access `seg`:`off` lands. Real mode: 20-bit wrap. Protected
    /// mode: limit check + base; paging walk.
    pub open spec fn translated(
        self,
        seg: Seg,
        off: u32,
        size: u32,
        kind: AccessKind,
    ) -> Translate {
        let d = self.segment(seg).desc;
        let limit = d.last_offset();
        let lin = ((d.base + off) % 0x1_0000_0000) as u32;
        if !self.protected() {
            Translate::Phys(((d.base + off) % 0x10_0000) as u32)
        } else if off > limit || (size > 1 && off > limit.wrapping_sub((size - 1) as u32)) {
            Translate::SegFault { ss: seg == Seg::Ss, addr: off }
        } else if self.cr[0] & 0x8000_0000 == 0 {
            Translate::Phys(lin)
        } else {
            self.paged(lin, kind)
        }
    }

    /// Where the access lands, or the error it is reported as.
    pub open spec fn located(self, seg: Seg, off: u32, size: u32, kind: AccessKind) -> Result<
        u32,
        ErrorView,
    > {
        match self.translated(seg, off, size, kind) {
            Translate::Phys(p) => Ok(p),
            Translate::PageFault { present, write, addr } => Err(page_fault_error(addr)),
            Translate::SegFault { ss, addr } => Err(segment_fault_error(addr)),
        }
    }

    /// The instruction byte at CS:`off`.
    pub open spec fn fetch8(self, off: u32) -> Result<u8, Seq<char>> {
        let d = self.segment(Seg::Cs).desc;
        if !self.protected() {
            Ok(self.mem.read8(((d.base + off as int % 0x1_0000) % 0x10_0000) as u32))
        } else if off > d.last_offset() {
            Err(fetch_error_text(off, d.last_offset()))
        } else {
            Ok(self.mem.read8(((d.base + off) % 0x1_0000_0000) as u32))
        }
    }

    /// The instruction word at CS:`off`.
    pub open spec fn fetch16(self, off: u32) -> Result<u16, Seq<char>> {
        match (self.fetch8(off), self.fetch8(off.wrapping_add(1))) {
            (Err(e), _) => Err(e),
            (Ok(lo), Err(e)) => Err(e),
            (Ok(lo), Ok(hi)) => Ok(word(lo, hi)),
        }
    }

    /// The instruction dword at CS:`off`.
    pub open spec fn fetch32(self, off: u32) -> Result<u32, Seq<char>> {
        match (self.fetch16(off), self.fetch16(off.wrapping_add(2))) {
            (Err(e), _) => Err(e),
            (Ok(lo), Err(e)) => Err(e),
            (Ok(lo), Ok(hi)) => Ok(dword(lo, hi)),
        }
    }

    /// The data byte at `seg`:`off`.
    pub open spec fn load8(self, seg: Seg, off: u32, kind: AccessKind) -> Result<u8, ErrorView> {
        match self.located(seg, off, 1, kind) {
            Err(e) => Err(e),
            Ok(p) => Ok(self.mem.read8(p)),
        }
    }

    /// The data word at `seg`:`off`, low byte first; each byte is located on
    /// its own.
    pub open spec fn load16(self, seg: Seg, off: u32, kind: AccessKind) -> Result<u16, ErrorView> {
        match (self.load8(seg, off, kind), self.load8(seg, off.wrapping_add(1), kind)) {
            (Err(e), _) => Err(e),
            (Ok(lo), Err(e)) => Err(e),
            (Ok(lo), Ok(hi)) => Ok(word(lo, hi)),
        }
    }

    /// The data dword at `seg`:`off`, low word first.
    pub open spec fn load32(self, seg: Seg, off: u32, kind: AccessKind) -> Result<u32, ErrorView> {
        match (self.load16(seg, off, kind), self.load16(seg, off.wrapping_add(2), kind)) {
            (Err(e), _) => Err(e),
            (Ok(lo), Err(e)) => Err(e),
            (Ok(lo), Ok(hi)) => Ok(dword(lo, hi)),
        }
    }

    /// Write a data byte at `seg`:`off`.
    pub open spec fn store8(self, seg: Seg, off: u32, val: u8, kind: AccessKind) -> (
        CpuState,
        Result<(), ErrorView>,
    ) {
        match self.located(seg, off, 1, kind) {
            Err(e) => (self, Err(e)),
            Ok(p) => (self.with_mem(self.mem.write8(p, val)), Ok(())),
        }
    }

    /// Write a data word at `seg`:`off`, low byte first; where only the high
    /// byte faults, the low byte has been written.
    pub open spec fn store16(self, seg: Seg, off: u32, val: u16, kind: AccessKind) -> (
        CpuState,
        Result<(), ErrorView>,
    ) {
        let (s, r) = self.store8(seg, off, val as u8, kind);
        match r {
            Err(e) => (s, Err(e)),
            Ok(_) => s.store8(seg, off.wrapping_add(1), (val >> 8) as u8, kind),
        }
    }

    /// Write a data dword at `seg`:`off`, low word first.
    pub open spec fn store32(self, seg: Seg, off: u32, val: u32, kind: AccessKind) -> (
        CpuState,
        Result<(), ErrorView>,
    ) {
        let (s, r) = self.store16(seg, off, val as u16, kind);
        match r {
            Err(e) => (s, Err(e)),
            Ok(_) => s.store16(seg, off.wrapping_add(2), (val >> 16) as u16, kind),
        }
    }

    /// A value of 1, 2 or (any other size) 4 bytes at `seg`:`off`, zero-extended.
    pub open spec fn load_bytes(self, seg: Seg, off: u32, size: u32, kind: AccessKind) -> Result<
        u32,
        ErrorView,
    > {
        if size == 1 {
            match self.load8(seg, off, kind) {
                Ok(v) => Ok(v as u32),
                Err(e) => Err(e),
            }
        } else if size == 2 {
            match self.load16(seg, off, kind) {
                Ok(v) => Ok(v as u32),
                Err(e) => Err(e),
            }
        } else {
            self.load32(seg, off, kind)
        }
    }

    /// Write the low 1, 2 or (any other size) 4 bytes of `val` at `seg`:`off`.
    pub open spec fn store_bytes(
        self,
        seg: Seg,
        off: u32,
        size: u32,
        val: u32,
        kind: AccessKind,
    ) -> (CpuState, Result<(), ErrorView>) {
        if size == 1 {
            self.store8(seg, off, val as u8, kind)
        } else if size == 2 {
            self.store16(seg, off, val as u16, kind)
        } else {
            self.store32(seg, off, val, kind)
        }
    }

    /// `load_bytes`, kept folded in the specifications of instructions.
    #[verifier::opaque]
    pub open spec fn load(self, seg: Seg, off: u32, size: u32, kind: AccessKind) -> Result<
        u32,
        ErrorView,
    > {
        self.load_bytes(seg, off, size, kind)
    }

    /// `store_bytes`, kept folded in the specifications of instructions.
    #[verifier::opaque]
    pub open spec fn store(self, seg: Seg, off: u32, size: u32, val: u32, kind: AccessKind) -> (
        CpuState,
        Result<(), ErrorView>,
    ) {
        self.store_bytes(seg, off, size, val, kind)
    }
}

/// The error that reports a page fault at the linear address `addr`.
pub open spec fn page_fault_error(addr: u32) -> ErrorView {
    ErrorView::Internal("page fault at "@ + hex_text(addr as nat))
}

/// The error that reports a segment fault at the offset `addr`.
pub open spec fn segment_fault_error(addr: u32) -> ErrorView {
    ErrorView::Internal("segment fault at "@ + hex_text(addr as nat))
}

/// The text that reports a fetch beyond the code segment.
pub open spec fn fetch_error_text(off: u32, limit: u32) -> Seq<char> {
    "CS limit exceeded (EIP "@ + hex_text(off as nat) + " > limit "@ + hex_text(limit as nat) + ")"@
}

/// A fetched value, or the characters of the text that says why there is none.
pub open spec fn fetched<T>(r: Result<T, String>) -> Result<T, Seq<char>> {
    match r {
        Ok(v) => Ok(v),
        Err(e) => Err(e@),
    }
}

/// A turn of the 32-bit address space changes no address.
proof fn lemma_full_turn(n: int)
    ensures
        (n + 0x1_0000_0000) % 0x1_0000 == n % 0x1_0000,
        (n + 0x1_0000_0000) % 0x1_0000_0000 == n % 0x1_0000_0000,
{
    lemma_turns(n, 0x1_0000, 0x1_0000);
    lemma_turns(n, 1, 0x1_0000_0000);
}

/// The register that `r` numbers, 0 without one.
fn part(cpu: &X86, r: Option<u8>) -> (v: u32)
    requires
        r matches Some(n) ==> n < 8,
    ensures
        v == addend(cpu@.gpr, r),
{
    match r {
        Some(n) => cpu.gpr[n as usize],
        None => 0,
    }
}

/// Compute an effective address from a `MemRef` produced by the decoder.
/// With `a16` the 16-bit effective address wraps at 0xFFFF.
pub fn eff_addr(
    cpu: &X86,
    base: Option<u8>,
    index: Option<u8>,
    scale: u8,
    disp: i32,
    a16: bool,
) -> (ea: u32)
    requires
        base matches Some(b) ==> b < 8,
        index matches Some(i) ==> i < 8,
    ensures
        ea == effective(cpu@.gpr, base, index, scale, disp, a16),
{
    let b = part(cpu, base);
    let i = part(cpu, index);
    assert(0 <= i * scale <= 0xFFFF_FFFF * 255) by (nonlinear_arith)
        requires
            0 <= i <= 0xFFFF_FFFF,
            0 <= scale <= 255,
    ;
    let scaled: u64 = (i as u64) * (scale as u64);
    // The displacement is made positive by one turn of the address space.
    let total: u64 = b as u64 + scaled + (0x1_0000_0000i64 + disp as i64) as u64;
    proof {
        lemma_full_turn(b + scaled + disp);
    }
    if a16 {
        (total % 0x1_0000) as u32
    } else {
        (total % 0x1_0000_0000) as u32
    }
}

/// The low 20 bits of the sum of a base and an offset.
fn wrap20(base: u32, off: u32) -> (p: u32)
    ensures
        p == (base + off) % 0x10_0000,
{
    ((base as u64 + off as u64) % 0x10_0000) as u32
}

/// The page walk for the linear address `lin`.
fn walk(cpu: &X86, lin: u32, kind: AccessKind) -> (t: Translate)
    ensures
        t == cpu@.paged(lin, kind),
{
    let pde_addr: u32 = cpu.cr[3] / 4096 * 4096 + 4 * (lin / 0x40_0000);
    let pde = cpu.mem.phys_read32(pde_addr);
    if pde & 1 == 0 {
        return Translate::PageFault { present: false, write: false, addr: lin };
    }
    let pte_addr: u32 = pde / 4096 * 4096 + 4 * (lin / 4096 % 1024);
    let pte = cpu.mem.phys_read32(pte_addr);
    if pte & 1 == 0 {
        return Translate::PageFault { present: false, write: false, addr: lin };
    }
    let write = matches!(kind, AccessKind::Write | AccessKind::Rmw);
    if write && (pde & 2 == 0 || pte & 2 == 0) {
        return Translate::PageFault { present: true, write: true, addr: lin };
    }
    if cpu.cpl() != 0 && (pde & 4 == 0 || pte & 4 == 0) {
        return Translate::PageFault { present: true, write, addr: lin };
    }
    Translate::Phys(pte / 4096 * 4096 + lin % 4096)
}

/// Translate a segment:offset access into a physical address.
/// Real mode: 20-bit wrap. Protected mode: limit check + base; paging walk.
fn translate(cpu: &X86, seg: Seg, off: u32, size: u32, kind: AccessKind) -> (t: Translate)
    ensures
        t == cpu@.translated(seg, off, size, kind),
{
    let d = cpu.seg[seg.index()].desc;
    if cpu.cr[0] & 1 == 0 {
        return Translate::Phys(wrap20(d.base, off));
    }
    let limit = d.eff_limit();
    let ss = matches!(seg, Seg::Ss);
    if off > limit {
        return Translate::SegFault { ss, addr: off };
    }
    if size > 1 && off > limit.wrapping_sub(size - 1) {
        return Translate::SegFault { ss, addr: off };
    }
    let lin = d.base.wrapping_add(off);
    if cpu.cr[0] & 0x8000_0000 == 0 {
        return Translate::Phys(lin);
    }
    walk(cpu, lin, kind)
}

/// Fetch the instruction byte at CS base + `off`. Real mode wraps at 1 MB.
pub fn fetch8(cpu: &X86, off: u32) -> (r: Result<u8, String>)
    ensures
        fetched(r) == cpu@.fetch8(off),
{
    let base = cpu.seg_base(Seg::Cs);
    if cpu.cr[0] & 1 == 0 {
        return Ok(cpu.mem.phys_read8(wrap20(base, off % 0x1_0000)));
    }
    let limit = cpu.seg_limit(Seg::Cs);
    if off > limit {
        let text = "CS limit exceeded (EIP ".to_owned().concat(to_hex(off).as_str()).concat(
            " > limit ",
        ).concat(to_hex(limit).as_str()).concat(")");
        return Err(text);
    }
    Ok(cpu.mem.phys_read8(base.wrapping_add(off)))
}

/// Fetch the instruction word at CS base + `off`.
pub fn fetch16(cpu: &X86, off: u32) -> (r: Result<u16, String>)
    ensures
        fetched(r) == cpu@.fetch16(off),
{
    let lo = fetch8(cpu, off)?;
    let hi = fetch8(cpu, off.wrapping_add(1))?;
    Ok(lo as u16 | ((hi as u16) << 8))
}

/// Fetch the instruction dword at CS base + `off`.
pub fn fetch32(cpu: &X86, off: u32) -> (r: Result<u32, String>)
    ensures
        fetched(r) == cpu@.fetch32(off),
{
    let lo = fetch16(cpu, off)?;
    let hi = fetch16(cpu, off.wrapping_add(2))?;
    Ok(lo as u32 | ((hi as u32) << 16))
}

/// Convert a 16-bit segment:offset (real mode) to a physical address.
pub fn real_addr(seg: u16, off: u32) -> (a: u32)
    ensures
        a == (seg * 16 + off) % 0x10_0000,
{
    wrap20(seg as u32 * 16, off)
}

// ---------------------------------------------------------------------------
// Data accessors shared by both engines.
// ---------------------------------------------------------------------------

/// `read8` without the exclusive borrow.
pub(crate) fn peek8(cpu: &X86, seg: Seg, off: u32, kind: AccessKind) -> (r: Result<u8, Error>)
    ensures
        outcome(r) == cpu@.load8(seg, off, kind),
{
    match translate_for_access(cpu, seg, off, 1, kind) {
        Ok(a) => Ok(cpu.mem.phys_read8(a)),
        Err(e) => Err(e),
    }
}

/// `read16` without the exclusive borrow.
pub(crate) fn peek16(cpu: &X86, seg: Seg, off: u32, kind: AccessKind) -> (r: Result<u16, Error>)
    ensures
        outcome(r) == cpu@.load16(seg, off, kind),
{
    let lo = peek8(cpu, seg, off, kind)?;
    let hi = peek8(cpu, seg, off.wrapping_add(1), kind)?;
    Ok(lo as u16 | ((hi as u16) << 8))
}

/// `read32` without the exclusive borrow.
pub(crate) fn peek32(cpu: &X86, seg: Seg, off: u32, kind: AccessKind) -> (r: Result<u32, Error>)
    ensures
        outcome(r) == cpu@.load32(seg, off, kind),
{
    let lo = peek16(cpu, seg, off, kind)?;
    let hi = peek16(cpu, seg, off.wrapping_add(2), kind)?;
    Ok(lo as u32 | ((hi as u32) << 16))
}

/// Read 1, 2 or 4 bytes at `seg`:`off`.
pub(crate) fn peek(cpu: &X86, seg: Seg, off: u32, size: u32, kind: AccessKind) -> (r: Result<
    u32,
    Error,
>)
    ensures
        outcome(r) == cpu@.load(seg, off, size, kind),
{
    proof {
        reveal(CpuState::load);
    }
    match size {
        1 => {
            let v = peek8(cpu, seg, off, kind)?;
            Ok(v as u32)
        },
        2 => {
            let v = peek16(cpu, seg, off, kind)?;
            Ok(v as u32)
        },
        _ => peek32(cpu, seg, off, kind),
    }
}

/// Write the low 1, 2 or 4 bytes of `val` at `seg`:`off`.
pub(crate) fn poke(
    cpu: &mut X86,
    seg: Seg,
    off: u32,
    size: u32,
    val: u32,
    kind: AccessKind,
) -> (r: Result<(), Error>)
    ensures
        (final(cpu)@, outcome(r)) == old(cpu)@.store(seg, off, size, val, kind),
        final(cpu)@.mem.dev == old(cpu)@.mem.dev,
{
    proof {
        reveal(CpuState::store);
    }
    match size {
        1 => write8(cpu, seg, off, val as u8, kind),
        2 => write16(cpu, seg, off, val as u16, kind),
        _ => write32(cpu, seg, off, val, kind),
    }
}

pub fn read8(cpu: &mut X86, seg: Seg, off: u32, kind: AccessKind) -> (r: Result<u8, Error>)
    ensures
        final(cpu)@ == old(cpu)@,
        outcome(r) == old(cpu)@.load8(seg, off, kind),
{
    peek8(cpu, seg, off, kind)
}

pub fn write8(cpu: &mut X86, seg: Seg, off: u32, val: u8, kind: AccessKind) -> (r: Result<
    (),
    Error,
>)
    ensures
        (final(cpu)@, outcome(r)) == old(cpu)@.store8(seg, off, val, kind),
{
    match translate_for_access(cpu, seg, off, 1, kind) {
        Ok(a) => {
            cpu.mem.phys_write8(a, val);
            Ok(())
        },
        Err(e) => Err(e),
    }
}

pub fn read16(cpu: &mut X86, seg: Seg, off: u32, kind: AccessKind) -> (r: Result<u16, Error>)
    ensures
        final(cpu)@ == old(cpu)@,
        outcome(r) == old(cpu)@.load16(seg, off, kind),
{
    peek16(cpu, seg, off, kind)
}

pub fn write16(cpu: &mut X86, seg: Seg, off: u32, val: u16, kind: AccessKind) -> (r: Result<
    (),
    Error,
>)
    ensures
        (final(cpu)@, outcome(r)) == old(cpu)@.store16(seg, off, val, kind),
{
    write8(cpu, seg, off, val as u8, kind)?;
    write8(cpu, seg, off.wrapping_add(1), (val >> 8) as u8, kind)
}

pub fn read32(cpu: &mut X86, seg: Seg, off: u32, kind: AccessKind) -> (r: Result<u32, Error>)
    ensures
        final(cpu)@ == old(cpu)@,
        outcome(r) == old(cpu)@.load32(seg, off, kind),
{
    peek32(cpu, seg, off, kind)
}

pub fn write32(cpu: &mut X86, seg: Seg, off: u32, val: u32, kind: AccessKind) -> (r: Result<
    (),
    Error,
>)
    ensures
        (final(cpu)@, outcome(r)) == old(cpu)@.store32(seg, off, val, kind),
{
    write16(cpu, seg, off, val as u16, kind)?;
    write16(cpu, seg, off.wrapping_add(2), (val >> 16) as u16, kind)
}

/// Stack read helper (SS segment). `size` is 1/2/4.
pub fn stack_read(cpu: &mut X86, off: u32, size: u32, kind: AccessKind) -> (r: Result<u32, Error>)
    ensures
        final(cpu)@ == old(cpu)@,
        outcome(r) == old(cpu)@.load_bytes(Seg::Ss, off, size, kind),
{
    proof {
        reveal(CpuState::load);
    }
    peek(cpu, Seg::Ss, off, size, kind)
}

/// Stack write helper (SS segment). `size` is 1/2/4.
pub fn stack_write(cpu: &mut X86, off: u32, size: u32, val: u32, kind: AccessKind) -> (r: Result<
    (),
    Error,
>)
    ensures
        (final(cpu)@, outcome(r)) == old(cpu)@.store_bytes(Seg::Ss, off, size, val, kind),
{
    proof {
        reveal(CpuState::store);
    }
    poke(cpu, Seg::Ss, off, size, val, kind)
}

/// Translate to physical for a caller that already knows the access. Returns
/// the physical address on success, `Err` on a fault.
pub fn translate_for_access(cpu: &X86, seg: Seg, off: u32, size: u32, kind: AccessKind) -> (r:
    Result<u32, Error>)
    ensures
        outcome(r) == cpu@.located(seg, off, size, kind),
{
    match translate(cpu, seg, off, size, kind) {
        Translate::Phys(p) => Ok(p),
        Translate::PageFault { present: _, write: _, addr } => Err(
            Error::Internal("page fault at ".to_owned().concat(to_hex(addr).as_str())),
        ),
        Translate::SegFault { ss: _, addr } => Err(
            Error::Internal("segment fault at ".to_owned().concat(to_hex(addr).as_str())),
        ),
    }
}

} // verus!
