//! CPU state: registers, descriptors, segments, TSS, and the `X86` structure
//! that both execution engines operate on.
//!
//! This crate emulates a 386-class CPU (real mode + 32-bit protected mode,
//! paging). `CpuState` is its mathematical model.

use vstd::prelude::*;

use crate::bits::{lemma_low_number_bits, lemma_word_facts};
use crate::interp;
use crate::interp::{ran, stepped};
use crate::mem::{DevLog, Mem, MemState, continues, window};
use crate::sem::dispatch_interrupt;

verus! {

/// General-purpose register identifiers (i386 order: EAX, ECX, EDX, EBX, ESP,
/// EBP, ESI, EDI).
#[derive(Debug, Clone, Copy, PartialEq, Eq, Hash, Structural)]
pub enum Reg {
    Eax,
    Ecx,
    Edx,
    Ebx,
    Esp,
    Ebp,
    Esi,
    Edi,
}

impl Reg {
    /// The number of the register in instruction encodings.
    pub open spec fn number(self) -> u8 {
        match self {
            Reg::Eax => 0,
            Reg::Ecx => 1,
            Reg::Edx => 2,
            Reg::Ebx => 3,
            Reg::Esp => 4,
            Reg::Ebp => 5,
            Reg::Esi => 6,
            Reg::Edi => 7,
        }
    }

    /// The register that the low three bits of `i` number.
    pub fn from_idx(i: u8) -> (r: Reg)
        ensures
            r.number() == i % 8,
    {
        match i % 8 {
            0 => Reg::Eax,
            1 => Reg::Ecx,
            2 => Reg::Edx,
            3 => Reg::Ebx,
            4 => Reg::Esp,
            5 => Reg::Ebp,
            6 => Reg::Esi,
            _ => Reg::Edi,
        }
    }
}

/// Segment register names, canonical order ES CS SS DS FS GS.
#[derive(Debug, Clone, Copy, PartialEq, Eq, Hash, Structural)]
pub enum Seg {
    Es,
    Cs,
    Ss,
    Ds,
    Fs,
    Gs,
}

impl Seg {
    /// Position in the segment register file.
    pub open spec fn number(self) -> u8 {
        match self {
            Seg::Es => 0,
            Seg::Cs => 1,
            Seg::Ss => 2,
            Seg::Ds => 3,
            Seg::Fs => 4,
            Seg::Gs => 5,
        }
    }

    /// The segment register that the low three bits of `i` number; the two
    /// numbers without a register stand for GS.
    pub open spec fn of(i: u8) -> Seg {
        match i % 8 {
            0 => Seg::Es,
            1 => Seg::Cs,
            2 => Seg::Ss,
            3 => Seg::Ds,
            4 => Seg::Fs,
            _ => Seg::Gs,
        }
    }

    /// The segment register that the low three bits of `i` number; the two
    /// numbers without a register stand for GS.
    pub fn from_idx(i: u8) -> (s: Seg)
        ensures
            s == Seg::of(i),
            i < 6 ==> s.number() == i,
    {
        match i % 8 {
            0 => Seg::Es,
            1 => Seg::Cs,
            2 => Seg::Ss,
            3 => Seg::Ds,
            4 => Seg::Fs,
            _ => Seg::Gs,
        }
    }

    /// Position in the segment register file.
    pub fn index(self) -> (i: usize)
        ensures
            i == self.number(),
            i < 6,
    {
        match self {
            Seg::Es => 0,
            Seg::Cs => 1,
            Seg::Ss => 2,
            Seg::Ds => 3,
            Seg::Fs => 4,
            Seg::Gs => 5,
        }
    }
}

/// CPU execution mode (for the public API / diagnostics).
#[derive(Debug, Clone, Copy, PartialEq, Eq, Structural)]
pub enum Mode {
    Real,
    Protected16,
    Protected32,
}

/// Descriptor privilege summary (diagnostic).
#[derive(Debug, Clone, Copy, PartialEq, Eq, Structural)]
pub enum DescProt {
    No,
    Yes,
}

/// Descriptor kind (diagnostic).
#[derive(Debug, Clone, Copy, PartialEq, Eq, Structural)]
pub enum DescType {
    Code,
    Data,
    System,
}

/// Outcome of a reset/triple-fault trip (diagnostic).
#[derive(Debug, Clone, Copy, PartialEq, Eq, Structural)]
pub enum Trip {
    NoTrip,
    TripleFault,
    Reset,
}

/// Cached segment / descriptor-register value: selector + full descriptor.
#[derive(Debug, Clone, Copy)]
pub struct Desc {
    pub base: u32,
    pub limit: u32,
    pub g: bool,
    pub db: bool,
    pub p: bool,
    /// Descriptor type field of the access byte.
    pub typ: u8,
    pub dpl: u8,
    pub avl: bool,
}

impl Desc {
    /// The descriptor behind a null selector.
    pub open spec fn null_spec() -> Desc {
        Desc {
            base: 0,
            limit: 0,
            g: false,
            db: false,
            p: false,
            typ: 0,
            dpl: 0,
            avl: false,
        }
    }

    /// The descriptor behind a null selector.
    pub fn null() -> (d: Desc)
        ensures
            d == Desc::null_spec(),
    {
        Desc { base: 0, limit: 0, g: false, db: false, p: false, typ: 0, dpl: 0, avl: false }
    }

    /// What real mode caches for the selector `sel`: a 64 KB data segment at
    /// sixteen times the selector.
    pub open spec fn real_spec(sel: u16) -> Desc {
        Desc {
            base: (sel * 16) as u32,
            limit: 0xFFFF,
            g: false,
            db: false,
            p: true,
            typ: 0x93,
            dpl: 0,
            avl: false,
        }
    }

    /// What real mode caches for the selector `sel`.
    pub fn real_mode(sel: u16) -> (d: Desc)
        ensures
            d == Desc::real_spec(sel),
    {
        Desc {
            base: sel as u32 * 16,
            limit: 0xFFFF,
            g: false,
            db: false,
            p: true,
            typ: 0x93,
            dpl: 0,
            avl: false,
        }
    }

    /// The largest offset: the limit counts bytes, or with the G bit pages of
    /// 4 KB.
    pub open spec fn last_offset(self) -> u32 {
        if self.g {
            (self.limit << 12) | 0xFFF
        } else {
            self.limit
        }
    }

    /// Effective limit remembering the 386 quirk: G-bit descriptors of limit
    /// 0xFFFFF have effective limit 0xFFFF_FFFF.
    pub fn eff_limit(&self) -> (l: u32)
        ensures
            l == self.last_offset(),
            self.g && self.limit <= 0xF_FFFF ==> l == self.limit * 4096 + 4095,
    {
        proof {
            lemma_word_facts(self.limit, 0, 0, 0, 0, 0);
        }
        if self.g {
            (self.limit << 12) | 0xFFF
        } else {
            self.limit
        }
    }

    pub fn is_code(&self) -> (b: bool)
        ensures
            b == (self.typ & 0x8 != 0),
    {
        self.typ & 0x8 != 0
    }

    pub fn conforming(&self) -> (b: bool)
        ensures
            b == (self.typ & 0x4 != 0),
    {
        self.typ & 0x4 != 0
    }
}

/// A segment register's cached selector + descriptor.
#[derive(Debug, Clone, Copy)]
pub struct SegVal {
    pub sel: u16,
    pub desc: Desc,
}

impl SegVal {
    /// The code segment at reset.
    pub open spec fn reset_cs() -> SegVal {
        SegVal {
            sel: 0xF000,
            desc: Desc {
                base: 0xF0000,
                limit: 0xFFFF,
                g: false,
                db: false,
                p: true,
                typ: 0x9B,
                dpl: 0,
                avl: false,
            },
        }
    }

    /// The code segment at reset.
    pub fn real_cs() -> (v: SegVal)
        ensures
            v == SegVal::reset_cs(),
    {
        SegVal {
            sel: 0xF000,
            desc: Desc {
                base: 0xF0000,
                limit: 0xFFFF,
                g: false,
                db: false,
                p: true,
                typ: 0x9B,
                dpl: 0,
                avl: false,
            },
        }
    }

    /// What real mode caches for the selector `sel`.
    pub open spec fn real_spec(sel: u16) -> SegVal {
        SegVal { sel, desc: Desc::real_spec(sel) }
    }

    /// What real mode caches for the selector `sel`.
    pub fn real_mode(sel: u16) -> (v: SegVal)
        ensures
            v == SegVal::real_spec(sel),
    {
        SegVal { sel, desc: Desc::real_mode(sel) }
    }

    pub fn base(&self) -> (b: u32)
        ensures
            b == self.desc.base,
    {
        self.desc.base
    }

    pub fn limit(&self) -> (l: u32)
        ensures
            l == self.desc.last_offset(),
    {
        self.desc.eff_limit()
    }
}

/// GDTR/IDTR value.
#[derive(Debug, Clone, Copy)]
pub struct DescReg {
    pub base: u32,
    pub limit: u16,
}

/// Subset of the 386 TSS we maintain.
#[derive(Debug, Clone, Copy)]
pub struct Tss {
    pub ss0: u16,
    pub esp0: u32,
    pub ss1: u16,
    pub esp1: u32,
    pub ss2: u16,
    pub esp2: u32,
    pub cr3: u32,
    pub iopb: u16,
}

impl Tss {
    /// The task state at reset.
    pub open spec fn zero() -> Tss {
        Tss { ss0: 0, esp0: 0, ss1: 0, esp1: 0, ss2: 0, esp2: 0, cr3: 0, iopb: 0 }
    }
}

impl Default for Tss {
    fn default() -> (t: Self)
        ensures
            t == Tss::zero(),
    {
        Tss { ss0: 0, esp0: 0, ss1: 0, esp1: 0, ss2: 0, esp2: 0, cr3: 0, iopb: 0 }
    }
}

/// Why execution stopped.
#[derive(Debug, Clone, PartialEq, Eq)]
pub enum Error {
    TripleFault,
    Reset,
    Halt,
    Unsupported(String),
    BusFault(u32),
    Internal(String),
}

/// What an `Error` says, with its text as characters.
pub enum ErrorView {
    TripleFault,
    Reset,
    Halt,
    Unsupported(Seq<char>),
    BusFault(u32),
    Internal(Seq<char>),
}

impl View for Error {
    type V = ErrorView;

    open spec fn view(&self) -> ErrorView {
        match self {
            Error::TripleFault => ErrorView::TripleFault,
            Error::Reset => ErrorView::Reset,
            Error::Halt => ErrorView::Halt,
            Error::Unsupported(s) => ErrorView::Unsupported(s@),
            Error::BusFault(a) => ErrorView::BusFault(*a),
            Error::Internal(s) => ErrorView::Internal(s@),
        }
    }
}

/// A result with its error taken by its view.
pub open spec fn outcome<T>(r: Result<T, Error>) -> Result<T, ErrorView> {
    match r {
        Ok(v) => Ok(v),
        Err(e) => Err(e@),
    }
}

/// Result of `X86::step`.
#[derive(Debug, Clone, PartialEq, Eq)]
pub enum StepOut {
    Continue,
    Interrupt,
    Error(Error),
}

/// What a `StepOut` says.
pub enum OutView {
    Continue,
    Interrupt,
    Error(ErrorView),
}

impl View for StepOut {
    type V = OutView;

    open spec fn view(&self) -> OutView {
        match self {
            StepOut::Continue => OutView::Continue,
            StepOut::Interrupt => OutView::Interrupt,
            StepOut::Error(e) => OutView::Error(e@),
        }
    }
}

/// Kind of memory access, used for fault reporting.
#[derive(Debug, Clone, Copy, PartialEq, Eq, Structural)]
pub enum AccessKind {
    Read,
    Write,
    Fetch,
    Rmw,
}

/// The state of the machine that the CPU and its memory make up.
pub struct CpuState {
    pub gpr: Seq<u32>,
    pub eip: u32,
    pub eflags: u32,
    pub seg: Seq<SegVal>,
    pub gdtr: DescReg,
    pub idtr: DescReg,
    pub ldtr: SegVal,
    pub tr: SegVal,
    pub cr: Seq<u32>,
    pub tss: Tss,
    pub pending_irq: Option<u8>,
    pub mem: MemState,
    pub cycles: u64,
    pub halted: bool,
    pub force_interp: bool,
}

impl CpuState {
    /// The register file has eight general, six segment and four control
    /// registers.
    pub open spec fn wf(self) -> bool {
        self.gpr.len() == 8 && self.seg.len() == 6 && self.cr.len() == 4
    }

    /// The i386 reset state around the memory `mem`.
    pub open spec fn reset_state(mem: MemState, force_interp: bool) -> CpuState {
        CpuState {
            gpr: Seq::new(8, |i: int| 0u32),
            eip: 0xFFF0,
            eflags: 0x2,
            seg: seq![
                SegVal::real_spec(0),
                SegVal::reset_cs(),
                SegVal::real_spec(0),
                SegVal::real_spec(0),
                SegVal::real_spec(0),
                SegVal::real_spec(0),
            ],
            gdtr: DescReg { base: 0, limit: 0 },
            idtr: DescReg { base: 0, limit: 0 },
            ldtr: SegVal::real_spec(0),
            tr: SegVal::real_spec(0),
            cr: Seq::new(4, |i: int| 0u32),
            tss: Tss::zero(),
            pending_irq: None,
            mem,
            cycles: 0,
            halted: false,
            force_interp,
        }
    }

    /// General register `n` holds `v`.
    pub open spec fn with_gpr(self, n: int, v: u32) -> CpuState {
        CpuState { gpr: self.gpr.update(n, v), ..self }
    }

    pub open spec fn with_eip(self, eip: u32) -> CpuState {
        CpuState { eip, ..self }
    }

    pub open spec fn with_flags(self, eflags: u32) -> CpuState {
        CpuState { eflags, ..self }
    }

    pub open spec fn with_mem(self, mem: MemState) -> CpuState {
        CpuState { mem, ..self }
    }

    /// Segment register `s` holds `v`.
    pub open spec fn with_seg(self, s: Seg, v: SegVal) -> CpuState {
        CpuState { seg: self.seg.update(s.number() as int, v), ..self }
    }

    pub open spec fn segment(self, s: Seg) -> SegVal {
        self.seg[s.number() as int]
    }

    /// The 32-bit register that the low three bits of `r` number.
    pub open spec fn reg32(self, r: i8) -> u32 {
        self.gpr[(r & 7) as int]
    }

    pub open spec fn with_reg32(self, r: i8, v: u32) -> CpuState {
        self.with_gpr((r & 7) as int, v)
    }

    /// The low half of a register.
    pub open spec fn reg16(self, r: i8) -> u16 {
        self.gpr[(r & 7) as int] as u16
    }

    pub open spec fn with_reg16(self, r: i8, v: u16) -> CpuState {
        self.with_gpr(
            (r & 7) as int,
            (self.gpr[(r & 7) as int] & 0xFFFF_0000) | v as u32,
        )
    }

    /// A byte register: 0–3 are AL, CL, DL, BL and 4–7 are AH, CH, DH, BH.
    pub open spec fn reg8(self, r: i8) -> u8 {
        if r & 4 != 0 {
            (self.gpr[(r & 3) as int] >> 8) as u8
        } else {
            self.gpr[(r & 3) as int] as u8
        }
    }

    pub open spec fn with_reg8(self, r: i8, v: u8) -> CpuState {
        let old = self.gpr[(r & 3) as int];
        if r & 4 != 0 {
            self.with_gpr((r & 3) as int, (old & 0xFFFF_00FF) | (v as u32) << 8)
        } else {
            self.with_gpr((r & 3) as int, (old & 0xFFFF_FF00) | v as u32)
        }
    }

    pub open spec fn protected(self) -> bool {
        self.cr[0] & 1 != 0
    }

    /// Current CPU mode.
    pub open spec fn mode(self) -> Mode {
        if !self.protected() {
            Mode::Real
        } else if self.segment(Seg::Cs).desc.db {
            Mode::Protected32
        } else {
            Mode::Protected16
        }
    }

    /// Current privilege level (0 in real mode, else CS.DPL).
    pub open spec fn cpl(self) -> u8 {
        if !self.protected() {
            0
        } else {
            self.segment(Seg::Cs).desc.dpl
        }
    }
}

/// CPU core: registers + memory + host devices, driven either by the
/// interpreter or by compiled blocks.
pub struct X86 {
    pub gpr: [u32; 8],
    pub eip: u32,
    pub eflags: u32,
    pub seg: [SegVal; 6],
    pub gdtr: DescReg,
    pub idtr: DescReg,
    pub ldtr: SegVal,
    pub tr: SegVal,
    /// CR0 (PE/PG bits matter), CR1…CR3.
    pub cr: [u32; 4],
    pub tss: Tss,
    pub pending_irq: Option<u8>,
    pub mem: Mem,
    pub cycles: u64,
    pub halted: bool,
    /// Force interpreter mode (used by tests/diagnostics).
    pub force_interp: bool,
}

impl View for X86 {
    type V = CpuState;

    open spec fn view(&self) -> CpuState {
        CpuState {
            gpr: self.gpr@,
            eip: self.eip,
            eflags: self.eflags,
            seg: self.seg@,
            gdtr: self.gdtr,
            idtr: self.idtr,
            ldtr: self.ldtr,
            tr: self.tr,
            cr: self.cr@,
            tss: self.tss,
            pending_irq: self.pending_irq,
            mem: self.mem@,
            cycles: self.cycles,
            halted: self.halted,
            force_interp: self.force_interp,
        }
    }
}

/// The memory of a fresh core: 16 MB of zeroed RAM, no device.
pub open spec fn default_memory() -> MemState {
    MemState {
        bytes: Map::<u32, u8>::empty().union_prefer_right(
            window(0, 0x100_0000, Seq::new(0x100_0000, |i: int| 0u8)),
        ),
        dev: None,
    }
}

/// The low bits of a register number stay within the register file.
proof fn lemma_reg_numbers(r: i8)
    ensures
        0 <= r & 7 < 8,
        0 <= r & 3 < 4,
{
    lemma_low_number_bits(r, 0);
}

impl X86 {
    /// A core in the reset state with 16 MB of RAM and no device.
    pub fn new() -> (cpu: Self)
        ensures
            cpu@ == CpuState::reset_state(default_memory(), false),
    {
        let mut mem = Mem::new();
        mem.install_default_ram();
        let cpu = X86 {
            gpr: [0;8],
            eip: 0xFFF0,
            eflags: 0x2,
            seg: [
                SegVal::real_mode(0),
                SegVal::real_cs(),
                SegVal::real_mode(0),
                SegVal::real_mode(0),
                SegVal::real_mode(0),
                SegVal::real_mode(0),
            ],
            gdtr: DescReg { base: 0, limit: 0 },
            idtr: DescReg { base: 0, limit: 0 },
            ldtr: SegVal::real_mode(0),
            tr: SegVal::real_mode(0),
            cr: [0;4],
            tss: Tss::default(),
            pending_irq: None,
            mem,
            cycles: 0,
            halted: false,
            force_interp: false,
        };
        assert(cpu@.gpr =~= Seq::new(8, |i: int| 0u32));
        assert(cpu@.cr =~= Seq::new(4, |i: int| 0u32));
        assert(cpu@.seg =~= CpuState::reset_state(default_memory(), false).seg);
        cpu
    }

    /// Reset to the i386 reset state (CS=0xF000, EIP=0xFFF0, real mode).
    pub fn reset(&mut self)
        ensures
            final(self)@ == CpuState::reset_state(old(self)@.mem, old(self)@.force_interp),
    {
        self.gpr = [0;8];
        self.eip = 0xFFF0;
        self.eflags = 0x2;
        self.seg = [
            SegVal::real_mode(0),
            SegVal::real_cs(),
            SegVal::real_mode(0),
            SegVal::real_mode(0),
            SegVal::real_mode(0),
            SegVal::real_mode(0),
        ];
        self.gdtr = DescReg { base: 0, limit: 0 };
        self.idtr = DescReg { base: 0, limit: 0 };
        self.ldtr = SegVal::real_mode(0);
        self.tr = SegVal::real_mode(0);
        self.cr = [0;4];
        self.tss = Tss::default();
        self.pending_irq = None;
        self.cycles = 0;
        self.halted = false;
        assert(self@.gpr =~= Seq::new(8, |i: int| 0u32));
        assert(self@.cr =~= Seq::new(4, |i: int| 0u32));
        assert(self@.seg =~= CpuState::reset_state(old(self)@.mem, false).seg);
    }

    // ---- register accessors ----

    pub fn reg32(&self, r: i8) -> (v: u32)
        ensures
            v == self@.reg32(r),
    {
        proof {
            lemma_reg_numbers(r);
        }
        self.gpr[(r & 7) as usize]
    }

    pub fn set_reg32(&mut self, r: i8, v: u32)
        ensures
            final(self)@ == old(self)@.with_reg32(r, v),
    {
        proof {
            lemma_reg_numbers(r);
        }
        self.gpr[(r & 7) as usize] = v;
    }

    pub fn reg16(&self, r: i8) -> (v: u16)
        ensures
            v == self@.reg16(r),
    {
        proof {
            lemma_reg_numbers(r);
        }
        self.gpr[(r & 7) as usize] as u16
    }

    pub fn set_reg16(&mut self, r: i8, v: u16)
        ensures
            final(self)@ == old(self)@.with_reg16(r, v),
    {
        proof {
            lemma_reg_numbers(r);
        }
        let i = (r & 7) as usize;
        self.gpr[i] = (self.gpr[i] & 0xFFFF_0000) | v as u32;
    }

    pub fn reg8(&self, r: i8) -> (v: u8)
        ensures
            v == self@.reg8(r),
    {
        proof {
            lemma_reg_numbers(r);
        }
        let i = (r & 3) as usize;
        if r & 4 != 0 {
            (self.gpr[i] >> 8) as u8
        } else {
            self.gpr[i] as u8
        }
    }

    pub fn set_reg8(&mut self, r: i8, v: u8)
        ensures
            final(self)@ == old(self)@.with_reg8(r, v),
    {
        proof {
            lemma_reg_numbers(r);
        }
        let i = (r & 3) as usize;
        if r & 4 != 0 {
            self.gpr[i] = (self.gpr[i] & 0xFFFF_00FF) | (v as u32) << 8;
        } else {
            self.gpr[i] = (self.gpr[i] & 0xFFFF_FF00) | v as u32;
        }
    }

    pub fn seg_base(&self, s: Seg) -> (b: u32)
        ensures
            b == self@.segment(s).desc.base,
    {
        self.seg[s.index()].base()
    }

    pub fn seg_limit(&self, s: Seg) -> (l: u32)
        ensures
            l == self@.segment(s).desc.last_offset(),
    {
        self.seg[s.index()].limit()
    }

    /// Current CPU mode.
    pub fn mode(&self) -> (m: Mode)
        ensures
            m == self@.mode(),
    {
        if self.cr[0] & 1 == 0 {
            Mode::Real
        } else if self.seg[1].desc.db {
            Mode::Protected32
        } else {
            Mode::Protected16
        }
    }

    /// Current privilege level (0 in real mode, else CS.DPL).
    pub fn cpl(&self) -> (l: u8)
        ensures
            l == self@.cpl(),
    {
        if self.cr[0] & 1 == 0 {
            0
        } else {
            self.seg[1].desc.dpl
        }
    }
}

impl X86 {
    /// Execute one instruction (interpreter), or deliver an interrupt that is
    /// due.
    pub fn step(&mut self) -> (out: StepOut)
        ensures
            continues(final(self)@.mem.dev, old(self)@.mem.dev),
            forall|log: DevLog|
                continues(log, final(self)@.mem.dev) ==> (#[trigger] stepped(old(self)@, log)) == (
                    final(self)@,
                    out@,
                ),
    {
        interp::step(self)
    }

    /// Run until `Error` (halt/triple fault). `Ok` comes only after the largest
    /// number of steps that can be counted.
    pub fn run(&mut self) -> (r: Result<(), Error>)
        ensures
            continues(final(self)@.mem.dev, old(self)@.mem.dev),
            forall|log: DevLog|
                continues(log, final(self)@.mem.dev) ==> (#[trigger] ran(
                    old(self)@,
                    u64::MAX as nat,
                    log,
                )) == (final(self)@, outcome(r)),
    {
        match interp::run(self, u64::MAX) {
            Ok(_) => Ok(()),
            Err(e) => Err(e),
        }
    }

    /// Raise (possibly nested) exception `vector` immediately.
    pub fn interrupt(&mut self, vector: u8, has_error: bool, error: u32) -> (out: StepOut)
        ensures
            (final(self)@, out@) == old(self)@.interrupted(vector, has_error, error),
    {
        dispatch_interrupt(self, vector, has_error, error)
    }
}

// ---------------------------------------------------------------------------
// Laws of the register file
// ---------------------------------------------------------------------------

/// A byte register reads back what was written to it.
pub proof fn byte_register_reads_back(s: CpuState, r: i8, v: u8)
    requires
        s.wf(),
    ensures
        s.with_reg8(r, v).reg8(r) == v,
{
    lemma_reg_numbers(r);
    let g = s.gpr[(r & 3) as int];
    lemma_word_facts(g, 0, v, 0, 0, 0);
}

/// A word register reads back what was written to it, and the high half of the
/// register stays.
pub proof fn word_register_reads_back(s: CpuState, r: i8, v: u16)
    requires
        s.wf(),
    ensures
        s.with_reg16(r, v).reg16(r) == v,
        s.with_reg16(r, v).reg32(r) / 0x1_0000 == s.reg32(r) / 0x1_0000,
{
    lemma_reg_numbers(r);
    let g = s.gpr[(r & 7) as int];
    lemma_word_facts(g, 0, 0, 0, v, 0);
}

/// Writing a byte register changes neither the other byte register of the same
/// general register nor any other general register; in particular ESP, EBP, ESI
/// and EDI are out of reach.
pub proof fn byte_register_write_is_confined(s: CpuState, r: i8, v: u8, other: i8)
    requires
        s.wf(),
        other & 7 != r & 7,
    ensures
        s.with_reg8(r, v).reg8(other) == s.reg8(other),
        forall|n: int| 4 <= n < 8 ==> s.with_reg8(r, v).gpr[n] == s.gpr[n],
{
    lemma_reg_numbers(r);
    lemma_reg_numbers(other);
    let g = s.gpr[(r & 3) as int];
    assert((other & 7 != r & 7 && other & 3 == r & 3 ==> (other & 4 != 0) != (r & 4 != 0)) && ((g
        & 0xFFFF_00FF) | (v as u32) << 8) as u8 == g as u8 && (((g & 0xFFFF_FF00)
        | v as u32) >> 8) as u8 == (g >> 8) as u8) by (bit_vector);
}

} // verus!
