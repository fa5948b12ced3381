//! The PC around the core: memory map, port routing, and how a run is paced.

use vstd::prelude::*;

use crate::cpu::{CpuState, X86, default_memory};
use crate::mem::{Device, MemState, window};

verus! {

/// Whether the display adapter owns `port`; the chipset has the others.
pub open spec fn is_vga(port: u16) -> bool {
    0x3B4 <= port <= 0x3DF
}

/// Whether the display adapter owns `port`.
pub fn is_vga_port(port: u16) -> (b: bool)
    ensures
        b == is_vga(port),
{
    0x3B4 <= port && port <= 0x3DF
}

/// The memory of a PC: 16 MB of RAM, below them the display memory, the system
/// BIOS and the VGA BIOS.
pub open spec fn pc_memory(bios: Seq<u8>, vga_bios: Seq<u8>) -> Map<u32, u8> {
    default_memory().bytes.union_prefer_right(
        window(0xA0000, 0x20000, Seq::new(0x20000, |i: int| 0u8)),
    ).union_prefer_right(window(0xE0000, bios.len(), bios)).union_prefer_right(
        window(0xC0000, vga_bios.len(), vga_bios),
    )
}

/// Build the machine: memory map, firmware, devices.
pub fn setup_machine(bios: Vec<u8>, vga_bios: Vec<u8>, dev: Box<dyn Device>) -> (cpu: X86)
    requires
        0xE0000 + bios@.len() <= u32::MAX,
        0xC0000 + vga_bios@.len() <= u32::MAX,
    ensures
        cpu@ == CpuState::reset_state(
            MemState { bytes: pc_memory(bios@, vga_bios@), dev: Some((*dev).exchanges()) },
            false,
        ),
{
    // The 16 MB RAM is installed by `X86::new()`.
    let mut cpu = X86::new();
    // VGA framebuffer/window at A0000-C0000.
    cpu.mem.add_vga(0xA0000);
    // System BIOS; with its 128 KB the reset vector is at FFFF0.
    cpu.mem.add_rom(0xE0000, bios);
    cpu.mem.add_rom(0xC0000, vga_bios);
    let device = Some(dev);
    cpu.mem.connect(device);
    cpu.reset();
    cpu
}

/// How far a run has come, and when the screen was drawn last.
#[derive(Debug, Clone, Copy, PartialEq, Eq, Structural)]
pub struct Pace {
    pub steps: u64,
    pub last_render: u64,
}

/// What is to be done after a batch of instructions.
#[derive(Debug, Clone, Copy, PartialEq, Eq, Structural)]
pub enum PaceAction {
    /// The limit is passed.
    Stop,
    /// It is time to draw the screen.
    Render,
    /// Go on.
    Run,
}

/// Instructions between two frames.
pub const FRAME_STEPS: u64 = 100_000;

impl Pace {
    /// The number of instructions never falls behind the last frame.
    pub open spec fn wf(self) -> bool {
        self.last_render <= self.steps
    }

    /// After `n` more instructions: past the limit the run stops, and a frame is
    /// due at least `FRAME_STEPS` instructions after the last.
    pub open spec fn advanced(self, n: u64, max_steps: u64) -> (Pace, PaceAction) {
        let steps: u64 = if self.steps + n <= u64::MAX {
            (self.steps + n) as u64
        } else {
            u64::MAX
        };
        if steps > max_steps {
            (Pace { steps, ..self }, PaceAction::Stop)
        } else if steps - self.last_render >= FRAME_STEPS {
            (Pace { steps, last_render: steps }, PaceAction::Render)
        } else {
            (Pace { steps, ..self }, PaceAction::Run)
        }
    }

    pub fn new() -> (p: Pace)
        ensures
            p == (Pace { steps: 0, last_render: 0 }),
            p.wf(),
    {
        Pace { steps: 0, last_render: 0 }
    }

    /// Account for `n` more instructions.
    pub fn advance(&mut self, n: u64, max_steps: u64) -> (a: PaceAction)
        requires
            old(self).wf(),
        ensures
            (*final(self), a) == old(self).advanced(n, max_steps),
            final(self).wf(),
    {
        self.steps = self.steps.saturating_add(n);
        if self.steps > max_steps {
            return PaceAction::Stop;
        }
        if self.steps - self.last_render >= FRAME_STEPS {
            self.last_render = self.steps;
            return PaceAction::Render;
        }
        PaceAction::Run
    }
}

/// A run is never stopped before it is past its limit, and is stopped as soon as
/// it is.
pub proof fn run_stops_past_the_limit(p: Pace, n: u64, max_steps: u64)
    requires
        p.wf(),
        p.steps + n <= u64::MAX,
    ensures
        p.advanced(n, max_steps).1 is Stop <==> p.steps + n > max_steps,
        p.advanced(n, max_steps).0.wf(),
{
}

/// The interrupt vectors below `n` whose entry in the real-mode table is the
/// current CS:EIP.
pub open spec fn current_vectors(s: CpuState, n: nat) -> Seq<u32>
    decreases n,
{
    if n == 0 {
        Seq::empty()
    } else {
        let v = (n - 1) as u32;
        let before = current_vectors(s, (n - 1) as nat);
        if s.mem.read16((v * 4 + 2) as u32) == s.seg[1].sel && s.mem.read16((v * 4) as u32)
            == s.eip {
            before.push(v)
        } else {
            before
        }
    }
}

/// The interrupt vectors whose entry in the real-mode table is the current
/// CS:EIP.
pub fn vectors_here(cpu: &X86) -> (vs: Vec<u32>)
    ensures
        vs@ == current_vectors(cpu@, 256),
{
    let mut vs: Vec<u32> = Vec::new();
    let mut v: u32 = 0;
    while v < 256
        invariant
            v <= 256,
            vs@ == current_vectors(cpu@, v as nat),
        decreases 256 - v,
    {
        let off = cpu.mem.phys_read16(v * 4);
        let sel = cpu.mem.phys_read16(v * 4 + 2);
        if sel == cpu.seg[1].sel && off as u32 == cpu.eip {
            vs.push(v);
        }
        v = v + 1;
    }
    vs
}

/// The four words of physical memory from `addr` on.
pub fn four_words(cpu: &X86, addr: u32) -> (w: [u16; 4])
    ensures
        w@ == seq![
            cpu@.mem.read16(addr),
            cpu@.mem.read16(addr.wrapping_add(2)),
            cpu@.mem.read16(addr.wrapping_add(4)),
            cpu@.mem.read16(addr.wrapping_add(6)),
        ],
{
    [
        cpu.mem.phys_read16(addr),
        cpu.mem.phys_read16(addr.wrapping_add(2)),
        cpu.mem.phys_read16(addr.wrapping_add(4)),
        cpu.mem.phys_read16(addr.wrapping_add(6)),
    ]
}

/// Where the stack words at `reg`'s low half are in physical memory.
pub fn stack_addr(cpu: &X86, reg: usize) -> (a: u32)
    requires
        reg < 8,
    ensures
        a == (cpu@.seg[2].desc.base + cpu@.gpr[reg as int] % 0x1_0000) % 0x1_0000_0000,
{
    cpu.seg[2].desc.base.wrapping_add(cpu.gpr[reg] % 0x1_0000)
}

} // verus!
