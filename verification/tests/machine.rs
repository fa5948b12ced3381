use x86_rs::device::{Cmos, Dma, Fdc, Irq, Machine, Pic, Pit, Ps2Kbd, Serial};
use x86_rs::mem::Device;
use x86_rs::pc::{four_words, is_vga_port, setup_machine, stack_addr, vectors_here, Pace, PaceAction};
use x86_rs::{new_core, CPU_STRING};

#[test]
fn pic_acknowledges_by_priority_and_mask() {
    let mut pic = Pic::new();
    pic.raise(Irq::Keyboard.line());
    pic.raise(Irq::Serial1.line());
    assert_eq!(pic.ack(), None);
    pic.write(0x21, 0xED);
    assert_eq!(pic.ack(), Some(0x09));
    assert_eq!(pic.ack(), Some(0x0C));
    assert_eq!(pic.ack(), None);
    assert_eq!(pic.read(0x20), 0x12);
    assert_eq!(pic.read(0x21), 0xED);
    pic.eoi();
    assert_eq!(pic.read(0x20), 0x10);
    pic.write(0x20, 0x20);
    assert_eq!(pic.read(0x20), 0x00);
}

#[test]
fn slave_requests_come_through_the_cascade() {
    let mut pic = Pic::new();
    pic.write(0x21, 0x00);
    pic.write(0xA1, 0x00);
    pic.raise(Irq::Timer.line());
    pic.raise(Irq::Ide.line());
    assert_eq!(pic.ack(), Some(0x76));
    assert_eq!(pic.master.isr, 0x04);
    assert_eq!(pic.slave.isr, 0x40);
    assert_eq!(pic.ack(), Some(0x08));
    pic.eoi();
    assert_eq!((pic.master.isr, pic.slave.isr), (0x04, 0x00));
}

#[test]
fn pic_initialisation_sets_the_vector_base() {
    let mut pic = Pic::new();
    pic.write(0x20, 0x11);
    pic.write(0x21, 0x23);
    pic.write(0x21, 0x04);
    pic.write(0x21, 0x03);
    pic.write(0x21, 0x00);
    assert_eq!(pic.master.base, 0x20);
    assert!(pic.master.auto_eoi);
    pic.raise(5);
    assert_eq!(pic.ack(), Some(0x25));
    assert_eq!(pic.read(0x99), 0xFF);
}

#[test]
fn irq_lines_have_their_numbers() {
    let lines = [
        (Irq::Timer, 0),
        (Irq::Keyboard, 1),
        (Irq::PicSlave, 2),
        (Irq::Serial2, 3),
        (Irq::Serial1, 4),
        (Irq::Fdc, 6),
        (Irq::Rtc, 8),
        (Irq::Ps2Mouse, 12),
        (Irq::Ide, 14),
    ];
    for (irq, n) in lines {
        assert_eq!(irq.line(), n);
    }
}

#[test]
fn pit_loads_low_then_high_and_latches() {
    let mut pit = Pit::new();
    pit.write(0x41, 0x34);
    assert_eq!(pit.reload[1], 0);
    pit.write(0x41, 0x12);
    assert_eq!(pit.reload[1], 0x1234);
    assert_eq!(pit.phases[1], 0x1234);
    pit.cmd(0xD2 | 0x0C);
    pit.cmd(0xC0 | 0x0A);
    pit.write(0x41, 0x99);
    assert_eq!(pit.read(0x41), 0x34);
    assert_eq!(pit.read(0x41), 0x99);
    assert_eq!(pit.read(0x43), 0xFF);
    pit.cmd(0x60);
    pit.write(0x41, 0x56);
    assert_eq!(pit.reload[1], 0x5699);
}

#[test]
fn pit_ticks_add_up_and_toggle_channel_two() {
    let mut a = Pit::new();
    a.tick(100);
    a.tick(200);
    let mut b = Pit::new();
    b.tick(300);
    assert_eq!(a.phases, b.phases);
    let mut pit = Pit::new();
    pit.cmd(0x90);
    pit.write(0x42, 10);
    pit.tick(9);
    assert!(!pit.out2);
    pit.tick(1);
    assert!(pit.out2);
    assert_eq!(pit.phases[2], 10);
}

#[test]
fn cmos_registers_read_back() {
    let mut c = Cmos::new();
    assert_eq!(c.regs[0x10], 0x10);
    assert_eq!(c.regs[0x3D], 0x01);
    c.write(0x70, 0x8F);
    c.write(0x71, 0x5A);
    assert_eq!(c.read(0x71), 0x5A);
    assert_eq!(c.read(0x70), 0x81);
    c.write(0x70, 0x10);
    assert_eq!(c.read(0x71), 0x10);
    assert_eq!(c.read(0x72), 0xFF);
}

#[test]
fn cmos_tells_the_memory_sizes() {
    let c = Cmos::new();
    let size = |low: usize, high: usize| c.regs[low] as u32 + c.regs[high] as u32 * 0x100;
    assert_eq!(size(0x15, 0x16), 640);
    assert_eq!(size(0x30, 0x31), 16_128);
    assert_eq!(c.regs[0x0F], 0);
    assert_eq!(c.nmi_mask, 1);
}

#[test]
fn dma_keeps_the_mode() {
    let mut d = Dma::new();
    d.write(0x0B, 0x42);
    assert_eq!(d.mode, 0x42);
    d.mask = 0x35;
    assert_eq!(d.read(0x08), 0xF5);
    assert_eq!(d.read(0xDA), 0);
    assert_eq!(d.read(0x0C), 0xFF);
}

#[test]
fn fdc_commands_raise_their_interrupts() {
    let mut f = Fdc::new();
    assert!(f.write(0x3F2, 0x0C));
    assert!(!f.write(0x3F2, 0x0C));
    // Recalibrate takes one parameter.
    assert!(!f.write(0x3F5, 0x07));
    assert!(f.write(0x3F5, 0x00));
    // Seek takes two.
    assert!(!f.write(0x3F5, 0x0F));
    assert!(!f.write(0x3F5, 0x00));
    assert!(f.write(0x3F5, 0x05));
    // Sense interrupt has two result bytes.
    assert_eq!(f.read(0x3F4), 0x80);
    assert!(!f.write(0x3F5, 0x08));
    assert_eq!(f.read(0x3F4), 0xC0);
    assert_eq!(f.read(0x3F5), 0x20);
    assert_eq!(f.read(0x3F5), 0x00);
    assert_eq!(f.read(0x3F4), 0x80);
    assert_eq!(f.read(0x3F5), 0x08);
    assert_eq!(f.read(0x3F7), 0x00);
    assert_eq!(f.read(0x3F0), 0xFF);
}

#[test]
fn keyboard_answers_in_order() {
    let mut k = Ps2Kbd::new();
    assert_eq!(k.read(0x64), 0x20);
    k.write(0x64, 0xAA);
    assert_eq!(k.read(0x64), 0x21);
    assert_eq!(k.read(0x60), 0x55);
    assert_eq!(k.read(0x64), 0x20);
    k.write(0x60, 0xFF);
    assert!(k.has_data);
    assert_eq!(k.read(0x60), 0xFA);
    assert_eq!(k.read(0x60), 0xAA);
    assert!(!k.has_data);
    k.write(0x64, 0x60);
    k.write(0x60, 0x47);
    k.write(0x64, 0x20);
    assert_eq!(k.read(0x60), 0x47);
    k.inject(0x1E);
    k.inject(0x9E);
    assert_eq!(k.read(0x60), 0x1E);
    assert_eq!(k.read(0x60), 0x9E);
    k.write(0x64, 0xAB);
    assert_eq!(k.read(0x60), 0x00);
}

#[test]
fn serial_port_sends_unless_the_divisor_is_open() {
    let mut s = Serial::new();
    s.write(0x3F8, b'A');
    s.write(0x3FB, 0x83);
    s.write(0x3F8, b'B');
    s.write(0x3FB, 0x03);
    s.write(0x3F8, b'C');
    s.write(0x3F9, 7);
    s.write(0x3FC, 9);
    assert_eq!(s.out, vec![b'A', b'C']);
    assert_eq!((s.ier, s.read(0x3FC), s.read(0x3FB)), (7, 9, 3));
    assert_eq!(s.read(0x3FD), 0x60);
    assert_eq!(s.read(0x3FA), 1);
    assert_eq!(s.read(0x3F8), 0);
}

#[test]
fn machine_routes_ports() {
    let mut m = Machine::new();
    m.io_write(0xE9, 1, 0x148);
    m.io_write(0x402, 1, 0x69);
    assert_eq!(m.debug_bytes, vec![0x48, 0x69]);
    assert_eq!(m.io_read(0xE9, 1), 0);
    assert_eq!(m.io_read(0x61, 1), 0x10);
    assert_eq!(m.io_read(0x1234, 1), 0xFF);
    m.io_write(0x43, 1, 0x14);
    m.io_write(0x40, 1, 0x05);
    m.io_write(0x21, 1, 0xFE);
    m.tick(5);
    assert_eq!(m.ack_irq(), Some(0x08));
    let d = m.debug_state();
    assert_eq!((d.pit0_cmds, d.last_pit0_cmd), (1, 0x14));
    assert_eq!((d.pit0_writes, d.last_pit0_write), (1, 0x05));
    assert_eq!((d.timer_irqs_raised, d.total_cycles), (1, 5));
    assert_eq!((d.pit_reload0, d.pit_phase0, d.pit_timer_fired), (5, 5, true));
    assert_eq!((d.pic_imr, d.pic_irr, d.pic_isr), (0xFE, 0, 1));
    m.io_write(0x21, 1, 0xBF);
    m.io_write(0x3F2, 1, 0x04);
    assert_eq!(m.ack_irq(), Some(0x0E));
    m.io_write(0x09, 1, 0x77);
    assert_eq!(m.dma.mode, 0);
    m.io_write(0x0B, 1, 0x77);
    assert_eq!(m.dma.mode, 0x77);
}

#[test]
fn display_ports_are_told_apart() {
    assert!(!is_vga_port(0x3B3));
    assert!(is_vga_port(0x3B4));
    assert!(is_vga_port(0x3C0));
    assert!(is_vga_port(0x3DF));
    assert!(!is_vga_port(0x3E0));
}

#[test]
fn channel_2_shows_at_the_system_port() {
    let mut m = Machine::new();
    m.io_write(0x43, 1, 0x90);
    m.io_write(0x42, 1, 10);
    m.tick(9);
    assert_eq!(m.io_read(0x61, 1), 0x10);
    m.tick(1);
    assert_eq!(m.io_read(0x61, 1), 0x30);
    m.tick(10);
    assert_eq!(m.io_read(0x61, 1), 0x10);
}

#[test]
fn machine_setup_maps_the_firmware() {
    let bios = vec![0xEA; 0x20000];
    let vga = vec![0x55, 0xAA];
    let mut cpu = setup_machine(bios, vga, Box::new(Machine::new()));
    assert_eq!(cpu.mem.phys_read8(0xFFFF0), 0xEA);
    assert_eq!(cpu.mem.phys_read16(0xC0000), 0xAA55);
    assert_eq!(cpu.mem.phys_read8(0xA0000), 0);
    assert_eq!(cpu.mem.phys_read8(0x100_0000), 0xFF);
    assert_eq!(cpu.mem.io_read(0x61, 1), 0x10);
    cpu.mem.io_write(0xE9, 1, 0x41);
    cpu.mem.io_write(0x43, 1, 0x14);
    cpu.mem.io_write(0x40, 1, 0x05);
    cpu.mem.io_write(0x21, 1, 0xFE);
    cpu.mem.tick_device(5);
    assert_eq!(cpu.mem.ack_irq(), Some(0x08));
    assert!(cpu.mem.device_mut().is_some());
    assert_eq!((cpu.seg[1].sel, cpu.eip), (0xF000, 0xFFF0));
}

#[test]
fn runs_are_paced() {
    let mut p = Pace::new();
    assert_eq!(p.advance(99_999, 1_000_000), PaceAction::Run);
    assert_eq!(p.advance(1, 1_000_000), PaceAction::Render);
    assert_eq!(p.advance(99_999, 1_000_000), PaceAction::Run);
    assert_eq!(p.advance(800_001, 1_000_000), PaceAction::Render);
    assert_eq!(p.advance(1, 1_000_000), PaceAction::Stop);
    assert_eq!(p.steps, 1_000_001);
}

#[test]
fn status_helpers_look_into_memory() {
    let mut cpu = new_core();
    cpu.mem.phys_write32(0x21 * 4, 0xF000_FFF0);
    cpu.mem.phys_write32(0x40 * 4, 0xF000_FFF0);
    assert_eq!(vectors_here(&cpu), vec![0x21, 0x40]);
    cpu.seg[2].desc.base = 0x1000;
    cpu.gpr[4] = 0xABCD_0010;
    cpu.mem.phys_write32(0x1010, 0x2222_1111);
    assert_eq!(stack_addr(&cpu, 4), 0x1010);
    assert_eq!(four_words(&cpu, 0x1010), [0x1111, 0x2222, 0, 0]);
    assert_eq!(CPU_STRING, "i386 (486-class subset)");
}
