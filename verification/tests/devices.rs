use x86_rs::device::{Irq, Pic, Pit};

#[test]
fn pic_command_0x20_is_non_specific_eoi() {
    let mut pic = Pic::new();
    pic.write(0x21, 0xFE);
    pic.raise(Irq::Timer as u8);

    assert_eq!(pic.ack(), Some(0x08));
    assert_eq!(pic.master.isr & 0x01, 0x01);

    pic.write(0x20, 0x20);
    assert_eq!(pic.master.isr & 0x01, 0);
}

#[test]
fn pit_low_only_access_loads_counter_immediately() {
    let mut pit = Pit::new();
    pit.cmd(0x14); // channel 0, low byte only
    pit.write(0x40, 0x12);

    assert_eq!(pit.reload[0], 0x0012);
    assert_eq!(pit.phases[0], 0x0012);
}

#[test]
fn pit_zero_reload_means_65536() {
    let mut pit = Pit::new();
    pit.cmd(0x34); // channel 0, low/high
    pit.write(0x40, 0x00);
    pit.write(0x40, 0x00);

    assert_eq!(pit.reload[0], 0);
    assert_eq!(pit.phases[0], 65_536);
}

#[test]
fn pit_channel_zero_starts_running() {
    let pit = Pit::new();

    assert_eq!(pit.reload[0], 0);
    assert_eq!(pit.phases[0], 65_536);
}

#[test]
fn pit_channel_zero_fires_after_effective_reload() {
    let mut pit = Pit::new();

    pit.tick(65_535);
    assert!(!pit.timer_fired);
    assert_eq!(pit.phases[0], 1);

    pit.tick(1);
    assert!(pit.timer_fired);
    assert_eq!(pit.phases[0], 65_536);
}
