use x86_rs::cpu::AccessKind;
use x86_rs::mem::{Mem, MemRegion, Ram, VgaMem};
use x86_rs::mmu;
use x86_rs::{Desc, Error, Seg, SegVal, X86};

#[test]
fn unmapped_addresses_float_high_and_swallow_writes() {
    let mut m = Mem::new();
    assert_eq!(m.phys_read8(0x1234), 0xFF);
    m.phys_write8(0x1234, 0x55);
    assert_eq!(m.phys_read8(0x1234), 0xFF);
    assert_eq!(m.phys_read32(0x1234), 0xFFFF_FFFF);
    assert_eq!(m.io_read(0x60, 1), 0xFF);
    assert_eq!(m.ack_irq(), None);
    assert!(m.device_mut().is_none());
}

#[test]
fn words_and_dwords_are_little_endian_and_read_back() {
    let mut m = Mem::new();
    m.add_ram(0x1000, 0x100);
    m.phys_write32(0x1010, 0x1234_5678);
    assert_eq!(m.phys_read32(0x1010), 0x1234_5678);
    assert_eq!(m.phys_read16(0x1010), 0x5678);
    assert_eq!(m.phys_read16(0x1012), 0x1234);
    assert_eq!(m.phys_read8(0x1013), 0x12);
    m.phys_write16(0x1011, 0xABCD);
    assert_eq!(m.phys_read32(0x1010), 0x12AB_CD78);
}

#[test]
fn blocks_read_back() {
    let mut m = Mem::default();
    m.install_default_ram();
    m.phys_write_block(0x2000, &[1, 2, 3, 4, 5]);
    let mut out = [0u8; 5];
    m.phys_read_block(0x2000, &mut out);
    assert_eq!(out, [1, 2, 3, 4, 5]);
    m.load_region(0x2002, &[9]);
    m.copy_from_phys(0x2001, &mut out);
    assert_eq!(out, [2, 9, 4, 5, 0]);
}

#[test]
fn later_region_shadows_earlier_one() {
    let mut m = Mem::new();
    m.add_ram(0, 0x100);
    m.phys_write8(0x10, 0x11);
    m.phys_write8(0x20, 0x22);
    m.add_rom(0x20, vec![0x33, 0x44]);
    assert_eq!(m.phys_read8(0x10), 0x11);
    assert_eq!(m.phys_read8(0x20), 0x33);
    assert_eq!(m.phys_read8(0x21), 0x44);
    assert_eq!(m.phys_read8(0x22), 0);
    // ROM images stay writable.
    m.phys_write8(0x21, 0x55);
    assert_eq!(m.phys_read8(0x21), 0x55);
}

#[test]
fn regions_have_their_size() {
    assert_eq!(Ram::new(7).len(), 7);
    assert_eq!(Ram::with_data(vec![1, 2]).as_bytes(), &[1, 2]);
    assert_eq!(VgaMem::new().len(), 0x20000);
    let mut m = Mem::new();
    m.add_vga(0xA0000);
    m.phys_write8(0xBFFFF, 7);
    assert_eq!(m.phys_read8(0xBFFFF), 7);
    assert_eq!(m.phys_read8(0xC0000), 0xFF);
}

#[test]
fn real_addresses_wrap_at_one_megabyte() {
    assert_eq!(mmu::real_addr(0xF000, 0xFFF0), 0xFFFF0);
    assert_eq!(mmu::real_addr(0xFFFF, 0x0010), 0x00000);
    assert_eq!(mmu::real_addr(0x1234, 0x0005), 0x12345);
}

#[test]
fn effective_addresses_wrap_at_the_address_size() {
    let mut cpu = X86::new();
    cpu.gpr[3] = 0x0001_FFFF;
    cpu.gpr[6] = 0x0000_0003;
    assert_eq!(mmu::eff_addr(&cpu, Some(3), Some(6), 1, -1, true), 0x0001);
    assert_eq!(mmu::eff_addr(&cpu, Some(3), Some(6), 4, -1, false), 0x0002_000A);
    assert_eq!(mmu::eff_addr(&cpu, None, None, 1, -1, false), 0xFFFF_FFFF);
    assert_eq!(mmu::eff_addr(&cpu, None, None, 1, -1, true), 0xFFFF);
}

#[test]
fn real_mode_word_reads_back_across_the_wrap() {
    let mut cpu = X86::new();
    cpu.seg[3] = SegVal::real_mode(0xFFFF);
    assert_eq!(mmu::write16(&mut cpu, Seg::Ds, 0x000F, 0xBEEF, AccessKind::Write), Ok(()));
    assert_eq!(mmu::read16(&mut cpu, Seg::Ds, 0x000F, AccessKind::Read), Ok(0xBEEF));
    assert_eq!(cpu.mem.phys_read8(0xFFFFF), 0xEF);
    assert_eq!(cpu.mem.phys_read8(0x00000), 0xBE);
}

fn flat(limit: u32, g: bool) -> SegVal {
    SegVal {
        sel: 8,
        desc: Desc { base: 0x100, limit, g, db: true, p: true, typ: 0x12, dpl: 0, avl: false },
    }
}

#[test]
fn segment_limit_is_enforced_in_protected_mode() {
    let mut cpu = X86::new();
    cpu.cr[0] = 1;
    cpu.seg[3] = flat(0xFF, false);
    assert_eq!(mmu::translate_for_access(&cpu, Seg::Ds, 0xFF, 1, AccessKind::Read), Ok(0x1FF));
    assert_eq!(
        mmu::translate_for_access(&cpu, Seg::Ds, 0x100, 1, AccessKind::Read),
        Err(Error::Internal(String::from("segment fault at 0x100")))
    );
    assert_eq!(
        mmu::translate_for_access(&cpu, Seg::Ds, 0xFD, 4, AccessKind::Read),
        Err(Error::Internal(String::from("segment fault at 0xfd")))
    );
    cpu.seg[3] = flat(0xF_FFFF, true);
    assert_eq!(cpu.seg_limit(Seg::Ds), 0xFFFF_FFFF);
    assert_eq!(
        mmu::translate_for_access(&cpu, Seg::Ds, 0xFFFF_FFFF, 1, AccessKind::Read),
        Ok(0xFF)
    );
}

#[test]
fn fetch_beyond_the_code_segment_is_reported() {
    let mut cpu = X86::new();
    cpu.cr[0] = 1;
    cpu.seg[1] = flat(0x0F, false);
    cpu.mem.phys_write32(0x10C, 0x4433_2211);
    assert_eq!(mmu::fetch8(&cpu, 0x0F), Ok(0x44));
    assert_eq!(mmu::fetch16(&cpu, 0x0C), Ok(0x2211));
    assert_eq!(mmu::fetch32(&cpu, 0x0C), Ok(0x4433_2211));
    assert_eq!(
        mmu::fetch8(&cpu, 0x10),
        Err(String::from("CS limit exceeded (EIP 0x10 > limit 0xf)"))
    );
}

fn paged_cpu() -> X86 {
    let mut cpu = X86::new();
    cpu.cr[0] = 0x8000_0001;
    cpu.cr[3] = 0x1000;
    for s in 0..6 {
        cpu.seg[s] = SegVal {
            sel: 8,
            desc: Desc {
                base: 0,
                limit: 0xF_FFFF,
                g: true,
                db: true,
                p: true,
                typ: 0x12,
                dpl: 0,
                avl: false,
            },
        };
    }
    // Directory entry 1 -> table at 0x2000; page 0x0040_3000 -> frame 0x5000.
    cpu.mem.phys_write32(0x1004, 0x2007);
    cpu.mem.phys_write32(0x200C, 0x5005);
    cpu
}

#[test]
fn paging_walks_directory_and_table() {
    let cpu = paged_cpu();
    let read = mmu::translate_for_access(&cpu, Seg::Ds, 0x0040_3ABC, 1, AccessKind::Read);
    assert_eq!(read, Ok(0x5ABC));
    // The page is read-only.
    let write = mmu::translate_for_access(&cpu, Seg::Ds, 0x0040_3ABC, 1, AccessKind::Write);
    assert_eq!(write, Err(Error::Internal(String::from("page fault at 0x403abc"))));
    // Neither entry is present.
    let absent = mmu::translate_for_access(&cpu, Seg::Ds, 0x0040_4000, 1, AccessKind::Read);
    assert_eq!(absent, Err(Error::Internal(String::from("page fault at 0x404000"))));
    let no_table = mmu::translate_for_access(&cpu, Seg::Ds, 0x0080_0000, 1, AccessKind::Read);
    assert_eq!(no_table, Err(Error::Internal(String::from("page fault at 0x800000"))));
}

#[test]
fn supervisor_pages_are_closed_to_user_code() {
    let mut cpu = paged_cpu();
    cpu.mem.phys_write32(0x200C, 0x5003);
    let ok = mmu::translate_for_access(&cpu, Seg::Ds, 0x0040_3000, 1, AccessKind::Write);
    assert_eq!(ok, Ok(0x5000));
    cpu.seg[1].desc.dpl = 3;
    assert_eq!(cpu.cpl(), 3);
    let user = mmu::translate_for_access(&cpu, Seg::Ds, 0x0040_3000, 1, AccessKind::Read);
    assert_eq!(user, Err(Error::Internal(String::from("page fault at 0x403000"))));
}

#[test]
fn stack_accessors_use_ss() {
    let mut cpu = X86::new();
    cpu.seg[2] = SegVal::real_mode(0x0100);
    assert_eq!(mmu::stack_write(&mut cpu, 0x10, 4, 0xCAFE_BABE, AccessKind::Write), Ok(()));
    assert_eq!(cpu.mem.phys_read32(0x1010), 0xCAFE_BABE);
    assert_eq!(mmu::stack_read(&mut cpu, 0x10, 2, AccessKind::Read), Ok(0xBABE));
    assert_eq!(mmu::stack_read(&mut cpu, 0x13, 1, AccessKind::Read), Ok(0xCA));
}
