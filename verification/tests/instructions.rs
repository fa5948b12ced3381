use std::sync::{Arc, Mutex};
use x86_rs::decode::{Bits, Rep};
use x86_rs::flag::{AF, CF, DF, IF, OF, SF, ZF};
use x86_rs::mem::{Device, Mem};
use x86_rs::{interp, sem, Error, Mode, Seg, SegVal, StepOut, X86};

fn core_with(code: &[u8]) -> X86 {
    let mut cpu = X86::new();
    cpu.eip = 0;
    cpu.seg[1] = SegVal::real_mode(0);
    cpu.gpr[4] = 0x1000;
    cpu.mem.phys_write_block(0, code);
    cpu
}

fn step_ok(cpu: &mut X86) {
    assert_eq!(cpu.step(), StepOut::Continue);
}

fn unsupported(text: &str) -> StepOut {
    StepOut::Error(Error::Unsupported(String::from(text)))
}

fn internal(text: &str) -> StepOut {
    StepOut::Error(Error::Internal(String::from(text)))
}

#[test]
fn reset_state_starts_at_the_reset_vector() {
    let mut cpu = X86::new();
    assert_eq!(cpu.eip, 0xFFF0);
    assert_eq!(cpu.seg[1].sel, 0xF000);
    assert_eq!(cpu.seg_base(Seg::Cs), 0xF0000);
    assert_eq!(cpu.mode(), Mode::Real);
    assert_eq!(cpu.cpl(), 0);
    cpu.gpr[3] = 7;
    cpu.cr[0] = 1;
    cpu.halted = true;
    cpu.force_interp = true;
    cpu.mem.phys_write8(0x500, 9);
    cpu.reset();
    assert_eq!(cpu.gpr, [0; 8]);
    assert_eq!(cpu.cr, [0; 4]);
    assert!(!cpu.halted);
    assert!(cpu.force_interp);
    assert_eq!(cpu.mem.phys_read8(0x500), 9);
}

#[test]
fn multiplication_fills_both_halves() {
    let mut cpu = core_with(&[0xF6, 0xE3, 0xF7, 0xE3, 0xF6, 0xEB]);
    cpu.gpr[0] = 0x80;
    cpu.gpr[3] = 0x03;
    step_ok(&mut cpu);
    assert_eq!(cpu.reg16(0), 0x180);
    assert_eq!(cpu.eflags & (CF | OF), CF | OF);
    step_ok(&mut cpu);
    assert_eq!(cpu.reg16(0), 0x480);
    assert_eq!(cpu.reg16(2), 0);
    assert_eq!(cpu.eflags & (CF | OF), 0);
    // imul bl with al = 80h (-128) * 3
    step_ok(&mut cpu);
    assert_eq!(cpu.reg16(0), 0xFE80);
    assert_eq!(cpu.eflags & (CF | OF), CF | OF);
}

#[test]
fn imul_multiplies_the_destination() {
    // imul ax,bx,3 ; imul ax,bx ; imul cx,bx,-2
    let mut cpu = core_with(&[0x6B, 0xC3, 0x03, 0x0F, 0xAF, 0xC3, 0x6B, 0xCB, 0xFE]);
    cpu.gpr[0] = 5;
    cpu.gpr[1] = 7;
    cpu.gpr[3] = 100;
    step_ok(&mut cpu);
    assert_eq!(cpu.reg16(0), 15);
    assert_eq!(cpu.eflags & (CF | OF), 0);
    step_ok(&mut cpu);
    assert_eq!(cpu.reg16(0), 1500);
    assert_eq!(cpu.eflags & (CF | OF), 0);
    step_ok(&mut cpu);
    assert_eq!(cpu.reg16(1), 0xFFF2);
    assert_eq!(cpu.reg16(3), 100);
}

#[test]
fn carry_looks_at_the_whole_operand() {
    // add ax,-1 ; cmp ax,-1 ; sbb eax,ebx ; sbb eax,ebx
    let code = [0x83, 0xC0, 0xFF, 0x83, 0xF8, 0xFF, 0x66, 0x19, 0xD8, 0x66, 0x19, 0xD8];
    let mut cpu = core_with(&code);
    step_ok(&mut cpu);
    assert_eq!(cpu.reg16(0), 0xFFFF);
    assert_eq!(cpu.eflags & (CF | ZF | OF | AF), CF);
    step_ok(&mut cpu);
    assert_eq!(cpu.eflags & (CF | ZF), CF | ZF);
    // The carry wraps the subtrahend to 0.
    cpu.gpr[0] = 0;
    cpu.gpr[3] = 0xFFFF_FFFF;
    step_ok(&mut cpu);
    assert_eq!(cpu.gpr[0], 0);
    assert_eq!(cpu.eflags & (CF | ZF | AF), ZF);
    // Without a carry it does not.
    step_ok(&mut cpu);
    assert_eq!(cpu.gpr[0], 1);
    assert_eq!(cpu.eflags & (CF | ZF | AF), CF | AF);
}

#[test]
fn divide_error_is_interrupt_zero_at_the_instruction() {
    let mut cpu = core_with(&[0xF6, 0xF3]);
    cpu.gpr[0] = 0x1234;
    cpu.gpr[3] = 0;
    cpu.mem.phys_write16(0, 0x0300);
    cpu.mem.phys_write16(2, 0x0000);
    cpu.mem.phys_write_block(0x100, &[0xF6, 0xF3]);
    cpu.eip = 0x100;
    assert_eq!(cpu.step(), StepOut::Interrupt);
    assert_eq!(cpu.eip, 0x0300);
    assert_eq!(cpu.mem.phys_read16(0x0FFA), 0x0100);
    // The quotient does not fit either.
    let mut cpu = core_with(&[0, 3, 0, 0, 0xF6, 0xF3]);
    cpu.eip = 4;
    cpu.gpr[0] = 0x1234;
    cpu.gpr[3] = 1;
    assert_eq!(cpu.step(), StepOut::Interrupt);
    assert_eq!(cpu.eip, 0x0300);
}

#[test]
fn signed_division_rounds_toward_zero() {
    // idiv ebx with edx:eax = -7, ebx = 2
    let mut cpu = core_with(&[0x66, 0xF7, 0xFB]);
    cpu.gpr[0] = 0xFFFF_FFF9;
    cpu.gpr[2] = 0xFFFF_FFFF;
    cpu.gpr[3] = 2;
    step_ok(&mut cpu);
    assert_eq!(cpu.gpr[0], 0xFFFF_FFFD);
    assert_eq!(cpu.gpr[2], 0xFFFF_FFFF);
}

#[test]
fn double_shifts_bring_bits_in() {
    // shld ax,bx,4 ; shrd ax,bx,cl
    let mut cpu = core_with(&[0x0F, 0xA4, 0xD8, 4, 0x0F, 0xAD, 0xD8]);
    cpu.gpr[0] = 0x1234;
    cpu.gpr[3] = 0xABCD;
    cpu.gpr[1] = 8;
    step_ok(&mut cpu);
    assert_eq!(cpu.reg16(0), 0x234A);
    assert_eq!(cpu.eflags & CF, CF);
    step_ok(&mut cpu);
    assert_eq!(cpu.reg16(0), 0xCD23);
}

#[test]
fn bit_instructions_change_one_bit() {
    // bts ax,3 ; btr ax,3 ; btc ax,15 ; bsr cx,ax
    let code = [
        0x0F, 0xBA, 0xE8, 3, 0x0F, 0xBA, 0xF0, 3, 0x0F, 0xBA, 0xF8, 15, 0x0F, 0xBD, 0xC8,
    ];
    let mut cpu = core_with(&code);
    step_ok(&mut cpu);
    assert_eq!(cpu.reg16(0), 8);
    assert_eq!(cpu.eflags & CF, 0);
    step_ok(&mut cpu);
    assert_eq!(cpu.reg16(0), 0);
    assert_eq!(cpu.eflags & CF, CF);
    step_ok(&mut cpu);
    assert_eq!(cpu.reg16(0), 0x8000);
    step_ok(&mut cpu);
    assert_eq!(cpu.reg16(1), 15);
}

#[test]
fn bit_scan_of_zero_keeps_the_destination() {
    let mut cpu = core_with(&[0x0F, 0xBC, 0xC8]);
    cpu.gpr[1] = 0x7777;
    step_ok(&mut cpu);
    assert_eq!(cpu.reg16(1), 0x7777);
    assert_eq!(cpu.eflags & ZF, ZF);
}

#[test]
fn widening_moves() {
    // movzx ax,bl ; movsx ax,bl ; movsx eax,bl
    let mut cpu = core_with(&[0x0F, 0xB6, 0xC3, 0x0F, 0xBE, 0xC3, 0x66, 0x0F, 0xBE, 0xC3]);
    cpu.gpr[3] = 0x1280;
    step_ok(&mut cpu);
    assert_eq!(cpu.reg16(0), 0x0080);
    step_ok(&mut cpu);
    assert_eq!(cpu.reg16(0), 0xFF80);
    step_ok(&mut cpu);
    assert_eq!(cpu.gpr[0], 0xFFFF_FF80);
}

#[test]
fn conditional_instructions_follow_the_flags() {
    // setz al ; cmovz bx,cx ; cmovnz bx,cx ; jz +2
    let code = [0x0F, 0x94, 0xC0, 0x0F, 0x44, 0xD9, 0x0F, 0x45, 0xD9, 0x74, 0x02];
    let mut cpu = core_with(&code);
    cpu.eflags = 2;
    cpu.gpr[0] = 0xFF;
    cpu.gpr[1] = 0x1111;
    step_ok(&mut cpu);
    assert_eq!(cpu.reg8(0), 0);
    step_ok(&mut cpu);
    assert_eq!(cpu.reg16(3), 0);
    step_ok(&mut cpu);
    assert_eq!(cpu.reg16(3), 0x1111);
    cpu.eflags |= ZF;
    step_ok(&mut cpu);
    assert_eq!(cpu.eip, 13);
}

#[test]
fn lea_and_xchg() {
    // lea ax,[bx+si+5] ; xchg ax,[0x200]
    let mut cpu = core_with(&[0x8D, 0x40, 0x05, 0x87, 0x06, 0x00, 0x02]);
    cpu.gpr[3] = 0x10;
    cpu.gpr[6] = 0x20;
    cpu.mem.phys_write16(0x200, 0xBEEF);
    step_ok(&mut cpu);
    assert_eq!(cpu.reg16(0), 0x35);
    step_ok(&mut cpu);
    assert_eq!(cpu.reg16(0), 0xBEEF);
    assert_eq!(cpu.mem.phys_read16(0x200), 0x35);
}

#[test]
fn pop_undoes_push_even_at_the_wrap() {
    // push ax ; pop bx
    let mut cpu = core_with(&[0x50, 0x5B]);
    cpu.gpr[0] = 0xCAFE;
    cpu.gpr[4] = 0x5555_0000;
    step_ok(&mut cpu);
    assert_eq!(cpu.gpr[4], 0x5555_FFFE);
    step_ok(&mut cpu);
    assert_eq!(cpu.reg16(3), 0xCAFE);
    assert_eq!(cpu.gpr[4], 0x5555_0000);
}

#[test]
fn stack_needs_only_its_own_bytes_mapped() {
    // push ax ; pop bx
    let mut cpu = core_with(&[]);
    cpu.mem = Mem::new();
    cpu.mem.add_ram(0, 2);
    cpu.mem.add_ram(0x0FFE, 2);
    cpu.mem.phys_write_block(0, &[0x50, 0x5B]);
    cpu.gpr[0] = 0xCAFE;
    step_ok(&mut cpu);
    assert_eq!(cpu.mem.phys_read32(0x0FFC), 0xCAFE_FFFF);
    step_ok(&mut cpu);
    assert_eq!(cpu.reg16(3), 0xCAFE);
    // Without memory there the word is lost.
    cpu.eip = 0;
    cpu.gpr[4] = 0x0800;
    step_ok(&mut cpu);
    step_ok(&mut cpu);
    assert_eq!(cpu.reg16(3), 0xFFFF);
    assert_eq!(cpu.gpr[4], 0x0800);
}

#[test]
fn pusha_and_popa_restore_everything_but_sp() {
    let mut cpu = core_with(&[0x60, 0x61]);
    for r in 0..8 {
        cpu.gpr[r] = 0x100 * r as u32 + 0x11;
    }
    cpu.gpr[4] = 0x1000;
    let before = cpu.gpr;
    step_ok(&mut cpu);
    assert_eq!(cpu.gpr[4], 0x0FF0);
    assert_eq!(cpu.mem.phys_read16(0x0FFE), 0x0011);
    assert_eq!(cpu.mem.phys_read16(0x0FF6), 0x1000);
    cpu.gpr = [0; 8];
    cpu.gpr[4] = 0x0FF0;
    step_ok(&mut cpu);
    assert_eq!(cpu.gpr, before);
}

#[test]
fn enter_and_leave_make_and_drop_a_frame() {
    // enter 10h,0 ; leave
    let mut cpu = core_with(&[0xC8, 0x10, 0x00, 0x00, 0xC9]);
    cpu.gpr[5] = 0x2222;
    step_ok(&mut cpu);
    assert_eq!(cpu.gpr[5], 0x0FFE);
    assert_eq!(cpu.gpr[4], 0x0FEE);
    step_ok(&mut cpu);
    assert_eq!(cpu.gpr[5], 0x2222);
    assert_eq!(cpu.gpr[4], 0x1000);
}

#[test]
fn far_call_and_far_return() {
    // call 0000:0010 ; at 10h: retf 4
    let mut cpu = core_with(&[0x9A, 0x10, 0x00, 0x00, 0x01]);
    cpu.mem.phys_write_block(0x1010, &[0xCA, 0x04, 0x00]);
    step_ok(&mut cpu);
    assert_eq!((cpu.seg[1].sel, cpu.eip), (0x0100, 0x0010));
    assert_eq!(cpu.mem.phys_read16(0x0FFC), 5);
    step_ok(&mut cpu);
    assert_eq!((cpu.seg[1].sel, cpu.eip), (0x0000, 0x0005));
    assert_eq!(cpu.gpr[4], 0x1004);
}

#[test]
fn near_call_through_an_operand_goes_on_behind_it() {
    // call bx ; call [0100h]
    let mut cpu = core_with(&[0xFF, 0xD3, 0xFF, 0x16, 0x00, 0x01]);
    cpu.gpr[3] = 0x0040;
    cpu.mem.phys_write16(0x0100, 0x0050);
    step_ok(&mut cpu);
    assert_eq!((cpu.eip, cpu.gpr[4]), (2, 0x0FFE));
    assert_eq!(cpu.mem.phys_read16(0x0FFE), 2);
    step_ok(&mut cpu);
    assert_eq!((cpu.eip, cpu.gpr[4]), (6, 0x0FFC));
    assert_eq!(cpu.mem.phys_read16(0x0FFC), 6);
}

#[test]
fn far_call_through_memory_is_refused() {
    // call far [0100h]
    let mut cpu = core_with(&[0xFF, 0x1E, 0x00, 0x01]);
    cpu.mem.phys_write32(0x0100, 0x1234_0020);
    assert_eq!(cpu.step(), internal("far call no ptr"));
    assert_eq!((cpu.seg[1].sel, cpu.eip, cpu.gpr[4]), (0, 0, 0x1000));
}

#[test]
fn far_call_and_return_take_the_selector_as_in_real_mode() {
    // call 0008:0012 ; at 80h + 12h: retf
    let mut cpu = protected_core(&[0x9A, 0x12, 0x00, 0x08, 0x00]);
    cpu.mem.phys_write8(0x92, 0xCB);
    step_ok(&mut cpu);
    assert_eq!((cpu.seg[1].sel, cpu.seg[1].desc.base, cpu.eip), (8, 0x80, 0x0012));
    assert_eq!(cpu.seg[1].desc.limit, 0xFFFF);
    step_ok(&mut cpu);
    assert_eq!((cpu.seg[1].sel, cpu.seg[1].desc.base), (0, 0));
    assert_eq!((cpu.eip, cpu.gpr[4]), (5, 0x1000));
}

#[test]
fn far_jump_needs_a_pointer() {
    let mut cpu = core_with(&[0xFF, 0xE8]);
    assert_eq!(cpu.step(), internal("far jmp no ptr"));
    let mut cpu = core_with(&[0xFF, 0xD8]);
    assert_eq!(cpu.step(), internal("far call no ptr"));
}

#[test]
fn loops_count_down() {
    // loop $ ; loopne -4 ; jcxz +0x10
    let mut cpu = core_with(&[0xE2, 0xFE, 0xE0, 0xFC, 0xE3, 0x10]);
    cpu.gpr[1] = 0x0001_0002;
    step_ok(&mut cpu);
    assert_eq!((cpu.gpr[1], cpu.eip), (0x0001_0001, 0));
    step_ok(&mut cpu);
    assert_eq!((cpu.gpr[1], cpu.eip), (0x0001_0000, 2));
    cpu.eflags |= ZF;
    step_ok(&mut cpu);
    assert_eq!((cpu.gpr[1], cpu.eip), (0x0001_FFFF, 4));
    cpu.gpr[1] = 0x0001_0000;
    step_ok(&mut cpu);
    assert_eq!(cpu.eip, 0x16);
}

#[test]
fn repeated_moves_copy_the_whole_block() {
    // rep movsb
    let mut cpu = core_with(&[0xF3, 0xA4]);
    cpu.gpr[1] = 4;
    cpu.gpr[6] = 0x200;
    cpu.gpr[7] = 0x300;
    cpu.mem.phys_write_block(0x200, &[1, 2, 3, 4, 5]);
    step_ok(&mut cpu);
    assert_eq!(cpu.mem.phys_read32(0x300), 0x0403_0201);
    assert_eq!(cpu.mem.phys_read8(0x304), 0);
    assert_eq!((cpu.gpr[1], cpu.gpr[6], cpu.gpr[7]), (0, 0x204, 0x304));
    assert_eq!(cpu.eip, 2);
}

#[test]
fn direction_flag_runs_strings_downward() {
    let mut cpu = core_with(&[0xAB]);
    cpu.eflags |= DF;
    cpu.gpr[0] = 0xABCD;
    cpu.gpr[7] = 0x300;
    step_ok(&mut cpu);
    assert_eq!(cpu.mem.phys_read16(0x300), 0xABCD);
    assert_eq!(cpu.gpr[7], 0x2FE);
}

#[test]
fn repe_cmps_stops_at_the_first_difference() {
    let mut cpu = core_with(&[0xF3, 0xA6]);
    cpu.gpr[1] = 5;
    cpu.gpr[6] = 0x200;
    cpu.gpr[7] = 0x300;
    cpu.mem.phys_write_block(0x200, &[1, 2, 9, 4, 5]);
    cpu.mem.phys_write_block(0x300, &[1, 2, 3, 4, 5]);
    step_ok(&mut cpu);
    assert_eq!((cpu.gpr[1], cpu.gpr[6], cpu.gpr[7]), (2, 0x203, 0x303));
    assert_eq!(cpu.eflags & ZF, 0);
    // A count of 0 does nothing.
    cpu.eip = 0;
    cpu.gpr[1] = 0;
    let f = cpu.eflags;
    step_ok(&mut cpu);
    assert_eq!(cpu.eflags, f);
    assert_eq!(cpu.gpr[6], 0x203);
}

#[test]
fn string_op_goes_on_over_faults() {
    let mut cpu = X86::new();
    cpu.cr[0] = 1;
    cpu.seg[0].desc.limit = 0x301;
    cpu.gpr[0] = 0x77;
    cpu.gpr[1] = 4;
    cpu.gpr[7] = 0x300;
    sem::string_op(&mut cpu, 1, Rep::Z, Bits::B8, 0);
    assert_eq!((cpu.gpr[1], cpu.gpr[7]), (0, 0x304));
    assert_eq!(cpu.mem.phys_read16(0x300), 0x7777);
    assert_eq!(cpu.mem.phys_read16(0x302), 0);
}

#[test]
fn faults_stop_the_interpreter_in_a_string() {
    let mut cpu = core_with(&[0xF3, 0xAA]);
    cpu.cr[0] = 1;
    cpu.seg[0].desc.limit = 0x301;
    cpu.gpr[1] = 4;
    cpu.gpr[7] = 0x300;
    assert_eq!(cpu.step(), internal("segment fault at 0x302"));
    assert_eq!((cpu.gpr[1], cpu.gpr[7]), (2, 0x302));
}

#[test]
fn decimal_adjustments() {
    // daa ; das ; aaa ; aas ; aam ; aad
    let code = [0x27, 0x2F, 0x37, 0x3F, 0xD4, 0x0A, 0xD5, 0x0A];
    let mut cpu = core_with(&code);
    cpu.eflags = 2;
    cpu.gpr[0] = 0x9B;
    step_ok(&mut cpu);
    assert_eq!(cpu.reg8(0), 0x01);
    assert_eq!(cpu.eflags & (AF | CF), AF | CF);
    step_ok(&mut cpu);
    assert_eq!(cpu.reg8(0), 0x9B);
    cpu.eflags = 2;
    cpu.gpr[0] = 0x010C;
    step_ok(&mut cpu);
    assert_eq!(cpu.reg16(0), 0x0202);
    cpu.eflags = 2;
    cpu.gpr[0] = 0x010C;
    step_ok(&mut cpu);
    assert_eq!(cpu.reg16(0), 0x0006);
    cpu.gpr[0] = 123;
    step_ok(&mut cpu);
    assert_eq!(cpu.reg16(0), 0x0C03);
    step_ok(&mut cpu);
    assert_eq!(cpu.reg16(0), 123);
}

#[test]
fn flag_instructions() {
    // cli sti cld std clc stc cmc sahf lahf salc
    let code = [0xFA, 0xFB, 0xFC, 0xFD, 0xF8, 0xF9, 0xF5, 0x9E, 0x9F, 0xF9, 0xD6];
    let mut cpu = core_with(&code);
    cpu.eflags = IF;
    step_ok(&mut cpu);
    assert_eq!(cpu.eflags, 0);
    step_ok(&mut cpu);
    assert_eq!(cpu.eflags, IF);
    step_ok(&mut cpu);
    step_ok(&mut cpu);
    assert_eq!(cpu.eflags, IF | DF);
    step_ok(&mut cpu);
    step_ok(&mut cpu);
    assert_eq!(cpu.eflags & CF, CF);
    step_ok(&mut cpu);
    assert_eq!(cpu.eflags & CF, 0);
    cpu.set_reg8(4, 0xD5);
    step_ok(&mut cpu);
    assert_eq!(cpu.eflags & 0xFF, 0xD5);
    cpu.set_reg8(4, 0);
    step_ok(&mut cpu);
    assert_eq!(cpu.reg8(4), 0xD5);
    step_ok(&mut cpu);
    step_ok(&mut cpu);
    assert_eq!(cpu.reg8(0), 0xFF);
}

#[test]
fn exchange_and_swap_instructions() {
    // xadd bl,cl ; cmpxchg bl,cl ; bswap eax
    let mut cpu = core_with(&[0x0F, 0xC0, 0xCB, 0x0F, 0xB0, 0xCB, 0x0F, 0xC8]);
    cpu.gpr[3] = 5;
    cpu.gpr[1] = 7;
    step_ok(&mut cpu);
    assert_eq!((cpu.reg8(3), cpu.reg8(1)), (12, 5));
    cpu.gpr[0] = 12;
    step_ok(&mut cpu);
    assert_eq!((cpu.reg8(3), cpu.reg8(0)), (5, 12));
    assert_eq!(cpu.eflags & ZF, ZF);
    cpu.gpr[0] = 0x1122_3344;
    step_ok(&mut cpu);
    assert_eq!(cpu.gpr[0], 0x4433_2211);
}

#[test]
fn cpuid_and_time_stamp() {
    let mut cpu = core_with(&[0x0F, 0xA2, 0x0F, 0x31]);
    step_ok(&mut cpu);
    assert_eq!(&cpu.gpr[0..4], &[1, 0x486, 0, 0]);
    cpu.cycles = 0x5_0000_0001;
    step_ok(&mut cpu);
    assert_eq!((cpu.gpr[0], cpu.gpr[2]), (2, 5));
}

#[test]
fn descriptor_tables_are_stored_and_loaded() {
    // lgdt [0x200] ; sgdt [0x300] ; lidt [0x200] ; sidt [0x310]
    let code = [
        0x0F, 0x01, 0x16, 0x00, 0x02, 0x0F, 0x01, 0x06, 0x00, 0x03, 0x0F, 0x01, 0x1E, 0x00, 0x02,
        0x0F, 0x01, 0x0E, 0x10, 0x03,
    ];
    let mut cpu = core_with(&code);
    cpu.mem.phys_write16(0x200, 0x0123);
    cpu.mem.phys_write32(0x202, 0x0045_6789);
    for _ in 0..4 {
        step_ok(&mut cpu);
    }
    assert_eq!((cpu.gdtr.base, cpu.gdtr.limit), (0x0045_6789, 0x0123));
    assert_eq!((cpu.idtr.base, cpu.idtr.limit), (0x0045_6789, 0x0123));
    assert_eq!(cpu.mem.phys_read32(0x302), 0x0045_6789);
    assert_eq!(cpu.mem.phys_read16(0x310), 0x0123);
}

fn protected_core(code: &[u8]) -> X86 {
    let mut cpu = core_with(code);
    cpu.cr[0] = 1;
    cpu.gdtr.base = 0x800;
    cpu.gdtr.limit = 0x2F;
    // 8: code, 10h: not present, 18h: LDT, 20h: TSS at 2000h
    let entries = [
        (0x0000_FFFF, 0x00CF_9A12),
        (0x0000_FFFF, 0x00CF_1200),
        (0x3000_00FF, 0x0000_8200),
        (0x2000_00FF, 0x0000_8900),
    ];
    for (n, (lo, hi)) in entries.iter().enumerate() {
        cpu.mem.phys_write32(0x808 + 8 * n as u32, *lo);
        cpu.mem.phys_write32(0x80C + 8 * n as u32, *hi);
    }
    cpu
}

#[test]
fn bad_selectors_are_reported() {
    let mut cpu = protected_core(&[0x8E, 0xD8]);
    cpu.gpr[0] = 0x30;
    assert_eq!(cpu.step(), internal("descriptor out of range"));
    cpu.gpr[0] = 0x10;
    assert_eq!(cpu.step(), internal("segment not present"));
    assert_eq!(cpu.eip, 0);
    cpu.gpr[0] = 0x08;
    step_ok(&mut cpu);
    assert_eq!(cpu.seg[3].desc.base, 0x0012_0000);
    assert_eq!(cpu.seg[3].desc.limit, 0x000F_FFFF);
}

#[test]
fn ldt_and_task_registers_check_the_type() {
    // lldt ax ; sldt bx ; ltr ax ; str bx
    let code = [
        0x0F, 0x00, 0xD0, 0x0F, 0x00, 0xC3, 0x0F, 0x00, 0xD8, 0x0F, 0x00, 0xCB,
    ];
    let mut cpu = protected_core(&code);
    cpu.gpr[0] = 0x20;
    assert_eq!(cpu.step(), internal("LLDT of non-LDT"));
    cpu.gpr[0] = 0x18;
    step_ok(&mut cpu);
    assert_eq!(cpu.ldtr.desc.base, 0x3000);
    step_ok(&mut cpu);
    assert_eq!(cpu.reg16(3), 0x18);
    assert_eq!(cpu.step(), internal("LTR of non-TSS"));
    cpu.mem.phys_write32(0x2000, 0x11);
    cpu.mem.phys_write32(0x2004, 0x22);
    cpu.mem.phys_write16(0x2008, 0x33);
    cpu.gpr[0] = 0x20;
    step_ok(&mut cpu);
    assert_eq!((cpu.tss.cr3, cpu.tss.esp0, cpu.tss.ss0), (0x11, 0x22, 0x33));
    step_ok(&mut cpu);
    assert_eq!(cpu.reg16(3), 0x20);
}

#[test]
fn descriptor_inspection() {
    // lsl bx,ax ; lar bx,ax ; verr ax ; verw ax ; arpl ax,cx
    let code = [
        0x0F, 0x03, 0xD8, 0x0F, 0x02, 0xD8, 0x0F, 0x00, 0xE0, 0x0F, 0x00, 0xE8, 0x63, 0xC8,
    ];
    let mut cpu = protected_core(&code);
    cpu.gpr[0] = 0x08;
    step_ok(&mut cpu);
    assert_eq!(cpu.reg16(3), 0xFFFF);
    assert_eq!(cpu.eflags & CF, 0);
    step_ok(&mut cpu);
    assert_eq!(cpu.reg16(3), 0);
    assert_eq!(cpu.eflags & CF, 0);
    step_ok(&mut cpu);
    assert_eq!(cpu.eflags & ZF, ZF);
    step_ok(&mut cpu);
    assert_eq!(cpu.eflags & ZF, 0);
    cpu.gpr[1] = 3;
    step_ok(&mut cpu);
    assert_eq!(cpu.reg16(0), 0x0B);
    assert_eq!(cpu.eflags & ZF, ZF);
}

#[test]
fn control_registers() {
    // mov cr3,eax ; mov ebx,cr3 ; smsw [300h] ; lmsw [302h] ; clts ; mov cr4,eax
    let code = [
        0x0F, 0x22, 0xD8, 0x0F, 0x20, 0xDB, 0x0F, 0x01, 0x26, 0x00, 0x03, 0x0F, 0x01, 0x2E, 0x02,
        0x03, 0x0F, 0x06, 0x0F, 0x22, 0xE0,
    ];
    let mut cpu = core_with(&code);
    cpu.gpr[0] = 0x1234_5000;
    step_ok(&mut cpu);
    assert_eq!(cpu.cr[3], 0x1234_5000);
    step_ok(&mut cpu);
    assert_eq!(cpu.gpr[3], 0x1234_5000);
    cpu.cr[0] = 0xABC0_1230;
    cpu.mem.phys_write16(0x302, 0xFFFE);
    step_ok(&mut cpu);
    assert_eq!(cpu.mem.phys_read16(0x300), 0x1230);
    step_ok(&mut cpu);
    assert_eq!(cpu.cr[0], 0xABC0_123E);
    step_ok(&mut cpu);
    assert_eq!(cpu.cr[0], 0xABC0_1236);
    assert_eq!(cpu.step(), unsupported("CR4"));
}

#[test]
fn unknown_opcodes_are_reported_with_their_place() {
    let mut cpu = core_with(&[0x90, 0x0F, 0x0B]);
    step_ok(&mut cpu);
    assert_eq!(cpu.step(), unsupported("opcode 0x0b at eip 0x1"));
    let mut cpu = core_with(&[0x8D, 0xC0]);
    assert_eq!(cpu.step(), unsupported("LEA with register operand"));
}

#[test]
fn hlt_without_interrupts_stops() {
    let mut cpu = core_with(&[0xF4]);
    assert_eq!(cpu.step(), StepOut::Error(Error::Halt));
    cpu.halted = true;
    assert_eq!(cpu.step(), StepOut::Error(Error::Halt));
    assert_eq!(cpu.run(), Err(Error::Halt));
}

#[test]
fn interrupts_wait_for_the_flag() {
    let mut cpu = core_with(&[0x90, 0x90]);
    cpu.pending_irq = Some(0x20);
    step_ok(&mut cpu);
    assert_eq!(cpu.pending_irq, Some(0x20));
    cpu.eflags |= IF;
    assert_eq!(cpu.step(), StepOut::Interrupt);
    assert_eq!(cpu.pending_irq, None);
    assert_eq!(cpu.mem.phys_read16(0x0FFA), 1);
}

#[test]
fn iret_undoes_an_interrupt() {
    let mut cpu = core_with(&[0x90, 0x90, 0x90, 0x90]);
    cpu.mem.phys_write16(0x21 * 4, 0x0400);
    cpu.mem.phys_write8(0x0400, 0xCF);
    cpu.eip = 2;
    cpu.eflags = 0x0AC7;
    assert_eq!(cpu.interrupt(0x21, false, 0), StepOut::Interrupt);
    assert_eq!(cpu.eip, 0x0400);
    assert_eq!(cpu.eflags, 0x08C7);
    step_ok(&mut cpu);
    assert_eq!(cpu.eip, 2);
    assert_eq!(cpu.eflags, 0x0AC7);
    assert_eq!(cpu.gpr[4], 0x1000);
}

#[test]
fn error_codes_in_real_mode_are_protection_faults() {
    let mut cpu = core_with(&[0x90]);
    cpu.mem.phys_write16(13 * 4, 0x0500);
    assert_eq!(cpu.interrupt(0x21, true, 7), StepOut::Interrupt);
    assert_eq!(cpu.eip, 0x0500);
}

#[test]
fn protected_mode_interrupts_go_through_the_table() {
    let mut cpu = protected_core(&[0x90]);
    cpu.idtr.base = 0x900;
    cpu.idtr.limit = 0x17;
    assert_eq!(
        cpu.interrupt(4, false, 0),
        internal("IDT limit (23) exceeded for vector 4")
    );
    cpu.mem.phys_write16(0x918, 0x1234);
    cpu.mem.phys_write16(0x91A, 0x0008);
    cpu.mem.phys_write16(0x91C, 0x0000);
    assert_eq!(cpu.interrupt(3, false, 0x99), StepOut::Interrupt);
    assert_eq!(cpu.eip, 0x1234);
    assert_eq!(cpu.seg[1].sel, 8);
    assert_eq!(cpu.gpr[4], 0x0FF0);
    assert_eq!(cpu.mem.phys_read32(0x0FF0), 0x99);
    cpu.seg[1].desc.dpl = 3;
    assert_eq!(cpu.interrupt(3, false, 0), internal("gate DPL < CPL"));
}

#[test]
fn protected_mode_interrupts_mask_the_next() {
    let mut cpu = protected_core(&[0xCC]);
    cpu.idtr.base = 0x900;
    cpu.idtr.limit = 0x7FF;
    cpu.mem.phys_write32(0x918, 0x0008_1234);
    cpu.mem.phys_write32(0x91C, 0x0000_0000);
    cpu.eflags |= IF | 0x100;
    let before = cpu.eflags;
    assert_eq!(cpu.step(), StepOut::Interrupt);
    assert_eq!(cpu.eip, 0x1234);
    assert_eq!(cpu.eflags, before & !IF);
    // EFLAGS, CS, EIP behind the instruction, error code
    assert_eq!(cpu.mem.phys_read32(0x0FFC), before);
    assert_eq!(cpu.mem.phys_read32(0x0FF8), 0);
    assert_eq!(cpu.mem.phys_read32(0x0FF4), 1);
    assert_eq!(cpu.mem.phys_read32(0x0FF0), 0);
}

#[test]
fn interrupt_that_cannot_be_taken_stays_at_the_instruction() {
    // nop ; int 21h ; into
    let mut cpu = protected_core(&[0x90, 0xCD, 0x21, 0xCE]);
    cpu.idtr.base = 0x900;
    cpu.idtr.limit = 0x17;
    step_ok(&mut cpu);
    assert_eq!(cpu.step(), internal("IDT limit (23) exceeded for vector 33"));
    assert_eq!(cpu.eip, 1);
    assert_eq!(cpu.gpr[4], 0x1000);
    cpu.eip = 3;
    cpu.eflags |= OF;
    assert_eq!(cpu.step(), internal("IDT limit (23) exceeded for vector 4"));
    assert_eq!(cpu.eip, 3);
}

#[test]
fn into_depends_on_overflow() {
    let mut cpu = core_with(&[0xCE, 0xCE]);
    cpu.mem.phys_write16(16, 0x0600);
    step_ok(&mut cpu);
    cpu.eflags |= OF;
    assert_eq!(cpu.step(), StepOut::Interrupt);
    assert_eq!(cpu.eip, 0x0600);
    assert_eq!(cpu.mem.phys_read16(0x0FFA), 2);
}

#[derive(Default)]
struct Exchanges {
    out: Vec<(u16, u8, u32)>,
    ticks: u64,
}

struct Recorder {
    seen: Arc<Mutex<Exchanges>>,
}

impl Device for Recorder {
    fn io_read(&mut self, port: u16, size: u8) -> u32 {
        port as u32 * 0x100 + size as u32
    }

    fn io_write(&mut self, port: u16, size: u8, data: u32) {
        self.seen.lock().unwrap().out.push((port, size, data));
    }

    fn ack_irq(&mut self) -> Option<u8> {
        None
    }

    fn tick(&mut self, cycles: u64) {
        self.seen.lock().unwrap().ticks += cycles;
    }
}

#[test]
fn ports_reach_the_device() {
    // in al,60h ; in ax,dx ; out 61h,al ; out dx,eax ; rep outsb ; insw
    let code = [0xE4, 0x60, 0xED, 0xE6, 0x61, 0x66, 0xEF, 0xF3, 0x6E, 0x6D];
    let mut cpu = core_with(&code);
    let seen = Arc::new(Mutex::new(Exchanges::default()));
    cpu.mem.install_device(Box::new(Recorder { seen: seen.clone() }));
    assert!(cpu.mem.device_mut().is_some());
    cpu.gpr[2] = 0x3F8;
    step_ok(&mut cpu);
    assert_eq!(cpu.reg8(0), 0x01);
    step_ok(&mut cpu);
    assert_eq!(cpu.reg16(0), 0xF802);
    step_ok(&mut cpu);
    step_ok(&mut cpu);
    cpu.gpr[1] = 2;
    cpu.gpr[6] = 0x200;
    cpu.gpr[7] = 0x300;
    cpu.mem.phys_write16(0x200, 0xBBAA);
    step_ok(&mut cpu);
    step_ok(&mut cpu);
    assert_eq!(cpu.mem.phys_read16(0x300), 0xF802);
    assert_eq!(cpu.gpr[7], 0x302);
    let log = seen.lock().unwrap();
    assert_eq!(
        log.out,
        vec![(0x61, 1, 0x02), (0x3F8, 4, 0xF802), (0x3F8, 1, 0xAA), (0x3F8, 1, 0xBB)]
    );
    assert_eq!(log.ticks, 6);
}

#[test]
fn runs_count_steps_and_add_up() {
    let code = [0x40u8; 16];
    let mut once = core_with(&code);
    assert_eq!(interp::run(&mut once, 10), Ok(10));
    let mut twice = core_with(&code);
    assert_eq!(interp::run(&mut twice, 4), Ok(4));
    assert_eq!(interp::run(&mut twice, 6), Ok(6));
    assert_eq!(once.gpr, twice.gpr);
    assert_eq!(once.eip, twice.eip);
    assert_eq!(once.cycles, 10);
    let mut stops = core_with(&[0x40, 0xF4]);
    assert_eq!(interp::run(&mut stops, 10), Err(Error::Halt));
}

#[test]
fn xlat_reads_the_table() {
    let mut cpu = core_with(&[0xD7]);
    cpu.gpr[3] = 0x200;
    cpu.gpr[0] = 0x10;
    cpu.mem.phys_write8(0x210, 0x99);
    step_ok(&mut cpu);
    assert_eq!(cpu.reg8(0), 0x99);
}

#[test]
fn real_mode_instruction_pointer_wraps() {
    let mut cpu = core_with(&[]);
    cpu.eip = 0xFFFF;
    cpu.mem.phys_write8(0xFFFF, 0x90);
    step_ok(&mut cpu);
    assert_eq!(cpu.eip, 0);
}

#[test]
fn interrupt_flags_and_sign_are_separate() {
    let mut cpu = core_with(&[0x04, 0x80]);
    cpu.eflags = IF;
    step_ok(&mut cpu);
    assert_eq!(cpu.eflags & (IF | SF), IF | SF);
}
