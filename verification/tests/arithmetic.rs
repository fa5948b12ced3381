use x86_rs::decode::{AluOp, Bits, Cond, ShiftKind};
use x86_rs::flag::{AF, CF, OF, PF, SF, ZF};
use x86_rs::{sem, X86};

fn flags(cpu: &X86) -> u32 {
    cpu.eflags & (AF | CF | OF | PF | SF | ZF)
}

#[test]
fn addition_sets_exact_flags() {
    let mut cpu = X86::new();
    assert_eq!(sem::alu(&mut cpu, AluOp::Add, 0x7F, 0x01, Bits::B8), 0x80);
    assert_eq!(flags(&cpu), OF | SF | AF);
    assert_eq!(sem::alu(&mut cpu, AluOp::Add, 0xFFFF, 0x01, Bits::B16), 0);
    assert_eq!(flags(&cpu), CF | ZF | AF | PF);
    // The carry comes in, and CF looks at the whole of the operands.
    assert_eq!(sem::alu(&mut cpu, AluOp::Adc, 0x1_0001, 0x2, Bits::B16), 4);
    assert_eq!(flags(&cpu), CF);
    assert_eq!(sem::alu(&mut cpu, AluOp::Adc, 0x0001, 0x2, Bits::B16), 4);
    assert_eq!(flags(&cpu), 0);
}

#[test]
fn subtraction_sets_exact_flags() {
    let mut cpu = X86::new();
    assert_eq!(sem::alu(&mut cpu, AluOp::Sub, 0, 1, Bits::B32), 0xFFFF_FFFF);
    assert_eq!(flags(&cpu), CF | SF | AF | PF);
    assert_eq!(sem::alu(&mut cpu, AluOp::Sbb, 0x80, 0x00, Bits::B8), 0x7F);
    assert_eq!(flags(&cpu), OF | AF);
    assert_eq!(sem::alu(&mut cpu, AluOp::Cmp, 5, 5, Bits::B8), 0);
    assert_eq!(flags(&cpu), ZF | PF);
}

#[test]
fn subtraction_undoes_addition() {
    let mut cpu = X86::new();
    let r = sem::alu(&mut cpu, AluOp::Add, 0xFFF0, 0x1234, Bits::B16);
    assert_eq!(r, 0x1224);
    assert_eq!(sem::alu(&mut cpu, AluOp::Sub, r, 0x1234, Bits::B16), 0xFFF0);
}

#[test]
fn logic_clears_carry_and_overflow() {
    let mut cpu = X86::new();
    cpu.eflags = CF | OF | AF;
    assert_eq!(sem::alu(&mut cpu, AluOp::Xor, 0xFF, 0x7F, Bits::B8), 0x80);
    assert_eq!(flags(&cpu), SF);
    assert_eq!(sem::test_flags(&mut cpu, 0x0F, 0x103, Bits::B8), 3);
    assert_eq!(flags(&cpu), PF);
}

#[test]
fn conditions_tell_signed_and_unsigned_order() {
    let mut cpu = X86::new();
    sem::alu(&mut cpu, AluOp::Cmp, 0xFF, 0x01, Bits::B8);
    assert!(sem::cond_true(&cpu, Cond::A));
    assert!(sem::cond_true(&cpu, Cond::L));
    assert!(sem::cond_true(&cpu, Cond::Ne));
    assert!(!sem::cond_true(&cpu, Cond::B));
    assert!(!sem::cond_true(&cpu, Cond::Ge));
    sem::alu(&mut cpu, AluOp::Cmp, 0x8000, 0x7FFF, Bits::B16);
    assert!(sem::cond_true(&cpu, Cond::L));
    assert!(sem::cond_true(&cpu, Cond::Le));
    assert!(sem::cond_true(&cpu, Cond::Ae));
    assert!(sem::cond_true(&cpu, Cond::O));
}

#[test]
fn increments_keep_the_carry() {
    let mut cpu = X86::new();
    cpu.eflags = CF;
    assert_eq!(sem::inc_dec(&mut cpu, 0xFF, Bits::B8, true), 0);
    assert_eq!(flags(&cpu), CF | ZF | AF | PF);
    assert_eq!(sem::inc_dec(&mut cpu, 0x8000, Bits::B16, false), 0x7FFF);
    assert_eq!(flags(&cpu), CF | OF | AF | PF);
    assert_eq!(sem::neg_op(&mut cpu, 1, Bits::B8), 0xFF);
    assert_eq!(flags(&cpu), CF | SF | AF | PF);
}

#[test]
fn shifts_give_their_formulas() {
    let mut cpu = X86::new();
    assert_eq!(sem::shift(&mut cpu, ShiftKind::Shl, 0x81, 1, Bits::B8), 0x02);
    assert_eq!(cpu.eflags & CF, CF);
    assert_eq!(sem::shift(&mut cpu, ShiftKind::Shr, 0x81, 1, Bits::B8), 0x40);
    assert_eq!(cpu.eflags & CF, CF);
    assert_eq!(sem::shift(&mut cpu, ShiftKind::Sar, 0x84, 2, Bits::B8), 0x21);
    assert_eq!(cpu.eflags & (CF | OF), 0);
    assert_eq!(sem::shift(&mut cpu, ShiftKind::Rol, 0x8000_0001, 4, Bits::B32), 0x18);
    assert_eq!(sem::shift(&mut cpu, ShiftKind::Ror, 0x8000_0001, 4, Bits::B32), 0x1800_0000);
    assert_eq!(sem::shift(&mut cpu, ShiftKind::Shl, 0x1234, 0, Bits::B16), 0x1234);
    assert_eq!(sem::shift(&mut cpu, ShiftKind::Shl, 0x1234, 200, Bits::B16), 0);
}

#[test]
fn rotation_through_carry_goes_round_with_the_carry() {
    let mut cpu = X86::new();
    cpu.eflags = CF;
    assert_eq!(sem::shift(&mut cpu, ShiftKind::Rcl, 0x80, 1, Bits::B8), 0x01);
    assert_eq!(cpu.eflags & CF, CF);
    assert_eq!(sem::shift(&mut cpu, ShiftKind::Rcl, 0x01, 8, Bits::B8), 0x80);
    assert_eq!(cpu.eflags & CF, CF);
}

#[test]
fn flag_setters_touch_one_flag() {
    let mut cpu = X86::new();
    cpu.eflags = 0;
    sem::set_cf(&mut cpu, true);
    sem::set_of(&mut cpu, true);
    sem::set_af(&mut cpu, true);
    assert_eq!(cpu.eflags, CF | OF | AF);
    sem::set_cf(&mut cpu, false);
    assert_eq!(cpu.eflags, OF | AF);
    sem::set_flags_zsp(&mut cpu, 0x180, 0xFF);
    assert_eq!(cpu.eflags, OF | AF | SF);
}
