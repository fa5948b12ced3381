use x86_rs::decode::{fetch, AluOp, BitOp, Bits, Cond, MemRef, Op, Opnd, Rep, ShiftBy, ShiftKind};
use x86_rs::{interp, Seg, SegVal, X86};

fn core_with(code: &[u8]) -> X86 {
    let mut cpu = X86::new();
    cpu.eip = 0;
    cpu.seg[1] = SegVal::real_mode(0);
    cpu.mem.phys_write_block(0, code);
    cpu
}

fn refusal(code: &[u8]) -> String {
    match fetch(&core_with(code)) {
        Ok(d) => panic!("decoded as {:?}", d),
        Err(e) => e,
    }
}

#[test]
fn undefined_encodings_are_refused_with_their_reason() {
    assert_eq!(refusal(&[0x8D, 0xC0]), "LEA with register operand");
    assert_eq!(refusal(&[0xC5, 0xC0]), "LDS/ES/SS/FS/GS with register operand");
    assert_eq!(refusal(&[0x62, 0xC0]), "BOUND with register operand");
    assert_eq!(refusal(&[0x8E, 0xC8]), "MOV CS,r/m unsupported");
    assert_eq!(refusal(&[0xFE, 0xD0]), "group FE undefined");
    assert_eq!(refusal(&[0xFF, 0xF8]), "group FF undefined");
    assert_eq!(refusal(&[0x0F, 0x00, 0xF0]), "group 6 undefined");
    assert_eq!(refusal(&[0x0F, 0x01, 0xC0]), "group 7 needs memory operand");
    assert_eq!(refusal(&[0x0F, 0x01, 0x38]), "group 7 undefined");
    assert_eq!(refusal(&[0x0F, 0xBA, 0xC0, 1]), "group 8 undefined");
    assert_eq!(refusal(&[0x0F, 0x20, 0x00]), "MOV CR needs register");
    assert_eq!(refusal(&[0x0F, 0x23, 0x00]), "MOV DR needs register");
    assert_eq!(refusal(&[0x66; 16]), "instruction exceeds 15-byte limit");
}

#[test]
fn fourteen_prefixes_are_the_most() {
    let mut code = [0x66u8; 15];
    code[14] = 0x90;
    let d = fetch(&core_with(&code)).unwrap();
    assert_eq!(d.op, Op::Nop);
    assert_eq!(d.len, 15);
}

#[test]
fn prefixes_set_attributes() {
    let d = fetch(&core_with(&[0xF0, 0xF3, 0x64, 0x67, 0x66, 0xA5])).unwrap();
    assert_eq!(d.op, Op::Movs(Bits::B32));
    assert!(d.lock);
    assert!(!d.o16);
    assert!(!d.a16);
    assert_eq!(d.rep, Rep::Z);
    assert_eq!(d.seg_override, Some(Seg::Fs));
    assert_eq!(d.len, 6);
    assert_eq!(d.size(), Bits::B32);
}

#[test]
fn sixteen_bit_addressing_forms() {
    let d = fetch(&core_with(&[0x8B, 0x42, 0xFE])).unwrap();
    let m = MemRef { seg: Seg::Ss, base: Some(5), index: Some(6), scale: 1, disp: -2, a16: true };
    assert_eq!(d.ops[0], Opnd::Reg(0, Bits::B16));
    assert_eq!(d.ops[1], Opnd::Mem(m, Bits::B16));
    let d = fetch(&core_with(&[0x8A, 0x0E, 0x34, 0xF2])).unwrap();
    let m = MemRef { seg: Seg::Ds, base: None, index: None, scale: 1, disp: 0xF234, a16: true };
    assert_eq!(d.ops[1], Opnd::Mem(m, Bits::B8));
    assert_eq!(d.len, 4);
}

#[test]
fn thirty_two_bit_addressing_forms() {
    // mov eax,[ebx+esi*4+12345678h]
    let code = [0x66, 0x67, 0x8B, 0x84, 0xB3, 0x78, 0x56, 0x34, 0x12];
    let d = fetch(&core_with(&code)).unwrap();
    let m = MemRef {
        seg: Seg::Ds,
        base: Some(3),
        index: Some(6),
        scale: 4,
        disp: 0x1234_5678,
        a16: false,
    };
    assert_eq!(d.ops[1], Opnd::Mem(m, Bits::B32));
    assert_eq!(d.len, 9);
    // No index (4) and no base (mod 0, base 5).
    let d = fetch(&core_with(&[0x67, 0x8A, 0x04, 0x25, 1, 0, 0, 0x80])).unwrap();
    let m = MemRef {
        seg: Seg::Ds,
        base: None,
        index: None,
        scale: 1,
        disp: -0x7FFF_FFFF,
        a16: false,
    };
    assert_eq!(d.ops[1], Opnd::Mem(m, Bits::B8));
}

#[test]
fn groups_select_by_the_reg_field() {
    let d = fetch(&core_with(&[0x83, 0xE8, 0xFF])).unwrap();
    assert_eq!(d.op, Op::Alu(AluOp::Sub));
    assert_eq!(d.ops[1], Opnd::ImmSext(0xFFFF_FFFF));
    let d = fetch(&core_with(&[0xC1, 0xF8, 3])).unwrap();
    assert_eq!(d.op, Op::Shift(ShiftKind::Sar, ShiftBy::Imm(3)));
    let d = fetch(&core_with(&[0xF6, 0xC3, 9])).unwrap();
    assert_eq!(d.op, Op::Test);
    assert_eq!(d.ops[1], Opnd::Imm(9));
    assert_eq!(d.len, 3);
    let d = fetch(&core_with(&[0xF6, 0xD3])).unwrap();
    assert_eq!(d.op, Op::Not);
    assert_eq!(d.ops[1], Opnd::Absent);
    assert_eq!(d.len, 2);
    let d = fetch(&core_with(&[0x0F, 0xBA, 0xF8, 5])).unwrap();
    assert_eq!(d.op, Op::Bit(BitOp::Btc));
    assert_eq!(d.ops[1], Opnd::Imm(5));
}

#[test]
fn far_pointers_frames_and_relative_targets() {
    let d = interp::decode(&core_with(&[0xEA, 0x34, 0x12, 0x78, 0x56])).unwrap();
    assert_eq!(d.op, Op::Jump { far: true });
    assert_eq!(d.ops[0], Opnd::FarPtr { sel: 0x5678, off: 0x1234 });
    let d = fetch(&core_with(&[0xC8, 0x10, 0x00, 0x02])).unwrap();
    assert_eq!(d.op, Op::Enter(0x10, 2));
    let d = fetch(&core_with(&[0x75, 0x80])).unwrap();
    assert_eq!(d.op, Op::Jcc(Cond::Ne));
    assert_eq!(d.rel_target(0x100), 0x80);
    assert_eq!(d.rel_target(0x10), 0xFFFF_FF90);
    let d = fetch(&core_with(&[0xC2, 0x08, 0x00])).unwrap();
    assert_eq!(d.op, Op::Ret { far: false, imm: Some(8) });
}

#[test]
fn unknown_opcodes_are_marked() {
    assert_eq!(fetch(&core_with(&[0x0F, 0xFF])).unwrap().op, Op::TwoByte(0xFF));
    assert_eq!(fetch(&core_with(&[0x64, 0x82, 0xC0, 1])).unwrap().op, Op::Alu(AluOp::Add));
}

#[test]
fn decoding_does_not_depend_on_registers() {
    let mut cpu = core_with(&[0x03, 0x47, 0x10]);
    let before = fetch(&cpu).unwrap();
    cpu.gpr = [0xFFFF_FFFF; 8];
    cpu.eflags = 0xFFFF;
    let after = fetch(&cpu).unwrap();
    assert_eq!(before.op, after.op);
    assert_eq!(before.ops, after.ops);
    assert_eq!(before.len, after.len);
}
