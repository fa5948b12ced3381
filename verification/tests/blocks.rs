use x86_rs::cpu::AccessKind;
use x86_rs::decode::Bits;
use x86_rs::jit::code::{Expr, Stmt, SLOTS};
use x86_rs::jit::engine::{Block, Jit, JitAction};
use x86_rs::jit::helpers;
use x86_rs::mem::Device;
use x86_rs::{flag, Error, Reg, Seg, SegVal, StepOut, X86};

struct FakeIrqDevice {
    irq: Option<u8>,
    ticks: u64,
}

impl Device for FakeIrqDevice {
    fn io_read(&mut self, _port: u16, _size: u8) -> u32 {
        0xFF
    }

    fn io_write(&mut self, _port: u16, _size: u8, _data: u32) {}

    fn ack_irq(&mut self) -> Option<u8> {
        self.irq.take()
    }

    fn tick(&mut self, cycles: u64) {
        self.ticks += cycles;
    }
}

fn core_with(code: &[u8]) -> X86 {
    let mut cpu = X86::new();
    cpu.eip = 0;
    cpu.seg[Seg::Cs as usize] = SegVal::real_mode(0);
    cpu.seg[Seg::Ss as usize] = SegVal::real_mode(0);
    cpu.mem.phys_write_block(0, code);
    cpu
}

fn step_ok(cpu: &mut X86) {
    assert_eq!(cpu.step(), StepOut::Continue);
}

/// A host that walks the code of a block and calls the helpers.
struct Host {
    jit: Jit,
    blocks: Vec<Block>,
}

struct Regs {
    regs: [u32; 8],
    slots: [u32; SLOTS as usize],
}

fn eval(e: &Expr, r: &Regs) -> u32 {
    match e {
        Expr::Const(v) => *v,
        Expr::Reg(n) => r.regs[*n as usize],
        Expr::Slot(n) => r.slots[*n as usize],
        Expr::Add(a, b) => eval(a, r).wrapping_add(eval(b, r)),
        Expr::Mul(a, b) => eval(a, r).wrapping_mul(eval(b, r)),
        Expr::And(a, b) => eval(a, r) & eval(b, r),
        Expr::Or(a, b) => eval(a, r) | eval(b, r),
        Expr::Shl(a, n) => eval(a, r) << n,
        Expr::Shr(a, n) => eval(a, r) >> n,
        Expr::Not(a) => !eval(a, r),
        Expr::Sext8(a) => eval(a, r) as i8 as i32 as u32,
        Expr::Sext16(a) => eval(a, r) as i16 as i32 as u32,
        Expr::Select(c, a, b) => {
            if eval(c, r) != 0 {
                eval(a, r)
            } else {
                eval(b, r)
            }
        }
    }
}

fn load_regs(cpu: &mut X86, r: &mut Regs) {
    for n in 0..8 {
        r.regs[n] = helpers::jit_get_reg(cpu, n as u64) as u32;
    }
}

fn store_regs(cpu: &mut X86, r: &Regs, eip: u32) {
    for n in 0..8 {
        helpers::jit_set_reg(cpu, n as u64, r.regs[n] as u64);
    }
    helpers::jit_set_eip(cpu, eip as u64);
}

/// Run one statement; EIP and status where the block ends.
fn run_stmt(cpu: &mut X86, st: &Stmt, r: &mut Regs) -> Option<(u32, u64)> {
    let slot = |r: &Regs, n: &u8| r.slots[*n as usize] as u64;
    match st {
        Stmt::Let(n, e) => r.slots[*n as usize] = eval(e, r),
        Stmt::SetReg(n, e) => r.regs[*n as usize] = eval(e, r),
        Stmt::Flush(eip) => store_regs(cpu, r, *eip),
        Stmt::Reload => load_regs(cpu, r),
        Stmt::Alu { op, a, b, bits, to } => {
            let (x, y) = (slot(r, a), slot(r, b));
            r.slots[*to as usize] =
                helpers::jit_alu(cpu, helpers::alu_id(*op), x, y, helpers::bits_id(*bits)) as u32;
        }
        Stmt::Test { a, b, bits } => {
            helpers::jit_test(cpu, slot(r, a), slot(r, b), helpers::bits_id(*bits));
        }
        Stmt::IncDec { inc, v, bits, to } => {
            let x = slot(r, v);
            r.slots[*to as usize] =
                helpers::jit_incdec(cpu, *inc as u64, x, helpers::bits_id(*bits)) as u32;
        }
        Stmt::Neg { v, bits, to } => {
            let x = slot(r, v);
            r.slots[*to as usize] = helpers::jit_neg(cpu, x, helpers::bits_id(*bits)) as u32;
        }
        Stmt::Shift { kind, v, count, bits, to } => {
            let (x, n) = (slot(r, v), slot(r, count));
            r.slots[*to as usize] = helpers::jit_shift(
                cpu,
                helpers::shift_id(*kind),
                x,
                n,
                helpers::bits_id(*bits),
            ) as u32;
        }
        Stmt::Cond { c, to } => {
            r.slots[*to as usize] = helpers::jit_cond(cpu, helpers::cond_id(*c)) as u32;
        }
        Stmt::Load { seg, off, bits, kind, to, eip } => {
            let (s, o, k) = (*seg as u64, slot(r, off), helpers::kind_id(*kind));
            let v = match bits {
                Bits::B8 => helpers::jit_mem_r8(cpu, s, o, k),
                Bits::B16 => helpers::jit_mem_r16(cpu, s, o, k),
                Bits::B32 => helpers::jit_mem_r32(cpu, s, o, k),
            };
            if v == helpers::FAULT {
                return Some((*eip, 1));
            }
            r.slots[*to as usize] = v as u32;
        }
        Stmt::Store { seg, off, bits, v, eip } => {
            let (s, o, x) = (*seg as u64, slot(r, off), slot(r, v));
            let k = helpers::kind_id(AccessKind::Write);
            let fault = match bits {
                Bits::B8 => helpers::jit_mem_w8(cpu, s, o, x, k),
                Bits::B16 => helpers::jit_mem_w16(cpu, s, o, x, k),
                Bits::B32 => helpers::jit_mem_w32(cpu, s, o, x, k),
            };
            if fault != 0 {
                return Some((*eip, 1));
            }
        }
        Stmt::IoRead { port, size, to } => {
            let p = slot(r, port);
            r.slots[*to as usize] = helpers::jit_io_r(cpu, p, *size as u64) as u32;
        }
        Stmt::IoWrite { port, size, v } => {
            helpers::jit_io_w(cpu, slot(r, port), *size as u64, slot(r, v));
        }
        Stmt::Push { size, v, eip } => {
            if helpers::jit_push(cpu, *size as u64, slot(r, v)) != 0 {
                return Some((*eip, 1));
            }
        }
        Stmt::Pop { size, to, eip } => {
            let v = helpers::jit_pop(cpu, *size as u64);
            if v == helpers::FAULT {
                return Some((*eip, 1));
            }
            r.slots[*to as usize] = v as u32;
        }
        Stmt::StackAdd(n) => {
            helpers::jit_stack_add(cpu, *n as u64);
        }
        Stmt::Str { op, rep, bits } => {
            let (rep, bits) = (helpers::rep_id(*rep), helpers::bits_id(*bits));
            helpers::jit_string(cpu, *op as u64, rep, bits, 0);
        }
        Stmt::FlagOp(n) => {
            helpers::jit_flagop(cpu, *n);
        }
        Stmt::Exit { eip, status } => return Some((eval(eip, r), *status as u64)),
    }
    None
}

impl Host {
    fn new() -> Host {
        Host { jit: Jit::new(), blocks: Vec::new() }
    }

    fn call(&self, cpu: &mut X86, func: u64) -> u64 {
        let mut r = Regs { regs: [0; 8], slots: [0; SLOTS as usize] };
        load_regs(cpu, &mut r);
        for st in &self.blocks[func as usize].code {
            if let Some((eip, status)) = run_stmt(cpu, st, &mut r) {
                store_regs(cpu, &r, eip);
                return status;
            }
        }
        unreachable!()
    }

    fn run(&mut self, cpu: &mut X86, limit: u64) -> Result<u64, Error> {
        let mut action = self.jit.begin(cpu, limit);
        loop {
            action = match action {
                JitAction::Done(r) => return r,
                JitAction::Compile(b) => {
                    self.blocks.push(b);
                    self.jit.compiled(cpu, Some(self.blocks.len() as u64 - 1))
                }
                JitAction::Call(f) => {
                    let status = self.call(cpu, f);
                    self.jit.returned(cpu, status)
                }
            };
        }
    }
}

#[test]
fn jit_helper_calls_and_high_byte_registers_are_correct() {
    let mut cpu = core_with(&[
        0xB4, 0x12, // mov ah,12h
        0xB0, 0x7F, // mov al,7fh
        0x04, 0x01, // add al,1
        0xEB, 0x00, // jmp next
    ]);
    cpu.gpr[Reg::Esp as usize] = 0xAAAA_AAAA;
    let mut jit = Host::new();

    assert_eq!(jit.run(&mut cpu, 4), Ok(4));

    assert_eq!(cpu.gpr[Reg::Eax as usize], 0x0000_1280);
    assert_eq!(cpu.gpr[Reg::Esp as usize], 0xAAAA_AAAA);
    assert_ne!(cpu.eflags & flag::OF, 0);
    assert_eq!(cpu.eip, 8);
}

#[test]
fn jit_xlat_uses_bx_plus_al_offset() {
    let mut cpu = core_with(&[
        0xD7, // xlat
        0xEB, 0x00, // jmp next
    ]);
    cpu.gpr[Reg::Ebx as usize] = 0x0200;
    cpu.set_reg8(0, 3);
    cpu.mem.phys_write8(0x0203, 0x5A);
    let mut jit = Host::new();

    assert_eq!(jit.run(&mut cpu, 2), Ok(2));

    assert_eq!(cpu.reg8(0), 0x5A);
}

#[test]
fn jit_memory_store_does_not_fall_back_as_fault() {
    let mut cpu = core_with(&[
        0xC7, 0x06, 0x00, 0x02, 0x34, 0x12, // mov word [0200h],1234h
        0xEB, 0x00, // jmp next
    ]);
    let mut jit = Host::new();

    assert_eq!(jit.run(&mut cpu, 2), Ok(2));

    assert_eq!(cpu.eip, 8);
    assert_eq!(cpu.mem.phys_read16(0x0200), 0x1234);
}

#[test]
fn jit_rep_stos_advances_to_next_eip() {
    let mut cpu = core_with(&[
        0xF3, 0xAB, // rep stosw
        0xEB, 0x00, // jmp next
    ]);
    cpu.gpr[Reg::Ecx as usize] = 2;
    cpu.gpr[Reg::Edi as usize] = 0x0200;
    cpu.set_reg16(Reg::Eax as i8, 0xA55A);
    let mut jit = Host::new();

    assert_eq!(jit.run(&mut cpu, 2), Ok(2));

    assert_eq!(cpu.eip, 4);
    assert_eq!(cpu.reg16(Reg::Ecx as i8), 0);
    assert_eq!(cpu.reg16(Reg::Edi as i8), 0x0204);
    assert_eq!(cpu.mem.phys_read16(0x0200), 0xA55A);
    assert_eq!(cpu.mem.phys_read16(0x0202), 0xA55A);
}

#[test]
fn jit_run_limit_does_not_execute_past_requested_count() {
    let mut cpu = core_with(&[
        0xB8, 0x34, 0x12, // mov ax,1234h
        0xB9, 0x78, 0x56, // mov cx,5678h
    ]);
    let mut jit = Host::new();

    assert_eq!(jit.run(&mut cpu, 1), Ok(1));

    assert_eq!(cpu.reg16(0), 0x1234);
    assert_eq!(cpu.reg16(1), 0);
}

#[test]
fn jit_test_accumulator_immediate_runs_natively() {
    let mut cpu = core_with(&[
        0xA8, 0x10, // test al,10h
        0xEB, 0x00, // jmp next
    ]);
    cpu.set_reg8(0, 0x10);
    let mut jit = Host::new();

    assert_eq!(jit.run(&mut cpu, 2), Ok(2));

    assert_eq!(cpu.eflags & flag::ZF, 0);
    assert_eq!(cpu.eip, 4);
}

#[test]
fn jit_near_indirect_jump_reads_memory_pointer() {
    let mut cpu = core_with(&[
        0xBB, 0x02, 0x00, // mov bx,2
        0xFF, 0xA7, 0x00, 0x01, // jmp word [bx+0100h]
    ]);
    cpu.mem.phys_write16(0x0102, 0x0040);
    let mut jit = Host::new();

    assert_eq!(jit.run(&mut cpu, 2), Ok(2));

    assert_eq!(cpu.eip, 0x0040);
}

#[test]
fn jit_near_call_and_ret_keep_stack_pointer() {
    let mut cpu = core_with(&[
        0xE8, 0x01, 0x00, // call 0004h
        0x90, // nop
        0xC3, // ret
    ]);
    cpu.gpr[Reg::Esp as usize] = 0x1000;
    let mut jit = Host::new();

    assert_eq!(jit.run(&mut cpu, 3), Ok(3));

    assert_eq!(cpu.eip, 0x0004);
    assert_eq!(cpu.reg16(Reg::Esp as i8), 0x1000);
}

#[test]
fn jit_acknowledges_device_irq_when_if_is_set() {
    let mut cpu = core_with(&[
        0xB8, 0x34, 0x12, // mov ax,1234h
    ]);
    cpu.gpr[Reg::Esp as usize] = 0x1000;
    cpu.eflags |= flag::IF;
    cpu.mem.phys_write16(0x08 * 4, 0x0200);
    cpu.mem.phys_write16(0x08 * 4 + 2, 0x0000);
    cpu.mem.phys_write8(0x0200, 0xCF); // iret
    cpu.mem.install_device(Box::new(FakeIrqDevice {
        irq: Some(0x08),
        ticks: 0,
    }));
    let mut jit = Host::new();

    assert_eq!(jit.run(&mut cpu, 1), Ok(1));
    assert_eq!(cpu.eip, 0x0200);

    step_ok(&mut cpu);
    assert_eq!(cpu.eip, 0x0000);
    assert_ne!(cpu.eflags & flag::IF, 0);

    assert_eq!(jit.run(&mut cpu, 1), Ok(1));
    assert_eq!(cpu.reg16(0), 0x1234);
}

fn same_state(a: &mut X86, b: &mut X86) {
    assert_eq!(a.gpr, b.gpr);
    assert_eq!(a.eip, b.eip);
    assert_eq!(a.eflags, b.eflags);
    assert_eq!(a.cr, b.cr);
    for s in 0..6 {
        assert_eq!(a.seg[s].sel, b.seg[s].sel);
    }
    let mut x = vec![0u8; 0x1_0000];
    let mut y = vec![0u8; 0x1_0000];
    a.mem.phys_read_block(0, &mut x);
    b.mem.phys_read_block(0, &mut y);
    assert!(x == y);
}

#[test]
fn compiled_blocks_do_what_the_interpreter_does() {
    let code = [
        0xB8, 0x34, 0x12, // mov ax,1234h
        0xBB, 0x00, 0x03, // mov bx,300h
        0x89, 0x07, // mov [bx],ax
        0x80, 0x47, 0x01, 0xF0, // add byte [bx+1],F0h
        0x11, 0x07, // adc [bx],ax
        0xF7, 0xD8, // neg ax
        0xF7, 0x17, // not word [bx]
        0x40, // inc ax
        0xFE, 0x0F, // dec byte [bx]
        0xD1, 0xE0, // shl ax,1
        0xB1, 0x03, // mov cl,3
        0xD3, 0x2F, // shr word [bx],cl
        0x0F, 0xB6, 0x07, // movzx ax,[bx]
        0x0F, 0xBE, 0xD0, // movsx dx,al
        0x8D, 0x70, 0x07, // lea si,[bx+si+7]
        0x87, 0x37, // xchg [bx],si
        0x0F, 0x92, 0xC4, // setb ah
        0x0F, 0x43, 0xD6, // cmovae dx,si
        0x50, // push ax
        0x68, 0x78, 0x56, // push 5678h
        0x5F, // pop di
        0x8F, 0x47, 0x04, // pop [bx+4]
        0xA8, 0x80, // test al,80h
        0xF9, // stc
        0xD6, // salc
        0xD7, // xlat
        0x0F, 0x06, // clts
        0xFD, // std
        0xAB, // stosw
        0xFC, // cld
        0xB9, 0x05, 0x00, // mov cx,5
        0xE2, 0xFE, // loop $
        0xE3, 0x01, // jcxz +1
        0xF4, // hlt
        0xE8, 0x01, 0x00, // call +1
        0xF4, // hlt
        0xC2, 0x02, 0x00, // ret 2
    ];
    let start = |code: &[u8]| {
        let mut cpu = core_with(code);
        cpu.gpr[4] = 0x2000;
        cpu.gpr[6] = 0x11;
        cpu
    };
    for limit in [1, 2, 5, 17, 30, 36, 39] {
        let mut by_blocks = start(&code);
        let mut by_steps = start(&code);
        let mut host = Host::new();
        assert_eq!(host.run(&mut by_blocks, limit), Ok(limit));
        for _ in 0..limit {
            step_ok(&mut by_steps);
        }
        same_state(&mut by_blocks, &mut by_steps);
    }
}

#[test]
fn engine_and_interpreter_leave_the_same_state() {
    // mov cx,5 ; l: add ax,cx ; push ax ; mov ds,dx ; pop bx ; loop l ; stc ; hlt
    let code = [
        0xB9, 0x05, 0x00, 0x01, 0xC8, 0x50, 0x8E, 0xDA, 0x5B, 0xE2, 0xF8, 0xF9, 0xF4,
    ];
    let mut a = core_with(&code);
    let mut b = core_with(&code);
    a.gpr[4] = 0x1000;
    b.gpr[4] = 0x1000;
    a.gpr[2] = 0x0040;
    b.gpr[2] = 0x0040;
    let mut host = Host::new();
    // The engine counts whole blocks, so it needs room for more than it runs.
    assert_eq!(host.run(&mut a, 1000), Err(Error::Halt));
    assert_eq!(x86_rs::interp::run(&mut b, 1000), Err(Error::Halt));
    same_state(&mut a, &mut b);
    assert_eq!(a.reg16(0), 15);
    assert_eq!(a.reg16(3), 15);
}

#[test]
fn compiled_near_call_goes_to_its_operand() {
    // call bx
    let mut cpu = core_with(&[0xFF, 0xD3]);
    cpu.gpr[3] = 0x0040;
    cpu.gpr[4] = 0x1000;
    let mut host = Host::new();
    assert_eq!(host.run(&mut cpu, 1), Ok(1));
    assert_eq!((cpu.eip, cpu.gpr[4]), (0x0040, 0x0FFE));
    assert_eq!(cpu.mem.phys_read16(0x0FFE), 2);
}

#[test]
fn thirty_two_bit_code_is_compiled_too() {
    let code = [
        0xB8, 0x78, 0x56, 0x34, 0x12, // mov eax,12345678h
        0x8D, 0x5C, 0x80, 0x10, // lea ebx,[eax+eax*4+10h]
        0x66, 0x01, 0xC3, // add bx,ax
        0x50, // push eax
        0x59, // pop ecx
        0xEB, 0x00, // jmp next
    ];
    let start = || {
        let mut cpu = core_with(&code);
        cpu.cr[0] = 1;
        for s in 0..6 {
            cpu.seg[s].desc.limit = 0xF_FFFF;
            cpu.seg[s].desc.g = true;
            cpu.seg[s].desc.db = true;
        }
        cpu.gpr[4] = 0x8000;
        cpu
    };
    let mut by_blocks = start();
    let mut by_steps = start();
    let mut host = Host::new();
    assert_eq!(host.run(&mut by_blocks, 6), Ok(6));
    assert_eq!(host.jit.blocks_compiled, 1);
    assert_eq!(host.jit.instructions_run, 6);
    for _ in 0..6 {
        step_ok(&mut by_steps);
    }
    same_state(&mut by_blocks, &mut by_steps);
    assert_eq!(by_blocks.gpr[1], 0x1234_5678);
}

#[test]
fn blocks_are_kept_until_the_state_changes() {
    // inc ax ; jmp $-3
    let mut cpu = core_with(&[0x40, 0xEB, 0xFD]);
    let mut host = Host::new();
    assert_eq!(host.run(&mut cpu, 10), Ok(10));
    assert_eq!(cpu.reg16(0), 5);
    assert_eq!((host.jit.blocks_compiled, host.jit.blocks_recompiled), (1, 0));
    cpu.gdtr.limit = 0x55;
    assert_eq!(host.run(&mut cpu, 2), Ok(2));
    assert_eq!((host.jit.blocks_compiled, host.jit.blocks_recompiled), (2, 1));
}

#[test]
fn faults_and_other_instructions_fall_back_to_the_interpreter() {
    // inc ax ; mov cr0 read (not compiled) ; hlt
    let mut cpu = core_with(&[0x40, 0x0F, 0x20, 0xC3, 0xF4]);
    cpu.cr[0] = 0x1234_5670;
    let mut host = Host::new();
    assert_eq!(host.run(&mut cpu, 2), Ok(2));
    assert_eq!((cpu.reg16(0), cpu.gpr[3]), (1, 0x1234_5670));
    assert_eq!(host.run(&mut cpu, 1), Err(Error::Halt));
    // A store beyond the segment is reported by the interpreter.
    let mut cpu = core_with(&[0xA2, 0x00, 0x09, 0xEB, 0x00]);
    cpu.cr[0] = 1;
    cpu.seg[3].desc.limit = 0xFF;
    let mut host = Host::new();
    assert_eq!(
        host.run(&mut cpu, 2),
        Err(Error::Internal(String::from("segment fault at 0x900")))
    );
    assert_eq!(cpu.eip, 0);
}

#[test]
fn a_block_that_cannot_be_compiled_is_interpreted() {
    let mut cpu = core_with(&[0x40, 0x40, 0xEB, 0x00]);
    let mut jit = Jit::new();
    let mut action = jit.begin(&mut cpu, 3);
    let mut refused = 0;
    let result = loop {
        action = match action {
            JitAction::Done(r) => break r,
            JitAction::Compile(_) => {
                refused += 1;
                jit.compiled(&mut cpu, None)
            }
            JitAction::Call(_) => unreachable!(),
        };
    };
    assert_eq!(result, Ok(3));
    assert_eq!(refused, 3);
    assert_eq!((cpu.reg16(0), cpu.eip), (2, 4));
    assert_eq!(jit.blocks_compiled, 0);
}

#[test]
fn helper_numbers_go_both_ways() {
    for n in 0..3 {
        assert_eq!(helpers::bits_id(helpers::bits_of(n)), n);
    }
    for n in 0..8 {
        assert_eq!(helpers::alu_id(helpers::alu_of(n)), n);
    }
    for n in 0..16 {
        assert_eq!(helpers::cond_id(helpers::cond_of(n)), n);
    }
    for n in 0..7 {
        assert_eq!(helpers::shift_id(helpers::shift_of(n)), n);
    }
    for n in 0..3 {
        assert_eq!(helpers::rep_id(helpers::rep_of(n)), n);
        assert_eq!(helpers::kind_id(helpers::kind_of(n)), n);
    }
}
