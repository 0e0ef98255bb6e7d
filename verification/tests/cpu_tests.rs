use dmg::cpu::{C_FLAG, Cpu, CpuFault, HC_FLAG, N_FLAG, Z_FLAG, eight_bit_hc, u16_from_u8s, u8s_from_16};
use dmg::mmu::Mmu;

#[test]
fn test_u16_from_u8s() {
    assert_eq!(u16_from_u8s(0xff, 0xfe), 0xfffe);
}

#[test]
fn test_u8s_from_16() {
    assert_eq!(u8s_from_16(0xfffe), (0xff, 0xfe));
    assert_eq!(u8s_from_16(0x1234), (0x12, 0x34));
}

#[test]
fn test_eight_bit_hc() {
    assert!(eight_bit_hc(0x0f, 1));
    assert!(!eight_bit_hc(0x0e, 1));
    assert!(eight_bit_hc(0x1f, 1));
}

#[test]
fn test_pair_composition() {
    // Writing 0x1234 to HL: H holds 0x12, L holds 0x34, and back.
    let mut cpu = Cpu::new();
    cpu.set_hl(0x1234);
    assert_eq!(cpu.h, 0x12);
    assert_eq!(cpu.l, 0x34);
    assert_eq!(cpu.hl(), 0x1234);

    cpu.h = 0xab;
    cpu.l = 0xcd;
    assert_eq!(cpu.hl(), 0xabcd);

    cpu.set_de(0x5678);
    assert_eq!(cpu.d, 0x56);
    assert_eq!(cpu.e, 0x78);
    assert_eq!(cpu.de(), 0x5678);
}

#[test]
fn test_boot_image_then_sp_load() {
    // Boot-image load, then one step of opcode 0x31 with operand bytes
    // 0xFE 0xFF: SP becomes 0xFFFE, PC ends 3 past the start.
    let mut cpu = Cpu::new();
    let mut mmu = Mmu::new();
    mmu.load_boot_image(&vec![0x31, 0xfe, 0xff]);
    let r = cpu.execute(&mut mmu);
    assert_eq!(r, Ok(()));
    assert_eq!(cpu.sp, 0xfffe);
    assert_eq!(cpu.pc, 3);
}

#[test]
fn test_inc_then_dec_restores_register_and_carry() {
    // For a register value, incrementing then decrementing restores it and
    // leaves the Carry flag untouched.
    for &v in &[0x00u8, 0x01, 0x0f, 0x7f, 0xff] {
        let mut cpu = Cpu::new();
        let mut mmu = Mmu::new();
        mmu.write_byte(0, 0x0c); // INC C
        mmu.write_byte(1, 0x0d); // DEC C
        cpu.c = v;
        cpu.set_c(true);
        assert_eq!(cpu.execute(&mut mmu), Ok(()));
        assert_eq!(cpu.execute(&mut mmu), Ok(()));
        assert_eq!(cpu.c, v);
        assert_eq!(cpu.f & C_FLAG, C_FLAG);
        assert_eq!(cpu.pc, 2);
    }
}

#[test]
fn test_inc_half_carry() {
    // Incrementing 0x0F sets Half-Carry; incrementing 0x0E does not.
    let mut cpu = Cpu::new();
    let mut mmu = Mmu::new();
    mmu.write_byte(0, 0x0c); // INC C
    cpu.c = 0x0f;
    assert_eq!(cpu.execute(&mut mmu), Ok(()));
    assert_eq!(cpu.c, 0x10);
    assert_eq!(cpu.f & HC_FLAG, HC_FLAG);

    let mut cpu = Cpu::new();
    let mut mmu = Mmu::new();
    mmu.write_byte(0, 0x0c);
    cpu.c = 0x0e;
    assert_eq!(cpu.execute(&mut mmu), Ok(()));
    assert_eq!(cpu.c, 0x0f);
    assert_eq!(cpu.f & HC_FLAG, 0);
}

#[test]
fn test_dec_zero_flag() {
    // Decrementing 0x01 sets Zero and Subtract; decrementing 0x00 wraps to
    // 0xFF and clears Zero.
    let mut cpu = Cpu::new();
    let mut mmu = Mmu::new();
    mmu.write_byte(0, 0x05); // DEC B
    cpu.b = 0x01;
    assert_eq!(cpu.execute(&mut mmu), Ok(()));
    assert_eq!(cpu.b, 0x00);
    assert_eq!(cpu.f & Z_FLAG, Z_FLAG);
    assert_eq!(cpu.f & N_FLAG, N_FLAG);

    let mut cpu = Cpu::new();
    let mut mmu = Mmu::new();
    mmu.write_byte(0, 0x05);
    cpu.b = 0x00;
    assert_eq!(cpu.execute(&mut mmu), Ok(()));
    assert_eq!(cpu.b, 0xff);
    assert_eq!(cpu.f & Z_FLAG, 0);
    assert_eq!(cpu.f & N_FLAG, N_FLAG);
}

#[test]
fn test_inc_assigns_result() {
    let mut cpu = Cpu::new();
    let mut mmu = Mmu::new();
    mmu.write_byte(0, 0x04); // INC B
    cpu.b = 5;
    assert_eq!(cpu.execute(&mut mmu), Ok(()));
    assert_eq!(cpu.b, 6);
    mmu.write_byte(1, 0x24); // INC H
    cpu.h = 0xff;
    assert_eq!(cpu.execute(&mut mmu), Ok(()));
    assert_eq!(cpu.h, 0);
    assert_eq!(cpu.f & Z_FLAG, Z_FLAG);
}

#[test]
fn test_relative_jump_arithmetic() {
    // PC 0x0100, unconditional relative jump with displacement 0xFE (−2):
    // final PC 0x0100. With displacement 0x02: final PC 0x0104.
    let mut cpu = Cpu::new();
    let mut mmu = Mmu::new();
    cpu.pc = 0x0100;
    mmu.write_byte(0x0100, 0x18);
    mmu.write_byte(0x0101, 0xfe);
    assert_eq!(cpu.execute(&mut mmu), Ok(()));
    assert_eq!(cpu.pc, 0x0100);

    let mut cpu = Cpu::new();
    let mut mmu = Mmu::new();
    cpu.pc = 0x0100;
    mmu.write_byte(0x0100, 0x18);
    mmu.write_byte(0x0101, 0x02);
    assert_eq!(cpu.execute(&mut mmu), Ok(()));
    assert_eq!(cpu.pc, 0x0104);
}

#[test]
fn test_conditional_jumps() {
    // JR NZ taken when Zero is clear, skipped when set; JR Z the other way.
    let mut cpu = Cpu::new();
    let mut mmu = Mmu::new();
    cpu.pc = 0x0200;
    mmu.write_byte(0x0200, 0x20);
    mmu.write_byte(0x0201, 0x10);
    assert_eq!(cpu.execute(&mut mmu), Ok(()));
    assert_eq!(cpu.pc, 0x0212);

    let mut cpu = Cpu::new();
    let mut mmu = Mmu::new();
    cpu.pc = 0x0200;
    cpu.set_z(true);
    mmu.write_byte(0x0200, 0x20);
    mmu.write_byte(0x0201, 0x10);
    assert_eq!(cpu.execute(&mut mmu), Ok(()));
    assert_eq!(cpu.pc, 0x0202);

    let mut cpu = Cpu::new();
    let mut mmu = Mmu::new();
    cpu.pc = 0x0200;
    cpu.set_z(true);
    mmu.write_byte(0x0200, 0x28);
    mmu.write_byte(0x0201, 0xfc); // −4
    assert_eq!(cpu.execute(&mut mmu), Ok(()));
    assert_eq!(cpu.pc, 0x01fe);
}

#[test]
fn test_compare_flags() {
    // CP sets Subtract always; Zero on equality; Half-Carry and Carry per
    // subtraction borrows; A stays.
    let mut cpu = Cpu::new();
    let mut mmu = Mmu::new();
    mmu.write_byte(0, 0xfe);
    mmu.write_byte(1, 0x42);
    cpu.a = 0x42;
    assert_eq!(cpu.execute(&mut mmu), Ok(()));
    assert_eq!(cpu.a, 0x42);
    assert_eq!(cpu.f & Z_FLAG, Z_FLAG);
    assert_eq!(cpu.f & N_FLAG, N_FLAG);
    assert_eq!(cpu.f & C_FLAG, 0);

    let mut cpu = Cpu::new();
    let mut mmu = Mmu::new();
    mmu.write_byte(0, 0xfe);
    mmu.write_byte(1, 0x20);
    cpu.a = 0x10;
    assert_eq!(cpu.execute(&mut mmu), Ok(()));
    assert_eq!(cpu.f & Z_FLAG, 0);
    assert_eq!(cpu.f & C_FLAG, C_FLAG);

    let mut cpu = Cpu::new();
    let mut mmu = Mmu::new();
    mmu.write_byte(0, 0xfe);
    mmu.write_byte(1, 0x01);
    cpu.a = 0x10;
    assert_eq!(cpu.execute(&mut mmu), Ok(()));
    assert_eq!(cpu.f & HC_FLAG, HC_FLAG);
    assert_eq!(cpu.f & C_FLAG, 0);
}

#[test]
fn test_sub_register() {
    let mut cpu = Cpu::new();
    let mut mmu = Mmu::new();
    mmu.write_byte(0, 0x90); // SUB B
    cpu.a = 0x10;
    cpu.b = 0x01;
    assert_eq!(cpu.execute(&mut mmu), Ok(()));
    assert_eq!(cpu.a, 0x0f);
    assert_eq!(cpu.f & N_FLAG, N_FLAG);
    assert_eq!(cpu.f & Z_FLAG, 0);
}

#[test]
fn test_call_pushes_and_jumps() {
    // CALL pushes the current program counter, high byte first, drops SP by
    // two, and jumps to the little-endian target.
    let mut cpu = Cpu::new();
    let mut mmu = Mmu::new();
    cpu.pc = 0x0203;
    cpu.sp = 0xfffe;
    mmu.write_byte(0x0203, 0xcd);
    mmu.write_byte(0x0204, 0x34);
    mmu.write_byte(0x0205, 0x12);
    assert_eq!(cpu.execute(&mut mmu), Ok(()));
    assert_eq!(cpu.pc, 0x1234);
    assert_eq!(cpu.sp, 0xfffc);
    assert_eq!(mmu.read_byte(0xfffd), 0x02);
    assert_eq!(mmu.read_byte(0xfffc), 0x03);
}

#[test]
fn test_hl_store_decrement() {
    // LD (HL-), A: HL is decremented, A is stored through the decremented
    // address.
    let mut cpu = Cpu::new();
    let mut mmu = Mmu::new();
    mmu.write_byte(0, 0x32);
    cpu.set_hl(0x9fff);
    cpu.a = 0x77;
    assert_eq!(cpu.execute(&mut mmu), Ok(()));
    assert_eq!(cpu.hl(), 0x9ffe);
    assert_eq!(mmu.read_byte(0x9ffe), 0x77);
    assert_eq!(mmu.read_byte(0x9fff), 0x00);
}

#[test]
fn test_hl_store_increment() {
    let mut cpu = Cpu::new();
    let mut mmu = Mmu::new();
    mmu.write_byte(0, 0x22);
    cpu.set_hl(0x8000);
    cpu.a = 0x55;
    assert_eq!(cpu.execute(&mut mmu), Ok(()));
    assert_eq!(cpu.hl(), 0x8001);
    assert_eq!(mmu.read_byte(0x8001), 0x55);
}

#[test]
fn test_loads_and_io_page() {
    let mut cpu = Cpu::new();
    let mut mmu = Mmu::new();
    // LD C, 0x0B; LD A, 0x99; LD (0xFF00+C), A
    mmu.write_byte(0, 0x0e);
    mmu.write_byte(1, 0x0b);
    mmu.write_byte(2, 0x3e);
    mmu.write_byte(3, 0x99);
    mmu.write_byte(4, 0xe2);
    assert_eq!(cpu.execute(&mut mmu), Ok(()));
    assert_eq!(cpu.execute(&mut mmu), Ok(()));
    assert_eq!(cpu.execute(&mut mmu), Ok(()));
    assert_eq!(mmu.read_byte(0xff0b), 0x99);
    assert_eq!(cpu.pc, 5);

    // LD (0xFF00+imm), A then LD A, (0xFF00|imm) back
    mmu.write_byte(5, 0xe0);
    mmu.write_byte(6, 0x44);
    assert_eq!(cpu.execute(&mut mmu), Ok(()));
    assert_eq!(mmu.read_byte(0xff44), 0x99);
    mmu.write_byte(7, 0x3e);
    mmu.write_byte(8, 0x00);
    assert_eq!(cpu.execute(&mut mmu), Ok(()));
    assert_eq!(cpu.a, 0x00);
    mmu.write_byte(9, 0xf0);
    mmu.write_byte(10, 0x44);
    assert_eq!(cpu.execute(&mut mmu), Ok(()));
    assert_eq!(cpu.a, 0x99);
}

#[test]
fn test_register_moves() {
    let mut cpu = Cpu::new();
    let mut mmu = Mmu::new();
    // LD DE, 0x8010; LD A, (DE); LD H, A; LD D, A; LD A, E; LD A, H
    mmu.write_byte(0x8010, 0x5a);
    mmu.write_byte(0, 0x11);
    mmu.write_byte(1, 0x10);
    mmu.write_byte(2, 0x80);
    mmu.write_byte(3, 0x1a);
    mmu.write_byte(4, 0x67);
    assert_eq!(cpu.execute(&mut mmu), Ok(()));
    assert_eq!(cpu.de(), 0x8010);
    assert_eq!(cpu.execute(&mut mmu), Ok(()));
    assert_eq!(cpu.a, 0x5a);
    assert_eq!(cpu.execute(&mut mmu), Ok(()));
    assert_eq!(cpu.h, 0x5a);

    mmu.write_byte(5, 0x13); // INC DE
    assert_eq!(cpu.execute(&mut mmu), Ok(()));
    assert_eq!(cpu.de(), 0x8011);

    mmu.write_byte(6, 0x7b); // LD A, E
    assert_eq!(cpu.execute(&mut mmu), Ok(()));
    assert_eq!(cpu.a, 0x11);

    mmu.write_byte(7, 0x7c); // LD A, H
    assert_eq!(cpu.execute(&mut mmu), Ok(()));
    assert_eq!(cpu.a, 0x5a);
}

#[test]
fn test_xor_a_clears() {
    let mut cpu = Cpu::new();
    let mut mmu = Mmu::new();
    mmu.write_byte(0, 0xaf);
    cpu.a = 0x5f;
    assert_eq!(cpu.execute(&mut mmu), Ok(()));
    assert_eq!(cpu.a, 0);
    assert_eq!(cpu.pc, 1);
}

#[test]
fn test_bit_test_high_register() {
    // Prefixed BIT 7, H: Zero flag from the complement of bit 7 of H.
    let mut cpu = Cpu::new();
    let mut mmu = Mmu::new();
    mmu.write_byte(0, 0xcb);
    mmu.write_byte(1, 0x7c);
    cpu.h = 0x80;
    assert_eq!(cpu.execute(&mut mmu), Ok(()));
    assert_eq!(cpu.f & Z_FLAG, 0);
    assert_eq!(cpu.pc, 2);

    let mut cpu = Cpu::new();
    let mut mmu = Mmu::new();
    mmu.write_byte(0, 0xcb);
    mmu.write_byte(1, 0x7c);
    cpu.h = 0x7f;
    assert_eq!(cpu.execute(&mut mmu), Ok(()));
    assert_eq!(cpu.f & Z_FLAG, Z_FLAG);
}

#[test]
fn test_unhandled_opcode_faults() {
    let mut cpu = Cpu::new();
    let mut mmu = Mmu::new();
    cpu.pc = 0x0042;
    mmu.write_byte(0x0042, 0xbe);
    let r = cpu.execute(&mut mmu);
    assert_eq!(r, Err(CpuFault::Unhandled { opcode: 0xbe, pc: 0x0042 }));
    assert_eq!(cpu.pc, 0x0042);
}

#[test]
fn test_unhandled_prefixed_opcode_faults() {
    let mut cpu = Cpu::new();
    let mut mmu = Mmu::new();
    mmu.write_byte(0, 0xcb);
    mmu.write_byte(1, 0x11);
    let r = cpu.execute(&mut mmu);
    assert_eq!(
        r,
        Err(CpuFault::UnhandledPrefixed { prefix: 0xcb, opcode: 0x11, pc: 0 })
    );
    assert_eq!(cpu.pc, 0);
}

#[test]
fn test_load_immediates() {
    let mut cpu = Cpu::new();
    let mut mmu = Mmu::new();
    // LD HL, 0x9fff; LD B, 1; LD D, 2; LD E, 3; LD L, 4
    mmu.write_byte(0, 0x21);
    mmu.write_byte(1, 0xff);
    mmu.write_byte(2, 0x9f);
    mmu.write_byte(3, 0x06);
    mmu.write_byte(4, 0x01);
    mmu.write_byte(5, 0x16);
    mmu.write_byte(6, 0x02);
    mmu.write_byte(7, 0x1e);
    mmu.write_byte(8, 0x03);
    mmu.write_byte(9, 0x2e);
    mmu.write_byte(10, 0x04);
    for _ in 0..5 {
        assert_eq!(cpu.execute(&mut mmu), Ok(()));
    }
    assert_eq!(cpu.hl(), 0x9f04);
    assert_eq!(cpu.b, 1);
    assert_eq!(cpu.d, 2);
    assert_eq!(cpu.e, 3);
    assert_eq!(cpu.pc, 11);
}

#[test]
fn test_store_absolute_and_inc_hl() {
    let mut cpu = Cpu::new();
    let mut mmu = Mmu::new();
    // LD (0x8123), A; INC HL; DEC A; DEC C; DEC D
    cpu.a = 0x31;
    mmu.write_byte(0, 0xea);
    mmu.write_byte(1, 0x23);
    mmu.write_byte(2, 0x81);
    assert_eq!(cpu.execute(&mut mmu), Ok(()));
    assert_eq!(mmu.read_byte(0x8123), 0x31);

    cpu.set_hl(0x00ff);
    mmu.write_byte(3, 0x23);
    assert_eq!(cpu.execute(&mut mmu), Ok(()));
    assert_eq!(cpu.hl(), 0x0100);

    cpu.a = 1;
    mmu.write_byte(4, 0x3d);
    assert_eq!(cpu.execute(&mut mmu), Ok(()));
    assert_eq!(cpu.a, 0);
    assert_eq!(cpu.f & Z_FLAG, Z_FLAG);

    cpu.c = 7;
    mmu.write_byte(5, 0x0d);
    assert_eq!(cpu.execute(&mut mmu), Ok(()));
    assert_eq!(cpu.c, 6);

    cpu.d = 0x10;
    mmu.write_byte(6, 0x15);
    assert_eq!(cpu.execute(&mut mmu), Ok(()));
    assert_eq!(cpu.d, 0x0f);
    assert_eq!(cpu.f & HC_FLAG, HC_FLAG);

    cpu.a = 0xab;
    mmu.write_byte(7, 0x57); // LD D, A
    assert_eq!(cpu.execute(&mut mmu), Ok(()));
    assert_eq!(cpu.d, 0xab);

    cpu.set_hl(0x8200);
    mmu.write_byte(8, 0x77); // LD (HL), A
    assert_eq!(cpu.execute(&mut mmu), Ok(()));
    assert_eq!(mmu.read_byte(0x8200), 0xab);
}
