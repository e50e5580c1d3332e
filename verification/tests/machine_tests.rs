use chip8::ErrorKind;
use chip8::cpu::CPU;
use chip8::ram::RAM;

#[test]
fn register_set_then_get_round_trip() {
    let mut cpu = CPU::new();
    cpu.set(5, 77).unwrap();
    assert_eq!(cpu.get(5).unwrap(), 77);
    cpu.set(15, 200).unwrap();
    assert_eq!(cpu.get(15).unwrap(), 200);
}

#[test]
fn register_index_out_of_range() {
    let mut cpu = CPU::new();
    assert_eq!(cpu.get(16), Err(ErrorKind::InvalidRegister));
    assert_eq!(cpu.set(255, 1), Err(ErrorKind::InvalidRegister));
}

#[test]
fn add_registers_carry_flag() {
    let mut cpu = CPU::new();
    cpu.set_x_value(0, 250);
    cpu.set_x_value(1, 10);
    cpu.add_xy(0, 1);
    assert_eq!(cpu.v_reg[0], 4);
    assert_eq!(cpu.v_reg[15], 1);

    let mut cpu = CPU::new();
    cpu.set_x_value(0, 10);
    cpu.set_x_value(1, 10);
    cpu.add_xy(0, 1);
    assert_eq!(cpu.v_reg[0], 20);
    assert_eq!(cpu.v_reg[15], 0);
}

#[test]
fn sub_registers_borrow_flag() {
    let mut cpu = CPU::new();
    cpu.set_x_value(0, 10);
    cpu.set_x_value(1, 5);
    cpu.sub_xy(0, 1);
    assert_eq!(cpu.v_reg[0], 5);
    assert_eq!(cpu.v_reg[15], 1);

    let mut cpu = CPU::new();
    cpu.set_x_value(0, 5);
    cpu.set_x_value(1, 10);
    cpu.sub_xy(0, 1);
    assert_eq!(cpu.v_reg[0], 251);
    assert_eq!(cpu.v_reg[15], 0);
}

#[test]
fn subn_registers_borrow_flag() {
    let mut cpu = CPU::new();
    cpu.set_x_value(0, 5);
    cpu.set_x_value(1, 12);
    cpu.subn_xy(0, 1);
    assert_eq!(cpu.v_reg[0], 7);
    assert_eq!(cpu.v_reg[15], 1);
}

#[test]
fn shift_right_keeps_low_bit() {
    let mut cpu = CPU::new();
    cpu.set_x_value(2, 0b00000011);
    cpu.shr_x(2);
    assert_eq!(cpu.v_reg[15], 1);
    assert_eq!(cpu.v_reg[2], 0b00000001);
}

#[test]
fn shift_left_keeps_high_bit() {
    let mut cpu = CPU::new();
    cpu.set_x_value(2, 0b10000001);
    cpu.shl_x(2);
    assert_eq!(cpu.v_reg[15], 1);
    assert_eq!(cpu.v_reg[2], 0b00000010);
}

#[test]
fn call_then_return_balances() {
    let mut cpu = CPU::new();
    let pre_pc = cpu.program_counter;
    let pre_sp = cpu.stack_pointer;
    cpu.cycle(0x2200).unwrap();
    cpu.cycle(0x00EE).unwrap();
    assert_eq!(cpu.program_counter, pre_pc);
    assert_eq!(cpu.stack_pointer, pre_sp);
}

#[test]
fn stack_depth_limit() {
    let mut cpu = CPU::new();
    for _ in 0..16 {
        cpu.call_subroutine(0x300).unwrap();
    }
    assert_eq!(cpu.stack_pointer, 16);
    assert_eq!(cpu.call_subroutine(0x300), Err(ErrorKind::StackOverflow));
    assert_eq!(cpu.stack_pointer, 16);
}

#[test]
fn return_on_empty_stack_underflows() {
    let mut cpu = CPU::new();
    assert_eq!(cpu.ret_subroutine(), Err(ErrorKind::StackUnderflow));
}

#[test]
fn memory_protected_region() {
    let mut ram = RAM::new();
    assert_eq!(ram.write(0x000, 1), Err(ErrorKind::ProtectedRegionViolation));
    assert_eq!(ram.write(0x1FF, 1), Err(ErrorKind::ProtectedRegionViolation));
    assert_eq!(ram.write(0x200, 42), Ok(()));
    assert_eq!(ram.read(0x200).unwrap(), 42);
}

#[test]
fn memory_out_of_bounds() {
    let mut ram = RAM::new();
    assert_eq!(ram.read(4096), Err(ErrorKind::OutOfBounds));
    assert_eq!(ram.write(4096, 1), Err(ErrorKind::OutOfBounds));
}

#[test]
fn font_table_preloaded() {
    let ram = RAM::new();
    assert_eq!(ram.read(0x50).unwrap(), 0xF0);
    assert_eq!(ram.read(0x9F).unwrap(), 0x80);
    assert_eq!(ram.read(0x4F).unwrap(), 0x00);
    assert_eq!(ram.read(0xA0).unwrap(), 0x00);
}

#[test]
fn rom_loads_at_base() {
    let mut cpu = CPU::new();
    let rom = vec![0x63, 0x05, 0x12, 0x00];
    cpu.load_rom(&rom).unwrap();
    assert_eq!(cpu.ram.read(0x200).unwrap(), 0x63);
    assert_eq!(cpu.ram.read(0x203).unwrap(), 0x00);
}

#[test]
fn rom_too_large_is_rejected() {
    let mut cpu = CPU::new();
    let rom = vec![0u8; 3585];
    assert_eq!(cpu.load_rom(&rom), Err(ErrorKind::RomTooLarge));
    let rom = vec![7u8; 3584];
    assert_eq!(cpu.load_rom(&rom), Ok(()));
    assert_eq!(cpu.ram.read(0xFFF).unwrap(), 7);
}

#[test]
fn bcd_digits_stored() {
    let mut cpu = CPU::new();
    cpu.set_x_value(2, 157);
    cpu.set_i(0x300);
    cpu.store_bcd(2).unwrap();
    assert_eq!(cpu.ram.read(0x300).unwrap(), 1);
    assert_eq!(cpu.ram.read(0x301).unwrap(), 5);
    assert_eq!(cpu.ram.read(0x302).unwrap(), 7);
}

#[test]
fn bcd_respects_memory_protection() {
    let mut cpu = CPU::new();
    cpu.set_x_value(2, 157);
    cpu.set_i(0x100);
    assert_eq!(cpu.store_bcd(2), Err(ErrorKind::ProtectedRegionViolation));
    cpu.set_i(0xFFE);
    assert_eq!(cpu.store_bcd(2), Err(ErrorKind::OutOfBounds));
}

#[test]
fn store_and_read_registers_round_trip() {
    let mut cpu = CPU::new();
    cpu.set_x_value(0, 11);
    cpu.set_x_value(1, 22);
    cpu.set_x_value(2, 33);
    cpu.set_x_value(3, 44);
    cpu.set_i(0x400);
    cpu.store_registers(3).unwrap();
    for r in 0..4 {
        cpu.set_x_value(r, 0);
    }
    cpu.read_registers(3).unwrap();
    assert_eq!(cpu.v_reg[0], 11);
    assert_eq!(cpu.v_reg[1], 22);
    assert_eq!(cpu.v_reg[2], 33);
    assert_eq!(cpu.v_reg[3], 44);
}

#[test]
fn store_registers_errors() {
    let mut cpu = CPU::new();
    cpu.set_i(0x100);
    assert_eq!(cpu.store_registers(0), Err(ErrorKind::ProtectedRegionViolation));
    cpu.set_i(0xFFE);
    assert_eq!(cpu.store_registers(3), Err(ErrorKind::OutOfBounds));
    cpu.set_i(0xFFC);
    assert_eq!(cpu.store_registers(3), Ok(()));
}

#[test]
fn timers_tick_saturates_at_zero() {
    let mut cpu = CPU::new();
    assert_eq!(cpu.timers.delay_value(), 0);
    cpu.tick_timers();
    cpu.tick_timers();
    assert_eq!(cpu.timers.delay_value(), 0);
    assert_eq!(cpu.timers.sound_value(), 0);
    cpu.set_x_value(0, 2);
    cpu.set_delay_timer(0);
    cpu.set_sound_timer(0);
    cpu.tick_timers();
    assert_eq!(cpu.timers.delay_value(), 1);
    assert_eq!(cpu.timers.sound_value(), 1);
    cpu.tick_timers();
    cpu.tick_timers();
    assert_eq!(cpu.timers.delay_value(), 0);
    assert_eq!(cpu.timers.sound_value(), 0);
}

#[test]
fn delay_timer_read_into_register() {
    let mut cpu = CPU::new();
    cpu.set_x_value(1, 9);
    cpu.set_delay_timer(1);
    cpu.read_delay_timer(4);
    assert_eq!(cpu.v_reg[4], 9);
}

#[test]
fn font_index_and_add_i() {
    let mut cpu = CPU::new();
    cpu.set_x_value(0, 3);
    cpu.set_i_digit(0);
    assert_eq!(cpu.get_i(), 0x50 + 15);
    cpu.set_x_value(1, 2);
    cpu.add_i(1);
    assert_eq!(cpu.get_i(), 0x50 + 17);
}

#[test]
fn jump_with_offset() {
    let mut cpu = CPU::new();
    cpu.set_x_value(0, 4);
    cpu.jmp_addr_offset(0x300);
    assert_eq!(cpu.program_counter, 0x304);
}

#[test]
fn random_masked_by_immediate() {
    let mut cpu = CPU::new();
    cpu.set_x_value(0, 0xAA);
    cpu.rnd_and(0, 0x00);
    assert_eq!(cpu.v_reg[0], 0);
    cpu.rnd_and(0, 0x0F);
    assert!(cpu.v_reg[0] <= 0x0F);
}

#[test]
fn unknown_opcode_is_fatal() {
    let mut cpu = CPU::new();
    assert_eq!(cpu.cycle(0x0000), Err(ErrorKind::UnknownOpcode));
    assert_eq!(cpu.cycle(0x5121), Err(ErrorKind::UnknownOpcode));
    assert_eq!(cpu.cycle(0xE355), Err(ErrorKind::UnknownOpcode));
    assert_eq!(cpu.cycle(0xF399), Err(ErrorKind::UnknownOpcode));
}

#[test]
fn reset_returns_to_power_on_state() {
    let mut cpu = CPU::new();
    cpu.set_x_value(3, 99);
    cpu.set_i(0x555);
    cpu.jmp_addr(0x400);
    cpu.call_subroutine(0x300).unwrap();
    cpu.reset();
    assert_eq!(cpu.v_reg[3], 0);
    assert_eq!(cpu.get_i(), 0);
    assert_eq!(cpu.program_counter, 0x200);
    assert_eq!(cpu.stack_pointer, 0);
    assert_eq!(cpu.ram.read(0x50).unwrap(), 0xF0);
}
