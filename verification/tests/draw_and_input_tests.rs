use chip8::ErrorKind;
use chip8::cpu::CPU;
use chip8::decode::{Instr, decode};

#[test]
fn draw_sets_pixels_and_collision_flag() {
    let mut cpu = CPU::new();
    cpu.ram.write(0x300, 0xFF).unwrap();
    cpu.set_i(0x300);
    cpu.set_x_value(0, 5);
    cpu.set_x_value(1, 3);
    cpu.draw(0, 1, 1).unwrap();
    assert_eq!(cpu.v_reg[15], 0);
    for b in 0..8 {
        assert!(cpu.display.pixel(5 + b, 3));
    }
    cpu.draw(0, 1, 1).unwrap();
    assert_eq!(cpu.v_reg[15], 1);
    for b in 0..8 {
        assert!(!cpu.display.pixel(5 + b, 3));
    }
}

#[test]
fn draw_wraps_around_screen_edges() {
    let mut cpu = CPU::new();
    cpu.ram.write(0x300, 0b10000001).unwrap();
    cpu.set_i(0x300);
    cpu.set_x_value(0, 60);
    cpu.set_x_value(1, 31);
    cpu.draw(0, 1, 1).unwrap();
    assert!(cpu.display.pixel(60, 31));
    assert!(cpu.display.pixel(3, 31));
    assert!(!cpu.display.pixel(61, 31));
}

#[test]
fn draw_out_of_memory_fails() {
    let mut cpu = CPU::new();
    cpu.set_i(0xFFF);
    assert_eq!(cpu.draw(0, 1, 2), Err(ErrorKind::OutOfBounds));
}

#[test]
fn clear_screen_opcode() {
    let mut cpu = CPU::new();
    cpu.ram.write(0x300, 0xFF).unwrap();
    cpu.set_i(0x300);
    cpu.draw(0, 1, 1).unwrap();
    assert!(cpu.display.pixel(0, 0));
    cpu.cycle(0x00E0).unwrap();
    for x in 0..64 {
        for y in 0..32 {
            assert!(!cpu.display.pixel(x, y));
        }
    }
}

#[test]
fn skip_when_key_pressed() {
    let mut cpu = CPU::new();
    cpu.set_x_value(0, 7);
    let pc = cpu.program_counter;
    cpu.skip_key_pressed(0);
    assert_eq!(cpu.program_counter, pc);
    cpu.keypad.set_pressed(7, true);
    cpu.skip_key_pressed(0);
    assert_eq!(cpu.program_counter, pc + 2);
    cpu.skip_key_not_pressed(0);
    assert_eq!(cpu.program_counter, pc + 2);
    cpu.keypad.set_pressed(7, false);
    cpu.skip_key_not_pressed(0);
    assert_eq!(cpu.program_counter, pc + 4);
}

#[test]
fn key_code_uses_low_nibble_of_register() {
    let mut cpu = CPU::new();
    cpu.set_x_value(0, 0x17);
    cpu.keypad.set_pressed(7, true);
    let pc = cpu.program_counter;
    cpu.skip_key_pressed(0);
    assert_eq!(cpu.program_counter, pc + 2);
}

#[test]
fn wait_key_suspends_until_press() {
    let mut cpu = CPU::new();
    let rom = vec![0xF3, 0x0A, 0x61, 0x22];
    cpu.load_rom(&rom).unwrap();
    cpu.step().unwrap();
    assert_eq!(cpu.program_counter, 0x202);
    cpu.step().unwrap();
    cpu.step().unwrap();
    assert_eq!(cpu.program_counter, 0x202);
    cpu.keypad.set_pressed(7, true);
    cpu.step().unwrap();
    assert_eq!(cpu.program_counter, 0x202);
    assert_eq!(cpu.v_reg[3], 7);
    cpu.step().unwrap();
    assert_eq!(cpu.program_counter, 0x204);
    assert_eq!(cpu.v_reg[1], 0x22);
}

#[test]
fn step_reports_fault_with_location() {
    let mut cpu = CPU::new();
    let fault = cpu.step().unwrap_err();
    assert_eq!(fault.kind, ErrorKind::UnknownOpcode);
    assert_eq!(fault.pc, 0x200);
    assert_eq!(fault.opcode, 0x0000);
}

#[test]
fn step_fetch_past_end_fails() {
    let mut cpu = CPU::new();
    cpu.jmp_addr(0xFFF);
    let fault = cpu.step().unwrap_err();
    assert_eq!(fault.kind, ErrorKind::OutOfBounds);
    assert_eq!(fault.pc, 0xFFF);
}

#[test]
fn decode_matches_opcode_table() {
    assert_eq!(decode(0x00E0), Some(Instr::ClearScreen));
    assert_eq!(decode(0x00EE), Some(Instr::Return));
    assert_eq!(decode(0x1234), Some(Instr::Jump(0x234)));
    assert_eq!(decode(0x2345), Some(Instr::Call(0x345)));
    assert_eq!(decode(0x3A42), Some(Instr::SkipEqVal(0xA, 0x42)));
    assert_eq!(decode(0x8124), Some(Instr::AddReg(1, 2)));
    assert_eq!(decode(0x8136), Some(Instr::ShiftRight(1)));
    assert_eq!(decode(0x813E), Some(Instr::ShiftLeft(1)));
    assert_eq!(decode(0xA123), Some(Instr::SetIndex(0x123)));
    assert_eq!(decode(0xC277), Some(Instr::Random(2, 0x77)));
    assert_eq!(decode(0xD46F), Some(Instr::Draw(4, 6, 0xF)));
    assert_eq!(decode(0xE29E), Some(Instr::SkipKeyPressed(2)));
    assert_eq!(decode(0xE2A1), Some(Instr::SkipKeyNotPressed(2)));
    assert_eq!(decode(0xF30A), Some(Instr::WaitKey(3)));
    assert_eq!(decode(0xF833), Some(Instr::StoreBcd(8)));
    assert_eq!(decode(0xF455), Some(Instr::StoreRegs(4)));
    assert_eq!(decode(0xF465), Some(Instr::LoadRegs(4)));
    assert_eq!(decode(0x5121), None);
    assert_eq!(decode(0xFFFF), None);
    assert_eq!(decode(0x0000), None);
}

#[test]
fn program_runs_through_step() {
    let mut cpu = CPU::new();
    let rom = vec![0x60, 0xFA, 0x61, 0x0A, 0x80, 0x14];
    cpu.load_rom(&rom).unwrap();
    cpu.step().unwrap();
    cpu.step().unwrap();
    cpu.step().unwrap();
    assert_eq!(cpu.v_reg[0], 4);
    assert_eq!(cpu.v_reg[15], 1);
    assert_eq!(cpu.program_counter, 0x206);
}
