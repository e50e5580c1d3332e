use chip8::cpu::CPU;

#[test]
fn call_subroutine() {
    let mut cpu = CPU::new();
    let addr = 0x200;
    cpu.call_subroutine(addr).unwrap();
    assert_eq!(cpu.stack_pointer, 1);
    assert_eq!(cpu.stack[cpu.stack_pointer as usize], 0x200);
    assert_eq!(cpu.program_counter, addr);
}

#[test]
fn return_subroutine() {
    let mut cpu = CPU::new();
    cpu.call_subroutine(0x200).unwrap();
    cpu.ret_subroutine().unwrap();
    assert_eq!(cpu.program_counter, 0x200);
    assert_eq!(cpu.stack_pointer, 0);
}

#[test]
fn jump_to_address() {
    let mut cpu = CPU::new();
    let addr = 0x200;
    cpu.jmp_addr(addr);
    assert_eq!(cpu.program_counter, addr);
}

#[test]
fn skip_if_register_eq_value() {
    let mut cpu = CPU::new();
    let old_pc = cpu.program_counter;
    cpu.v_reg[0] = 128;
    cpu.skip_eq_value(0, 127);
    assert_eq!(cpu.program_counter, old_pc);
    cpu.skip_eq_value(0, 128);
    assert_eq!(cpu.program_counter, old_pc + 2);
}

#[test]
fn skip_if_register_neq_value() {
    let mut cpu = CPU::new();
    let old_pc = cpu.program_counter;
    cpu.v_reg[0] = 128;
    cpu.skip_neq_value(0, 128);
    assert_eq!(cpu.program_counter, old_pc);
    cpu.skip_neq_value(0, 127);
    assert_eq!(cpu.program_counter, old_pc + 2);
}

#[test]
fn skip_if_register_eq_xy() {
    let mut cpu = CPU::new();
    let old_pc = cpu.program_counter;
    cpu.v_reg[0] = 128;
    cpu.v_reg[7] = 128;
    cpu.v_reg[15] = 127;
    cpu.skip_eq_xy(0, 15);
    assert_eq!(cpu.program_counter, old_pc);
    cpu.skip_eq_xy(0, 7);
    assert_eq!(cpu.program_counter, old_pc + 2);
}

#[test]
fn skip_if_register_neq_xy() {
    let mut cpu = CPU::new();
    let old_pc = cpu.program_counter;
    cpu.v_reg[0] = 128;
    cpu.v_reg[7] = 128;
    cpu.v_reg[15] = 127;
    cpu.skip_neq_xy(0, 7);
    assert_eq!(cpu.program_counter, old_pc);
    cpu.skip_neq_xy(0, 15);
    assert_eq!(cpu.program_counter, old_pc + 2);
}

#[test]
fn set_store_register() {
    let mut cpu = CPU::new();
    cpu.set_x_value(0, 128);
    assert_eq!(cpu.v_reg[0], 128);
    cpu.store_xy(0, 1);
    assert_eq!(cpu.v_reg[0], 0);
}

#[test]
fn add_value_to_register() {
    let mut cpu = CPU::new();
    cpu.set_x_value(0, 128);
    assert_eq!(cpu.v_reg[0], 128);
    cpu.add_x_value(0, 127);
    assert_eq!(cpu.v_reg[0], 255);
}
