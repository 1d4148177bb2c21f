use emu6502::cpu::Cpu;
use emu6502::cpu::EmulationError;
use emu6502::cpu::CODE_MEMORY_STARTING_ADDRESS;
use emu6502::cpu::NEGATIVE_FLAG;
use emu6502::cpu::ZERO_FLAG;

#[test]
fn cpu_after_init_should_have_all_registers_clear() {
    let cpu = Cpu::new();
    assert_eq!(cpu.reg_a, 0);
    assert_eq!(cpu.status, 0);
    assert_eq!(cpu.program_counter, 0);
}

#[test]
fn execute_lda_with_zero() {
    let mut cpu = Cpu::new();
    assert!(cpu.load_and_run(vec![0xa9, 0x00]).is_ok());

    // LDA consumes its operand byte and the halt byte is fetched after it.
    assert_eq!(cpu.reg_a, 0x00);
    assert_eq!(cpu.program_counter, CODE_MEMORY_STARTING_ADDRESS + 3);
}

#[test]
fn execute_lda_with_value_with_bit_7_set() {
    // The pre-loaded byte at address 0 is never the operand: LDA takes the
    // literal 0x00 that follows the opcode.
    let mut cpu = Cpu::new();
    assert!(cpu.set_memory(vec![0x80]).is_ok());
    assert!(cpu.load_and_run(vec![0xa9, 0x00]).is_ok());

    assert_eq!(cpu.reg_a, 0x00);
    assert_eq!(cpu.program_counter, CODE_MEMORY_STARTING_ADDRESS + 3);
}

#[test]
fn lda_zero_sets_zero_flag_and_clears_negative_flag() {
    let mut cpu = Cpu::new();
    assert!(cpu.load_and_run(vec![0xa9, 0x00]).is_ok());

    assert_eq!(cpu.reg_a, 0x00);
    assert_eq!(cpu.status & ZERO_FLAG, ZERO_FLAG);
    assert_eq!(cpu.status & NEGATIVE_FLAG, 0);
}

#[test]
fn lda_of_every_value_with_bit_7_set_sets_negative_flag() {
    for value in 0x80..=0xffu8 {
        let mut cpu = Cpu::new();
        assert!(cpu.load_and_run(vec![0xa9, value]).is_ok());

        assert_eq!(cpu.reg_a, value);
        assert_eq!(cpu.status & NEGATIVE_FLAG, NEGATIVE_FLAG);
        assert_eq!(cpu.status & ZERO_FLAG, 0);
    }
}

#[test]
fn tax_copies_accumulator_for_every_value() {
    for value in 0x00..=0xffu8 {
        let mut cpu = Cpu::new();
        cpu.reg_a = value;
        assert!(cpu.load_and_run(vec![0xaa]).is_ok());

        assert_eq!(cpu.reg_x, value);
        assert_eq!(cpu.reg_a, value);
        assert_eq!(
            cpu.status & ZERO_FLAG,
            if value == 0 { ZERO_FLAG } else { 0 }
        );
        assert_eq!(
            cpu.status & NEGATIVE_FLAG,
            if value & 0x80 != 0 { NEGATIVE_FLAG } else { 0 }
        );
        assert_eq!(cpu.program_counter, CODE_MEMORY_STARTING_ADDRESS + 2);
    }
}

#[test]
fn inx_wraps_around_for_every_value() {
    for value in 0x00..=0xffu8 {
        let mut cpu = Cpu::new();
        cpu.reg_x = value;
        assert!(cpu.load_and_run(vec![0xe8]).is_ok());

        assert_eq!(cpu.reg_x, value.wrapping_add(1));
        if value == 0xff {
            assert_eq!(cpu.reg_x, 0x00);
            assert_eq!(cpu.status & ZERO_FLAG, ZERO_FLAG);
        }
    }
}

#[test]
fn execute_lda_tax_inx_program() {
    // LDA #0xC0; TAX; INX; HALT.
    let mut cpu = Cpu::new();
    assert!(cpu.load_and_run(vec![0xa9, 0xc0, 0xaa, 0xe8, 0x00]).is_ok());

    assert_eq!(cpu.reg_a, 0xc0);
    assert_eq!(cpu.reg_x, 0xc1);
    assert_eq!(cpu.status & NEGATIVE_FLAG, NEGATIVE_FLAG);
    assert_eq!(cpu.status & ZERO_FLAG, 0);
    assert_eq!(cpu.program_counter, CODE_MEMORY_STARTING_ADDRESS + 5);
}

#[test]
fn unrecognized_opcode_is_reported_and_registers_are_untouched() {
    let mut cpu = Cpu::new();
    let result = cpu.load_and_run(vec![0xff]);

    assert_eq!(result, Err(EmulationError::UnimplementedOpcode(0xff)));
    assert_eq!(cpu.reg_a, 0);
    assert_eq!(cpu.reg_x, 0);
    assert_eq!(cpu.status, 0);
    assert_eq!(cpu.program_counter, CODE_MEMORY_STARTING_ADDRESS + 1);
}

#[test]
fn program_larger_than_the_address_space_is_rejected() {
    let mut cpu = Cpu::new();
    let result = cpu.load_and_run(vec![0x00; 0x10001]);

    assert_eq!(result, Err(EmulationError::ProgramTooLarge));
    assert_eq!(cpu.program_counter, 0);
}

#[test]
fn program_that_does_not_fit_above_the_code_origin_is_rejected() {
    let mut cpu = Cpu::new();
    let result = cpu.load_and_run(vec![0x00; 0x8001]);

    assert_eq!(result, Err(EmulationError::OutOfBounds));
    assert_eq!(cpu.program_counter, 0);
}

#[test]
fn set_memory_rejects_data_larger_than_the_address_space() {
    let mut cpu = Cpu::new();
    let result = cpu.set_memory(vec![0x00; 0x10001]);

    assert_eq!(result, Err(EmulationError::OutOfBounds));
}

#[test]
fn running_into_the_end_of_the_address_space_is_an_address_overflow() {
    // INX instructions fill memory up to 0xffff; the counter reaches the last
    // address and the next fetch cannot advance past it.
    let mut cpu = Cpu::new();
    let result = cpu.load_and_run(vec![0xe8; 0x8000]);

    assert_eq!(result, Err(EmulationError::AddressOverflow));
    assert_eq!(cpu.program_counter, 0xffff);
    assert_eq!(cpu.reg_x, 0xff);
}

#[test]
fn lda_opcode_on_the_last_address_is_an_address_overflow() {
    // The last code byte, an LDA opcode, sits at 0xfffe; its operand sits on
    // the last address of the space, so the counter cannot advance past it.
    let mut code = vec![0xe8; 0x7fff];
    code[0x7ffe] = 0xa9;
    let mut cpu = Cpu::new();
    let result = cpu.load_and_run(code);

    assert_eq!(result, Err(EmulationError::AddressOverflow));
    assert_eq!(cpu.program_counter, 0xffff);
}

#[test]
fn words_are_stored_and_read_back_little_endian() {
    let mut cpu = Cpu::new();
    cpu.mem_write_u16(0x0010, 0xabcd);

    assert_eq!(cpu.mem_read(0x0010), 0xcd);
    assert_eq!(cpu.mem_read(0x0011), 0xab);
    assert_eq!(cpu.mem_read_u16(0x0010), 0xabcd);
}

#[test]
fn bytes_are_stored_and_read_back() {
    let mut cpu = Cpu::new();
    cpu.mem_write(0x1234, 0x5a);

    assert_eq!(cpu.mem_read(0x1234), 0x5a);
    assert_eq!(cpu.mem_read(0x1233), 0x00);
    assert_eq!(cpu.mem_read(0x1235), 0x00);
}
