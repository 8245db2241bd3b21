use chip8::Fault;
use chip8::Instructions;
use chip8::CPU;

fn fresh() -> CPU {
    CPU::new(&Vec::new()).unwrap()
}

#[test]
fn loads_glyphs_and_program() {
    let cpu = CPU::new(&vec![0xAB, 0xCD]).unwrap();
    assert_eq!(&cpu.mem[0..5], &[0xF0, 0x90, 0x90, 0x90, 0xF0]);
    assert_eq!(&cpu.mem[75..80], &[0xF0, 0x80, 0xF0, 0x80, 0x80]);
    assert_eq!(cpu.mem[0x1FF], 0);
    assert_eq!(cpu.mem[0x200], 0xAB);
    assert_eq!(cpu.mem[0x201], 0xCD);
    assert_eq!(cpu.mem[0x202], 0);
    assert_eq!(cpu.pc, 0x200);
    assert_eq!(cpu.index_reg, 0);
    assert_eq!(cpu.registers, vec![0u8; 16]);
    assert_eq!(cpu.keys, vec![0u8; 16]);
    assert_eq!(cpu.gfx, vec![0u8; 2048]);
    assert!(cpu.stack.is_empty());
}

#[test]
fn rejects_oversized_program() {
    let big = vec![0u8; 3585];
    assert!(matches!(CPU::new(&big), Err(Fault::Oversize { len: 3585 })));
    let just_fits = vec![0u8; 3584];
    assert!(CPU::new(&just_fits).is_ok());
}

#[test]
fn add_sets_carry_iff_sum_exceeds_255() {
    let mut cpu = fresh();
    cpu.registers[1] = 200;
    cpu.registers[2] = 100;
    cpu.execute(Instructions::AssignAddValue { x: 1, y: 2 }, 0).unwrap();
    assert_eq!(cpu.registers[1], 44); // (200 + 100) mod 256
    assert_eq!(cpu.registers[15], 1);

    cpu.registers[1] = 200;
    cpu.registers[2] = 55;
    cpu.execute(Instructions::AssignAddValue { x: 1, y: 2 }, 0).unwrap();
    assert_eq!(cpu.registers[1], 255);
    assert_eq!(cpu.registers[15], 0);
}

#[test]
fn sub_sets_flag_iff_no_borrow() {
    let mut cpu = fresh();
    cpu.registers[1] = 10;
    cpu.registers[2] = 10;
    cpu.execute(Instructions::AssignSubValue { x: 1, y: 2 }, 0).unwrap();
    assert_eq!(cpu.registers[1], 0);
    assert_eq!(cpu.registers[15], 1); // 10 >= 10: no borrow

    cpu.registers[1] = 5;
    cpu.registers[2] = 7;
    cpu.execute(Instructions::AssignSubValue { x: 1, y: 2 }, 0).unwrap();
    assert_eq!(cpu.registers[1], 254); // (5 - 7) mod 256
    assert_eq!(cpu.registers[15], 0);
}

#[test]
fn minus_sets_flag_iff_no_borrow() {
    let mut cpu = fresh();
    cpu.registers[1] = 7;
    cpu.registers[2] = 5;
    cpu.execute(Instructions::AssignMinusValue { x: 1, y: 2 }, 0).unwrap();
    assert_eq!(cpu.registers[1], 254); // (5 - 7) mod 256
    assert_eq!(cpu.registers[15], 0);

    cpu.registers[1] = 3;
    cpu.registers[2] = 9;
    cpu.execute(Instructions::AssignMinusValue { x: 1, y: 2 }, 0).unwrap();
    assert_eq!(cpu.registers[1], 6);
    assert_eq!(cpu.registers[15], 1);
}

#[test]
fn shift_right_keeps_low_bit_in_flag() {
    let mut cpu = fresh();
    cpu.registers[3] = 0b1010_0101;
    cpu.execute(Instructions::ShiftRight { x: 3 }, 0).unwrap();
    assert_eq!(cpu.registers[3], 0b0101_0010);
    assert_eq!(cpu.registers[15], 1);

    cpu.registers[3] = 0b0000_0010;
    cpu.execute(Instructions::ShiftRight { x: 3 }, 0).unwrap();
    assert_eq!(cpu.registers[3], 1);
    assert_eq!(cpu.registers[15], 0);
}

#[test]
fn shift_left_keeps_high_bit_in_flag() {
    let mut cpu = fresh();
    cpu.registers[3] = 0b1010_0101;
    cpu.execute(Instructions::ShiftLeft { x: 3 }, 0).unwrap();
    assert_eq!(cpu.registers[3], 0b0100_1010);
    assert_eq!(cpu.registers[15], 1);

    cpu.registers[3] = 0b0011_0000;
    cpu.execute(Instructions::ShiftLeft { x: 3 }, 0).unwrap();
    assert_eq!(cpu.registers[3], 0b0110_0000);
    assert_eq!(cpu.registers[15], 0);
}

#[test]
fn bitwise_ops() {
    let mut cpu = fresh();
    cpu.registers[1] = 0b1100;
    cpu.registers[2] = 0b1010;
    cpu.execute(Instructions::AssignOrValue { x: 1, y: 2 }, 0).unwrap();
    assert_eq!(cpu.registers[1], 0b1110);
    cpu.registers[1] = 0b1100;
    cpu.execute(Instructions::AssignAndValue { x: 1, y: 2 }, 0).unwrap();
    assert_eq!(cpu.registers[1], 0b1000);
    cpu.registers[1] = 0b1100;
    cpu.execute(Instructions::AssignXorValue { x: 1, y: 2 }, 0).unwrap();
    assert_eq!(cpu.registers[1], 0b0110);
}

#[test]
fn add_immediate_wraps_and_keeps_flag() {
    let mut cpu = fresh();
    cpu.registers[0] = 250;
    cpu.registers[15] = 7;
    cpu.execute(Instructions::AddValueToReg { x: 0, value: 10 }, 0).unwrap();
    assert_eq!(cpu.registers[0], 4); // (250 + 10) mod 256
    assert_eq!(cpu.registers[15], 7); // the immediate add never touches the flag
}

#[test]
fn random_and_masks_the_drawn_byte() {
    let mut cpu = fresh();
    cpu.execute(Instructions::RandomAnd { x: 4, value: 0x0F }, 0b1011_0110).unwrap();
    assert_eq!(cpu.registers[4], 0b0110);
}

#[test]
fn bcd_writes_three_digits() {
    let mut cpu = fresh();
    cpu.registers[6] = 234;
    cpu.index_reg = 0x300;
    cpu.execute(Instructions::BCD { x: 6 }, 0).unwrap();
    assert_eq!(&cpu.mem[0x300..0x303], &[2, 3, 4]);
    assert_eq!(cpu.index_reg, 0x300); // the decimal store leaves the index alone
}

#[test]
fn reg_dump_and_load_round_trip() {
    let mut cpu = fresh();
    for i in 0..16 {
        cpu.registers[i] = (i as u8) * 3 + 1;
    }
    let saved = cpu.registers.clone();
    cpu.index_reg = 0x250;
    cpu.execute(Instructions::RegDump { x: 7 }, 0).unwrap();
    assert_eq!(cpu.index_reg, 0x258); // incremented by x + 1
    assert_eq!(&cpu.mem[0x250..0x258], &saved[0..8]);

    for i in 0..8 {
        cpu.registers[i] = 0xEE;
    }
    cpu.index_reg = 0x250;
    cpu.execute(Instructions::RegLoad { x: 7 }, 0).unwrap();
    assert_eq!(cpu.index_reg, 0x258);
    assert_eq!(cpu.registers, saved);
}

#[test]
fn index_register_instructions() {
    let mut cpu = fresh();
    cpu.execute(Instructions::SetMem { value: 0x123 }, 0).unwrap();
    assert_eq!(cpu.index_reg, 0x123);
    cpu.registers[2] = 7;
    cpu.execute(Instructions::SetIFromReg { x: 2 }, 0).unwrap();
    assert_eq!(cpu.index_reg, 0x12A);
    cpu.registers[3] = 0xB;
    cpu.execute(Instructions::SetIFromSprite { x: 3 }, 0).unwrap();
    assert_eq!(cpu.index_reg, 55); // glyph B sits at 11 * 5
}

#[test]
fn timers_and_keys() {
    let mut cpu = fresh();
    cpu.registers[1] = 42;
    cpu.execute(Instructions::SetDelayTimerToReg { x: 1 }, 0).unwrap();
    assert_eq!(cpu.delay_timer, 42);
    cpu.execute(Instructions::SetSoundTimerTOReg { x: 1 }, 0).unwrap();
    assert_eq!(cpu.sound_timer, 42);
    cpu.execute(Instructions::SetValueToDelayTimer { x: 2 }, 0).unwrap();
    assert_eq!(cpu.registers[2], 42);

    cpu.set_key(5, 1);
    assert_eq!(cpu.keys[5], 1);
    cpu.registers[0] = 5;
    let pc = cpu.pc;
    cpu.execute(Instructions::PressedKey { x: 0 }, 0).unwrap();
    assert_eq!(cpu.pc, pc + 4);
    let pc = cpu.pc;
    cpu.execute(Instructions::NotPressedKey { x: 0 }, 0).unwrap();
    assert_eq!(cpu.pc, pc + 2);
    cpu.set_key(5, 0);
    let pc = cpu.pc;
    cpu.execute(Instructions::WaitForKey { x: 0 }, 0).unwrap();
    assert_eq!(cpu.pc, pc); // waits in place until key 5 is pressed
    cpu.set_key(5, 1);
    cpu.execute(Instructions::WaitForKey { x: 0 }, 0).unwrap();
    assert_eq!(cpu.pc, pc + 2);
}

#[test]
fn key_instruction_rejects_bad_slot() {
    let mut cpu = fresh();
    cpu.registers[0] = 20;
    assert_eq!(
        cpu.execute(Instructions::PressedKey { x: 0 }, 0),
        Err(Fault::Key { index: 20 })
    );
    assert_eq!(
        cpu.execute(Instructions::WaitForKey { x: 0 }, 0),
        Err(Fault::Key { index: 20 })
    );
}

#[test]
fn stack_faults() {
    let mut cpu = fresh();
    assert_eq!(
        cpu.execute(Instructions::Return, 0),
        Err(Fault::StackUnderflow)
    );
    for _ in 0..16 {
        cpu.execute(Instructions::CallSub(0x300), 0).unwrap();
        cpu.pc = 0x300;
    }
    assert_eq!(cpu.stack.len(), 16);
    assert_eq!(
        cpu.execute(Instructions::CallSub(0x300), 0),
        Err(Fault::StackOverflow)
    );
}

#[test]
fn memory_faults_carry_first_bad_address() {
    let mut cpu = fresh();
    cpu.index_reg = 4094;
    assert_eq!(
        cpu.execute(Instructions::BCD { x: 0 }, 0),
        Err(Fault::Memory { addr: 4096 })
    );
    cpu.index_reg = 4090;
    assert_eq!(
        cpu.execute(Instructions::RegDump { x: 9 }, 0),
        Err(Fault::Memory { addr: 4096 })
    );
    assert_eq!(
        cpu.execute(Instructions::RegLoad { x: 9 }, 0),
        Err(Fault::Memory { addr: 4096 })
    );
    let mut cpu = fresh();
    cpu.pc = 4095;
    assert_eq!(cpu.fetch_opcode(), Err(Fault::Memory { addr: 4096 }));
}
