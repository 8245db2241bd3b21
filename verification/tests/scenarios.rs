use chip8::Fault;
use chip8::Instructions;
use chip8::CPU;

#[test]
fn set_add_then_skip() {
    // 0x6A05 sets register 10 to 5; 0x7A03 adds 3 with the flag untouched;
    // 0x3A08 then skips because register 10 equals 8.
    let program = vec![0x6A, 0x05, 0x7A, 0x03, 0x3A, 0x08];
    let mut cpu = CPU::new(&program).unwrap();
    let flag = cpu.registers[15];

    cpu.step(0).unwrap();
    assert_eq!(cpu.registers[10], 0x05);
    assert_eq!(cpu.pc, 0x202);

    cpu.step(0).unwrap();
    assert_eq!(cpu.registers[10], 0x08);
    assert_eq!(cpu.registers[15], flag);
    assert_eq!(cpu.pc, 0x204);

    cpu.step(0).unwrap();
    assert_eq!(cpu.pc, 0x208);
}

#[test]
fn clear_screen_program() {
    // A 2-byte program holding only the clear-screen opcode: one cycle must
    // leave all 2048 cells at 0 and advance the program counter to 0x202.
    let mut cpu = CPU::new(&vec![0x00, 0xE0]).unwrap();
    for i in 0..2048 {
        cpu.gfx[i] = (i % 2) as u8;
    }
    let beep = cpu.step(0).unwrap();
    assert!(!beep);
    assert!(cpu.gfx.iter().all(|&c| c == 0));
    assert_eq!(cpu.pc, 0x202);
}

#[test]
fn call_then_return() {
    // A call to 0x300 from program counter 0x202, then a return: the program
    // counter ends just past the call and the stack is empty again.
    let mut program = vec![0u8; 0x102];
    program[2] = 0x23; // at 0x202: call 0x300
    program[3] = 0x00;
    program[0x100] = 0x00; // at 0x300: return
    program[0x101] = 0xEE;
    let mut cpu = CPU::new(&program).unwrap();
    cpu.pc = 0x202;

    cpu.step(0).unwrap();
    assert_eq!(cpu.pc, 0x300);
    assert_eq!(cpu.stack, vec![0x202]);

    cpu.step(0).unwrap();
    assert_eq!(cpu.pc, 0x204);
    assert_eq!(cpu.stack.len(), 0);
}

fn cell(cpu: &CPU, x: usize, y: usize) -> u8 {
    cpu.gfx[y * 64 + x]
}

#[test]
fn draw_blits_sprite_and_detects_collision() {
    let mut cpu = CPU::new(&Vec::new()).unwrap();
    cpu.mem[0x300] = 0b1100_0001;
    cpu.mem[0x301] = 0b0000_0010;
    cpu.index_reg = 0x300;
    cpu.registers[0] = 10; // column
    cpu.registers[1] = 5; // row
    cpu.execute(Instructions::Display { x: 0, y: 1, value: 2 }, 0).unwrap();
    assert_eq!(cpu.registers[15], 0);
    assert_eq!(cell(&cpu, 10, 5), 1);
    assert_eq!(cell(&cpu, 11, 5), 1);
    assert_eq!(cell(&cpu, 17, 5), 1);
    assert_eq!(cell(&cpu, 16, 6), 1);
    assert_eq!(cell(&cpu, 12, 5), 0);
    assert_eq!(cell(&cpu, 10, 6), 0);

    // Overlapping draw: one shared set pixel flips off and raises the flag.
    cpu.mem[0x310] = 0b1000_0000;
    cpu.index_reg = 0x310;
    cpu.execute(Instructions::Display { x: 0, y: 1, value: 1 }, 0).unwrap();
    assert_eq!(cpu.registers[15], 1);
    assert_eq!(cell(&cpu, 10, 5), 0);
    assert_eq!(cell(&cpu, 11, 5), 1);
}

#[test]
fn draw_twice_restores_the_framebuffer() {
    let mut cpu = CPU::new(&Vec::new()).unwrap();
    for i in 0..2048 {
        cpu.gfx[i] = ((i * 7) % 3 == 0) as u8;
    }
    let before = cpu.gfx.clone();
    cpu.mem[0x300] = 0xA5;
    cpu.mem[0x301] = 0x3C;
    cpu.index_reg = 0x300;
    cpu.registers[2] = 20;
    cpu.registers[3] = 11;
    let d = Instructions::Display { x: 2, y: 3, value: 2 };
    cpu.execute(d, 0).unwrap();
    assert_ne!(cpu.gfx, before);
    cpu.execute(d, 0).unwrap();
    assert_eq!(cpu.gfx, before);
    // The second pass touched cells the first pass had set: collision.
    assert_eq!(cpu.registers[15], 1);
}

#[test]
fn clear_then_draw_is_the_bare_sprite() {
    let mut cpu = CPU::new(&Vec::new()).unwrap();
    for i in 0..2048 {
        cpu.gfx[i] = 1;
    }
    cpu.mem[0x300] = 0b1010_0000;
    cpu.index_reg = 0x300;
    cpu.registers[0] = 3;
    cpu.registers[1] = 4;
    cpu.execute(Instructions::ClearScreen, 0).unwrap();
    cpu.execute(Instructions::Display { x: 0, y: 1, value: 1 }, 0).unwrap();
    assert_eq!(cpu.registers[15], 0);
    for yy in 0..32 {
        for xx in 0..64 {
            let expect = (yy == 4 && (xx == 3 || xx == 5)) as u8;
            assert_eq!(cell(&cpu, xx, yy), expect);
        }
    }
}

#[test]
fn draw_outside_the_grid_is_a_fault() {
    let mut cpu = CPU::new(&Vec::new()).unwrap();
    cpu.mem[0x300] = 0b0000_0001; // rightmost sprite column
    cpu.index_reg = 0x300;
    cpu.registers[0] = 60;
    cpu.registers[1] = 0;
    let before = cpu.gfx.clone();
    assert_eq!(
        cpu.execute(Instructions::Display { x: 0, y: 1, value: 1 }, 0),
        Err(Fault::Screen { x: 60, y: 0 })
    );
    assert_eq!(cpu.gfx, before); // a faulting draw changes nothing

    // The same origin is fine when the set bits stay inside the grid.
    cpu.mem[0x300] = 0b1000_0000;
    cpu.execute(Instructions::Display { x: 0, y: 1, value: 1 }, 0).unwrap();
    assert_eq!(cell(&cpu, 60, 0), 1);
}

#[test]
fn draw_sprite_rows_past_memory_end_is_a_fault() {
    let mut cpu = CPU::new(&Vec::new()).unwrap();
    cpu.index_reg = 4095;
    cpu.registers[0] = 0;
    cpu.registers[1] = 0;
    assert_eq!(
        cpu.execute(Instructions::Display { x: 0, y: 1, value: 2 }, 0),
        Err(Fault::Memory { addr: 4096 })
    );
}

#[test]
fn sound_timer_beeps_on_reaching_one() {
    // The cycle whose decrement takes the sound timer from 2 to 1 beeps.
    let mut cpu = CPU::new(&vec![0x6A, 0x05, 0x6A, 0x06, 0x6A, 0x07]).unwrap();
    cpu.sound_timer = 3;
    cpu.delay_timer = 1;
    assert_eq!(cpu.step(0), Ok(false));
    assert_eq!(cpu.sound_timer, 2);
    assert_eq!(cpu.delay_timer, 0);
    assert_eq!(cpu.step(0), Ok(true));
    assert_eq!(cpu.sound_timer, 1);
    assert_eq!(cpu.step(0), Ok(false));
    assert_eq!(cpu.sound_timer, 0);
}

#[test]
fn waiting_for_a_key_still_ticks_the_timers() {
    let mut cpu = CPU::new(&vec![0xF1, 0x0A]).unwrap();
    cpu.registers[1] = 4;
    cpu.delay_timer = 2;
    cpu.step(0).unwrap();
    assert_eq!(cpu.pc, 0x200); // still on the wait instruction
    assert_eq!(cpu.delay_timer, 1);
    cpu.set_key(4, 1);
    cpu.step(0).unwrap();
    assert_eq!(cpu.pc, 0x202);
    assert_eq!(cpu.delay_timer, 0);
}

#[test]
fn jump_instructions() {
    let mut cpu = CPU::new(&vec![0x1A, 0xBC]).unwrap();
    cpu.step(0).unwrap();
    assert_eq!(cpu.pc, 0xABC);

    let mut cpu = CPU::new(&vec![0xB3, 0x00]).unwrap();
    cpu.registers[0] = 0x21;
    cpu.step(0).unwrap();
    assert_eq!(cpu.pc, 0x321);
}

#[test]
fn random_and_through_a_full_cycle() {
    let mut cpu = CPU::new(&vec![0xC5, 0xF0]).unwrap();
    cpu.step(0b1011_0110).unwrap();
    assert_eq!(cpu.registers[5], 0b1011_0000);
    assert_eq!(cpu.pc, 0x202);
}

#[test]
fn unrecognized_opcode_carries_the_raw_value() {
    let mut cpu = CPU::new(&vec![0xFF, 0xFF]).unwrap();
    let before_pc = cpu.pc;
    assert_eq!(cpu.step(0), Err(Fault::Decode { opcode: 0xFFFF }));
    assert_eq!(cpu.pc, before_pc); // a faulting cycle leaves the machine untouched
}

#[test]
fn fetch_past_memory_end_is_a_fault() {
    let mut cpu = CPU::new(&Vec::new()).unwrap();
    cpu.pc = 4095;
    assert_eq!(cpu.step(0), Err(Fault::Memory { addr: 4096 }));
    assert_eq!(cpu.pc, 4095);
}

#[test]
fn emulate_cycle_runs_a_program() {
    let mut cpu = CPU::new(&vec![0x00, 0xE0, 0x6A, 0x05]).unwrap();
    assert_eq!(cpu.emulate_cycle(), Ok(false));
    assert_eq!(cpu.pc, 0x202);
    assert_eq!(cpu.emulate_cycle(), Ok(false));
    assert_eq!(cpu.registers[10], 0x05);
    assert_eq!(cpu.pc, 0x204);
}

#[test]
fn random_draws_stay_inside_the_mask() {
    let mut cpu = CPU::new(&vec![0xC5, 0x0F, 0x15, 0x00]).unwrap();
    cpu.emulate_cycle().unwrap();
    assert!(cpu.registers[5] <= 0x0F);
}
