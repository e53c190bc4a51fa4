use chip_8_emulator::{Chip8, Chip8Tab, Instruction};

fn machine_with(program: &[u8]) -> Chip8 {
    let mut chip8 = Chip8::new();
    assert!(chip8.load_rom(program));
    chip8
}

fn run(chip8: &mut Chip8, cycles: usize) {
    for _ in 0..cycles {
        chip8.tick();
    }
}

const FONT_ZERO: [u8; 5] = [0xF0, 0x90, 0x90, 0x90, 0xF0];

#[test]
fn new_machine_state() {
    let chip8 = Chip8::new();
    assert_eq!(chip8.pc(), 0x200);
    assert_eq!(chip8.i(), 0);
    assert_eq!(chip8.sp(), 0);
    assert_eq!(chip8.dt(), 0);
    assert_eq!(chip8.st(), 0);
    assert_eq!(chip8.registers(), &[0u8; 16]);
    assert_eq!(&chip8.memory()[0x50..0x55], &FONT_ZERO);
    assert_eq!(&chip8.memory()[0x9B..0xA0], &[0xF0, 0x80, 0xF0, 0x80, 0x80]);
    assert_eq!(chip8.memory()[0x4F], 0);
    assert_eq!(chip8.memory()[0xA0], 0);
    assert!(chip8.display.iter().all(|p| !*p));
    assert!(chip8.keys.iter().all(|k| !*k));
}

#[test]
fn load_font_elsewhere() {
    let mut chip8 = Chip8::new();
    chip8.load_font(0x100);
    assert_eq!(&chip8.memory()[0x100..0x105], &FONT_ZERO);
    assert_eq!(&chip8.memory()[0x50..0x55], &FONT_ZERO);
}

#[test]
fn load_rom_places_program_and_fetch_reads_it() {
    let mut chip8 = Chip8::new();
    assert!(chip8.load_rom(&[0xAB, 0xCD, 0x12]));
    assert_eq!(chip8.memory()[0x200], 0xAB);
    assert_eq!(chip8.memory()[0x202], 0x12);
    assert_eq!(chip8.fetch(), 0xABCD);
    assert_eq!(chip8.pc(), 0x202);
}

#[test]
fn load_rom_that_fills_memory_exactly() {
    let mut chip8 = Chip8::new();
    let rom = vec![7u8; 4096 - 0x200];
    assert!(chip8.load_rom(&rom));
    assert_eq!(chip8.memory()[4095], 7);
}

#[test]
fn load_rom_too_large_is_refused() {
    let mut chip8 = Chip8::new();
    let rom = vec![1u8; 4096 - 0x200 + 1];
    assert!(!chip8.load_rom(&rom));
    assert_eq!(chip8.memory()[0x200], 0);
    assert_eq!(chip8.pc(), 0x200);
}

#[test]
fn decode_every_kind() {
    let chip8 = Chip8::new();
    let cases: [(u16, Instruction); 38] = [
        (0x0123, Instruction::SYS(0x123)),
        (0x00E0, Instruction::CLS),
        (0x00EE, Instruction::RET),
        (0x1ABC, Instruction::JP(0xABC)),
        (0x2ABC, Instruction::CALL(0xABC)),
        (0x3A12, Instruction::SEByte(0xA, 0x12)),
        (0x4A12, Instruction::SNEByte(0xA, 0x12)),
        (0x5AB0, Instruction::SEReg(0xA, 0xB)),
        (0x5AB1, Instruction::Unknown(0x5AB1)),
        (0x6A12, Instruction::LDByte(0xA, 0x12)),
        (0x7A12, Instruction::ADDByte(0xA, 0x12)),
        (0x8AB0, Instruction::LDReg(0xA, 0xB)),
        (0x8AB1, Instruction::OR(0xA, 0xB)),
        (0x8AB2, Instruction::AND(0xA, 0xB)),
        (0x8AB3, Instruction::XOR(0xA, 0xB)),
        (0x8AB4, Instruction::ADDReg(0xA, 0xB)),
        (0x8AB5, Instruction::SUBReg(0xA, 0xB)),
        (0x8AB6, Instruction::SHR(0xA, 0xB)),
        (0x8AB7, Instruction::SUBN(0xA, 0xB)),
        (0x8ABE, Instruction::SHL(0xA, 0xB)),
        (0x8AB8, Instruction::Unknown(0x8AB8)),
        (0x9AB0, Instruction::SNEReg(0xA, 0xB)),
        (0xA123, Instruction::LDI(0x123)),
        (0xB123, Instruction::JPV0(0x123)),
        (0xCA12, Instruction::RND(0xA, 0x12)),
        (0xDAB5, Instruction::DRW(0xA, 0xB, 0x5)),
        (0xEA9E, Instruction::SKP(0xA)),
        (0xEAA1, Instruction::SKNP(0xA)),
        (0xFA07, Instruction::LDVxDT(0xA)),
        (0xFA0A, Instruction::LDVxK(0xA)),
        (0xFA15, Instruction::LDDTVx(0xA)),
        (0xFA18, Instruction::LDSTVx(0xA)),
        (0xFA1E, Instruction::ADDI(0xA)),
        (0xFA29, Instruction::LDF(0xA)),
        (0xFA33, Instruction::LDB(0xA)),
        (0xFA55, Instruction::LDStore(0xA)),
        (0xFA65, Instruction::LDLoad(0xA)),
        (0xFA99, Instruction::Unknown(0xFA99)),
    ];
    for (op, instruction) in cases.iter() {
        assert_eq!(chip8.decode(*op), *instruction);
    }
}

#[test]
fn call_then_ret_resumes_after_the_call() {
    // 0x200: CALL 0x204; 0x202: (return lands here); 0x204: RET
    let mut chip8 = machine_with(&[0x22, 0x04, 0x00, 0x00, 0x00, 0xEE]);
    chip8.tick();
    assert_eq!(chip8.pc(), 0x204);
    assert_eq!(chip8.sp(), 1);
    chip8.tick();
    assert_eq!(chip8.pc(), 0x202);
    assert_eq!(chip8.sp(), 0);
}

#[test]
fn ret_with_empty_stack_does_nothing() {
    let mut chip8 = machine_with(&[0x00, 0xEE]);
    chip8.tick();
    assert_eq!(chip8.pc(), 0x202);
    assert_eq!(chip8.sp(), 0);
}

#[test]
fn jumps() {
    let mut chip8 = machine_with(&[0x12, 0x08]);
    chip8.tick();
    assert_eq!(chip8.pc(), 0x208);
    // V0 = 4; jump to 0x300 + V0
    let mut chip8 = machine_with(&[0x60, 0x04, 0xB3, 0x00]);
    run(&mut chip8, 2);
    assert_eq!(chip8.pc(), 0x304);
}

#[test]
fn skips_move_past_one_instruction() {
    // V1 = 7; SE V1, 7 (taken); skipped; SNE V1, 7 (not taken)
    let mut chip8 = machine_with(&[0x61, 0x07, 0x31, 0x07, 0x00, 0x00, 0x41, 0x07]);
    run(&mut chip8, 2);
    assert_eq!(chip8.pc(), 0x206);
    chip8.tick();
    assert_eq!(chip8.pc(), 0x208);
    // V1 = 7, V2 = 7: SE V1, V2 taken, then SNE V1, V2 not taken
    let mut chip8 = machine_with(&[0x61, 0x07, 0x62, 0x07, 0x51, 0x20, 0x00, 0x00, 0x91, 0x20]);
    run(&mut chip8, 3);
    assert_eq!(chip8.pc(), 0x208);
    chip8.tick();
    assert_eq!(chip8.pc(), 0x20A);
}

#[test]
fn add_with_carry() {
    // V0 = 200, V1 = 100, V0 += V1
    let mut chip8 = machine_with(&[0x60, 200, 0x61, 100, 0x80, 0x14]);
    run(&mut chip8, 3);
    assert_eq!(chip8.registers()[0], 44);
    assert_eq!(chip8.registers()[0xF], 1);
    let mut chip8 = machine_with(&[0x60, 20, 0x61, 100, 0x80, 0x14]);
    run(&mut chip8, 3);
    assert_eq!(chip8.registers()[0], 120);
    assert_eq!(chip8.registers()[0xF], 0);
}

#[test]
fn add_byte_wraps_without_flag() {
    let mut chip8 = machine_with(&[0x60, 250, 0x70, 10]);
    run(&mut chip8, 2);
    assert_eq!(chip8.registers()[0], 4);
    assert_eq!(chip8.registers()[0xF], 0);
}

#[test]
fn subtract_with_borrow() {
    // V0 = 5, V1 = 10, V0 -= V1
    let mut chip8 = machine_with(&[0x60, 5, 0x61, 10, 0x80, 0x15]);
    run(&mut chip8, 3);
    assert_eq!(chip8.registers()[0], 251);
    assert_eq!(chip8.registers()[0xF], 0);
    // V0 = 10, V1 = 5, V0 = V1 - V0
    let mut chip8 = machine_with(&[0x60, 10, 0x61, 5, 0x80, 0x17]);
    run(&mut chip8, 3);
    assert_eq!(chip8.registers()[0], 251);
    assert_eq!(chip8.registers()[0xF], 0);
    let mut chip8 = machine_with(&[0x60, 10, 0x61, 5, 0x80, 0x15]);
    run(&mut chip8, 3);
    assert_eq!(chip8.registers()[0], 5);
    assert_eq!(chip8.registers()[0xF], 1);
}

#[test]
fn shifts_and_logic() {
    // V0 = 0b1000_0011; SHR; SHL
    let mut chip8 = machine_with(&[0x60, 0x83, 0x80, 0x06]);
    run(&mut chip8, 2);
    assert_eq!(chip8.registers()[0], 0x41);
    assert_eq!(chip8.registers()[0xF], 1);
    let mut chip8 = machine_with(&[0x60, 0x83, 0x80, 0x0E]);
    run(&mut chip8, 2);
    assert_eq!(chip8.registers()[0], 0x06);
    assert_eq!(chip8.registers()[0xF], 1);
    // V0 = 0x0C, V1 = 0x0A: OR, AND, XOR, LD
    let mut chip8 = machine_with(&[0x60, 0x0C, 0x61, 0x0A, 0x80, 0x11]);
    run(&mut chip8, 3);
    assert_eq!(chip8.registers()[0], 0x0E);
    let mut chip8 = machine_with(&[0x60, 0x0C, 0x61, 0x0A, 0x80, 0x12]);
    run(&mut chip8, 3);
    assert_eq!(chip8.registers()[0], 0x08);
    let mut chip8 = machine_with(&[0x60, 0x0C, 0x61, 0x0A, 0x80, 0x13]);
    run(&mut chip8, 3);
    assert_eq!(chip8.registers()[0], 0x06);
    let mut chip8 = machine_with(&[0x60, 0x0C, 0x61, 0x0A, 0x80, 0x10]);
    run(&mut chip8, 3);
    assert_eq!(chip8.registers()[0], 0x0A);
}

#[test]
fn index_register_instructions() {
    // I = 0x123; V2 = 5; I += V2
    let mut chip8 = machine_with(&[0xA1, 0x23, 0x62, 0x05, 0xF2, 0x1E]);
    run(&mut chip8, 3);
    assert_eq!(chip8.i(), 0x128);
}

#[test]
fn font_glyph_address() {
    // V0 = 0xA; I = glyph of V0
    let mut chip8 = machine_with(&[0x60, 0x0A, 0xF0, 0x29]);
    run(&mut chip8, 2);
    let i = chip8.i() as usize;
    assert_eq!(i, 0x50 + 50);
    assert_eq!(&chip8.memory()[i..i + 5], &[0xF0, 0x90, 0xF0, 0x90, 0x90]);
}

#[test]
fn bcd_of_register() {
    // V0 = 234; I = 0x300; BCD V0
    let mut chip8 = machine_with(&[0x60, 234, 0xA3, 0x00, 0xF0, 0x33]);
    run(&mut chip8, 3);
    assert_eq!(&chip8.memory()[0x300..0x303], &[2, 3, 4]);
    // I = 0xFFE: the three digits would not fit, nothing is written
    let mut chip8 = machine_with(&[0x60, 234, 0xAF, 0xFE, 0xF0, 0x33]);
    run(&mut chip8, 3);
    assert_eq!(chip8.memory()[0xFFE], 0);
    assert_eq!(chip8.memory()[0xFFF], 0);
}

#[test]
fn store_then_load_registers() {
    // V0 = 1, V1 = 2, I = 0x300, store V0..V1, V0 = 9, V1 = 9, load V0..V1
    let mut chip8 = machine_with(&[
        0x60, 0x01, 0x61, 0x02, 0xA3, 0x00, 0xF1, 0x55, 0x60, 0x09, 0x61, 0x09, 0xF1, 0x65,
    ]);
    run(&mut chip8, 4);
    assert_eq!(&chip8.memory()[0x300..0x303], &[1, 2, 0]);
    run(&mut chip8, 2);
    assert_eq!(chip8.registers()[0], 9);
    chip8.tick();
    assert_eq!(chip8.registers()[0], 1);
    assert_eq!(chip8.registers()[1], 2);
}

#[test]
fn store_past_memory_end_writes_nothing() {
    // V0 = 1, V1 = 2, I = 0xFFF, store V0..V1 (would need two bytes)
    let mut chip8 = machine_with(&[0x60, 0x01, 0x61, 0x02, 0xAF, 0xFF, 0xF1, 0x55]);
    run(&mut chip8, 4);
    assert_eq!(chip8.memory()[0xFFF], 0);
}

#[test]
fn draw_twice_erases_and_reports_collision() {
    // V0 = 0; I = glyph 0; draw 5 rows at (V0, V0), twice
    let mut chip8 = machine_with(&[0x60, 0x00, 0xF0, 0x29, 0xD0, 0x05, 0xD0, 0x05]);
    run(&mut chip8, 3);
    assert_eq!(chip8.registers()[0xF], 0);
    assert!(chip8.display[0]);
    assert!(chip8.display[3]);
    assert!(!chip8.display[4]);
    assert!(chip8.display[64]);
    assert!(!chip8.display[65]);
    assert_eq!(chip8.display.iter().filter(|p| **p).count(), 14);
    chip8.tick();
    assert_eq!(chip8.registers()[0xF], 1);
    assert!(chip8.display.iter().all(|p| !*p));
}

#[test]
fn draw_wraps_around_the_edges() {
    // V0 = 62, V1 = 31; I = glyph 0; draw 2 rows at (V0, V1)
    let mut chip8 = machine_with(&[0x60, 62, 0x61, 31, 0xF2, 0x29, 0xD0, 0x12]);
    run(&mut chip8, 4);
    // first row 0xF0 lands at x = 62, 63, 0, 1 of row 31
    assert!(chip8.display[31 * 64 + 62]);
    assert!(chip8.display[31 * 64 + 63]);
    assert!(chip8.display[31 * 64]);
    assert!(chip8.display[31 * 64 + 1]);
    assert!(!chip8.display[31 * 64 + 2]);
    // second row 0x90 lands on row 0: x = 62 and x = 1
    assert!(chip8.display[62]);
    assert!(!chip8.display[63]);
    assert!(!chip8.display[0]);
    assert!(chip8.display[1]);
    assert_eq!(chip8.registers()[0xF], 0);
}

#[test]
fn clear_screen() {
    let mut chip8 = machine_with(&[0x60, 0x00, 0xF0, 0x29, 0xD0, 0x05, 0x00, 0xE0]);
    run(&mut chip8, 3);
    assert!(chip8.display.iter().any(|p| *p));
    chip8.tick();
    assert!(chip8.display.iter().all(|p| !*p));
}

#[test]
fn keys_skip_and_wait() {
    // V0 = 3; SKP V0; ...; SKNP V0
    let mut chip8 = machine_with(&[0x60, 0x03, 0xE0, 0x9E, 0x00, 0x00, 0xE0, 0xA1]);
    chip8.keys[3] = true;
    run(&mut chip8, 2);
    assert_eq!(chip8.pc(), 0x206);
    chip8.tick();
    assert_eq!(chip8.pc(), 0x208);

    // wait for a key in V5: with none down the same instruction runs again
    let mut chip8 = machine_with(&[0xF5, 0x0A]);
    chip8.tick();
    assert_eq!(chip8.pc(), 0x200);
    chip8.keys[9] = true;
    chip8.keys[7] = true;
    chip8.tick();
    assert_eq!(chip8.pc(), 0x202);
    assert_eq!(chip8.registers()[5], 7);
}

#[test]
fn timers_count_down_to_zero() {
    // V0 = 2; DT = V0; ST = V0; V1 = DT
    let mut chip8 = machine_with(&[0x60, 0x02, 0xF0, 0x15, 0xF0, 0x18, 0xF1, 0x07]);
    run(&mut chip8, 4);
    assert_eq!(chip8.registers()[1], 2);
    assert_eq!(chip8.dt(), 2);
    assert_eq!(chip8.st(), 2);
    chip8.update_timers();
    assert_eq!(chip8.dt(), 1);
    chip8.update_timers();
    chip8.update_timers();
    assert_eq!(chip8.dt(), 0);
    assert_eq!(chip8.st(), 0);
}

#[test]
fn random_byte_is_masked() {
    let mut chip8 = Chip8::new();
    chip8.execute_with_random(Instruction::RND(2, 0x0F), 0xAB);
    assert_eq!(chip8.registers()[2], 0x0B);
    chip8.execute(Instruction::RND(3, 0x00));
    assert_eq!(chip8.registers()[3], 0);
    for _ in 0..20 {
        chip8.execute(Instruction::RND(4, 0x0F));
        assert!(chip8.registers()[4] <= 0x0F);
    }
}

#[test]
fn unknown_and_sys_change_nothing() {
    let mut chip8 = machine_with(&[0x01, 0x23, 0x5A, 0xB1]);
    run(&mut chip8, 2);
    assert_eq!(chip8.pc(), 0x204);
    assert_eq!(chip8.registers(), &[0u8; 16]);
}

#[test]
fn reset_keeps_memory_and_keys() {
    let mut chip8 = machine_with(&[0x60, 0x05, 0xA3, 0x00, 0x22, 0x08]);
    chip8.keys[2] = true;
    run(&mut chip8, 3);
    chip8.reset();
    assert_eq!(chip8.pc(), 0x200);
    assert_eq!(chip8.i(), 0);
    assert_eq!(chip8.sp(), 0);
    assert_eq!(chip8.registers(), &[0u8; 16]);
    assert_eq!(chip8.memory()[0x200], 0x60);
    assert_eq!(&chip8.memory()[0x50..0x55], &FONT_ZERO);
    assert!(chip8.keys[2]);
}

#[test]
fn console_frame_shows_pixels() {
    let mut chip8 = Chip8::new();
    chip8.display[0] = true;
    chip8.display[64 + 63] = true;
    let frame = chip8.console_frame();
    assert_eq!(frame.len(), 4 + 32 * 65);
    assert_eq!(&frame[0..4], &['\u{1b}', '[', '2', 'J']);
    assert_eq!(frame[4], '\u{2588}');
    assert_eq!(frame[5], ' ');
    assert_eq!(frame[4 + 64], '\n');
    assert_eq!(frame[4 + 65 + 63], '\u{2588}');
    assert_eq!(frame[4 + 65 + 64], '\n');
    assert_eq!(frame.iter().filter(|c| **c == '\u{2588}').count(), 2);
}

#[test]
fn tab_titles() {
    assert_eq!(Chip8Tab::CentralDisplay.title(), "Chip 8");
    assert_eq!(Chip8Tab::Controls.title(), "Controls");
    assert_eq!(Chip8Tab::Registers.title(), "Registers");
    assert_eq!(Chip8Tab::MemoryViewer.title(), "Memory");
    assert_eq!(Chip8Tab::InstructionHistory.title(), "Instruction History");
}

#[test]
fn arithmetic_flag_wins_when_destination_is_vf() {
    let mut chip8 = Chip8::new();
    chip8.execute(Instruction::LDByte(0xF, 0xFF));
    chip8.execute(Instruction::LDByte(0x0, 0x01));
    chip8.execute(Instruction::ADDReg(0xF, 0x0));
    assert_eq!(chip8.registers()[0xF], 1);

    let mut chip8 = Chip8::new();
    chip8.execute(Instruction::LDByte(0xF, 0x05));
    chip8.execute(Instruction::LDByte(0x0, 0x01));
    chip8.execute(Instruction::SUBReg(0xF, 0x0));
    assert_eq!(chip8.registers()[0xF], 1);

    let mut chip8 = Chip8::new();
    chip8.execute(Instruction::LDByte(0xF, 0x05));
    chip8.execute(Instruction::LDByte(0x0, 0x01));
    chip8.execute(Instruction::SUBN(0xF, 0x0));
    assert_eq!(chip8.registers()[0xF], 0);
}

#[test]
fn timers_count_down_k_times() {
    let mut chip8 = Chip8::new();
    chip8.execute(Instruction::LDByte(0x0, 5));
    chip8.execute(Instruction::LDDTVx(0x0));
    chip8.execute(Instruction::LDByte(0x0, 255));
    chip8.execute(Instruction::LDSTVx(0x0));
    for _ in 0..3 {
        chip8.update_timers();
    }
    assert_eq!(chip8.dt(), 2);
    assert_eq!(chip8.st(), 252);
    for _ in 0..252 {
        chip8.update_timers();
    }
    assert_eq!(chip8.dt(), 0);
    assert_eq!(chip8.st(), 0);
}

#[test]
fn display_keys_and_gray_pixels() {
    let mut chip8 = Chip8::new();
    chip8.set_key(0xA, true);
    assert!(chip8.keys[0xA]);
    chip8.set_key(0xA, false);
    assert!(!chip8.keys[0xA]);
    // V0 = 0; I = glyph 0; draw 1 row at (0, 0)
    chip8.execute(Instruction::LDByte(0x0, 0));
    chip8.execute(Instruction::LDF(0x0));
    chip8.execute(Instruction::DRW(0x0, 0x0, 1));
    assert!(chip8.display()[0]);
    assert!(!chip8.display()[4]);
    let gray = chip8.gray_pixels();
    assert_eq!(gray.len(), 2048);
    assert_eq!(&gray[0..5], &[255, 255, 255, 255, 0]);
    assert_eq!(gray.iter().filter(|g| **g == 255).count(), 4);
}
