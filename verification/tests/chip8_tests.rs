use chip_8_emulator::{Chip8, Instruction};

#[test]
fn basic_cpu_test() {
    let mut test_chip8 = Chip8::new();

    let test_rom: [u8; 6] = [0x00, 0xE0, 0x00, 0xEE, 0x12, 0x00];
    test_chip8.load_rom(&test_rom);

    let op_list: [u16; 3] = [0x00E0, 0x00EE, 0x1200];
    let instruction_list = [Instruction::CLS, Instruction::RET, Instruction::JP(0x200)];

    for i in 0..3 {
        let op = test_chip8.fetch();
        assert_eq!(op, op_list[i]);

        let instruction = test_chip8.decode(op);
        assert_eq!(instruction, instruction_list[i]);
    }
}

#[test]
fn fetch_test() {
    let mut chip8 = Chip8::new();

    let rom: [u8; 8] = [0x60, 0x05, 0x70, 0x01, 0x30, 0x0F, 0x12, 0x02];
    chip8.load_rom(&rom);

    let op_list: [u16; 4] = [0x6005, 0x7001, 0x300F, 0x1202];

    for i in 0..4 {
        assert_eq!(chip8.fetch(), op_list[i]);
    }
}

#[test]
fn decode_test() {
    let chip8 = Chip8::new();

    let op_list: [u16; 4] = [0x6005, 0x7001, 0x300F, 0x1202];
    let instruction_list: [Instruction; 4] = [
        Instruction::LDByte(0x0, 0x5),
        Instruction::ADDByte(0x0, 0x01),
        Instruction::SEByte(0x0, 0x0F),
        Instruction::JP(0x202),
    ];

    for i in 0..4 {
        assert_eq!(chip8.decode(op_list[i]), instruction_list[i]);
    }
}

#[test]
fn execute_test() {
    let mut chip8 = Chip8::new();

    let rom: [u8; 8] = [0x60, 0x05, 0x70, 0x01, 0x30, 0x0F, 0x12, 0x02];
    chip8.load_rom(&rom);

    let mut count = 0;
    loop {
        chip8.tick();
        count += 1;
        if chip8.fetch() == 0x0000 {
            break;
        } else {
            // Fetch goes forward so we need to go back
            chip8.pc -= 2;
        }
    }

    assert_eq!(count, 30);
}
