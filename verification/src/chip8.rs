//! The CHIP-8 machine: memory, registers, stack, timers, display and keypad.
use vstd::prelude::*;

mod execute;

use crate::instruction::{decode_spec, op_addr, op_byte, op_group, op_n, op_x, op_y, Instruction};
use crate::machine::{
    clear_screen_seq, console_char, console_frame_spec, CONSOLE_LINE, DISPLAY_HEIGHT, DISPLAY_WIDTH,
    font_spec, initial_state, write_block, Chip8View, DEFAULT_FONT_ADDR, DISPLAY_SIZE, FONT_SIZE,
    GENERAL_REGISTER_COUNT, KEY_COUNT, MEMORY_SIZE, PROGRAM_START_ADDR, STACK_SIZE,
};

verus! {

/// A CHIP-8 machine.
pub struct Chip8 {
    memory: [u8; MEMORY_SIZE],
    /// General registers `V0`..`VF`.
    v: [u8; GENERAL_REGISTER_COUNT],
    /// The index register `I`.
    i: u16,
    /// The program counter.
    pub pc: u16,
    stack: [u16; STACK_SIZE],
    /// The stack pointer.
    sp: u8,
    /// The delay timer.
    dt: u8,
    /// The sound timer.
    st: u8,
    /// Pixel buffer, 64 pixels per row, 32 rows.
    pub display: [bool; DISPLAY_SIZE],
    /// Which keys of the keypad are down.
    pub keys: [bool; KEY_COUNT],
}

impl View for Chip8 {
    type V = Chip8View;

    closed spec fn view(&self) -> Chip8View {
        Chip8View {
            memory: self.memory@,
            v: self.v@,
            i: self.i,
            pc: self.pc,
            stack: self.stack@,
            sp: self.sp,
            dt: self.dt,
            st: self.st,
            display: self.display@,
            keys: self.keys@,
        }
    }
}

impl Chip8 {
    /// The model of a machine has the machine's sizes.
    pub proof fn lemma_view_well_sized(&self)
        ensures
            self@.well_sized(),
    {
    }
}

/// The built-in hexadecimal font.
fn default_font() -> (font: [u8; FONT_SIZE])
    ensures
        font@ == font_spec(),
{
    let font: [u8; FONT_SIZE] = [
        0xF0, 0x90, 0x90, 0x90, 0xF0, // 0
        0x20, 0x60, 0x20, 0x20, 0x70, // 1
        0xF0, 0x10, 0xF0, 0x80, 0xF0, // 2
        0xF0, 0x10, 0xF0, 0x10, 0xF0, // 3
        0x90, 0x90, 0xF0, 0x10, 0x10, // 4
        0xF0, 0x80, 0xF0, 0x10, 0xF0, // 5
        0xF0, 0x80, 0xF0, 0x90, 0xF0, // 6
        0xF0, 0x10, 0x20, 0x40, 0x40, // 7
        0xF0, 0x90, 0xF0, 0x90, 0xF0, // 8
        0xF0, 0x90, 0xF0, 0x10, 0xF0, // 9
        0xF0, 0x90, 0xF0, 0x90, 0x90, // A
        0xE0, 0x90, 0xE0, 0x90, 0xE0, // B
        0xF0, 0x80, 0x80, 0x80, 0xF0, // C
        0xE0, 0x90, 0x90, 0x90, 0xE0, // D
        0xF0, 0x80, 0xF0, 0x80, 0xF0, // E
        0xF0, 0x80, 0xF0, 0x80, 0x80, // F
    ];
    assert(font@ =~= font_spec());
    font
}

impl Chip8 {
    /// A machine with the font loaded at `0x50`, the program counter at `0x200` and
    /// everything else zero.
    pub fn new() -> (cpu: Self)
        ensures
            cpu@ == initial_state(),
    {
        let mut cpu = Self {
            memory: [0; MEMORY_SIZE],
            v: [0; GENERAL_REGISTER_COUNT],
            i: 0,
            pc: PROGRAM_START_ADDR,
            stack: [0; STACK_SIZE],
            sp: 0,
            dt: 0,
            st: 0,
            display: [false; DISPLAY_SIZE],
            keys: [false; KEY_COUNT],
        };
        cpu.load_font(DEFAULT_FONT_ADDR);
        assert(cpu@ =~= initial_state());
        cpu
    }

    /// Copies the built-in font into memory from `location` on.
    pub fn load_font(&mut self, location: usize)
        requires
            location + FONT_SIZE <= MEMORY_SIZE,
        ensures
            final(self)@ == (Chip8View { memory: write_block(old(self)@.memory, location as int, font_spec()), ..old(self)@ }),
    {
        let font = default_font();
        let mut k: usize = 0;
        while k < FONT_SIZE
            invariant
                location + FONT_SIZE <= MEMORY_SIZE,
                k <= FONT_SIZE,
                font@ == font_spec(),
                self@ == (Chip8View { memory: write_block(old(self)@.memory, location as int, font_spec().take(k as int)), ..old(self)@ }),
            decreases FONT_SIZE - k,
        {
            self.memory[location + k] = font[k];
            k += 1;
            assert(self.memory@ =~= write_block(old(self)@.memory, location as int, font_spec().take(k as int)));
        }
        assert(font_spec().take(FONT_SIZE as int) =~= font_spec());
    }

    /// Copies a program into memory at `0x200`; refuses, leaving the machine as it was,
    /// when it does not fit.
    pub fn load_rom(&mut self, data: &[u8]) -> (loaded: bool)
        ensures
            loaded == (PROGRAM_START_ADDR + data@.len() <= MEMORY_SIZE),
            loaded ==> final(self)@ == (Chip8View {
                memory: write_block(old(self)@.memory, PROGRAM_START_ADDR as int, data@),
                ..old(self)@
            }),
            !loaded ==> final(self)@ == old(self)@,
    {
        let start = PROGRAM_START_ADDR as usize;
        if data.len() <= MEMORY_SIZE - start {
            let mut k: usize = 0;
            while k < data.len()
                invariant
                    start == PROGRAM_START_ADDR,
                    start + data@.len() <= MEMORY_SIZE,
                    k <= data@.len(),
                    self@ == (Chip8View { memory: write_block(old(self)@.memory, start as int, data@.take(k as int)), ..old(self)@ }),
                decreases data@.len() - k,
            {
                self.memory[start + k] = data[k];
                k += 1;
                assert(self.memory@ =~= write_block(old(self)@.memory, start as int, data@.take(k as int)));
            }
            assert(data@.take(data@.len() as int) =~= data@);
            true
        } else {
            false
        }
    }

    /// Reads the big-endian opcode at the program counter and moves past it.
    pub fn fetch(&mut self) -> (op: u16)
        requires
            old(self)@.can_fetch(),
        ensures
            op == old(self)@.fetched_op(),
            final(self)@ == old(self)@.after_fetch(),
    {
        let op_byte1 = self.memory[self.pc as usize];
        let op_byte2 = self.memory[(self.pc + 1) as usize];
        let op = ((op_byte1 as u16) << 8) | op_byte2 as u16;
        assert(op == (op_byte1 * 256 + op_byte2) as u16) by (bit_vector)
            requires
                op == ((op_byte1 as u16) << 8) | op_byte2 as u16,
        ;
        self.pc += 2;
        op
    }

    /// Splits an opcode into its instruction.
    pub fn decode(&self, op: u16) -> (instruction: Instruction)
        ensures
            instruction == decode_spec(op),
    {
        let n1 = ((op & 0xF000) >> 12) as u8;
        let x = ((op & 0x0F00) >> 8) as u8;
        let y = ((op & 0x00F0) >> 4) as u8;
        let n4 = (op & 0x000F) as u8;
        let nnn = op & 0x0fff;
        let kk: u8 = (op & 0xff) as u8;
        proof {
            assert(n1 == op_group(op) && x == op_x(op) && y == op_y(op) && n4 == op_n(op)
                && nnn == op_addr(op) && kk == op_byte(op)) by (bit_vector)
                requires
                    n1 == ((op & 0xF000) >> 12) as u8,
                    x == ((op & 0x0F00) >> 8) as u8,
                    y == ((op & 0x00F0) >> 4) as u8,
                    n4 == (op & 0x000F) as u8,
                    nnn == op & 0x0fff,
                    kk == (op & 0xff) as u8,
            ;
        }
        match (n1, x, y, n4) {
            (0x0, 0x0, 0xE, 0x0) => Instruction::CLS,
            (0x0, 0x0, 0xE, 0xE) => Instruction::RET,
            (0x0, _, _, _) => Instruction::SYS(nnn),
            (0x1, _, _, _) => Instruction::JP(nnn),
            (0x2, _, _, _) => Instruction::CALL(nnn),
            (0x3, _, _, _) => Instruction::SEByte(x, kk),
            (0x4, _, _, _) => Instruction::SNEByte(x, kk),
            (0x5, _, _, 0x0) => Instruction::SEReg(x, y),
            (0x6, _, _, _) => Instruction::LDByte(x, kk),
            (0x7, _, _, _) => Instruction::ADDByte(x, kk),
            (0x8, _, _, 0x0) => Instruction::LDReg(x, y),
            (0x8, _, _, 0x1) => Instruction::OR(x, y),
            (0x8, _, _, 0x2) => Instruction::AND(x, y),
            (0x8, _, _, 0x3) => Instruction::XOR(x, y),
            (0x8, _, _, 0x4) => Instruction::ADDReg(x, y),
            (0x8, _, _, 0x5) => Instruction::SUBReg(x, y),
            (0x8, _, _, 0x6) => Instruction::SHR(x, y),
            (0x8, _, _, 0x7) => Instruction::SUBN(x, y),
            (0x8, _, _, 0xE) => Instruction::SHL(x, y),
            (0x9, _, _, 0x0) => Instruction::SNEReg(x, y),
            (0xA, _, _, _) => Instruction::LDI(nnn),
            (0xB, _, _, _) => Instruction::JPV0(nnn),
            (0xC, _, _, _) => Instruction::RND(x, kk),
            (0xD, _, _, _) => Instruction::DRW(x, y, n4),
            (0xE, _, 0x9, 0xE) => Instruction::SKP(x),
            (0xE, _, 0xA, 0x1) => Instruction::SKNP(x),
            (0xF, _, 0x0, 0x7) => Instruction::LDVxDT(x),
            (0xF, _, 0x0, 0xA) => Instruction::LDVxK(x),
            (0xF, _, 0x1, 0x5) => Instruction::LDDTVx(x),
            (0xF, _, 0x1, 0x8) => Instruction::LDSTVx(x),
            (0xF, _, 0x1, 0xE) => Instruction::ADDI(x),
            (0xF, _, 0x2, 0x9) => Instruction::LDF(x),
            (0xF, _, 0x3, 0x3) => Instruction::LDB(x),
            (0xF, _, 0x5, 0x5) => Instruction::LDStore(x),
            (0xF, _, 0x6, 0x5) => Instruction::LDLoad(x),
            _ => Instruction::Unknown(op),
        }
    }

    /// Counts both timers down by one, stopping at zero.
    pub fn update_timers(&mut self)
        ensures
            final(self)@ == old(self)@.timers_updated(),
    {
        if self.dt > 0 {
            self.dt -= 1;
        }
        if self.st > 0 {
            self.st -= 1;
        }
    }

    /// The general registers `V0`..`VF`.
    pub fn registers(&self) -> (v: &[u8; GENERAL_REGISTER_COUNT])
        ensures
            v@ == self@.v,
    {
        &self.v
    }

    /// The whole memory.
    pub fn memory(&self) -> (memory: &[u8; MEMORY_SIZE])
        ensures
            memory@ == self@.memory,
    {
        &self.memory
    }

    /// The pixel buffer, 64 pixels per row, 32 rows.
    pub fn display(&self) -> (display: &[bool; DISPLAY_SIZE])
        ensures
            display@ == self@.display,
    {
        &self.display
    }

    /// The display as gray levels: 255 for a lit pixel, 0 for a dark one.
    pub fn gray_pixels(&self) -> (pixels: Vec<u8>)
        ensures
            pixels@.len() == DISPLAY_SIZE,
            forall|k: int| 0 <= k < DISPLAY_SIZE ==> #[trigger] pixels@[k] == (if self@.display[k] { 255u8 } else { 0u8 }),
    {
        let mut pixels: Vec<u8> = Vec::new();
        let mut k: usize = 0;
        while k < DISPLAY_SIZE
            invariant
                k <= DISPLAY_SIZE,
                pixels@.len() == k,
                forall|j: int| 0 <= j < k ==> #[trigger] pixels@[j] == (if self@.display[j] { 255u8 } else { 0u8 }),
            decreases DISPLAY_SIZE - k,
        {
            pixels.push(if self.display[k] { 255 } else { 0 });
            k += 1;
        }
        pixels
    }

    /// Marks key `k` of the keypad as down or up.
    pub fn set_key(&mut self, k: usize, down: bool)
        requires
            k < KEY_COUNT,
        ensures
            final(self)@ == (Chip8View { keys: old(self)@.keys.update(k as int, down), ..old(self)@ }),
    {
        self.keys[k] = down;
        assert(self@ =~= (Chip8View { keys: old(self)@.keys.update(k as int, down), ..old(self)@ }));
    }

    /// The program counter.
    pub fn pc(&self) -> (pc: u16)
        ensures
            pc == self@.pc,
    {
        self.pc
    }

    /// The index register `I`.
    pub fn i(&self) -> (i: u16)
        ensures
            i == self@.i,
    {
        self.i
    }

    /// The stack pointer.
    pub fn sp(&self) -> (sp: u8)
        ensures
            sp == self@.sp,
    {
        self.sp
    }

    /// The delay timer.
    pub fn dt(&self) -> (dt: u8)
        ensures
            dt == self@.dt,
    {
        self.dt
    }

    /// The sound timer.
    pub fn st(&self) -> (st: u8)
        ensures
            st == self@.st,
    {
        self.st
    }

    /// Clears registers, stack, timers and display and puts the program counter back at
    /// `0x200`; memory and keys stay.
    pub fn reset(&mut self)
        ensures
            final(self)@ == old(self)@.reset_state(),
    {
        self.v = [0; GENERAL_REGISTER_COUNT];
        self.i = 0;
        self.pc = PROGRAM_START_ADDR;
        self.stack = [0; STACK_SIZE];
        self.sp = 0;
        self.dt = 0;
        self.st = 0;
        self.display = [false; DISPLAY_SIZE];
        assert(self@ =~= old(self)@.reset_state());
    }

    /// The text that shows the display on a terminal: the clear-screen sequence, then 32
    /// lines of 64 characters, a full block for each lit pixel and a space for each dark one.
    pub fn console_frame(&self) -> (frame: Vec<char>)
        ensures
            frame@ == console_frame_spec(self@.display),
    {
        let mut frame: Vec<char> = Vec::new();
        frame.push('\u{1b}');
        frame.push('[');
        frame.push('2');
        frame.push('J');
        assert(frame@ =~= clear_screen_seq());
        let ghost disp = self@.display;
        let mut y: usize = 0;
        while y < DISPLAY_HEIGHT
            invariant
                y <= DISPLAY_HEIGHT,
                disp == self@.display,
                disp.len() == DISPLAY_SIZE,
                frame@ =~= clear_screen_seq() + Seq::new((y * CONSOLE_LINE) as nat, |p: int| console_char(disp, p)),
            decreases DISPLAY_HEIGHT - y,
        {
            let mut x: usize = 0;
            while x < DISPLAY_WIDTH
                invariant
                    y < DISPLAY_HEIGHT,
                    x <= DISPLAY_WIDTH,
                    disp == self@.display,
                    disp.len() == DISPLAY_SIZE,
                    frame@ =~= clear_screen_seq() + Seq::new((y * CONSOLE_LINE + x) as nat, |p: int| console_char(disp, p)),
                decreases DISPLAY_WIDTH - x,
            {
                let index = x + (y * DISPLAY_WIDTH);
                frame.push(if self.display[index] { '\u{2588}' } else { ' ' });
                proof {
                    lemma_console_position(y as int, x as int);
                }
                x += 1;
            }
            frame.push('\n');
            proof {
                lemma_console_position(y as int, DISPLAY_WIDTH as int);
            }
            y += 1;
        }
        frame
    }
}

/// Character `y * 65 + x` of the console picture is in line `y`, column `x`.
proof fn lemma_console_position(y: int, x: int)
    requires
        0 <= y,
        0 <= x <= DISPLAY_WIDTH,
    ensures
        (y * CONSOLE_LINE + x) / (CONSOLE_LINE as int) == y,
        (y * CONSOLE_LINE + x) % (CONSOLE_LINE as int) == x,
{
    assert((y * 65 + x) / 65 == y && (y * 65 + x) % 65 == x) by (nonlinear_arith)
        requires
            0 <= y,
            0 <= x <= 64,
    ;
}

} // verus!
