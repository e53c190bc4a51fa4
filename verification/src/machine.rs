//! The mathematical model of the machine and the meaning of each instruction.
use vstd::prelude::*;

use crate::instruction::{decode_spec, Instruction};

verus! {

/// Bytes of addressable memory.
pub const MEMORY_SIZE: usize = 4096;

/// Where programs are loaded and where execution starts.
pub const PROGRAM_START_ADDR: u16 = 0x200;

/// Slots of the return-address stack.
pub const STACK_SIZE: usize = 16;

/// General registers `V0`..`VF`.
pub const GENERAL_REGISTER_COUNT: usize = 16;

/// Where the built-in hexadecimal font is stored.
pub const DEFAULT_FONT_ADDR: usize = 0x50;

/// Bytes of the built-in font: sixteen glyphs of five bytes.
pub const FONT_SIZE: usize = 80;

/// Pixels per display row.
pub const DISPLAY_WIDTH: usize = 64;

/// Display rows.
pub const DISPLAY_HEIGHT: usize = 32;

/// Pixels of the display, row after row.
pub const DISPLAY_SIZE: usize = 2048;

/// Keys of the hexadecimal keypad.
pub const KEY_COUNT: usize = 16;

/// The register that instructions use as a flag.
pub const FLAG_REGISTER: u8 = 0xF;

/// The state of a CHIP-8 machine as mathematical values.
#[verifier::ext_equal]
pub struct Chip8View {
    pub memory: Seq<u8>,
    pub v: Seq<u8>,
    pub i: u16,
    pub pc: u16,
    pub stack: Seq<u16>,
    pub sp: u8,
    pub dt: u8,
    pub st: u8,
    pub display: Seq<bool>,
    pub keys: Seq<bool>,
}

/// The glyphs `0`..`F` of the built-in font, five rows of four pixels each.
pub open spec fn font_spec() -> Seq<u8> {
    seq![
        0xF0u8, 0x90, 0x90, 0x90, 0xF0, // 0
        0x20, 0x60, 0x20, 0x20, 0x70, // 1
        0xF0, 0x10, 0xF0, 0x80, 0xF0, // 2
        0xF0, 0x10, 0xF0, 0x10, 0xF0, // 3
        0x90, 0x90, 0xF0, 0x10, 0x10, // 4
        0xF0, 0x80, 0xF0, 0x10, 0xF0, // 5
        0xF0, 0x80, 0xF0, 0x90, 0xF0, // 6
        0xF0, 0x10, 0x20, 0x40, 0x40, // 7
        0xF0, 0x90, 0xF0, 0x90, 0xF0, // 8
        0xF0, 0x90, 0xF0, 0x10, 0xF0, // 9
        0xF0, 0x90, 0xF0, 0x90, 0x90, // A
        0xE0, 0x90, 0xE0, 0x90, 0xE0, // B
        0xF0, 0x80, 0x80, 0x80, 0xF0, // C
        0xE0, 0x90, 0x90, 0x90, 0xE0, // D
        0xF0, 0x80, 0xF0, 0x80, 0xF0, // E
        0xF0, 0x80, 0xF0, 0x80, 0x80, // F
    ]
}

/// `memory` with the bytes of `data` written from address `start` on.
pub open spec fn write_block(memory: Seq<u8>, start: int, data: Seq<u8>) -> Seq<u8> {
    Seq::new(
        memory.len(),
        |a: int|
            if start <= a < start + data.len() {
                data[a - start]
            } else {
                memory[a]
            },
    )
}

/// Whether bit `7 - col` of a sprite byte is set: column `col` counts from the left.
pub open spec fn sprite_bit(byte: u8, col: int) -> bool {
    (byte >> ((7 - col) as u8)) & 1u8 == 1u8
}

/// The sprite row that lands on display cell `idx` when drawing starts at row `yp`.
pub open spec fn sprite_row(yp: int, idx: int) -> int {
    (idx / DISPLAY_WIDTH as int - yp) % (DISPLAY_HEIGHT as int)
}

/// The sprite column that lands on display cell `idx` when drawing starts at column `xp`.
pub open spec fn sprite_col(xp: int, idx: int) -> int {
    (idx % DISPLAY_WIDTH as int - xp) % (DISPLAY_WIDTH as int)
}

/// The display cell of sprite pixel (`row`, `col`) when drawing starts at (`xp`, `yp`),
/// wrapping around both edges.
pub open spec fn pixel_index(xp: int, yp: int, row: int, col: int) -> int {
    (xp + col) % (DISPLAY_WIDTH as int) + ((yp + row) % (DISPLAY_HEIGHT as int)) * (
    DISPLAY_WIDTH as int)
}

/// Whether a set pixel of the `n`-row sprite stored at `i` lands on display cell `idx`.
pub open spec fn sprite_covers(memory: Seq<u8>, i: int, xp: int, yp: int, n: int, idx: int) -> bool {
    let row = sprite_row(yp, idx);
    let col = sprite_col(xp, idx);
    &&& col < 8
    &&& row < n
    &&& sprite_bit(memory[i + row], col)
}

/// The display after XOR-ing the sprite onto it.
pub open spec fn draw_display(
    display: Seq<bool>,
    memory: Seq<u8>,
    i: int,
    xp: int,
    yp: int,
    n: int,
) -> Seq<bool> {
    Seq::new(display.len(), |idx: int| display[idx] != sprite_covers(memory, i, xp, yp, n, idx))
}

/// Whether the sprite turns off a pixel that was on.
pub open spec fn draw_collides(
    display: Seq<bool>,
    memory: Seq<u8>,
    i: int,
    xp: int,
    yp: int,
    n: int,
) -> bool {
    exists|idx: int|
        0 <= idx < display.len() && #[trigger] sprite_covers(memory, i, xp, yp, n, idx)
            && display[idx]
}

/// Whether key `k` is the lowest-numbered key that is down.
pub open spec fn is_first_pressed(keys: Seq<bool>, k: int) -> bool {
    &&& 0 <= k < KEY_COUNT
    &&& keys[k]
    &&& forall|j: int| 0 <= j < k ==> !keys[j]
}

/// Whether any key is down.
pub open spec fn any_key_pressed(keys: Seq<bool>) -> bool {
    exists|k: int| 0 <= k < KEY_COUNT && #[trigger] keys[k]
}

/// The lowest-numbered key that is down (meaningful when one is).
pub open spec fn first_pressed(keys: Seq<bool>) -> int {
    choose|k: int| is_first_pressed(keys, k)
}

/// The state that `Chip8::new` builds: font loaded, program counter at the program start,
/// everything else zero.
pub open spec fn initial_state() -> Chip8View {
    Chip8View {
        memory: write_block(Seq::new(MEMORY_SIZE as nat, |a: int| 0u8), DEFAULT_FONT_ADDR as int, font_spec()),
        v: Seq::new(GENERAL_REGISTER_COUNT as nat, |k: int| 0u8),
        i: 0,
        pc: PROGRAM_START_ADDR,
        stack: Seq::new(STACK_SIZE as nat, |k: int| 0u16),
        sp: 0,
        dt: 0,
        st: 0,
        display: Seq::new(DISPLAY_SIZE as nat, |k: int| false),
        keys: Seq::new(KEY_COUNT as nat, |k: int| false),
    }
}

/// The character that shows one pixel on a text console.
pub open spec fn pixel_char(on: bool) -> char {
    if on { '\u{2588}' } else { ' ' }
}

/// Characters per console line: one per pixel, then a line break.
pub const CONSOLE_LINE: usize = 65;

/// Character `p` of the console picture of `display`, after the clear-screen sequence.
pub open spec fn console_char(display: Seq<bool>, p: int) -> char {
    let row = p / CONSOLE_LINE as int;
    let col = p % CONSOLE_LINE as int;
    if col == DISPLAY_WIDTH {
        '\n'
    } else {
        pixel_char(display[row * DISPLAY_WIDTH + col])
    }
}

/// The ANSI sequence that clears a terminal: `ESC [ 2 J`.
pub open spec fn clear_screen_seq() -> Seq<char> {
    seq!['\u{1b}', '[', '2', 'J']
}

/// The text that draws `display` on a terminal: clear the screen, then one line per
/// display row.
pub open spec fn console_frame_spec(display: Seq<bool>) -> Seq<char> {
    clear_screen_seq() + Seq::new(
        (DISPLAY_HEIGHT * CONSOLE_LINE) as nat,
        |p: int| console_char(display, p),
    )
}

impl Chip8View {
    /// Every part has the size of the machine's.
    pub open spec fn well_sized(self) -> bool {
        &&& self.memory.len() == MEMORY_SIZE
        &&& self.v.len() == GENERAL_REGISTER_COUNT
        &&& self.stack.len() == STACK_SIZE
        &&& self.display.len() == DISPLAY_SIZE
        &&& self.keys.len() == KEY_COUNT
    }

    /// Register `Vx`.
    pub open spec fn reg(self, x: u8) -> u8 {
        self.v[x as int]
    }

    /// This state with `Vx` set to `val`.
    pub open spec fn set_reg(self, x: u8, val: u8) -> Chip8View {
        Chip8View { v: self.v.update(x as int, val), ..self }
    }

    /// This state with the next instruction skipped when `cond` holds.
    pub open spec fn skip_if(self, cond: bool) -> Chip8View {
        if cond {
            Chip8View { pc: (self.pc + 2) as u16, ..self }
        } else {
            self
        }
    }

    /// This state with the program counter at `pc`.
    pub open spec fn jump(self, pc: u16) -> Chip8View {
        Chip8View { pc, ..self }
    }

    /// The two bytes at the program counter fit in memory.
    pub open spec fn can_fetch(self) -> bool {
        self.pc + 1 < MEMORY_SIZE
    }

    /// The big-endian opcode at the program counter.
    pub open spec fn fetched_op(self) -> u16 {
        (self.memory[self.pc as int] as int * 256 + self.memory[self.pc + 1] as int) as u16
    }

    /// This state with the program counter moved past the current opcode.
    pub open spec fn after_fetch(self) -> Chip8View {
        self.jump((self.pc + 2) as u16)
    }

    /// `Dxyn`: the sprite XOR-ed onto the display at (`Vx mod 64`, `Vy mod 32`), with `VF`
    /// set to 1 on a collision and to 0 otherwise.
    pub open spec fn draw(self, x: u8, y: u8, n: u8) -> Chip8View {
        let xp = self.reg(x) % 64;
        let yp = self.reg(y) % 32;
        let collides = draw_collides(self.display, self.memory, self.i as int, xp as int, yp as int, n as int);
        Chip8View {
            display: draw_display(self.display, self.memory, self.i as int, xp as int, yp as int, n as int),
            v: self.v.update(FLAG_REGISTER as int, if collides { 1u8 } else { 0u8 }),
            ..self
        }
    }

    /// The state after executing `ins`; `rnd` is the random byte that `RND` draws.
    pub open spec fn execute(self, ins: Instruction, rnd: u8) -> Chip8View {
        match ins {
            Instruction::SYS(_) | Instruction::Unknown(_) => self,
            Instruction::CLS => Chip8View { display: Seq::new(DISPLAY_SIZE as nat, |k: int| false), ..self },
            Instruction::RET => {
                if self.sp > 0 {
                    Chip8View { pc: self.stack[self.sp as int], sp: (self.sp - 1) as u8, ..self }
                } else {
                    self
                }
            },
            Instruction::JP(nnn) => self.jump(nnn),
            Instruction::CALL(nnn) => Chip8View {
                sp: (self.sp + 1) as u8,
                stack: self.stack.update(self.sp + 1, self.pc),
                pc: nnn,
                ..self
            },
            Instruction::SEByte(x, kk) => self.skip_if(self.reg(x) == kk),
            Instruction::SNEByte(x, kk) => self.skip_if(self.reg(x) != kk),
            Instruction::SEReg(x, y) => self.skip_if(self.reg(x) == self.reg(y)),
            Instruction::LDByte(x, kk) => self.set_reg(x, kk),
            Instruction::ADDByte(x, kk) => self.set_reg(x, ((self.reg(x) + kk) % 256) as u8),
            Instruction::LDReg(x, y) => self.set_reg(x, self.reg(y)),
            Instruction::OR(x, y) => self.set_reg(x, self.reg(x) | self.reg(y)),
            Instruction::AND(x, y) => self.set_reg(x, self.reg(x) & self.reg(y)),
            Instruction::XOR(x, y) => self.set_reg(x, self.reg(x) ^ self.reg(y)),
            Instruction::ADDReg(x, y) => {
                let sum = self.reg(x) + self.reg(y);
                self.set_reg(x, (sum % 256) as u8).set_reg(FLAG_REGISTER, if sum > 255 { 1u8 } else { 0u8 })
            },
            Instruction::SUBReg(x, y) => {
                let vx = self.reg(x);
                let vy = self.reg(y);
                self.set_reg(x, ((vx - vy + 256) % 256) as u8).set_reg(FLAG_REGISTER, if vx >= vy { 1u8 } else { 0u8 })
            },
            Instruction::SHR(x, _) => {
                let vx = self.reg(x);
                self.set_reg(FLAG_REGISTER, vx % 2).set_reg(x, vx / 2)
            },
            Instruction::SUBN(x, y) => {
                let vx = self.reg(x);
                let vy = self.reg(y);
                self.set_reg(x, ((vy - vx + 256) % 256) as u8).set_reg(FLAG_REGISTER, if vy >= vx { 1u8 } else { 0u8 })
            },
            Instruction::SHL(x, _) => {
                let vx = self.reg(x);
                self.set_reg(FLAG_REGISTER, vx / 128).set_reg(x, (vx * 2 % 256) as u8)
            },
            Instruction::SNEReg(x, y) => self.skip_if(self.reg(x) != self.reg(y)),
            Instruction::LDI(nnn) => Chip8View { i: nnn, ..self },
            Instruction::JPV0(nnn) => self.jump((nnn + self.reg(0)) as u16),
            Instruction::RND(x, kk) => self.set_reg(x, rnd & kk),
            Instruction::DRW(x, y, n) => self.draw(x, y, n),
            Instruction::SKP(x) => self.skip_if(self.keys[self.reg(x) as int]),
            Instruction::SKNP(x) => self.skip_if(!self.keys[self.reg(x) as int]),
            Instruction::LDVxDT(x) => self.set_reg(x, self.dt),
            Instruction::LDVxK(x) => {
                if any_key_pressed(self.keys) {
                    self.set_reg(x, first_pressed(self.keys) as u8)
                } else {
                    self.jump((self.pc - 2) as u16)
                }
            },
            Instruction::LDDTVx(x) => Chip8View { dt: self.reg(x), ..self },
            Instruction::LDSTVx(x) => Chip8View { st: self.reg(x), ..self },
            Instruction::ADDI(x) => Chip8View { i: (self.i + self.reg(x)) as u16, ..self },
            Instruction::LDF(x) => Chip8View { i: (DEFAULT_FONT_ADDR + 5 * self.reg(x)) as u16, ..self },
            Instruction::LDB(x) => {
                let vx = self.reg(x);
                if self.i + 2 < MEMORY_SIZE {
                    Chip8View {
                        memory: self.memory.update(self.i as int, vx / 100).update(
                            self.i + 1,
                            vx / 10 % 10,
                        ).update(self.i + 2, vx % 10),
                        ..self
                    }
                } else {
                    self
                }
            },
            Instruction::LDStore(x) => {
                if self.i + x + 1 <= MEMORY_SIZE {
                    Chip8View {
                        memory: write_block(self.memory, self.i as int, self.v.take(x + 1)),
                        ..self
                    }
                } else {
                    self
                }
            },
            Instruction::LDLoad(x) => {
                if self.i + x + 1 <= MEMORY_SIZE {
                    Chip8View {
                        v: write_block(self.v, 0, self.memory.subrange(self.i as int, self.i + x + 1)),
                        ..self
                    }
                } else {
                    self
                }
            },
        }
    }

    /// Executing `ins` here neither indexes out of bounds nor overflows.
    pub open spec fn can_execute(self, ins: Instruction) -> bool {
        &&& ins.well_formed()
        &&& match ins {
            Instruction::RET => self.sp > 0 ==> self.sp < STACK_SIZE,
            Instruction::CALL(_) => self.sp + 1 < STACK_SIZE,
            Instruction::SEByte(x, kk) => self.reg(x) == kk ==> self.pc + 2 <= u16::MAX,
            Instruction::SNEByte(x, kk) => self.reg(x) != kk ==> self.pc + 2 <= u16::MAX,
            Instruction::SEReg(x, y) => self.reg(x) == self.reg(y) ==> self.pc + 2 <= u16::MAX,
            Instruction::SNEReg(x, y) => self.reg(x) != self.reg(y) ==> self.pc + 2 <= u16::MAX,
            Instruction::JPV0(nnn) => nnn + self.reg(0) <= u16::MAX,
            Instruction::DRW(_, _, n) => n > 0 ==> self.i + n <= MEMORY_SIZE,
            Instruction::SKP(x) => {
                &&& self.reg(x) < KEY_COUNT
                &&& self.keys[self.reg(x) as int] ==> self.pc + 2 <= u16::MAX
            },
            Instruction::SKNP(x) => {
                &&& self.reg(x) < KEY_COUNT
                &&& !self.keys[self.reg(x) as int] ==> self.pc + 2 <= u16::MAX
            },
            Instruction::LDVxK(_) => !any_key_pressed(self.keys) ==> self.pc >= 2,
            Instruction::ADDI(x) => self.i + self.reg(x) <= u16::MAX,
            Instruction::LDF(x) => 5 * self.reg(x) <= u8::MAX,
            _ => true,
        }
    }

    /// One fetch-decode-execute cycle; `rnd` is the byte that an `RND` would draw.
    pub open spec fn tick(self, rnd: u8) -> Chip8View {
        self.after_fetch().execute(decode_spec(self.fetched_op()), rnd)
    }

    /// A cycle from here neither indexes out of bounds nor overflows.
    pub open spec fn can_tick(self) -> bool {
        &&& self.can_fetch()
        &&& self.after_fetch().can_execute(decode_spec(self.fetched_op()))
    }

    /// Both timers count down by one unless already zero.
    pub open spec fn timers_updated(self) -> Chip8View {
        Chip8View {
            dt: if self.dt > 0 { (self.dt - 1) as u8 } else { 0u8 },
            st: if self.st > 0 { (self.st - 1) as u8 } else { 0u8 },
            ..self
        }
    }

    /// The state after a reset: registers, stack, timers and display as in a new machine;
    /// memory and keys kept.
    pub open spec fn reset_state(self) -> Chip8View {
        Chip8View {
            memory: self.memory,
            keys: self.keys,
            ..initial_state()
        }
    }
}

} // verus!
