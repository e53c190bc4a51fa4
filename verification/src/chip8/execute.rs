//! Executing one decoded instruction on the machine.
use vstd::prelude::*;

use super::Chip8;
use crate::instruction::{decode_spec, Instruction};
use crate::machine::{
    any_key_pressed, draw_collides, first_pressed, is_first_pressed, write_block, Chip8View,
    DEFAULT_FONT_ADDR, DISPLAY_HEIGHT, DISPLAY_SIZE, DISPLAY_WIDTH, FLAG_REGISTER,
    GENERAL_REGISTER_COUNT, KEY_COUNT, MEMORY_SIZE, STACK_SIZE,
};
use crate::random::random_byte;
use crate::sprite::{
    lemma_draw_done, lemma_draw_next_row, lemma_draw_start, lemma_draw_step, partial_collides,
    partial_display,
};

verus! {

/// Only one key is the lowest-numbered key that is down.
proof fn lemma_first_pressed_unique(keys: Seq<bool>, k: int)
    requires
        is_first_pressed(keys, k),
    ensures
        first_pressed(keys) == k,
{
    let f = first_pressed(keys);
    assert(is_first_pressed(keys, f));
    if f < k {
        assert(!keys[f]);
    } else if k < f {
        assert(!keys[k]);
    }
}

impl Chip8 {
    /// `Dxyn`: XORs the `n`-row sprite stored at `I` onto the display at (`Vx`, `Vy`),
    /// wrapping around the edges, and sets `VF` to whether a lit pixel was turned off.
    fn draw_sprite(&mut self, x: u8, y: u8, n: u8)
        requires
            x < GENERAL_REGISTER_COUNT,
            y < GENERAL_REGISTER_COUNT,
            n < 16,
            n > 0 ==> old(self).i + n <= MEMORY_SIZE,
        ensures
            final(self)@ == old(self)@.draw(x, y, n),
    {
        let x_pos = self.v[x as usize] as usize % DISPLAY_WIDTH;
        let y_pos = self.v[y as usize] as usize % DISPLAY_HEIGHT;
        let ghost s0 = self@;
        let ghost d0 = self.display@;
        let ghost m = self.memory@;
        let ghost ii = self.i as int;
        self.v[FLAG_REGISTER as usize] = 0;
        proof {
            lemma_draw_start(d0, m, ii, x_pos as int, y_pos as int, n as int);
            assert(s0.v.update(FLAG_REGISTER as int, 0u8) =~= self.v@);
        }
        let mut row: u8 = 0;
        while row < n
            invariant
                row <= n < 16,
                x_pos < DISPLAY_WIDTH,
                y_pos < DISPLAY_HEIGHT,
                n > 0 ==> s0.i + n <= MEMORY_SIZE,
                s0.well_sized(),
                d0 == s0.display,
                m == s0.memory,
                ii == s0.i,
                x_pos == s0.reg(x) % 64,
                y_pos == s0.reg(y) % 32,
                self@ == (Chip8View {
                    display: partial_display(d0, m, ii, x_pos as int, y_pos as int, n as int, row as int, 0),
                    v: s0.v.update(
                        FLAG_REGISTER as int,
                        if partial_collides(d0, m, ii, x_pos as int, y_pos as int, n as int, row as int, 0) { 1u8 } else { 0u8 },
                    ),
                    ..s0
                }),
            decreases n - row,
        {
            let sprite_byte = self.memory[(self.i + row as u16) as usize];
            let mut col: usize = 0;
            while col < 8
                invariant
                    row < n < 16,
                    col <= 8,
                    x_pos < DISPLAY_WIDTH,
                    y_pos < DISPLAY_HEIGHT,
                    s0.i + n <= MEMORY_SIZE,
                    s0.well_sized(),
                    d0 == s0.display,
                    m == s0.memory,
                    ii == s0.i,
                    sprite_byte == m[ii + row],
                    self@ == (Chip8View {
                        display: partial_display(d0, m, ii, x_pos as int, y_pos as int, n as int, row as int, col as int),
                        v: s0.v.update(
                            FLAG_REGISTER as int,
                            if partial_collides(d0, m, ii, x_pos as int, y_pos as int, n as int, row as int, col as int) { 1u8 } else { 0u8 },
                        ),
                        ..s0
                    }),
                decreases 8 - col,
            {
                proof {
                    lemma_draw_step(d0, m, ii, x_pos as int, y_pos as int, n as int, row as int, col as int);
                }
                let sprite_pixel = (sprite_byte >> ((7 - col) as u8)) & 1;
                if sprite_pixel == 1 {
                    let dx = (x_pos + col) % DISPLAY_WIDTH;
                    let dy = (y_pos + row as usize) % DISPLAY_HEIGHT;
                    let index = dx + (dy * DISPLAY_WIDTH);
                    if self.display[index] {
                        self.v[FLAG_REGISTER as usize] = 1;
                    }
                    self.display[index] = !self.display[index];
                }
                col += 1;
            }
            proof {
                lemma_draw_next_row(d0, m, ii, x_pos as int, y_pos as int, n as int, row as int);
            }
            row += 1;
        }
        proof {
            lemma_draw_done(d0, m, ii, x_pos as int, y_pos as int, n as int);
        }
    }

    /// `Fx0A`: puts the number of the lowest key that is down into `Vx`; with no key down,
    /// moves the program counter back so that the instruction runs again.
    fn wait_for_key(&mut self, x: u8)
        requires
            x < GENERAL_REGISTER_COUNT,
            !any_key_pressed(old(self)@.keys) ==> old(self).pc >= 2,
        ensures
            final(self)@ == old(self)@.execute(Instruction::LDVxK(x), 0),
    {
        let ghost s0 = self@;
        let mut key_pressed = false;
        let mut key: usize = 0;
        while key < KEY_COUNT
            invariant_except_break
                key <= KEY_COUNT,
                !key_pressed,
                self@ == s0,
                forall|j: int| 0 <= j < key ==> !s0.keys[j],
            invariant
                x < GENERAL_REGISTER_COUNT,
                s0.well_sized(),
            ensures
                key_pressed ==> self@ == s0.set_reg(x, first_pressed(s0.keys) as u8)
                    && any_key_pressed(s0.keys),
                !key_pressed ==> self@ == s0 && !any_key_pressed(s0.keys),
            decreases KEY_COUNT - key,
        {
            if self.keys[key] {
                self.v[x as usize] = key as u8;
                key_pressed = true;
                proof {
                    assert(is_first_pressed(s0.keys, key as int));
                    lemma_first_pressed_unique(s0.keys, key as int);
                    assert(self@ =~= s0.set_reg(x, first_pressed(s0.keys) as u8));
                }
                break;
            }
            key += 1;
        }
        if !key_pressed {
            self.pc -= 2;
        }
    }

    /// `Fx55`: copies `V0..=Vx` to memory from `I` on, when that fits in memory.
    fn store_registers(&mut self, x: u8)
        requires
            x < GENERAL_REGISTER_COUNT,
        ensures
            final(self)@ == old(self)@.execute(Instruction::LDStore(x), 0),
    {
        let start = self.i as usize;
        let end = start + (x as usize) + 1;
        if end <= MEMORY_SIZE {
            let ghost s0 = self@;
            let mut k: usize = 0;
            while k <= x as usize
                invariant
                    x < GENERAL_REGISTER_COUNT,
                    start == s0.i,
                    end == start + x + 1,
                    end <= MEMORY_SIZE,
                    k <= x + 1,
                    s0.well_sized(),
                    self@ == (Chip8View { memory: write_block(s0.memory, start as int, s0.v.take(k as int)), ..s0 }),
                decreases x + 1 - k,
            {
                self.memory[start + k] = self.v[k];
                k += 1;
                assert(self.memory@ =~= write_block(s0.memory, start as int, s0.v.take(k as int)));
            }
        }
    }

    /// `Fx65`: copies memory from `I` on into `V0..=Vx`, when that range fits in memory.
    fn load_registers(&mut self, x: u8)
        requires
            x < GENERAL_REGISTER_COUNT,
        ensures
            final(self)@ == old(self)@.execute(Instruction::LDLoad(x), 0),
    {
        let start = self.i as usize;
        let end = start + (x as usize) + 1;
        if end <= MEMORY_SIZE {
            let ghost s0 = self@;
            let mut k: usize = 0;
            while k <= x as usize
                invariant
                    x < GENERAL_REGISTER_COUNT,
                    start == s0.i,
                    end == start + x + 1,
                    end <= MEMORY_SIZE,
                    k <= x + 1,
                    s0.well_sized(),
                    self@ == (Chip8View { v: write_block(s0.v, 0, s0.memory.subrange(start as int, start + k)), ..s0 }),
                decreases x + 1 - k,
            {
                self.v[k] = self.memory[start + k];
                k += 1;
                assert(self.v@ =~= write_block(s0.v, 0, s0.memory.subrange(start as int, start + k)));
            }
        }
    }

    /// Whether executing `instruction` with the program counter at `pc` (and the rest of
    /// the machine as it is) stays in bounds and free of overflow.
    fn can_execute_at(&self, instruction: Instruction, pc: u16) -> (ok: bool)
        ensures
            ok == (Chip8View { pc, ..self@ }).can_execute(instruction),
    {
        let ghost s = Chip8View { pc, ..self@ };
        let wf = match instruction {
            Instruction::SEByte(x, _) | Instruction::SNEByte(x, _) | Instruction::LDByte(x, _)
            | Instruction::ADDByte(x, _) | Instruction::RND(x, _) => x < 16,
            Instruction::SEReg(x, y) | Instruction::LDReg(x, y) | Instruction::OR(x, y)
            | Instruction::AND(x, y) | Instruction::XOR(x, y) | Instruction::ADDReg(x, y)
            | Instruction::SUBReg(x, y) | Instruction::SHR(x, y) | Instruction::SUBN(x, y)
            | Instruction::SHL(x, y) | Instruction::SNEReg(x, y) => x < 16 && y < 16,
            Instruction::DRW(x, y, n) => x < 16 && y < 16 && n < 16,
            Instruction::SKP(x) | Instruction::SKNP(x) | Instruction::LDVxDT(x)
            | Instruction::LDVxK(x) | Instruction::LDDTVx(x) | Instruction::LDSTVx(x)
            | Instruction::ADDI(x) | Instruction::LDF(x) | Instruction::LDB(x)
            | Instruction::LDStore(x) | Instruction::LDLoad(x) => x < 16,
            _ => true,
        };
        if !wf {
            return false;
        }
        let room_to_skip = (pc as u32) + 2 <= u16::MAX as u32;
        match instruction {
            Instruction::RET => self.sp == 0 || (self.sp as usize) < STACK_SIZE,
            Instruction::CALL(_) => (self.sp as usize) + 1 < STACK_SIZE,
            Instruction::SEByte(x, kk) => self.v[x as usize] != kk || room_to_skip,
            Instruction::SNEByte(x, kk) => self.v[x as usize] == kk || room_to_skip,
            Instruction::SEReg(x, y) => self.v[x as usize] != self.v[y as usize] || room_to_skip,
            Instruction::SNEReg(x, y) => self.v[x as usize] == self.v[y as usize] || room_to_skip,
            Instruction::JPV0(nnn) => (nnn as u32) + (self.v[0] as u32) <= u16::MAX as u32,
            Instruction::DRW(_, _, n) => n == 0 || (self.i as usize) + (n as usize) <= MEMORY_SIZE,
            Instruction::SKP(x) => {
                let key = self.v[x as usize];
                (key as usize) < KEY_COUNT && (!self.keys[key as usize] || room_to_skip)
            },
            Instruction::SKNP(x) => {
                let key = self.v[x as usize];
                (key as usize) < KEY_COUNT && (self.keys[key as usize] || room_to_skip)
            },
            Instruction::LDVxK(_) => {
                let mut any = false;
                let mut k: usize = 0;
                while k < KEY_COUNT
                    invariant
                        k <= KEY_COUNT,
                        s.well_sized(),
                        s.keys == self@.keys,
                        any <==> exists|j: int| 0 <= j < k && #[trigger] s.keys[j],
                    decreases KEY_COUNT - k,
                {
                    if self.keys[k] {
                        any = true;
                    }
                    k += 1;
                }
                any || pc >= 2
            },
            Instruction::ADDI(x) => (self.i as u32) + (self.v[x as usize] as u32) <= u16::MAX as u32,
            Instruction::LDF(x) => 5 * (self.v[x as usize] as u32) <= u8::MAX as u32,
            _ => true,
        }
    }

    /// Whether `execute` may run `instruction` on this machine: no index out of bounds and
    /// no overflow.
    pub fn can_execute(&self, instruction: Instruction) -> (ok: bool)
        ensures
            ok == self@.can_execute(instruction),
    {
        let ok = self.can_execute_at(instruction, self.pc);
        assert((Chip8View { pc: self.pc, ..self@ }) =~= self@);
        ok
    }

    /// Whether `tick` may run on this machine: the opcode lies in memory, and executing it
    /// afterwards stays in bounds and free of overflow.
    pub fn can_tick(&self) -> (ok: bool)
        ensures
            ok == self@.can_tick(),
    {
        if (self.pc as usize) + 1 >= MEMORY_SIZE {
            return false;
        }
        let op_byte1 = self.memory[self.pc as usize];
        let op_byte2 = self.memory[(self.pc + 1) as usize];
        let op = ((op_byte1 as u16) << 8) | op_byte2 as u16;
        assert(op == (op_byte1 * 256 + op_byte2) as u16) by (bit_vector)
            requires
                op == ((op_byte1 as u16) << 8) | op_byte2 as u16,
        ;
        let instruction = self.decode(op);
        self.can_execute_at(instruction, self.pc + 2)
    }

    /// Executes `instruction`, with `random` as the byte that `RND` draws.
    pub fn execute_with_random(&mut self, instruction: Instruction, random: u8)
        requires
            old(self)@.can_execute(instruction),
        ensures
            final(self)@ == old(self)@.execute(instruction, random),
    {
        let ghost s0 = self@;
        match instruction {
            Instruction::CLS => {
                self.display = [false; DISPLAY_SIZE];
                assert(self@ =~= s0.execute(instruction, random));
            },
            Instruction::RET => {
                if self.sp > 0 {
                    self.pc = self.stack[self.sp as usize];
                    self.sp -= 1;
                }
            },
            Instruction::JP(nnn) => {
                self.pc = nnn;
            },
            Instruction::CALL(nnn) => {
                self.sp += 1;
                self.stack[self.sp as usize] = self.pc;
                self.pc = nnn;
                assert(self@ =~= s0.execute(instruction, random));
            },
            Instruction::SEByte(x, kk) => {
                if self.v[x as usize] == kk {
                    self.pc += 2;
                }
            },
            Instruction::SNEByte(x, kk) => {
                if self.v[x as usize] != kk {
                    self.pc += 2;
                }
            },
            Instruction::SEReg(x, y) => {
                if self.v[x as usize] == self.v[y as usize] {
                    self.pc += 2;
                }
            },
            Instruction::LDByte(x, kk) => {
                self.v[x as usize] = kk;
                assert(self@ =~= s0.execute(instruction, random));
            },
            Instruction::ADDByte(x, kk) => {
                self.v[x as usize] = self.v[x as usize].wrapping_add(kk);
                assert(self@ =~= s0.execute(instruction, random));
            },
            Instruction::LDReg(x, y) => {
                self.v[x as usize] = self.v[y as usize];
                assert(self@ =~= s0.execute(instruction, random));
            },
            Instruction::OR(x, y) => {
                self.v[x as usize] = self.v[x as usize] | self.v[y as usize];
                assert(self@ =~= s0.execute(instruction, random));
            },
            Instruction::AND(x, y) => {
                self.v[x as usize] = self.v[x as usize] & self.v[y as usize];
                assert(self@ =~= s0.execute(instruction, random));
            },
            Instruction::XOR(x, y) => {
                self.v[x as usize] = self.v[x as usize] ^ self.v[y as usize];
                assert(self@ =~= s0.execute(instruction, random));
            },
            Instruction::ADDReg(x, y) => {
                let value: u16 = self.v[x as usize] as u16 + self.v[y as usize] as u16;
                let low = value as u8;
                assert(low == value % 256) by (bit_vector)
                    requires
                        low == value as u8,
                ;
                self.v[x as usize] = low;
                self.v[FLAG_REGISTER as usize] = if value > u8::MAX as u16 { 1 } else { 0 };
                assert(self@ =~= s0.execute(instruction, random));
            },
            Instruction::SUBReg(x, y) => {
                let vx = self.v[x as usize];
                let vy = self.v[y as usize];
                self.v[x as usize] = vx.wrapping_sub(vy);
                self.v[FLAG_REGISTER as usize] = if vx >= vy { 1 } else { 0 };
                assert(self@ =~= s0.execute(instruction, random));
            },
            Instruction::SHR(x, _y) => {
                let vx = self.v[x as usize];
                let low_bit = vx & 0x01;
                let shifted = vx >> 1;
                assert(low_bit == vx % 2 && shifted == vx / 2) by (bit_vector)
                    requires
                        low_bit == vx & 0x01,
                        shifted == vx >> 1,
                ;
                self.v[FLAG_REGISTER as usize] = low_bit;
                self.v[x as usize] = shifted;
                assert(self@ =~= s0.execute(instruction, random));
            },
            Instruction::SUBN(x, y) => {
                let vx = self.v[x as usize];
                let vy = self.v[y as usize];
                self.v[x as usize] = vy.wrapping_sub(vx);
                self.v[FLAG_REGISTER as usize] = if vy >= vx { 1 } else { 0 };
                assert(self@ =~= s0.execute(instruction, random));
            },
            Instruction::SHL(x, _y) => {
                let vx = self.v[x as usize];
                let high_bit = (vx >> 7) & 1;
                let shifted = vx << 1;
                assert(high_bit == vx / 128 && shifted == (vx * 2 % 256) as u8) by (bit_vector)
                    requires
                        high_bit == (vx >> 7) & 1,
                        shifted == vx << 1,
                ;
                self.v[FLAG_REGISTER as usize] = high_bit;
                self.v[x as usize] = shifted;
                assert(self@ =~= s0.execute(instruction, random));
            },
            Instruction::SNEReg(x, y) => {
                if self.v[x as usize] != self.v[y as usize] {
                    self.pc += 2;
                }
            },
            Instruction::LDI(nnn) => {
                self.i = nnn;
            },
            Instruction::JPV0(nnn) => {
                self.pc = nnn + self.v[0] as u16;
            },
            Instruction::RND(x, kk) => {
                self.v[x as usize] = random & kk;
                assert(self@ =~= s0.execute(instruction, random));
            },
            Instruction::DRW(x, y, n) => {
                self.draw_sprite(x, y, n);
            },
            Instruction::SKP(x) => {
                if self.keys[self.v[x as usize] as usize] {
                    self.pc += 2;
                }
            },
            Instruction::SKNP(x) => {
                if !self.keys[self.v[x as usize] as usize] {
                    self.pc += 2;
                }
            },
            Instruction::LDVxDT(x) => {
                self.v[x as usize] = self.dt;
                assert(self@ =~= s0.execute(instruction, random));
            },
            Instruction::LDVxK(x) => {
                self.wait_for_key(x);
            },
            Instruction::LDDTVx(x) => {
                self.dt = self.v[x as usize];
            },
            Instruction::LDSTVx(x) => {
                self.st = self.v[x as usize];
            },
            Instruction::ADDI(x) => {
                self.i += self.v[x as usize] as u16;
            },
            Instruction::LDF(x) => {
                self.i = DEFAULT_FONT_ADDR as u16 + (5 * self.v[x as usize]) as u16;
            },
            Instruction::LDB(x) => {
                if (self.i as usize) + 2 < MEMORY_SIZE {
                    let value = self.v[x as usize];
                    self.memory[self.i as usize] = value / 100;
                    self.memory[(self.i + 1) as usize] = (value / 10) % 10;
                    self.memory[(self.i + 2) as usize] = value % 10;
                    assert(self@ =~= s0.execute(instruction, random));
                }
            },
            Instruction::LDStore(x) => {
                self.store_registers(x);
            },
            Instruction::LDLoad(x) => {
                self.load_registers(x);
            },
            Instruction::SYS(_) | Instruction::Unknown(_) => {},
        }
    }

    /// Executes `instruction`; an `RND` draws its byte from the system's random source.
    pub fn execute(&mut self, instruction: Instruction)
        requires
            old(self)@.can_execute(instruction),
        ensures
            exists|random: u8| final(self)@ == old(self)@.execute(instruction, random),
            !(instruction is RND) ==> final(self)@ == old(self)@.execute(instruction, 0),
    {
        let random = match instruction {
            Instruction::RND(_, _) => random_byte(),
            _ => 0,
        };
        self.execute_with_random(instruction, random);
    }

    /// One cycle: fetch the opcode at the program counter, decode it and execute it.
    pub fn tick(&mut self)
        requires
            old(self)@.can_tick(),
        ensures
            exists|random: u8| final(self)@ == old(self)@.tick(random),
            !(decode_spec(old(self)@.fetched_op()) is RND) ==> final(self)@ == old(self)@.tick(0),
    {
        let ghost s0 = self@;
        let op = self.fetch();
        let instruction = self.decode(op);
        let ghost s1 = self@;
        self.execute(instruction);
        proof {
            let random = choose|random: u8| self@ == s1.execute(instruction, random);
            assert(self@ == s0.tick(random));
        }
    }
}

} // verus!
