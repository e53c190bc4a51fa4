//! What each instruction does, stated as relations between the state before and the state
//! after, in terms of registers, addresses and keys.
use vstd::prelude::*;

use crate::instruction::{decode_spec, Instruction};
use crate::sprite::{lemma_pixel_index, lemma_pixel_index_unique};
use crate::machine::{
    console_frame_spec, font_spec, write_block, initial_state, pixel_index, sprite_bit, sprite_col, sprite_covers, sprite_row, Chip8View, DEFAULT_FONT_ADDR, DISPLAY_SIZE, FLAG_REGISTER,
    GENERAL_REGISTER_COUNT, KEY_COUNT, MEMORY_SIZE, PROGRAM_START_ADDR, STACK_SIZE,
};

verus! {

/// `t` is `s` with only the program counter changed, moved two bytes on when `taken`
/// and left where it was otherwise.
pub open spec fn skips_exactly_when(s: Chip8View, t: Chip8View, taken: bool) -> bool {
    &&& taken ==> t.pc == s.pc + 2
    &&& !taken ==> t.pc == s.pc
    &&& t == (Chip8View { pc: t.pc, ..s })
}

/// `t` is `s` with only the general registers changed, and of them at most those named
/// in `changed`.
pub open spec fn registers_changed_only(s: Chip8View, t: Chip8View, changed: Set<int>) -> bool {
    &&& t == (Chip8View { v: t.v, ..s })
    &&& t.v.len() == s.v.len()
    &&& forall|k: int| 0 <= k < s.v.len() && !changed.contains(k) ==> #[trigger] t.v[k] == s.v[k]
}

/// `JP nnn` goes to `nnn`; `JP V0, nnn` goes to `nnn + V0`; nothing else changes.
pub proof fn lemma_jumps(s: Chip8View, nnn: u16, r: u8)
    requires
        s.well_sized(),
    ensures
        s.execute(Instruction::JP(nnn), r) == (Chip8View { pc: nnn, ..s }),
        nnn + s.reg(0) <= u16::MAX ==> {
            let t = s.execute(Instruction::JPV0(nnn), r);
            &&& t.pc - nnn == s.reg(0)
            &&& t == (Chip8View { pc: t.pc, ..s })
        },
{
}

/// `CALL nnn` pushes the address of the next instruction and goes to `nnn`; `RET` pops
/// it back into the program counter (and does nothing on an empty stack).
pub proof fn lemma_call_and_ret(s: Chip8View, nnn: u16, r: u8)
    requires
        s.well_sized(),
        s.sp < STACK_SIZE,
    ensures
        s.sp + 1 < STACK_SIZE ==> {
            let t = s.execute(Instruction::CALL(nnn), r);
            &&& t.pc == nnn
            &&& t.sp == s.sp + 1
            &&& t.stack[t.sp as int] == s.pc
            &&& t.stack.len() == s.stack.len()
            &&& forall|k: int| 0 <= k < s.stack.len() && k != t.sp ==> #[trigger] t.stack[k] == s.stack[k]
            &&& t == (Chip8View { pc: t.pc, sp: t.sp, stack: t.stack, ..s })
        },
        s.sp > 0 ==> {
            let t = s.execute(Instruction::RET, r);
            &&& t.pc == s.stack[s.sp as int]
            &&& t.sp + 1 == s.sp
            &&& t == (Chip8View { pc: t.pc, sp: t.sp, ..s })
        },
        s.sp == 0 ==> s.execute(Instruction::RET, r) == s,
{
}

/// Each conditional skip moves past the next instruction exactly when its condition
/// holds, and changes nothing but the program counter: `SE`/`SNE` compare `Vx` with a
/// byte or with `Vy`, `SKP`/`SKNP` look only at the key numbered `Vx`.
pub proof fn lemma_skips(s: Chip8View, x: u8, y: u8, kk: u8, r: u8)
    requires
        s.well_sized(),
        x < GENERAL_REGISTER_COUNT,
        y < GENERAL_REGISTER_COUNT,
        s.pc + 2 <= u16::MAX,
    ensures
        skips_exactly_when(s, s.execute(Instruction::SEByte(x, kk), r), s.reg(x) == kk),
        skips_exactly_when(s, s.execute(Instruction::SNEByte(x, kk), r), s.reg(x) != kk),
        skips_exactly_when(s, s.execute(Instruction::SEReg(x, y), r), s.reg(x) == s.reg(y)),
        skips_exactly_when(s, s.execute(Instruction::SNEReg(x, y), r), s.reg(x) != s.reg(y)),
        s.reg(x) < KEY_COUNT ==> skips_exactly_when(
            s,
            s.execute(Instruction::SKP(x), r),
            s.keys[s.reg(x) as int],
        ),
        s.reg(x) < KEY_COUNT ==> skips_exactly_when(
            s,
            s.execute(Instruction::SKNP(x), r),
            !s.keys[s.reg(x) as int],
        ),
{
}

/// `LD Vx, byte` and `LD Vx, Vy` copy into `Vx`; `ADD Vx, byte` adds modulo 256 and leaves
/// `VF` alone; only `Vx` changes.
pub proof fn lemma_loads_and_add_byte(s: Chip8View, x: u8, y: u8, kk: u8, r: u8)
    requires
        s.well_sized(),
        x < GENERAL_REGISTER_COUNT,
        y < GENERAL_REGISTER_COUNT,
    ensures
        s.execute(Instruction::LDByte(x, kk), r).reg(x) == kk,
        registers_changed_only(s, s.execute(Instruction::LDByte(x, kk), r), set![x as int]),
        s.execute(Instruction::LDReg(x, y), r).reg(x) == s.reg(y),
        registers_changed_only(s, s.execute(Instruction::LDReg(x, y), r), set![x as int]),
        ({
            let sum = s.execute(Instruction::ADDByte(x, kk), r).reg(x);
            sum == s.reg(x) + kk || sum == s.reg(x) + kk - 256
        }),
        registers_changed_only(s, s.execute(Instruction::ADDByte(x, kk), r), set![x as int]),
{
}

/// `OR`, `AND` and `XOR` of `Vx` and `Vy`: the AND is at most either operand, the OR at
/// least either, OR plus AND is the plain sum, and XOR is the sum without the carries
/// (twice the AND). Only `Vx` changes.
pub proof fn lemma_logic(s: Chip8View, x: u8, y: u8, r: u8)
    requires
        s.well_sized(),
        x < GENERAL_REGISTER_COUNT,
        y < GENERAL_REGISTER_COUNT,
    ensures
        ({
            let a = s.reg(x);
            let b = s.reg(y);
            let or = s.execute(Instruction::OR(x, y), r).reg(x);
            let and = s.execute(Instruction::AND(x, y), r).reg(x);
            let xor = s.execute(Instruction::XOR(x, y), r).reg(x);
            &&& and <= a && and <= b
            &&& a <= or && b <= or
            &&& or + and == a + b
            &&& xor + 2 * and == a + b
        }),
        registers_changed_only(s, s.execute(Instruction::OR(x, y), r), set![x as int]),
        registers_changed_only(s, s.execute(Instruction::AND(x, y), r), set![x as int]),
        registers_changed_only(s, s.execute(Instruction::XOR(x, y), r), set![x as int]),
{
    let a = s.reg(x);
    let b = s.reg(y);
    assert((a & b) <= a && (a & b) <= b && a <= (a | b) && b <= (a | b)
        && (a | b) + (a & b) == a + b && (a ^ b) + 2 * (a & b) == a + b) by (bit_vector);
}

/// `SHR Vx` puts the bit shifted out in `VF`: twice the new `Vx` plus `VF` is the old
/// `Vx`. `SHL Vx` likewise: the new `Vx` plus 256 times `VF` is twice the old `Vx`.
/// `SUBN Vx, Vy` leaves `VF` 1 when nothing was borrowed and 0 otherwise, with
/// `Vx + 256 * (1 - VF) == Vy - Vx(old)`. Only `Vx` and `VF` change.
pub proof fn lemma_shifts_and_subn(s: Chip8View, x: u8, y: u8, r: u8)
    requires
        s.well_sized(),
        x < FLAG_REGISTER,
        y < GENERAL_REGISTER_COUNT,
    ensures
        ({
            let t = s.execute(Instruction::SHR(x, y), r);
            &&& t.reg(FLAG_REGISTER) <= 1
            &&& 2 * t.reg(x) + t.reg(FLAG_REGISTER) == s.reg(x)
        }),
        ({
            let t = s.execute(Instruction::SHL(x, y), r);
            &&& t.reg(FLAG_REGISTER) <= 1
            &&& t.reg(x) + 256 * t.reg(FLAG_REGISTER) == 2 * s.reg(x)
        }),
        ({
            let t = s.execute(Instruction::SUBN(x, y), r);
            &&& t.reg(FLAG_REGISTER) == (if s.reg(y) >= s.reg(x) { 1u8 } else { 0u8 })
            &&& t.reg(x) == s.reg(y) - s.reg(x) + 256 * (1 - t.reg(FLAG_REGISTER))
        }),
        registers_changed_only(s, s.execute(Instruction::SHR(x, y), r), set![x as int, FLAG_REGISTER as int]),
        registers_changed_only(s, s.execute(Instruction::SHL(x, y), r), set![x as int, FLAG_REGISTER as int]),
        registers_changed_only(s, s.execute(Instruction::SUBN(x, y), r), set![x as int, FLAG_REGISTER as int]),
{
}

/// `LD Vx, DT` reads the delay timer, `LD DT, Vx` and `LD ST, Vx` set the delay and the
/// sound timer, each touching nothing else; so a value written to the delay timer is read
/// back unchanged.
pub proof fn lemma_timer_transfers(s: Chip8View, x: u8, y: u8, r: u8)
    requires
        s.well_sized(),
        x < GENERAL_REGISTER_COUNT,
        y < GENERAL_REGISTER_COUNT,
    ensures
        s.execute(Instruction::LDVxDT(x), r).reg(x) == s.dt,
        registers_changed_only(s, s.execute(Instruction::LDVxDT(x), r), set![x as int]),
        s.execute(Instruction::LDDTVx(x), r) == (Chip8View { dt: s.reg(x), ..s }),
        s.execute(Instruction::LDSTVx(x), r) == (Chip8View { st: s.reg(x), ..s }),
        s.execute(Instruction::LDDTVx(x), r).execute(Instruction::LDVxDT(y), r).reg(y) == s.reg(x),
{
}

/// `LD I, nnn` sets `I` to `nnn`, `ADD I, Vx` adds `Vx` to it, `LD F, Vx` points it five
/// bytes per digit past the font; nothing else changes.
pub proof fn lemma_index_register(s: Chip8View, x: u8, nnn: u16, r: u8)
    requires
        s.well_sized(),
        x < GENERAL_REGISTER_COUNT,
    ensures
        s.execute(Instruction::LDI(nnn), r) == (Chip8View { i: nnn, ..s }),
        s.i + s.reg(x) <= u16::MAX ==> {
            let t = s.execute(Instruction::ADDI(x), r);
            &&& t.i - s.i == s.reg(x)
            &&& t == (Chip8View { i: t.i, ..s })
        },
        5 * s.reg(x) <= u8::MAX ==> {
            let t = s.execute(Instruction::LDF(x), r);
            &&& t.i == DEFAULT_FONT_ADDR + 5 * s.reg(x)
            &&& t == (Chip8View { i: t.i, ..s })
        },
{
}

/// `RND Vx, kk` keeps only bits that are set both in the drawn byte and in `kk`: the
/// result is at most either; a full mask keeps the drawn byte and an empty mask gives 0.
/// Only `Vx` changes.
pub proof fn lemma_random(s: Chip8View, x: u8, kk: u8, r: u8)
    requires
        s.well_sized(),
        x < GENERAL_REGISTER_COUNT,
    ensures
        ({
            let v = s.execute(Instruction::RND(x, kk), r).reg(x);
            &&& v <= kk && v <= r
            &&& kk == 0xFF ==> v == r
            &&& kk == 0 ==> v == 0
        }),
        registers_changed_only(s, s.execute(Instruction::RND(x, kk), r), set![x as int]),
{
    assert((r & kk) <= kk && (r & kk) <= r && (r & 0xFFu8) == r && (r & 0u8) == 0) by (bit_vector);
}

/// `CLS` turns every pixel off and changes nothing else.
pub proof fn lemma_clear_screen(s: Chip8View, r: u8)
    requires
        s.well_sized(),
    ensures
        ({
            let t = s.execute(Instruction::CLS, r);
            &&& t.display.len() == DISPLAY_SIZE
            &&& forall|k: int| 0 <= k < DISPLAY_SIZE ==> !(#[trigger] t.display[k])
            &&& t == (Chip8View { display: t.display, ..s })
        }),
{
}

/// `LD [I], Vx` writes `V0..=Vx` to `I..=I+x` and leaves every other byte; `LD Vx, [I]`
/// reads `V0..=Vx` from `I..=I+x` and leaves `V(x+1)..` (when the range fits in memory).
pub proof fn lemma_register_block_transfers(s: Chip8View, x: u8, r: u8)
    requires
        s.well_sized(),
        x < GENERAL_REGISTER_COUNT,
        s.i + x + 1 <= MEMORY_SIZE,
    ensures
        ({
            let t = s.execute(Instruction::LDStore(x), r);
            &&& t.memory.len() == MEMORY_SIZE
            &&& forall|k: int| 0 <= k <= x ==> #[trigger] t.memory[s.i + k] == s.v[k]
            &&& forall|a: int| 0 <= a < MEMORY_SIZE && !(s.i <= a <= s.i + x) ==> #[trigger] t.memory[a] == s.memory[a]
            &&& t == (Chip8View { memory: t.memory, ..s })
        }),
        ({
            let t = s.execute(Instruction::LDLoad(x), r);
            &&& forall|k: int| 0 <= k <= x ==> #[trigger] t.v[k] == s.memory[s.i + k]
            &&& registers_changed_only(s, t, Set::new(|k: int| 0 <= k <= x))
        }),
{
}

/// `LD Vx, K` stores the number of a key that is down with no lower-numbered key down;
/// with no key down it moves the program counter back onto itself.
pub proof fn lemma_wait_for_key(s: Chip8View, x: u8, r: u8)
    requires
        s.well_sized(),
        x < GENERAL_REGISTER_COUNT,
        s.pc >= 2,
    ensures
        ({
            let t = s.execute(Instruction::LDVxK(x), r);
            let key = t.reg(x) as int;
            &&& (exists|k: int| 0 <= k < KEY_COUNT && #[trigger] s.keys[k]) ==> {
                &&& 0 <= key < KEY_COUNT
                &&& s.keys[key]
                &&& forall|j: int| 0 <= j < key ==> !(#[trigger] s.keys[j])
                &&& registers_changed_only(s, t, set![x as int])
            }
            &&& (forall|k: int| 0 <= k < KEY_COUNT ==> !(#[trigger] s.keys[k])) ==> {
                &&& t.pc + 2 == s.pc
                &&& t == (Chip8View { pc: t.pc, ..s })
            }
        }),
{
    if exists|k: int| 0 <= k < KEY_COUNT && #[trigger] s.keys[k] {
        let k0 = choose|k: int| 0 <= k < KEY_COUNT && #[trigger] s.keys[k];
        lemma_first_pressed_exists(s.keys, k0);
    }
}

/// When some key is down, a lowest-numbered key that is down exists.
proof fn lemma_first_pressed_exists(keys: Seq<bool>, k0: int)
    requires
        0 <= k0 < KEY_COUNT,
        keys[k0],
    ensures
        crate::machine::is_first_pressed(keys, crate::machine::first_pressed(keys)),
    decreases k0,
{
    if forall|j: int| 0 <= j < k0 ==> !keys[j] {
        assert(crate::machine::is_first_pressed(keys, k0));
    } else {
        let j = choose|j: int| 0 <= j < k0 && keys[j];
        lemma_first_pressed_exists(keys, j);
    }
}

/// A reset turns every pixel off, zeroes registers, index, stack, stack pointer and
/// timers, puts the program counter at `0x200`, and keeps memory and keys.
pub proof fn lemma_reset_effect(s: Chip8View)
    requires
        s.well_sized(),
    ensures
        ({
            let t = s.reset_state();
            &&& t.display.len() == DISPLAY_SIZE
            &&& forall|k: int| 0 <= k < DISPLAY_SIZE ==> !(#[trigger] t.display[k])
            &&& t.v.len() == GENERAL_REGISTER_COUNT
            &&& forall|k: int| 0 <= k < GENERAL_REGISTER_COUNT ==> #[trigger] t.v[k] == 0
            &&& t.stack.len() == STACK_SIZE
            &&& forall|k: int| 0 <= k < STACK_SIZE ==> #[trigger] t.stack[k] == 0
            &&& t.i == 0 && t.sp == 0 && t.dt == 0 && t.st == 0
            &&& t.pc == PROGRAM_START_ADDR
            &&& t.memory == s.memory
            &&& t.keys == s.keys
        }),
        s.reset_state().display == initial_state().display,
{
}

/// Whether column `col` (0 = leftmost) of a sprite row is lit: the bit under the mask
/// `0x80 >> col`.
pub open spec fn row_pixel_lit(byte: u8, col: int) -> bool {
    byte & (0x80u8 >> (col as u8)) != 0
}

/// The display cell that column `col` of sprite row `row` lands on, drawing from
/// (`xp`, `yp`) and wrapping at the right and bottom edges.
pub open spec fn landing_cell(xp: int, yp: int, row: int, col: int) -> int {
    (xp + col) % 64 + (yp + row) % 32 * 64
}

/// `DRW Vx, Vy, n` XORs the `n` sprite rows stored from `I` on onto the display at
/// (`Vx mod 64`, `Vy mod 32`): each lit sprite pixel flips the cell it lands on, cells that
/// no lit pixel lands on keep their value, and `VF` becomes 1 exactly when a lit pixel
/// landed on a lit cell (0 otherwise). Nothing but the display and `VF` changes.
pub proof fn lemma_draw_effect(s: Chip8View, x: u8, y: u8, n: u8, r: u8)
    requires
        s.well_sized(),
        x < GENERAL_REGISTER_COUNT,
        y < GENERAL_REGISTER_COUNT,
        n < 16,
        n > 0 ==> s.i + n <= MEMORY_SIZE,
    ensures
        ({
            let t = s.execute(Instruction::DRW(x, y, n), r);
            let xp = s.reg(x) % 64;
            let yp = s.reg(y) % 32;
            &&& t.display.len() == DISPLAY_SIZE
            &&& forall|row: int, col: int|
                0 <= row < n && 0 <= col < 8 && #[trigger] row_pixel_lit(s.memory[s.i + row], col)
                    ==> t.display[landing_cell(xp as int, yp as int, row, col)]
                        == !s.display[landing_cell(xp as int, yp as int, row, col)]
            &&& forall|idx: int|
                0 <= idx < DISPLAY_SIZE && (forall|row: int, col: int|
                    0 <= row < n && 0 <= col < 8 && row_pixel_lit(s.memory[s.i + row], col)
                        ==> #[trigger] landing_cell(xp as int, yp as int, row, col) != idx)
                    ==> #[trigger] t.display[idx] == s.display[idx]
            &&& t.reg(FLAG_REGISTER) <= 1
            &&& (t.reg(FLAG_REGISTER) == 1 <==> exists|row: int, col: int|
                0 <= row < n && 0 <= col < 8 && #[trigger] row_pixel_lit(s.memory[s.i + row], col)
                    && s.display[landing_cell(xp as int, yp as int, row, col)])
            &&& registers_changed_only(
                Chip8View { display: t.display, ..s },
                t,
                set![FLAG_REGISTER as int],
            )
        }),
{
    let t = s.execute(Instruction::DRW(x, y, n), r);
    let xp = (s.reg(x) % 64) as int;
    let yp = (s.reg(y) % 32) as int;
    let i = s.i as int;
    let ni = n as int;
    assert forall|byte: u8, c: u8| c < 8 implies #[trigger] sprite_bit(byte, c as int)
        == (byte & (0x80u8 >> c) != 0) by {
        assert(c < 8 ==> (((byte >> (7 - c) as u8) & 1u8 == 1u8) == (byte & (0x80u8 >> c) != 0)))
            by (bit_vector);
    }
    assert forall|row: int, col: int| 0 <= row < ni && 0 <= col < 8 implies
        #[trigger] row_pixel_lit(s.memory[i + row], col) == sprite_covers(s.memory, i, xp, yp, ni, pixel_index(xp, yp, row, col))
        && landing_cell(xp, yp, row, col) == pixel_index(xp, yp, row, col) by {
        lemma_pixel_index(xp, yp, row, col);
        assert(sprite_bit(s.memory[i + row], (col as u8) as int) == row_pixel_lit(s.memory[i + row], col));
    }
    assert forall|idx: int|
        0 <= idx < DISPLAY_SIZE && (forall|row: int, col: int|
            0 <= row < ni && 0 <= col < 8 && row_pixel_lit(s.memory[i + row], col)
                ==> #[trigger] landing_cell(xp, yp, row, col) != idx)
        implies #[trigger] t.display[idx] == s.display[idx] by {
        if sprite_covers(s.memory, i, xp, yp, ni, idx) {
            let row = sprite_row(yp, idx);
            let col = sprite_col(xp, idx);
            lemma_pixel_index_unique(xp, yp, row, col, idx);
            assert(row_pixel_lit(s.memory[i + row], col));
            assert(landing_cell(xp, yp, row, col) == idx);
        }
    }
    if t.reg(FLAG_REGISTER) == 1 {
        let idx = choose|idx: int|
            0 <= idx < s.display.len() && #[trigger] sprite_covers(s.memory, i, xp, yp, ni, idx)
                && s.display[idx];
        let row = sprite_row(yp, idx);
        let col = sprite_col(xp, idx);
        lemma_pixel_index_unique(xp, yp, row, col, idx);
        assert(row_pixel_lit(s.memory[i + row], col) && s.display[landing_cell(xp, yp, row, col)]);
    }
    if exists|row: int, col: int|
        0 <= row < ni && 0 <= col < 8 && #[trigger] row_pixel_lit(s.memory[i + row], col)
            && s.display[landing_cell(xp, yp, row, col)] {
        let (row, col) = choose|row: int, col: int|
            0 <= row < ni && 0 <= col < 8 && #[trigger] row_pixel_lit(s.memory[i + row], col)
                && s.display[landing_cell(xp, yp, row, col)];
        lemma_pixel_index(xp, yp, row, col);
        assert(sprite_covers(s.memory, i, xp, yp, ni, pixel_index(xp, yp, row, col)));
    }
}

/// A new machine: program counter at `0x200`; registers, index, stack pointer, stack,
/// timers, display and keys all zero or off; the glyph of `0` (`F0 90 90 90 F0`) at
/// `0x50` and the glyph of `F` (`F0 80 F0 80 80`) at `0x9B`; zero elsewhere below `0x50`
/// and from `0xA0` on.
pub proof fn lemma_initial_state()
    ensures
        ({
            let s = initial_state();
            &&& s.well_sized()
            &&& s.pc == PROGRAM_START_ADDR && s.i == 0 && s.sp == 0 && s.dt == 0 && s.st == 0
            &&& forall|k: int| 0 <= k < GENERAL_REGISTER_COUNT ==> #[trigger] s.v[k] == 0
            &&& forall|k: int| 0 <= k < STACK_SIZE ==> #[trigger] s.stack[k] == 0
            &&& forall|k: int| 0 <= k < DISPLAY_SIZE ==> !(#[trigger] s.display[k])
            &&& forall|k: int| 0 <= k < KEY_COUNT ==> !(#[trigger] s.keys[k])
            &&& s.memory.subrange(0x50, 0x55) == seq![0xF0u8, 0x90, 0x90, 0x90, 0xF0]
            &&& s.memory.subrange(0x9B, 0xA0) == seq![0xF0u8, 0x80, 0xF0, 0x80, 0x80]
            &&& forall|a: int| (0 <= a < 0x50 || 0xA0 <= a < MEMORY_SIZE) ==> #[trigger] s.memory[a] == 0
        }),
{
    let s = initial_state();
    assert(s.memory.subrange(0x50, 0x55) =~= seq![0xF0u8, 0x90, 0x90, 0x90, 0xF0]);
    assert(s.memory.subrange(0x9B, 0xA0) =~= seq![0xF0u8, 0x80, 0xF0, 0x80, 0x80]);
}

/// Fetching reads the byte at the program counter as the high half and the next byte as
/// the low half of the opcode, and moves the program counter two bytes on.
pub proof fn lemma_fetch_effect(s: Chip8View)
    requires
        s.well_sized(),
        s.can_fetch(),
    ensures
        s.fetched_op() == s.memory[s.pc as int] * 256 + s.memory[s.pc + 1],
        s.after_fetch() == (Chip8View { pc: (s.pc + 2) as u16, ..s }),
        s.after_fetch().pc == s.pc + 2,
{
}

/// Writing a block puts its bytes at consecutive addresses from `start` on and leaves
/// every other address; this is what loading a program (at `0x200`) and the font do.
pub proof fn lemma_write_block_effect(memory: Seq<u8>, start: int, data: Seq<u8>)
    requires
        0 <= start,
        start + data.len() <= memory.len(),
    ensures
        write_block(memory, start, data).len() == memory.len(),
        forall|k: int| 0 <= k < data.len() ==> #[trigger] write_block(memory, start, data)[start + k] == data[k],
        forall|a: int| 0 <= a < memory.len() && !(start <= a < start + data.len())
            ==> #[trigger] write_block(memory, start, data)[a] == memory[a],
{
}

/// The fields of the opcode with nibbles `g`, `x`, `y`, `n` (high to low).
proof fn lemma_op_fields(g: int, x: int, y: int, n: int)
    requires
        0 <= g < 16,
        0 <= x < 16,
        0 <= y < 16,
        0 <= n < 16,
    ensures
        ({
            let op = (g * 4096 + x * 256 + y * 16 + n) as u16;
            &&& op == g * 4096 + x * 256 + y * 16 + n
            &&& crate::instruction::op_group(op) == g
            &&& crate::instruction::op_x(op) == x
            &&& crate::instruction::op_y(op) == y
            &&& crate::instruction::op_n(op) == n
            &&& crate::instruction::op_addr(op) == x * 256 + y * 16 + n
            &&& crate::instruction::op_byte(op) == y * 16 + n
        }),
{
    let v = g * 4096 + x * 256 + y * 16 + n;
    assert(v / 4096 == g && v / 256 % 16 == x && v / 16 % 16 == y && v % 16 == n
        && v % 4096 == x * 256 + y * 16 + n && v % 256 == y * 16 + n) by (nonlinear_arith)
        requires
            v == g * 4096 + x * 256 + y * 16 + n,
            0 <= g < 16,
            0 <= x < 16,
            0 <= y < 16,
            0 <= n < 16,
    ;
}

/// An address `nnn` as three nibbles.
proof fn lemma_split_addr(nnn: u16)
    requires
        nnn < 0x1000,
    ensures
        nnn == (nnn / 256) * 256 + (nnn / 16 % 16) * 16 + nnn % 16,
        nnn / 256 < 16,
{
}

/// Opcodes `00E0`, `00EE`, `1nnn`, `2nnn`, `Annn`, `Bnnn` decode to the instructions
/// they encode.
pub proof fn lemma_decode_address_forms(nnn: u16)
    requires
        nnn < 0x1000,
    ensures
        decode_spec(0x00E0) == Instruction::CLS,
        decode_spec(0x00EE) == Instruction::RET,
        decode_spec((0x1000 + nnn) as u16) == Instruction::JP(nnn),
        decode_spec((0x2000 + nnn) as u16) == Instruction::CALL(nnn),
        decode_spec((0xA000 + nnn) as u16) == Instruction::LDI(nnn),
        decode_spec((0xB000 + nnn) as u16) == Instruction::JPV0(nnn),
{
    lemma_op_fields(0, 0, 0xE, 0);
    lemma_op_fields(0, 0, 0xE, 0xE);
    lemma_split_addr(nnn);
    let (a, b, c) = ((nnn / 256) as int, (nnn / 16 % 16) as int, (nnn % 16) as int);
    lemma_op_fields(1, a, b, c);
    lemma_op_fields(2, a, b, c);
    lemma_op_fields(0xA, a, b, c);
    lemma_op_fields(0xB, a, b, c);
}

/// Opcodes `3xkk`, `4xkk`, `6xkk`, `7xkk`, `Cxkk` and `Dxyn` decode to the instructions
/// they encode.
pub proof fn lemma_decode_byte_forms(x: u8, y: u8, kk: u8, n: u8)
    requires
        x < 16,
        y < 16,
        n < 16,
    ensures
        decode_spec((0x3000 + x * 256 + kk) as u16) == Instruction::SEByte(x, kk),
        decode_spec((0x4000 + x * 256 + kk) as u16) == Instruction::SNEByte(x, kk),
        decode_spec((0x6000 + x * 256 + kk) as u16) == Instruction::LDByte(x, kk),
        decode_spec((0x7000 + x * 256 + kk) as u16) == Instruction::ADDByte(x, kk),
        decode_spec((0xC000 + x * 256 + kk) as u16) == Instruction::RND(x, kk),
        decode_spec((0xD000 + x * 256 + y * 16 + n) as u16) == Instruction::DRW(x, y, n),
{
    let (b, c) = ((kk / 16) as int, (kk % 16) as int);
    assert(kk == b * 16 + c);
    lemma_op_fields(3, x as int, b, c);
    lemma_op_fields(4, x as int, b, c);
    lemma_op_fields(6, x as int, b, c);
    lemma_op_fields(7, x as int, b, c);
    lemma_op_fields(0xC, x as int, b, c);
    lemma_op_fields(0xD, x as int, y as int, n as int);
}

/// Opcodes `5xy0`, `8xyN` and `9xy0` decode to the register instructions they encode.
pub proof fn lemma_decode_register_forms(x: u8, y: u8)
    requires
        x < 16,
        y < 16,
    ensures
        decode_spec((0x5000 + x * 256 + y * 16) as u16) == Instruction::SEReg(x, y),
        decode_spec((0x8000 + x * 256 + y * 16) as u16) == Instruction::LDReg(x, y),
        decode_spec((0x8001 + x * 256 + y * 16) as u16) == Instruction::OR(x, y),
        decode_spec((0x8002 + x * 256 + y * 16) as u16) == Instruction::AND(x, y),
        decode_spec((0x8003 + x * 256 + y * 16) as u16) == Instruction::XOR(x, y),
        decode_spec((0x8004 + x * 256 + y * 16) as u16) == Instruction::ADDReg(x, y),
        decode_spec((0x8005 + x * 256 + y * 16) as u16) == Instruction::SUBReg(x, y),
        decode_spec((0x8006 + x * 256 + y * 16) as u16) == Instruction::SHR(x, y),
        decode_spec((0x8007 + x * 256 + y * 16) as u16) == Instruction::SUBN(x, y),
        decode_spec((0x800E + x * 256 + y * 16) as u16) == Instruction::SHL(x, y),
        decode_spec((0x9000 + x * 256 + y * 16) as u16) == Instruction::SNEReg(x, y),
{
    let (xi, yi) = (x as int, y as int);
    lemma_op_fields(5, xi, yi, 0);
    lemma_op_fields(8, xi, yi, 0);
    lemma_op_fields(8, xi, yi, 1);
    lemma_op_fields(8, xi, yi, 2);
    lemma_op_fields(8, xi, yi, 3);
    lemma_op_fields(8, xi, yi, 4);
    lemma_op_fields(8, xi, yi, 5);
    lemma_op_fields(8, xi, yi, 6);
    lemma_op_fields(8, xi, yi, 7);
    lemma_op_fields(8, xi, yi, 0xE);
    lemma_op_fields(9, xi, yi, 0);
}

/// Opcodes `Ex9E`, `ExA1` and `FxNN` decode to the instructions they encode.
pub proof fn lemma_decode_single_register_forms(x: u8)
    requires
        x < 16,
    ensures
        decode_spec((0xE09E + x * 256) as u16) == Instruction::SKP(x),
        decode_spec((0xE0A1 + x * 256) as u16) == Instruction::SKNP(x),
        decode_spec((0xF007 + x * 256) as u16) == Instruction::LDVxDT(x),
        decode_spec((0xF00A + x * 256) as u16) == Instruction::LDVxK(x),
        decode_spec((0xF015 + x * 256) as u16) == Instruction::LDDTVx(x),
        decode_spec((0xF018 + x * 256) as u16) == Instruction::LDSTVx(x),
        decode_spec((0xF01E + x * 256) as u16) == Instruction::ADDI(x),
        decode_spec((0xF029 + x * 256) as u16) == Instruction::LDF(x),
        decode_spec((0xF033 + x * 256) as u16) == Instruction::LDB(x),
        decode_spec((0xF055 + x * 256) as u16) == Instruction::LDStore(x),
        decode_spec((0xF065 + x * 256) as u16) == Instruction::LDLoad(x),
{
    let xi = x as int;
    lemma_op_fields(0xE, xi, 9, 0xE);
    lemma_op_fields(0xE, xi, 0xA, 1);
    lemma_op_fields(0xF, xi, 0, 7);
    lemma_op_fields(0xF, xi, 0, 0xA);
    lemma_op_fields(0xF, xi, 1, 5);
    lemma_op_fields(0xF, xi, 1, 8);
    lemma_op_fields(0xF, xi, 1, 0xE);
    lemma_op_fields(0xF, xi, 2, 9);
    lemma_op_fields(0xF, xi, 3, 3);
    lemma_op_fields(0xF, xi, 5, 5);
    lemma_op_fields(0xF, xi, 6, 5);
}

/// The console picture: the four characters `ESC [ 2 J`, then 32 lines; line `y` holds
/// a full block for each lit pixel of display row `y` and a space for each dark one, then a
/// line break.
pub proof fn lemma_console_frame_layout(display: Seq<bool>)
    requires
        display.len() == DISPLAY_SIZE,
    ensures
        ({
            let f = console_frame_spec(display);
            &&& f.len() == 4 + 32 * 65
            &&& f[0] == '\u{1b}' && f[1] == '[' && f[2] == '2' && f[3] == 'J'
            &&& forall|y: int, x: int| 0 <= y < 32 && 0 <= x < 64
                ==> #[trigger] f[4 + y * 65 + x] == (if display[y * 64 + x] { '\u{2588}' } else { ' ' })
            &&& forall|y: int| 0 <= y < 32 ==> #[trigger] f[4 + y * 65 + 64] == '\n'
        }),
{
    let f = console_frame_spec(display);
    assert forall|y: int, x: int| 0 <= y < 32 && 0 <= x < 64 implies #[trigger] f[4 + y * 65 + x]
        == (if display[y * 64 + x] { '\u{2588}' } else { ' ' }) by {
        lemma_line_position(y, x);
    }
    assert forall|y: int| 0 <= y < 32 implies #[trigger] f[4 + y * 65 + 64] == '\n' by {
        lemma_line_position(y, 64);
    }
}

/// Position `y * 65 + x` of the picture body is line `y`, column `x`.
proof fn lemma_line_position(y: int, x: int)
    requires
        0 <= y < 32,
        0 <= x <= 64,
    ensures
        (y * 65 + x) / 65 == y,
        (y * 65 + x) % 65 == x,
        0 <= y * 65 + x < 32 * 65,
{
    assert((y * 65 + x) / 65 == y && (y * 65 + x) % 65 == x && 0 <= y * 65 + x < 32 * 65)
        by (nonlinear_arith)
        requires
            0 <= y < 32,
            0 <= x <= 64,
    ;
}

/// A cycle runs the instruction whose opcode sits at the program counter, after moving
/// past it: on `6xkk` it loads the second byte into the register named by the low nibble
/// of the first, and ends two bytes on; on `1nnn` it ends at `nnn`.
pub proof fn lemma_tick_runs_fetched_opcode(s: Chip8View, r: u8)
    requires
        s.well_sized(),
        s.can_fetch(),
    ensures
        s.memory[s.pc as int] / 16 == 6 ==> {
            let t = s.tick(r);
            &&& t.reg(s.memory[s.pc as int] % 16) == s.memory[s.pc + 1]
            &&& t.pc == s.pc + 2
        },
        s.memory[s.pc as int] / 16 == 1 ==> s.tick(r).pc == (s.memory[s.pc as int] % 16) * 256
            + s.memory[s.pc + 1],
{
    let hi = s.memory[s.pc as int];
    let lo = s.memory[s.pc + 1];
    let (g, x, y, n) = ((hi / 16) as int, (hi % 16) as int, (lo / 16) as int, (lo % 16) as int);
    assert(hi == g * 16 + x && lo == y * 16 + n);
    lemma_op_fields(g, x, y, n);
    assert(s.fetched_op() == g * 4096 + x * 256 + y * 16 + n);
}

} // verus!
