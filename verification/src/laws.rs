//! Properties that relate several instructions or several calls.
use vstd::prelude::*;

use crate::instruction::Instruction;
use crate::machine::{
    font_spec, initial_state, sprite_covers, write_block, Chip8View, DEFAULT_FONT_ADDR,
    FLAG_REGISTER, GENERAL_REGISTER_COUNT, MEMORY_SIZE, PROGRAM_START_ADDR, STACK_SIZE,
};

verus! {

/// A `RET` after a `CALL` resumes at the instruction after the call, with the stack
/// pointer and everything but the stack slot that held the return address as before.
pub proof fn lemma_call_then_ret(s: Chip8View, nnn: u16, r1: u8, r2: u8)
    requires
        s.well_sized(),
        s.sp + 1 < STACK_SIZE,
    ensures
        s.can_execute(Instruction::CALL(nnn)),
        s.execute(Instruction::CALL(nnn), r1).can_execute(Instruction::RET),
        s.execute(Instruction::CALL(nnn), r1).execute(Instruction::RET, r2)
            == (Chip8View { stack: s.stack.update(s.sp + 1, s.pc), ..s }),
{
    let t = s.execute(Instruction::CALL(nnn), r1);
    assert(t.execute(Instruction::RET, r2) =~= (Chip8View { stack: s.stack.update(s.sp + 1, s.pc), ..s }));
}

/// Drawing a sprite a second time at the same place erases it: the display is back as it
/// was, and the second draw reports a collision exactly when the first turned some pixel
/// on.
/// (When `x` or `y` names `VF`, the first draw moves the second, so those are left out.)
pub proof fn lemma_draw_twice_restores(s: Chip8View, x: u8, y: u8, n: u8, r1: u8, r2: u8)
    requires
        s.well_sized(),
        x < FLAG_REGISTER,
        y < FLAG_REGISTER,
        n < 16,
        n > 0 ==> s.i + n <= MEMORY_SIZE,
    ensures
        s.can_execute(Instruction::DRW(x, y, n)),
        s.execute(Instruction::DRW(x, y, n), r1).can_execute(Instruction::DRW(x, y, n)),
        s.execute(Instruction::DRW(x, y, n), r1).execute(Instruction::DRW(x, y, n), r2).display
            == s.display,
        s.execute(Instruction::DRW(x, y, n), r1).execute(Instruction::DRW(x, y, n), r2).reg(FLAG_REGISTER) == 1
            <==> exists|idx: int|
                0 <= idx < s.display.len() && #[trigger] sprite_covers(
                    s.memory,
                    s.i as int,
                    (s.reg(x) % 64) as int,
                    (s.reg(y) % 32) as int,
                    n as int,
                    idx,
                ) && !s.display[idx],
{
    let t = s.execute(Instruction::DRW(x, y, n), r1);
    let u = t.execute(Instruction::DRW(x, y, n), r2);
    assert(t.reg(x) == s.reg(x) && t.reg(y) == s.reg(y));
    assert(u.display =~= s.display);
    let xp = (s.reg(x) % 64) as int;
    let yp = (s.reg(y) % 32) as int;
    if exists|idx: int|
        0 <= idx < s.display.len() && #[trigger] sprite_covers(s.memory, s.i as int, xp, yp, n as int, idx)
            && !s.display[idx] {
        let idx = choose|idx: int|
            0 <= idx < s.display.len() && #[trigger] sprite_covers(s.memory, s.i as int, xp, yp, n as int, idx)
                && !s.display[idx];
        assert(t.display[idx]);
        assert(sprite_covers(t.memory, t.i as int, xp, yp, n as int, idx));
    }
    if u.reg(FLAG_REGISTER) == 1 {
        let idx = choose|idx: int|
            0 <= idx < t.display.len() && #[trigger] sprite_covers(t.memory, t.i as int, xp, yp, n as int, idx)
                && t.display[idx];
        assert(sprite_covers(s.memory, s.i as int, xp, yp, n as int, idx) && !s.display[idx]);
    }
}

/// Loading `V0..=Vx` right after storing them gives back the same registers and changes
/// nothing else.
pub proof fn lemma_store_then_load(s: Chip8View, x: u8, r1: u8, r2: u8)
    requires
        s.well_sized(),
        x < GENERAL_REGISTER_COUNT,
        s.i + x + 1 <= MEMORY_SIZE,
    ensures
        s.execute(Instruction::LDStore(x), r1).execute(Instruction::LDLoad(x), r2)
            == s.execute(Instruction::LDStore(x), r1),
{
    let t = s.execute(Instruction::LDStore(x), r1);
    assert(t.execute(Instruction::LDLoad(x), r2).v =~= t.v);
}

/// Storing `V0..=Vx` right after loading them writes back the bytes they came from and
/// changes nothing else.
pub proof fn lemma_load_then_store(s: Chip8View, x: u8, r1: u8, r2: u8)
    requires
        s.well_sized(),
        x < GENERAL_REGISTER_COUNT,
        s.i + x + 1 <= MEMORY_SIZE,
    ensures
        s.execute(Instruction::LDLoad(x), r1).execute(Instruction::LDStore(x), r2)
            == s.execute(Instruction::LDLoad(x), r1),
{
    let t = s.execute(Instruction::LDLoad(x), r1);
    assert(t.execute(Instruction::LDStore(x), r2).memory =~= t.memory);
}

/// A new machine holds the font at `0x50`, and `LDF` with a digit points `I` at that
/// digit's five-byte glyph, as long as the font has not been overwritten.
pub proof fn lemma_font_glyph(s: Chip8View, x: u8, r: u8)
    requires
        s.well_sized(),
        x < GENERAL_REGISTER_COUNT,
        s.reg(x) < 16,
        s.memory.subrange(DEFAULT_FONT_ADDR as int, DEFAULT_FONT_ADDR + 80) == font_spec(),
    ensures
        initial_state().memory.subrange(DEFAULT_FONT_ADDR as int, DEFAULT_FONT_ADDR + 80) == font_spec(),
        s.can_execute(Instruction::LDF(x)),
        ({
            let t = s.execute(Instruction::LDF(x), r);
            t.memory.subrange(t.i as int, t.i + 5)
                == font_spec().subrange(5 * s.reg(x), 5 * s.reg(x) + 5)
        }),
{
    assert(initial_state().memory.subrange(DEFAULT_FONT_ADDR as int, DEFAULT_FONT_ADDR + 80) =~= font_spec());
    let t = s.execute(Instruction::LDF(x), r);
    let d = s.reg(x) as int;
    assert forall|k: int| 0 <= k < 5 implies #[trigger] t.memory.subrange(t.i as int, t.i + 5)[k]
        == font_spec().subrange(5 * d, 5 * d + 5)[k] by {
        assert(s.memory.subrange(DEFAULT_FONT_ADDR as int, DEFAULT_FONT_ADDR + 80)[5 * d + k]
            == font_spec()[5 * d + k]);
    }
    assert(t.memory.subrange(t.i as int, t.i + 5) =~= font_spec().subrange(5 * d, 5 * d + 5));
}

/// `LDB` stores the hundreds, tens and units of `Vx`: three decimal digits whose value
/// is `Vx`.
pub proof fn lemma_bcd_digits(s: Chip8View, x: u8, r: u8)
    requires
        s.well_sized(),
        x < GENERAL_REGISTER_COUNT,
        s.i + 2 < MEMORY_SIZE,
    ensures
        ({
            let m = s.execute(Instruction::LDB(x), r).memory;
            &&& m[s.i as int] < 10
            &&& m[s.i + 1] < 10
            &&& m[s.i + 2] < 10
            &&& 100 * m[s.i as int] + 10 * m[s.i + 1] + m[s.i + 2] == s.reg(x)
        }),
{
}

/// `ADD Vx, Vy` keeps the full sum: `VF` ends as the carry, and for `x` other than `VF`
/// the carry is worth 256 next to `Vx`.
pub proof fn lemma_add_carry(s: Chip8View, x: u8, y: u8, r: u8)
    requires
        s.well_sized(),
        x < GENERAL_REGISTER_COUNT,
        y < GENERAL_REGISTER_COUNT,
    ensures
        ({
            let t = s.execute(Instruction::ADDReg(x, y), r);
            &&& t.reg(FLAG_REGISTER) == (if s.reg(x) + s.reg(y) > 255 { 1u8 } else { 0u8 })
            &&& x != FLAG_REGISTER ==> 256 * t.reg(FLAG_REGISTER) + t.reg(x) == s.reg(x) + s.reg(y)
        }),
{
}

/// `SUB Vx, Vy` is exact with the borrow: `VF` ends as 1 when nothing was borrowed and 0
/// otherwise, and for `x` other than `VF` the result plus the borrow is the difference.
pub proof fn lemma_sub_borrow(s: Chip8View, x: u8, y: u8, r: u8)
    requires
        s.well_sized(),
        x < GENERAL_REGISTER_COUNT,
        y < GENERAL_REGISTER_COUNT,
    ensures
        ({
            let t = s.execute(Instruction::SUBReg(x, y), r);
            &&& t.reg(FLAG_REGISTER) == (if s.reg(x) >= s.reg(y) { 1u8 } else { 0u8 })
            &&& x != FLAG_REGISTER ==> t.reg(x) == s.reg(x) - s.reg(y) + 256 * (1 - t.reg(FLAG_REGISTER))
        }),
{
}

/// The state after `k` timer updates.
pub open spec fn timers_updated_times(s: Chip8View, k: nat) -> Chip8View
    decreases k,
{
    if k == 0 {
        s
    } else {
        timers_updated_times(s, (k - 1) as nat).timers_updated()
    }
}

/// `k` timer updates take `k` off each timer, stopping at zero, and change nothing else;
/// so timers never go up, and 255 updates bring both to zero.
pub proof fn lemma_timers_countdown(s: Chip8View, k: nat)
    ensures
        timers_updated_times(s, k).dt == (if s.dt >= k { s.dt - k } else { 0 }),
        timers_updated_times(s, k).st == (if s.st >= k { s.st - k } else { 0 }),
        timers_updated_times(s, k) == (Chip8View {
            dt: timers_updated_times(s, k).dt,
            st: timers_updated_times(s, k).st,
            ..s
        }),
    decreases k,
{
    if k > 0 {
        lemma_timers_countdown(s, (k - 1) as nat);
    }
}

/// Resetting a new machine leaves it as it is, and a second reset changes nothing.
pub proof fn lemma_reset(s: Chip8View)
    ensures
        initial_state().reset_state() == initial_state(),
        s.reset_state().reset_state() == s.reset_state(),
{
    assert(initial_state().reset_state() =~= initial_state());
    assert(s.reset_state().reset_state() =~= s.reset_state());
}

/// After a program is loaded at `0x200`, a machine whose program counter is there fetches
/// the program's first two bytes as its first opcode.
pub proof fn lemma_load_then_fetch(s: Chip8View, data: Seq<u8>)
    requires
        s.well_sized(),
        s.pc == PROGRAM_START_ADDR,
        2 <= data.len(),
        PROGRAM_START_ADDR + data.len() <= MEMORY_SIZE,
    ensures
        ({
            let t = Chip8View { memory: write_block(s.memory, PROGRAM_START_ADDR as int, data), ..s };
            &&& t.can_fetch()
            &&& t.fetched_op() == data[0] * 256 + data[1]
        }),
{
}

/// A skip that is taken jumps over exactly one two-byte instruction: the cycle ends four
/// bytes past where it began.
pub proof fn lemma_taken_skip(s: Chip8View, x: u8, kk: u8, r: u8)
    requires
        s.well_sized(),
        s.can_fetch(),
        x < GENERAL_REGISTER_COUNT,
        s.pc + 4 <= u16::MAX,
        s.reg(x) == kk,
    ensures
        s.after_fetch().can_execute(Instruction::SEByte(x, kk)),
        s.after_fetch().execute(Instruction::SEByte(x, kk), r).pc == s.pc + 4,
{
}

/// What every executable instruction keeps: the sizes of memory, registers, stack,
/// display and keypad; a stack pointer inside the stack; the keypad. Only `CLS` and `DRW`
/// change the display, and only `LDB` and `LDStore` change memory.
pub proof fn lemma_execute_frame(s: Chip8View, ins: Instruction, r: u8)
    requires
        s.well_sized(),
        s.can_execute(ins),
    ensures
        s.execute(ins, r).well_sized(),
        s.sp < STACK_SIZE ==> s.execute(ins, r).sp < STACK_SIZE,
        s.execute(ins, r).keys == s.keys,
        !(ins is CLS || ins is DRW) ==> s.execute(ins, r).display == s.display,
        !(ins is LDB || ins is LDStore) ==> s.execute(ins, r).memory == s.memory,
{
}

} // verus!
