//! Facts about drawing sprites: where each sprite pixel lands, and the display part-way
//! through a draw.
use vstd::prelude::*;

use crate::machine::{
    draw_collides, draw_display, pixel_index, sprite_bit, sprite_col, sprite_covers, sprite_row, DISPLAY_HEIGHT,
    DISPLAY_SIZE, DISPLAY_WIDTH,
};

verus! {

/// Whether sprite pixel (`row`, `col`) comes before pixel (`r`, `c`) in drawing order.
pub open spec fn drawn_before(row: int, col: int, r: int, c: int) -> bool {
    row < r || (row == r && col < c)
}

/// Whether a set sprite pixel drawn before (`r`, `c`) lands on display cell `idx`.
pub open spec fn covers_before(
    memory: Seq<u8>,
    i: int,
    xp: int,
    yp: int,
    n: int,
    r: int,
    c: int,
    idx: int,
) -> bool {
    &&& sprite_covers(memory, i, xp, yp, n, idx)
    &&& drawn_before(sprite_row(yp, idx), sprite_col(xp, idx), r, c)
}

/// The display once the pixels before (`r`, `c`) are drawn.
pub open spec fn partial_display(
    display: Seq<bool>,
    memory: Seq<u8>,
    i: int,
    xp: int,
    yp: int,
    n: int,
    r: int,
    c: int,
) -> Seq<bool> {
    Seq::new(
        display.len(),
        |idx: int| display[idx] != covers_before(memory, i, xp, yp, n, r, c, idx),
    )
}

/// Whether a pixel drawn before (`r`, `c`) turned off a pixel that was on.
pub open spec fn partial_collides(
    display: Seq<bool>,
    memory: Seq<u8>,
    i: int,
    xp: int,
    yp: int,
    n: int,
    r: int,
    c: int,
) -> bool {
    exists|idx: int|
        0 <= idx < display.len() && #[trigger] covers_before(memory, i, xp, yp, n, r, c, idx)
            && display[idx]
}

/// Sprite pixel (`r`, `c`) lands on a display cell, and that cell maps back to it.
pub proof fn lemma_pixel_index(xp: int, yp: int, r: int, c: int)
    requires
        0 <= xp < DISPLAY_WIDTH,
        0 <= yp < DISPLAY_HEIGHT,
        0 <= r < DISPLAY_HEIGHT,
        0 <= c < DISPLAY_WIDTH,
    ensures
        0 <= pixel_index(xp, yp, r, c) < DISPLAY_SIZE,
        sprite_row(yp, pixel_index(xp, yp, r, c)) == r,
        sprite_col(xp, pixel_index(xp, yp, r, c)) == c,
{
    let dx = (xp + c) % 64;
    let dy = (yp + r) % 32;
    assert(dx == if xp + c < 64 { xp + c } else { xp + c - 64 });
    assert(dy == if yp + r < 32 { yp + r } else { yp + r - 32 });
    let idx = dx + dy * 64;
    assert(idx / 64 == dy && idx % 64 == dx) by (nonlinear_arith)
        requires
            idx == dx + dy * 64,
            0 <= dx < 64,
            0 <= dy < 32,
    ;
}

/// Only cell `pixel_index(xp, yp, r, c)` maps back to sprite pixel (`r`, `c`).
pub proof fn lemma_pixel_index_unique(xp: int, yp: int, r: int, c: int, idx: int)
    requires
        0 <= xp < DISPLAY_WIDTH,
        0 <= yp < DISPLAY_HEIGHT,
        0 <= r < DISPLAY_HEIGHT,
        0 <= c < DISPLAY_WIDTH,
        0 <= idx < DISPLAY_SIZE,
        sprite_row(yp, idx) == r,
        sprite_col(xp, idx) == c,
    ensures
        idx == pixel_index(xp, yp, r, c),
{
    lemma_pixel_index(xp, yp, r, c);
    let q = idx / 64;
    let m = idx % 64;
    assert(idx == q * 64 + m && 0 <= m < 64 && 0 <= q < 32) by (nonlinear_arith)
        requires
            0 <= idx < 2048,
            q == idx / 64,
            m == idx % 64,
    ;
    assert(m == (xp + c) % 64);
    assert(q == (yp + r) % 32);
}

/// Before the first pixel nothing is drawn.
pub proof fn lemma_draw_start(display: Seq<bool>, memory: Seq<u8>, i: int, xp: int, yp: int, n: int)
    ensures
        partial_display(display, memory, i, xp, yp, n, 0, 0) == display,
        !partial_collides(display, memory, i, xp, yp, n, 0, 0),
{
    assert(partial_display(display, memory, i, xp, yp, n, 0, 0) =~= display);
}

/// Once every row is drawn, the partial display is the drawn display.
pub proof fn lemma_draw_done(display: Seq<bool>, memory: Seq<u8>, i: int, xp: int, yp: int, n: int)
    ensures
        partial_display(display, memory, i, xp, yp, n, n, 0) == draw_display(display, memory, i, xp, yp, n),
        partial_collides(display, memory, i, xp, yp, n, n, 0) == draw_collides(display, memory, i, xp, yp, n),
{
    assert(partial_display(display, memory, i, xp, yp, n, n, 0) =~= draw_display(display, memory, i, xp, yp, n));
    if partial_collides(display, memory, i, xp, yp, n, n, 0) {
        let idx = choose|idx: int|
            0 <= idx < display.len() && #[trigger] covers_before(memory, i, xp, yp, n, n, 0, idx)
                && display[idx];
        assert(sprite_covers(memory, i, xp, yp, n, idx));
    }
    if draw_collides(display, memory, i, xp, yp, n) {
        let idx = choose|idx: int|
            0 <= idx < display.len() && #[trigger] sprite_covers(memory, i, xp, yp, n, idx)
                && display[idx];
        assert(covers_before(memory, i, xp, yp, n, n, 0, idx));
    }
}

/// The end of one sprite row is the start of the next.
pub proof fn lemma_draw_next_row(
    display: Seq<bool>,
    memory: Seq<u8>,
    i: int,
    xp: int,
    yp: int,
    n: int,
    r: int,
)
    ensures
        partial_display(display, memory, i, xp, yp, n, r, 8) == partial_display(display, memory, i, xp, yp, n, r + 1, 0),
        partial_collides(display, memory, i, xp, yp, n, r, 8) == partial_collides(display, memory, i, xp, yp, n, r + 1, 0),
{
    assert forall|idx: int| #[trigger] covers_before(memory, i, xp, yp, n, r, 8, idx)
        == covers_before(memory, i, xp, yp, n, r + 1, 0, idx) by {}
    assert(partial_display(display, memory, i, xp, yp, n, r, 8) =~= partial_display(display, memory, i, xp, yp, n, r + 1, 0));
    if partial_collides(display, memory, i, xp, yp, n, r, 8) {
        let j = choose|j: int|
            0 <= j < display.len() && #[trigger] covers_before(memory, i, xp, yp, n, r, 8, j)
                && display[j];
        assert(covers_before(memory, i, xp, yp, n, r + 1, 0, j));
    }
    if partial_collides(display, memory, i, xp, yp, n, r + 1, 0) {
        let j = choose|j: int|
            0 <= j < display.len() && #[trigger] covers_before(memory, i, xp, yp, n, r + 1, 0, j)
                && display[j];
        assert(covers_before(memory, i, xp, yp, n, r, 8, j));
    }
}

/// Drawing sprite pixel (`r`, `c`): when set it flips the one cell it lands on, which
/// still holds its original value, and reports a collision if that cell was on.
pub proof fn lemma_draw_step(
    display: Seq<bool>,
    memory: Seq<u8>,
    i: int,
    xp: int,
    yp: int,
    n: int,
    r: int,
    c: int,
)
    requires
        display.len() == DISPLAY_SIZE,
        0 <= xp < DISPLAY_WIDTH,
        0 <= yp < DISPLAY_HEIGHT,
        0 <= r < n <= DISPLAY_HEIGHT,
        0 <= c < 8,
    ensures
        ({
            let idx = pixel_index(xp, yp, r, c);
            let b = sprite_bit(memory[i + r], c);
            let before = partial_display(display, memory, i, xp, yp, n, r, c);
            let after = partial_display(display, memory, i, xp, yp, n, r, c + 1);
            &&& 0 <= idx < DISPLAY_SIZE
            &&& before[idx] == display[idx]
            &&& b ==> after == before.update(idx, !before[idx])
            &&& !b ==> after == before
            &&& partial_collides(display, memory, i, xp, yp, n, r, c + 1)
                == (partial_collides(display, memory, i, xp, yp, n, r, c) || (b && display[idx]))
        }),
{
    let idx = pixel_index(xp, yp, r, c);
    let b = sprite_bit(memory[i + r], c);
    lemma_pixel_index(xp, yp, r, c);
    assert forall|j: int| 0 <= j < DISPLAY_SIZE && j != idx implies
        #[trigger] covers_before(memory, i, xp, yp, n, r, c + 1, j)
            == covers_before(memory, i, xp, yp, n, r, c, j) by {
        if sprite_row(yp, j) == r && sprite_col(xp, j) == c {
            lemma_pixel_index_unique(xp, yp, r, c, j);
        }
    }
    assert(covers_before(memory, i, xp, yp, n, r, c + 1, idx) == b);
    assert(!covers_before(memory, i, xp, yp, n, r, c, idx));
    let before = partial_display(display, memory, i, xp, yp, n, r, c);
    let after = partial_display(display, memory, i, xp, yp, n, r, c + 1);
    if b {
        assert(after =~= before.update(idx, !before[idx]));
    } else {
        assert(after =~= before);
    }
    if partial_collides(display, memory, i, xp, yp, n, r, c + 1) {
        let j = choose|j: int|
            0 <= j < display.len() && #[trigger] covers_before(memory, i, xp, yp, n, r, c + 1, j)
                && display[j];
        if j != idx {
            assert(covers_before(memory, i, xp, yp, n, r, c, j));
        }
    }
    if partial_collides(display, memory, i, xp, yp, n, r, c) {
        let j = choose|j: int|
            0 <= j < display.len() && #[trigger] covers_before(memory, i, xp, yp, n, r, c, j)
                && display[j];
        if j != idx {
            assert(covers_before(memory, i, xp, yp, n, r, c + 1, j));
        }
    }
    if b && display[idx] {
        assert(covers_before(memory, i, xp, yp, n, r, c + 1, idx));
    }
}

} // verus!
