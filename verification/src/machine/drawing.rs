//! Drawing a sprite: which pixels it covers, what the frame looks like
//! afterwards, and whether a pixel went off.

use vstd::prelude::*;
use crate::bit_utils::bit_at;
use crate::bit_utils::bits_of;
use crate::bit_utils::byte_from_bits;
use crate::bit_utils::lemma_bit_of_byte_from_bits;
use crate::bit_utils::lemma_bits_round_trip;
use crate::machine::display_state::bit_index;
use crate::machine::display_state::frame_bit;
use crate::machine::semantics::DISPLAY_COLS;
use crate::machine::semantics::DISPLAY_ROWS;
use crate::machine::semantics::FRAME_BYTES;

verus! {

/// A frame with every pixel off.
pub open spec fn blank_frame() -> Seq<u8> {
    Seq::new(FRAME_BYTES as nat, |b: int| 0u8)
}

/// Whether pixel `(px, py)` of the screen is on in `frame`.
pub open spec fn frame_pixel(frame: Seq<u8>, px: int, py: int) -> bool {
    frame_bit(frame, bit_index(DISPLAY_COLS as int, px, py))
}

/// Number of rows of an `n`-row sprite that are on the screen when its top
/// row is drawn in row `y % DISPLAY_ROWS`: the rest lies below the bottom
/// edge and is dropped.
pub open spec fn visible_rows(y: u8, n: u8) -> int {
    if n <= DISPLAY_ROWS - y % 32 {
        n as int
    } else {
        DISPLAY_ROWS - y % 32
    }
}

/// Whether the `n`-row sprite at `sprite`, drawn with its top left corner at
/// `(x % DISPLAY_COLS, y % DISPLAY_ROWS)`, has a set bit on pixel
/// `(px, py)`.
pub open spec fn sprite_covers(sprite: Seq<u8>, x: u8, y: u8, n: u8, px: int, py: int) -> bool {
    let left = x % 64;
    let top = y % 32;
    &&& left <= px < left + 8
    &&& top <= py < top + n
    &&& bit_at(sprite[py - top], (px - left) as u8)
}

/// Whether `(px, py)` is a pixel of the screen.
pub open spec fn on_screen(px: int, py: int) -> bool {
    0 <= px < DISPLAY_COLS && 0 <= py < DISPLAY_ROWS
}

/// The frame after the sprite is drawn: each pixel that a set bit of the
/// sprite covers is inverted, every other pixel is kept.
pub open spec fn drawn_frame(frame: Seq<u8>, sprite: Seq<u8>, x: u8, y: u8, n: u8) -> Seq<u8> {
    Seq::new(
        FRAME_BYTES as nat,
        |b: int|
            byte_from_bits(
                Seq::new(
                    8,
                    |j: int|
                        frame_bit(frame, 8 * b + j) != sprite_covers(
                            sprite,
                            x,
                            y,
                            n,
                            (8 * b + j) % (DISPLAY_COLS as int),
                            (8 * b + j) / (DISPLAY_COLS as int),
                        ),
                ),
            ),
    )
}

/// Whether drawing the sprite turns a pixel off: a set bit of the sprite
/// covers a pixel that is on.
pub open spec fn collides(frame: Seq<u8>, sprite: Seq<u8>, x: u8, y: u8, n: u8) -> bool {
    exists|px: int, py: int|
        on_screen(px, py) && #[trigger] frame_pixel(frame, px, py) && sprite_covers(
            sprite,
            x,
            y,
            n,
            px,
            py,
        )
}

/// In the frame after a draw, a pixel of the screen is on exactly when it
/// was on before and no set bit of the sprite covers it, or it was off and
/// one does.
pub proof fn lemma_drawn_frame_pixel(
    frame: Seq<u8>,
    sprite: Seq<u8>,
    x: u8,
    y: u8,
    n: u8,
    px: int,
    py: int,
)
    requires
        on_screen(px, py),
    ensures
        frame_pixel(drawn_frame(frame, sprite, x, y, n), px, py) == (frame_pixel(frame, px, py)
            != sprite_covers(sprite, x, y, n, px, py)),
{
    let k = bit_index(DISPLAY_COLS as int, px, py);
    let b = k / 8;
    let j = k % 8;
    let bits = Seq::new(
        8,
        |j: int|
            frame_bit(frame, 8 * b + j) != sprite_covers(
                sprite,
                x,
                y,
                n,
                (8 * b + j) % (DISPLAY_COLS as int),
                (8 * b + j) / (DISPLAY_COLS as int),
            ),
    );
    assert(k == py * 64 + px);
    assert(0 <= k < 2048);
    assert(0 <= b < 256 && 0 <= j < 8);
    assert(8 * b + j == k);
    assert(k % 64 == px && k / 64 == py);
    let drawn = drawn_frame(frame, sprite, x, y, n);
    assert(drawn[b] == byte_from_bits(bits));
    lemma_bit_of_byte_from_bits(bits, j as u8);
    assert(bit_at(drawn[b], j as u8) == bits[j]);
    assert(frame_pixel(drawn, px, py) == bit_at(drawn[b], j as u8));
    assert(bits[j] == (frame_bit(frame, k) != sprite_covers(sprite, x, y, n, px, py)));
}

/// A frame that differs from `before` in exactly the pixels that a set bit
/// of the sprite covers is the frame after the draw.
pub proof fn lemma_frame_is_drawn_frame(
    before: Seq<u8>,
    after: Seq<u8>,
    sprite: Seq<u8>,
    x: u8,
    y: u8,
    n: u8,
)
    requires
        after.len() == FRAME_BYTES,
        forall|px: int, py: int|
            on_screen(px, py) ==> #[trigger] frame_pixel(after, px, py) == (frame_pixel(
                before,
                px,
                py,
            ) != sprite_covers(sprite, x, y, n, px, py)),
    ensures
        after == drawn_frame(before, sprite, x, y, n),
{
    let target = drawn_frame(before, sprite, x, y, n);
    assert forall|b: int| 0 <= b < FRAME_BYTES implies after[b] == target[b] by {
        let bits = Seq::new(
            8,
            |j: int|
                frame_bit(before, 8 * b + j) != sprite_covers(
                    sprite,
                    x,
                    y,
                    n,
                    (8 * b + j) % (DISPLAY_COLS as int),
                    (8 * b + j) / (DISPLAY_COLS as int),
                ),
        );
        assert forall|j: int| 0 <= j < 8 implies bits_of(after[b])[j] == bits[j] by {
            let k = 8 * b + j;
            let px = k % 64;
            let py = k / 64;
            assert(bit_index(DISPLAY_COLS as int, px, py) == k);
            assert(k / 8 == b && k % 8 == j);
            assert(frame_pixel(after, px, py) == bit_at(after[b], j as u8));
        }
        assert(bits_of(after[b]) =~= bits);
        lemma_bits_round_trip(after[b]);
    }
    assert(after =~= target);
}

/// Whether drawing the sprite turns a pixel on: a set bit of the sprite
/// covers a pixel that is off.
pub open spec fn lights_a_pixel(frame: Seq<u8>, sprite: Seq<u8>, x: u8, y: u8, n: u8) -> bool {
    exists|px: int, py: int|
        on_screen(px, py) && !#[trigger] frame_pixel(frame, px, py) && sprite_covers(
            sprite,
            x,
            y,
            n,
            px,
            py,
        )
}

/// Drawing a sprite twice in the same place gives the frame back.
pub proof fn lemma_drawn_twice(frame: Seq<u8>, sprite: Seq<u8>, x: u8, y: u8, n: u8)
    requires
        frame.len() == FRAME_BYTES,
    ensures
        drawn_frame(drawn_frame(frame, sprite, x, y, n), sprite, x, y, n) == frame,
{
    let once = drawn_frame(frame, sprite, x, y, n);
    assert forall|px: int, py: int| on_screen(px, py) implies #[trigger] frame_pixel(frame, px, py)
        == (frame_pixel(once, px, py) != sprite_covers(sprite, x, y, n, px, py)) by {
        lemma_drawn_frame_pixel(frame, sprite, x, y, n, px, py);
    }
    lemma_frame_is_drawn_frame(once, frame, sprite, x, y, n);
}

/// Drawing a sprite a second time in the same place turns a pixel off if
/// and only if the first draw turned a pixel on.
pub proof fn lemma_second_draw_collides(frame: Seq<u8>, sprite: Seq<u8>, x: u8, y: u8, n: u8)
    ensures
        collides(drawn_frame(frame, sprite, x, y, n), sprite, x, y, n) == lights_a_pixel(
            frame,
            sprite,
            x,
            y,
            n,
        ),
{
    let once = drawn_frame(frame, sprite, x, y, n);
    if collides(once, sprite, x, y, n) {
        let (px, py) = choose|px: int, py: int|
            on_screen(px, py) && #[trigger] frame_pixel(once, px, py) && sprite_covers(
                sprite,
                x,
                y,
                n,
                px,
                py,
            );
        lemma_drawn_frame_pixel(frame, sprite, x, y, n, px, py);
        assert(!frame_pixel(frame, px, py));
    }
    if lights_a_pixel(frame, sprite, x, y, n) {
        let (px, py) = choose|px: int, py: int|
            on_screen(px, py) && !#[trigger] frame_pixel(frame, px, py) && sprite_covers(
                sprite,
                x,
                y,
                n,
                px,
                py,
            );
        lemma_drawn_frame_pixel(frame, sprite, x, y, n, px, py);
        assert(frame_pixel(once, px, py));
    }
}

/// On a blank frame, a sprite drawn at a column that is a multiple of 8
/// leaves its rows in the frame as they are: the byte of each row that is on
/// the screen lands in the frame byte of its row and column, every other
/// byte of the frame stays zero, and no pixel goes off.
pub proof fn lemma_draw_on_blank(sprite: Seq<u8>, x: u8, y: u8, n: u8, b: int)
    requires
        (x % 64) % 8 == 0,
        0 <= b < FRAME_BYTES,
    ensures
        drawn_frame(blank_frame(), sprite, x, y, n)[b] == (if b % 8 == (x % 64) / 8 && y % 32
            <= b / 8 < y % 32 + n {
            sprite[b / 8 - y % 32]
        } else {
            0
        }),
        !collides(blank_frame(), sprite, x, y, n),
{
    let left = (x % 64) as int;
    let top = (y % 32) as int;
    let bits = Seq::new(
        8,
        |j: int|
            frame_bit(blank_frame(), 8 * b + j) != sprite_covers(
                sprite,
                x,
                y,
                n,
                (8 * b + j) % (DISPLAY_COLS as int),
                (8 * b + j) / (DISPLAY_COLS as int),
            ),
    );
    assert(drawn_frame(blank_frame(), sprite, x, y, n)[b] == byte_from_bits(bits));
    let covered = b % 8 == left / 8 && top <= b / 8 < top + n;
    assert forall|j: int| 0 <= j < 8 implies bits[j] == (covered && bit_at(
        sprite[b / 8 - top],
        j as u8,
    )) by {
        let k = 8 * b + j;
        assert(k / 8 == b && k % 8 == j);
        assert(k % 64 == 8 * (b % 8) + j && k / 64 == b / 8);
        lemma_blank_bit(k);
    }
    if covered {
        assert(bits =~= bits_of(sprite[b / 8 - top]));
        lemma_bits_round_trip(sprite[b / 8 - top]);
    } else {
        assert(bits =~= Seq::new(8, |j: int| false));
        assert((0u8 | 0u8 | 0u8 | 0u8 | 0u8 | 0u8 | 0u8 | 0u8) == 0u8) by (bit_vector);
    }
    assert forall|px: int, py: int| on_screen(px, py) implies !#[trigger] frame_pixel(
        blank_frame(),
        px,
        py,
    ) by {
        lemma_blank_bit(bit_index(DISPLAY_COLS as int, px, py));
    }
}

/// No bit of the blank frame is on.
pub proof fn lemma_blank_bit(k: int)
    requires
        0 <= k < 8 * FRAME_BYTES,
    ensures
        !frame_bit(blank_frame(), k),
{
    let j: u8 = (k % 8) as u8;
    assert(0u8 & (0x80u8 >> j) == 0) by (bit_vector);
}

} // verus!
