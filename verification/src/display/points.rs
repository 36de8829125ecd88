//! The pixels of a frame that are on, as points: what a screen that draws
//! point by point has to draw.

use vstd::prelude::*;
use crate::bit_utils::get_bit_from_byte;
use crate::machine::display_state::frame_bit;
use crate::machine::semantics::DISPLAY_COLS;

verus! {

/// The point `(column, row)` of the pixel at position `k` of a packed frame.
pub open spec fn point_of(k: int) -> (i32, i32) {
    ((k % (DISPLAY_COLS as int)) as i32, (k / (DISPLAY_COLS as int)) as i32)
}

/// The points of the pixels that are on among the first `k` pixels of the
/// packed frame `bytes`, row by row and from left to right within a row.
pub open spec fn lit_points_until(bytes: Seq<u8>, k: int) -> Seq<(i32, i32)>
    decreases k,
{
    if k <= 0 {
        Seq::empty()
    } else if frame_bit(bytes, k - 1) {
        lit_points_until(bytes, k - 1).push(point_of(k - 1))
    } else {
        lit_points_until(bytes, k - 1)
    }
}

/// The points of the pixels that are on in the packed frame `bytes`, row by
/// row and from left to right within a row.
pub fn lit_points(bytes: &[u8]) -> (points: Vec<(i32, i32)>)
    requires
        bytes@.len() / 8 <= i32::MAX,
    ensures
        points@ == lit_points_until(bytes@, 8 * (bytes@.len() as int)),
{
    let mut points: Vec<(i32, i32)> = Vec::new();
    let mut row: i32 = 0;
    let mut col: usize = 0;
    let mut index: usize = 0;
    while index < bytes.len()
        invariant
            index <= bytes@.len(),
            bytes@.len() / 8 <= i32::MAX,
            0 <= row,
            col <= DISPLAY_COLS,
            8 * index == row * DISPLAY_COLS + col,
            index > 0 ==> col > 0,
            points@ == lit_points_until(bytes@, 8 * index),
        decreases bytes@.len() - index,
    {
        let byte: u8 = bytes[index];
        let mut bit: usize = 0;
        while bit < 8
            invariant
                index < bytes@.len(),
                bytes@.len() / 8 <= i32::MAX,
                byte == bytes@[index as int],
                bit <= 8,
                0 <= row,
                col <= DISPLAY_COLS,
                8 * index + bit == row * DISPLAY_COLS + col,
                index + bit > 0 ==> col > 0,
                points@ == lit_points_until(bytes@, 8 * index + bit),
            decreases 8 - bit,
        {
            let ghost k = 8 * index + bit;
            if col == DISPLAY_COLS {
                row += 1;
                col = 0;
            }
            assert(k % 64 == col && k / 64 == row);
            let is_on: bool = get_bit_from_byte(bit, &byte);
            assert(is_on == frame_bit(bytes@, k)) by {
                assert(k / 8 == index && k % 8 == bit);
            }
            if is_on {
                points.push((col as i32, row));
            }
            col += 1;
            bit += 1;
        }
        index += 1;
    }
    points
}

} // verus!
