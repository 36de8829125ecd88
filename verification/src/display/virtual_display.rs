//! The screen as the machine sees it: something that a frame can be handed
//! to.

use vstd::prelude::*;
use crate::machine::semantics::FRAME_BYTES;

verus! {

/// A screen: whatever can present a frame.
pub trait VirtualDisplay {
    /// Presents a packed frame: `FRAME_BYTES` bytes, row by row, eight
    /// pixels to a byte, the leftmost pixel in the most significant bit.
    fn draw(&mut self, bytes: &[u8])
        requires
            bytes@.len() == FRAME_BYTES,
    ;
}

} // verus!
