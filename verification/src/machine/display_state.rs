//! The framebuffer: a grid of on/off pixels packed eight to a byte, row by
//! row, the leftmost pixel of each byte in its most significant bit.

use vstd::prelude::*;
use vstd::arithmetic::div_mod::lemma_fundamental_div_mod;
use vstd::arithmetic::div_mod::lemma_fundamental_div_mod_converse;
use vstd::arithmetic::mul::lemma_mul_inequality;
use vstd::arithmetic::mul::lemma_mul_is_commutative;
use crate::bit_utils::bit_at;
use crate::bit_utils::get_bit_from_byte;

verus! {

/// Position of pixel `(x, y)` among the bits of a frame that is `cols`
/// pixels wide, counting row by row from the top left.
pub open spec fn bit_index(cols: int, x: int, y: int) -> int {
    y * cols + x
}

/// The byte that holds pixel `(x, y)` and the pixel's bit within that byte.
pub open spec fn identify_spec(cols: int, x: int, y: int) -> (int, int) {
    (bit_index(cols, x, y) / 8, bit_index(cols, x, y) % 8)
}

/// The pixel `(x, y)` that is stored in bit `bit_idx` of byte `byte_idx`.
pub open spec fn coordinates_of(cols: int, byte_idx: int, bit_idx: int) -> (int, int) {
    ((byte_idx * 8 + bit_idx) % cols, (byte_idx * 8 + bit_idx) / cols)
}

/// Whether the bit at position `k` of the packed frame `frame` is on.
pub open spec fn frame_bit(frame: Seq<u8>, k: int) -> bool {
    bit_at(frame[k / 8], (k % 8) as u8)
}

/// `frame` with the bit at position `k` inverted.
pub open spec fn flip_bit(frame: Seq<u8>, k: int) -> Seq<u8> {
    frame.update(k / 8, frame[k / 8] ^ (0x80u8 >> ((k % 8) as u8)))
}

/// Every pixel of a `cols` by `rows` grid has a byte and a bit of its own
/// within the grid's `cols * rows` bits, and `coordinates_of` leads back from
/// there to the pixel.
pub proof fn lemma_identify_inverse(cols: int, rows: int, x: int, y: int)
    requires
        0 <= x < cols,
        0 <= y < rows,
    ensures
        0 <= identify_spec(cols, x, y).0,
        0 <= identify_spec(cols, x, y).1 < 8,
        identify_spec(cols, x, y).0 * 8 + identify_spec(cols, x, y).1 < cols * rows,
        coordinates_of(cols, identify_spec(cols, x, y).0, identify_spec(cols, x, y).1) == (x, y),
{
    let k = bit_index(cols, x, y);
    lemma_bit_index_bounds(cols, rows, x, y);
    lemma_fundamental_div_mod(k, 8);
    lemma_mul_is_commutative(y, cols);
    lemma_fundamental_div_mod_converse(k, cols, y, x);
}

/// Every bit of a `cols` by `rows` grid is a pixel of the grid, and
/// `identify_spec` leads back from that pixel to the bit.
pub proof fn lemma_coordinates_inverse(cols: int, rows: int, byte_idx: int, bit_idx: int)
    requires
        0 <= byte_idx,
        0 <= bit_idx < 8,
        byte_idx * 8 + bit_idx < cols * rows,
        0 < cols,
    ensures
        0 <= coordinates_of(cols, byte_idx, bit_idx).0 < cols,
        0 <= coordinates_of(cols, byte_idx, bit_idx).1 < rows,
        identify_spec(
            cols,
            coordinates_of(cols, byte_idx, bit_idx).0,
            coordinates_of(cols, byte_idx, bit_idx).1,
        ) == (byte_idx, bit_idx),
{
    let k = byte_idx * 8 + bit_idx;
    let (x, y) = coordinates_of(cols, byte_idx, bit_idx);
    lemma_fundamental_div_mod(k, cols);
    lemma_mul_is_commutative(y, cols);
    assert(bit_index(cols, x, y) == k);
    assert(y < rows) by {
        if y >= rows {
            lemma_mul_inequality(rows, y, cols);
            lemma_mul_is_commutative(rows, cols);
        }
    }
    assert(0 <= y) by {
        if y < 0 {
            lemma_mul_inequality(y, -1, cols);
        }
    }
    lemma_fundamental_div_mod_converse(k, 8, byte_idx, bit_idx);
}

/// The pixels of a `cols` by `rows` grid lie within its first `cols * rows`
/// bits.
pub proof fn lemma_bit_index_bounds(cols: int, rows: int, x: int, y: int)
    requires
        0 <= x < cols,
        0 <= y < rows,
    ensures
        0 <= bit_index(cols, x, y) < cols * rows,
{
    assert(0 <= y * cols) by (nonlinear_arith)
        requires
            0 <= y,
            0 <= cols,
    ;
    assert((y + 1) * cols <= rows * cols) by (nonlinear_arith)
        requires
            y + 1 <= rows,
            0 <= cols,
    ;
    assert((y + 1) * cols == y * cols + cols) by (nonlinear_arith);
    assert(rows * cols == cols * rows) by (nonlinear_arith);
}

/// Two pixels of one grid share a bit only if they are the same pixel.
pub proof fn lemma_bit_index_injective(cols: int, x1: int, y1: int, x2: int, y2: int)
    requires
        0 <= x1 < cols,
        0 <= x2 < cols,
        bit_index(cols, x1, y1) == bit_index(cols, x2, y2),
    ensures
        x1 == x2,
        y1 == y2,
{
    lemma_mul_is_commutative(y1, cols);
    lemma_mul_is_commutative(y2, cols);
    let k = bit_index(cols, x1, y1);
    lemma_fundamental_div_mod_converse(k, cols, y1, x1);
    lemma_fundamental_div_mod_converse(k, cols, y2, x2);
}

/// Inverting the bit at position `k` changes that bit and no other.
pub proof fn lemma_flip_bit(frame: Seq<u8>, k: int, j: int)
    requires
        0 <= k < 8 * frame.len(),
        0 <= j < 8 * frame.len(),
    ensures
        frame_bit(flip_bit(frame, k), j) == (frame_bit(frame, j) != (j == k)),
{
    let byte: u8 = frame[k / 8];
    let kb: u8 = (k % 8) as u8;
    let jb: u8 = (j % 8) as u8;
    if j / 8 == k / 8 {
        assert(j == k <==> jb == kb);
        assert(kb < 8 && jb < 8 ==> (((byte ^ (0x80u8 >> kb)) & (0x80u8 >> jb) != 0) == ((byte & (
            0x80u8 >> jb) != 0) != (jb == kb)))) by (bit_vector);
    }
}

/// A framebuffer of `cols` by `rows` pixels, packed into `cols * rows / 8`
/// bytes.
pub struct DisplayState {
    raw: Vec<u8>,
    cols: usize,
    rows: usize,
}

impl View for DisplayState {
    type V = Seq<u8>;

    /// The packed frame: `cols * rows / 8` bytes.
    closed spec fn view(&self) -> Seq<u8> {
        self.raw@
    }
}

impl DisplayState {
    #[verifier::type_invariant]
    spec fn sized(&self) -> bool {
        &&& self.cols * self.rows <= usize::MAX
        &&& self.raw@.len() == (self.cols * self.rows) / 8
    }

    /// Width of the grid in pixels.
    pub closed spec fn cols(&self) -> int {
        self.cols as int
    }

    /// Height of the grid in pixels.
    pub closed spec fn rows(&self) -> int {
        self.rows as int
    }

    /// Whether `(x, y)` is a pixel of the grid whose bit the frame holds.
    pub open spec fn in_frame(&self, x: int, y: int) -> bool {
        &&& 0 <= x < self.cols()
        &&& 0 <= y < self.rows()
        &&& bit_index(self.cols(), x, y) < 8 * self@.len()
    }

    /// Whether pixel `(x, y)` is on.
    pub open spec fn pixel(&self, x: int, y: int) -> bool {
        frame_bit(self@, bit_index(self.cols(), x, y))
    }

    /// Width and height of the grid, and the size of the frame that follows
    /// from them.
    pub fn dimensions(&self) -> (size: (usize, usize))
        ensures
            size.0 == self.cols(),
            size.1 == self.rows(),
            self@.len() == (self.cols() * self.rows()) / 8,
    {
        proof {
            use_type_invariant(self);
        }
        (self.cols, self.rows)
    }

    /// A grid of `cols` by `rows` pixels, all of them off.
    pub fn new(cols: usize, rows: usize) -> (state: Self)
        requires
            cols * rows <= usize::MAX,
        ensures
            state.cols() == cols,
            state.rows() == rows,
            state@ == Seq::new(((cols * rows) / 8) as nat, |i: int| 0u8),
    {
        let raw: Vec<u8> = vec![0x00; cols * rows / 8];
        assert(raw@ =~= Seq::new(((cols * rows) / 8) as nat, |i: int| 0u8));
        DisplayState { cols, rows, raw }
    }

    /// Turns every pixel off.
    pub fn clear(&mut self)
        ensures
            final(self).cols() == old(self).cols(),
            final(self).rows() == old(self).rows(),
            final(self)@ == Seq::new(old(self)@.len(), |i: int| 0u8),
    {
        proof {
            use_type_invariant(&*self);
        }
        self.raw = vec![0x00; self.cols * self.rows / 8];
        assert(self.raw@ =~= Seq::new(old(self)@.len(), |i: int| 0u8));
    }

    /// The byte that holds pixel `(x, y)` and the pixel's bit within it.
    pub fn identify(&self, x: usize, y: usize) -> (place: (usize, usize))
        requires
            bit_index(self.cols(), x as int, y as int) <= usize::MAX,
        ensures
            (place.0 as int, place.1 as int) == identify_spec(self.cols(), x as int, y as int),
    {
        assert(0 <= y * self.cols) by (nonlinear_arith);
        let bit_idx: usize = y * self.cols + x;
        let byte_idx: usize = bit_idx / 8;
        let bit_in_byte: usize = bit_idx % 8;
        (byte_idx, bit_in_byte)
    }

    /// Whether pixel `(x, y)` is on.
    pub fn is_on(&self, x: usize, y: usize) -> (on: bool)
        requires
            self.in_frame(x as int, y as int),
        ensures
            on == self.pixel(x as int, y as int),
    {
        proof {
            use_type_invariant(self);
        }
        let (byte_idx, bit_idx) = self.identify(x, y);
        get_bit_from_byte(bit_idx, &self.raw[byte_idx])
    }

    /// Inverts pixel `(x, y)` and leaves every other pixel as it is.
    pub fn flip(&mut self, x: usize, y: usize)
        requires
            old(self).in_frame(x as int, y as int),
        ensures
            final(self).cols() == old(self).cols(),
            final(self).rows() == old(self).rows(),
            final(self)@ == flip_bit(old(self)@, bit_index(old(self).cols(), x as int, y as int)),
            forall|x2: int, y2: int|
                old(self).in_frame(x2, y2) ==> #[trigger] final(self).pixel(x2, y2) == (old(
                    self,
                ).pixel(x2, y2) != (x2 == x && y2 == y)),
    {
        proof {
            use_type_invariant(&*self);
        }
        let (byte_idx, bit_idx) = self.identify(x, y);
        let mask: u8 = 0b10000000u8 >> bit_idx;
        let byte: u8 = self.raw[byte_idx];
        self.raw[byte_idx] = byte ^ mask;
        proof {
            let cols = old(self).cols();
            let k = bit_index(cols, x as int, y as int);
            assert forall|x2: int, y2: int| old(self).in_frame(x2, y2) implies #[trigger] self.pixel(
                x2,
                y2,
            ) == (old(self).pixel(x2, y2) != (x2 == x && y2 == y)) by {
                let j = bit_index(cols, x2, y2);
                assert(0 <= y2 * cols) by (nonlinear_arith)
                    requires
                        0 <= y2,
                        0 <= cols,
                ;
                lemma_flip_bit(old(self)@, k, j);
                if j == k {
                    lemma_bit_index_injective(cols, x2, y2, x as int, y as int);
                }
            }
        }
    }

    /// The packed frame, for whatever presents it.
    pub fn as_bytes(&self) -> (bytes: &[u8])
        ensures
            bytes@ == self@,
    {
        self.raw.as_slice()
    }
}

} // verus!
