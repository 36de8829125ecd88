//! Single bits of a byte, numbered from the most significant bit.

use vstd::prelude::*;

verus! {

/// Whether bit `bit` of `byte` is set. Bit 0 is the most significant bit,
/// bit 7 the least significant one.
pub open spec fn bit_at(byte: u8, bit: u8) -> bool {
    byte & (0x80u8 >> bit) != 0
}

/// The byte whose bit `i` is set exactly when `bits[i]` holds, for `i` in `0..8`.
pub open spec fn byte_from_bits(bits: Seq<bool>) -> u8 {
    (if bits[0] { 0x80u8 } else { 0u8 })
        | (if bits[1] { 0x40u8 } else { 0u8 })
        | (if bits[2] { 0x20u8 } else { 0u8 })
        | (if bits[3] { 0x10u8 } else { 0u8 })
        | (if bits[4] { 0x08u8 } else { 0u8 })
        | (if bits[5] { 0x04u8 } else { 0u8 })
        | (if bits[6] { 0x02u8 } else { 0u8 })
        | (if bits[7] { 0x01u8 } else { 0u8 })
}

/// The eight bits of `byte`, most significant first.
pub open spec fn bits_of(byte: u8) -> Seq<bool> {
    Seq::new(8, |i: int| bit_at(byte, i as u8))
}

/// Reads bit `bit` of `byte`, counting from the most significant bit.
pub fn get_bit_from_byte(bit: usize, byte: &u8) -> (on: bool)
    requires
        bit < 8,
    ensures
        on == bit_at(*byte, bit as u8),
{
    let mask: u8 = 0b10000000u8 >> bit;
    let value: u8 = (*byte & mask) >> (7 - bit);
    proof {
        let b: u8 = *byte;
        let k: u8 = bit as u8;
        assert(k < 8 ==> (((b & (0x80u8 >> k)) >> ((7 - k) as u8)) == 1u8) == (b & (0x80u8 >> k) != 0))
            by (bit_vector);
    }
    value == 1
}

/// Taking a byte apart into its eight bits and putting them together again
/// gives the byte back.
pub proof fn lemma_bits_round_trip(byte: u8)
    ensures
        byte_from_bits(bits_of(byte)) == byte,
{
    let bits = bits_of(byte);
    assert(bits[0] == bit_at(byte, 0));
    assert(bits[1] == bit_at(byte, 1));
    assert(bits[2] == bit_at(byte, 2));
    assert(bits[3] == bit_at(byte, 3));
    assert(bits[4] == bit_at(byte, 4));
    assert(bits[5] == bit_at(byte, 5));
    assert(bits[6] == bit_at(byte, 6));
    assert(bits[7] == bit_at(byte, 7));
    assert(byte == (if byte & (0x80u8 >> 0u8) != 0 { 0x80u8 } else { 0u8 })
        | (if byte & (0x80u8 >> 1u8) != 0 { 0x40u8 } else { 0u8 })
        | (if byte & (0x80u8 >> 2u8) != 0 { 0x20u8 } else { 0u8 })
        | (if byte & (0x80u8 >> 3u8) != 0 { 0x10u8 } else { 0u8 })
        | (if byte & (0x80u8 >> 4u8) != 0 { 0x08u8 } else { 0u8 })
        | (if byte & (0x80u8 >> 5u8) != 0 { 0x04u8 } else { 0u8 })
        | (if byte & (0x80u8 >> 6u8) != 0 { 0x02u8 } else { 0u8 })
        | (if byte & (0x80u8 >> 7u8) != 0 { 0x01u8 } else { 0u8 })) by (bit_vector);
}

/// Putting eight bits together and reading bit `bit` of the byte gives
/// `bits[bit]` back.
pub proof fn lemma_bit_of_byte_from_bits(bits: Seq<bool>, bit: u8)
    requires
        bit < 8,
    ensures
        bit_at(byte_from_bits(bits), bit) == bits[bit as int],
{
    let b0 = bits[0];
    let b1 = bits[1];
    let b2 = bits[2];
    let b3 = bits[3];
    let b4 = bits[4];
    let b5 = bits[5];
    let b6 = bits[6];
    let b7 = bits[7];
    assert(bit < 8 ==> ((((if b0 { 0x80u8 } else { 0u8 }) | (if b1 { 0x40u8 } else { 0u8 }) | (if b2 {
        0x20u8
    } else {
        0u8
    }) | (if b3 { 0x10u8 } else { 0u8 }) | (if b4 { 0x08u8 } else { 0u8 }) | (if b5 {
        0x04u8
    } else {
        0u8
    }) | (if b6 { 0x02u8 } else { 0u8 }) | (if b7 { 0x01u8 } else { 0u8 })) & (0x80u8 >> bit) != 0)
        == (if bit == 0 {
        b0
    } else if bit == 1 {
        b1
    } else if bit == 2 {
        b2
    } else if bit == 3 {
        b3
    } else if bit == 4 {
        b4
    } else if bit == 5 {
        b5
    } else if bit == 6 {
        b6
    } else {
        b7
    }))) by (bit_vector);
}

} // verus!
