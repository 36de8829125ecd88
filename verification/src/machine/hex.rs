//! Numbers written in hexadecimal, for the dump of the machine's state.

use vstd::prelude::*;

verus! {

/// The hexadecimal digit for `n`, in upper case.
pub open spec fn hex_char(n: int) -> char {
    if n == 0 {
        '0'
    } else if n == 1 {
        '1'
    } else if n == 2 {
        '2'
    } else if n == 3 {
        '3'
    } else if n == 4 {
        '4'
    } else if n == 5 {
        '5'
    } else if n == 6 {
        '6'
    } else if n == 7 {
        '7'
    } else if n == 8 {
        '8'
    } else if n == 9 {
        '9'
    } else if n == 10 {
        'A'
    } else if n == 11 {
        'B'
    } else if n == 12 {
        'C'
    } else if n == 13 {
        'D'
    } else if n == 14 {
        'E'
    } else {
        'F'
    }
}

/// A byte as `0x` and two hexadecimal digits.
pub open spec fn hex_byte_text(byte: u8) -> Seq<char> {
    "0x"@ + seq![hex_char(byte as int / 16), hex_char(byte as int % 16)]
}

/// A sixteen-bit word as `0x` and four hexadecimal digits.
pub open spec fn hex_word_text(word: u16) -> Seq<char> {
    "0x"@ + seq![
        hex_char(word as int / 4096),
        hex_char(word as int / 256 % 16),
        hex_char(word as int / 16 % 16),
        hex_char(word as int % 16),
    ]
}

/// The hexadecimal digit for `n`, as a string of one character.
pub fn hex_digit(n: u8) -> (digit: &'static str)
    requires
        n < 16,
    ensures
        digit@ == seq![hex_char(n as int)],
{
    proof {
        reveal_strlit("0");
        reveal_strlit("1");
        reveal_strlit("2");
        reveal_strlit("3");
        reveal_strlit("4");
        reveal_strlit("5");
        reveal_strlit("6");
        reveal_strlit("7");
        reveal_strlit("8");
        reveal_strlit("9");
        reveal_strlit("A");
        reveal_strlit("B");
        reveal_strlit("C");
        reveal_strlit("D");
        reveal_strlit("E");
        reveal_strlit("F");
    }
    let digit = match n {
        0 => "0",
        1 => "1",
        2 => "2",
        3 => "3",
        4 => "4",
        5 => "5",
        6 => "6",
        7 => "7",
        8 => "8",
        9 => "9",
        10 => "A",
        11 => "B",
        12 => "C",
        13 => "D",
        14 => "E",
        _ => "F",
    };
    assert(digit@ =~= seq![hex_char(n as int)]);
    digit
}

/// Appends `byte` to `text` as `0x` and two hexadecimal digits.
pub fn push_hex_byte(text: &mut String, byte: u8)
    ensures
        final(text)@ == old(text)@ + hex_byte_text(byte),
{
    text.append("0x");
    text.append(hex_digit(byte / 16));
    text.append(hex_digit(byte % 16));
    assert(text@ =~= old(text)@ + hex_byte_text(byte));
}

/// Appends `word` to `text` as `0x` and four hexadecimal digits.
pub fn push_hex_word(text: &mut String, word: u16)
    ensures
        final(text)@ == old(text)@ + hex_word_text(word),
{
    text.append("0x");
    text.append(hex_digit((word / 4096) as u8));
    text.append(hex_digit((word / 256 % 16) as u8));
    text.append(hex_digit((word / 16 % 16) as u8));
    text.append(hex_digit((word % 16) as u8));
    assert(text@ =~= old(text)@ + hex_word_text(word));
}

} // verus!
