//! The instruction set and its decoder.
//!
//! An instruction is a big-endian 16-bit word. Its highest nibble names the
//! family; the rest is read, family by family, as a register index `x`, a
//! second register index `y`, a nibble `n`, a byte `kk` or a 12-bit address
//! `nnn`.

use vstd::prelude::*;

verus! {

/// An instruction with its operands. A variant is named after the
/// hexadecimal digits of its word, with `x` and `y` for register indices,
/// `n` for a nibble, `kk` for a byte and `nnn` for an address.
#[allow(non_camel_case_types)]
#[derive(Debug, Clone, Copy, PartialEq, Eq, Structural)]
pub enum Instruction {
    /// Clear the screen.
    _00E0,
    /// Return from a subroutine.
    _00EE,
    /// Jump to `nnn`.
    _1nnn(u16),
    /// Call the subroutine at `nnn`.
    _2nnn(u16),
    /// Skip the next instruction if `Vx == kk`.
    _3xkk(u8, u8),
    /// Skip the next instruction if `Vx != kk`.
    _4xkk(u8, u8),
    /// Skip the next instruction if `Vx == Vy`.
    _5xy0(u8, u8),
    /// `Vx := kk`.
    _6xkk(u8, u8),
    /// `Vx := Vx + kk`, without a flag.
    _7xkk(u8, u8),
    /// `Vx := Vy`.
    _8xy0(u8, u8),
    /// `Vx := Vx | Vy`.
    _8xy1(u8, u8),
    /// `Vx := Vx & Vy`.
    _8xy2(u8, u8),
    /// `Vx := Vx ^ Vy`.
    _8xy3(u8, u8),
    /// `Vx := Vx + Vy`, with the carry in `VF`.
    _8xy4(u8, u8),
    /// `Vx := Vx - Vy`, with `VF` telling whether `Vx > Vy`.
    _8xy5(u8, u8),
    /// `Vx := Vx >> 1`, with the bit shifted out in `VF`.
    _8xy6(u8),
    /// `Vx := Vy - Vx`, with `VF` telling whether `Vy > Vx`.
    _8xy7(u8, u8),
    /// `Vx := Vx << 1`, with the bit shifted out in `VF`.
    _8xyE(u8),
    /// Skip the next instruction if `Vx != Vy`.
    _9xy0(u8, u8),
    /// `I := nnn`.
    _Annn(u16),
    /// Jump to `nnn + V0`.
    _Bnnn(u16),
    /// `Vx :=` a random byte `& kk`.
    _Cxkk(u8, u8),
    /// Draw the `n`-row sprite at `I` at pixel `(Vx, Vy)`.
    _Dxyn(u8, u8, u8),
    /// Skip the next instruction if key `Vx` is pressed.
    _Ex9E(u8),
    /// Skip the next instruction if key `Vx` is not pressed.
    _ExA1(u8),
    /// `Vx :=` the delay timer.
    _Fx07(u8),
    /// Wait for a key and store it in `Vx`.
    _Fx0A(u8),
    /// The delay timer `:= Vx`.
    _Fx15(u8),
    /// The sound timer `:= Vx`.
    _Fx18(u8),
    /// `I := I + Vx`.
    _Fx1E(u8),
    /// `I :=` the address of the font glyph for digit `Vx`.
    _Fx29(u8),
    /// Store the decimal digits of `Vx` at `I`, `I + 1`, `I + 2`.
    _Fx33(u8),
    /// Store `V0..=Vx` in memory from `I` on.
    _Fx55(u8),
    /// Load `V0..=Vx` from memory from `I` on.
    _Fx65(u8),
}

/// The instruction that the word `hi lo` encodes, if it encodes one.
pub open spec fn decode_spec(hi: u8, lo: u8) -> Option<Instruction> {
    let family = hi / 16;
    let x = hi % 16;
    let y = lo / 16;
    let n = lo % 16;
    let kk = lo;
    let nnn = (x * 256 + lo) as u16;
    if family == 0x0 {
        if x == 0 && lo == 0xE0 {
            Some(Instruction::_00E0)
        } else if x == 0 && lo == 0xEE {
            Some(Instruction::_00EE)
        } else {
            None
        }
    } else if family == 0x1 {
        Some(Instruction::_1nnn(nnn))
    } else if family == 0x2 {
        Some(Instruction::_2nnn(nnn))
    } else if family == 0x3 {
        Some(Instruction::_3xkk(x, kk))
    } else if family == 0x4 {
        Some(Instruction::_4xkk(x, kk))
    } else if family == 0x5 {
        Some(Instruction::_5xy0(x, y))
    } else if family == 0x6 {
        Some(Instruction::_6xkk(x, kk))
    } else if family == 0x7 {
        Some(Instruction::_7xkk(x, kk))
    } else if family == 0x8 {
        if n == 0x0 {
            Some(Instruction::_8xy0(x, y))
        } else if n == 0x1 {
            Some(Instruction::_8xy1(x, y))
        } else if n == 0x2 {
            Some(Instruction::_8xy2(x, y))
        } else if n == 0x3 {
            Some(Instruction::_8xy3(x, y))
        } else if n == 0x4 {
            Some(Instruction::_8xy4(x, y))
        } else if n == 0x5 {
            Some(Instruction::_8xy5(x, y))
        } else if n == 0x6 {
            Some(Instruction::_8xy6(x))
        } else if n == 0x7 {
            Some(Instruction::_8xy7(x, y))
        } else if n == 0xE {
            Some(Instruction::_8xyE(x))
        } else {
            None
        }
    } else if family == 0x9 {
        if n == 0x0 {
            Some(Instruction::_9xy0(x, y))
        } else {
            None
        }
    } else if family == 0xA {
        Some(Instruction::_Annn(nnn))
    } else if family == 0xB {
        Some(Instruction::_Bnnn(nnn))
    } else if family == 0xC {
        Some(Instruction::_Cxkk(x, kk))
    } else if family == 0xD {
        Some(Instruction::_Dxyn(x, y, n))
    } else if family == 0xE {
        if lo == 0x9E {
            Some(Instruction::_Ex9E(x))
        } else if lo == 0xA1 {
            Some(Instruction::_ExA1(x))
        } else {
            None
        }
    } else {
        if lo == 0x07 {
            Some(Instruction::_Fx07(x))
        } else if lo == 0x0A {
            Some(Instruction::_Fx0A(x))
        } else if lo == 0x15 {
            Some(Instruction::_Fx15(x))
        } else if lo == 0x18 {
            Some(Instruction::_Fx18(x))
        } else if lo == 0x1E {
            Some(Instruction::_Fx1E(x))
        } else if lo == 0x29 {
            Some(Instruction::_Fx29(x))
        } else if lo == 0x33 {
            Some(Instruction::_Fx33(x))
        } else if lo == 0x55 {
            Some(Instruction::_Fx55(x))
        } else if lo == 0x65 {
            Some(Instruction::_Fx65(x))
        } else {
            None
        }
    }
}

impl Instruction {
    /// Whether every register operand names one of the sixteen registers.
    pub open spec fn well_formed(self) -> bool {
        match self {
            Instruction::_00E0 | Instruction::_00EE => true,
            Instruction::_1nnn(_) | Instruction::_2nnn(_) | Instruction::_Annn(_)
            | Instruction::_Bnnn(_) => true,
            Instruction::_3xkk(x, _) | Instruction::_4xkk(x, _) | Instruction::_6xkk(x, _)
            | Instruction::_7xkk(x, _) | Instruction::_Cxkk(x, _) => x < 16,
            Instruction::_5xy0(x, y) | Instruction::_8xy0(x, y) | Instruction::_8xy1(x, y)
            | Instruction::_8xy2(x, y) | Instruction::_8xy3(x, y) | Instruction::_8xy4(x, y)
            | Instruction::_8xy5(x, y) | Instruction::_8xy7(x, y) | Instruction::_9xy0(x, y) => x
                < 16 && y < 16,
            Instruction::_Dxyn(x, y, _) => x < 16 && y < 16,
            Instruction::_8xy6(x) | Instruction::_8xyE(x) | Instruction::_Ex9E(x)
            | Instruction::_ExA1(x) | Instruction::_Fx07(x) | Instruction::_Fx0A(x)
            | Instruction::_Fx15(x) | Instruction::_Fx18(x) | Instruction::_Fx1E(x)
            | Instruction::_Fx29(x) | Instruction::_Fx33(x) | Instruction::_Fx55(x)
            | Instruction::_Fx65(x) => x < 16,
        }
    }

    /// Whether every register operand names one of the sixteen registers.
    pub fn is_well_formed(&self) -> (ok: bool)
        ensures
            ok == self.well_formed(),
    {
        match *self {
            Instruction::_00E0 | Instruction::_00EE => true,
            Instruction::_1nnn(_) | Instruction::_2nnn(_) | Instruction::_Annn(_)
            | Instruction::_Bnnn(_) => true,
            Instruction::_3xkk(x, _) | Instruction::_4xkk(x, _) | Instruction::_6xkk(x, _)
            | Instruction::_7xkk(x, _) | Instruction::_Cxkk(x, _) => x < 16,
            Instruction::_5xy0(x, y) | Instruction::_8xy0(x, y) | Instruction::_8xy1(x, y)
            | Instruction::_8xy2(x, y) | Instruction::_8xy3(x, y) | Instruction::_8xy4(x, y)
            | Instruction::_8xy5(x, y) | Instruction::_8xy7(x, y) | Instruction::_9xy0(x, y) => x
                < 16 && y < 16,
            Instruction::_Dxyn(x, y, _) => x < 16 && y < 16,
            Instruction::_8xy6(x) | Instruction::_8xyE(x) | Instruction::_Ex9E(x)
            | Instruction::_ExA1(x) | Instruction::_Fx07(x) | Instruction::_Fx0A(x)
            | Instruction::_Fx15(x) | Instruction::_Fx18(x) | Instruction::_Fx1E(x)
            | Instruction::_Fx29(x) | Instruction::_Fx33(x) | Instruction::_Fx55(x)
            | Instruction::_Fx65(x) => x < 16,
        }
    }

    /// Whether the instruction writes to the frame: the screen has to be
    /// presented anew after it.
    pub open spec fn changes_frame(self) -> bool {
        self is _00E0 || self is _Dxyn
    }

    /// Decodes the two bytes of an instruction word, the high byte first.
    /// `None` means that the word is no instruction.
    pub fn decode(bytes: &[u8]) -> (instruction: Option<Instruction>)
        requires
            bytes@.len() == 2,
        ensures
            instruction == decode_spec(bytes@[0], bytes@[1]),
    {
        let hi: u8 = bytes[0];
        let lo: u8 = bytes[1];
        let op_type: u8 = hi >> 4;
        let x: u8 = hi & 0x0F;

        let y: u8 = lo >> 4;
        let kk: u8 = lo;
        let n: u8 = lo & 0x0F;

        let combined: u16 = (hi as u16) << 8 | (lo as u16);
        let nnn: u16 = combined & 0x0FFF;

        proof {
            assert(hi >> 4 == hi / 16 && hi & 0x0F == hi % 16) by (bit_vector);
            assert(lo >> 4 == lo / 16 && lo & 0x0F == lo % 16) by (bit_vector);
            assert((((hi as u16) << 8 | (lo as u16)) & 0x0FFF) == (hi % 16) as u16 * 256 + lo as u16)
                by (bit_vector);
            assert(lo == 16 * y + n);
        }

        match (op_type, x, y, n) {
            (0x0, 0x0, 0xE, 0x0) => Some(Instruction::_00E0),
            (0x0, 0x0, 0xE, 0xE) => Some(Instruction::_00EE),
            (0x1, _, _, _) => Some(Instruction::_1nnn(nnn)),
            (0x2, _, _, _) => Some(Instruction::_2nnn(nnn)),
            (0x3, _, _, _) => Some(Instruction::_3xkk(x, kk)),
            (0x4, _, _, _) => Some(Instruction::_4xkk(x, kk)),
            (0x5, _, _, _) => Some(Instruction::_5xy0(x, y)),
            (0x6, _, _, _) => Some(Instruction::_6xkk(x, kk)),
            (0x7, _, _, _) => Some(Instruction::_7xkk(x, kk)),
            (0x8, _, _, 0x0) => Some(Instruction::_8xy0(x, y)),
            (0x8, _, _, 0x1) => Some(Instruction::_8xy1(x, y)),
            (0x8, _, _, 0x2) => Some(Instruction::_8xy2(x, y)),
            (0x8, _, _, 0x3) => Some(Instruction::_8xy3(x, y)),
            (0x8, _, _, 0x4) => Some(Instruction::_8xy4(x, y)),
            (0x8, _, _, 0x5) => Some(Instruction::_8xy5(x, y)),
            (0x8, _, _, 0x6) => Some(Instruction::_8xy6(x)),
            (0x8, _, _, 0x7) => Some(Instruction::_8xy7(x, y)),
            (0x8, _, _, 0xE) => Some(Instruction::_8xyE(x)),
            (0x9, _, _, 0x0) => Some(Instruction::_9xy0(x, y)),
            (0xA, _, _, _) => Some(Instruction::_Annn(nnn)),
            (0xB, _, _, _) => Some(Instruction::_Bnnn(nnn)),
            (0xC, _, _, _) => Some(Instruction::_Cxkk(x, kk)),
            (0xD, _, _, _) => Some(Instruction::_Dxyn(x, y, n)),
            (0xE, _, 0x9, 0xE) => Some(Instruction::_Ex9E(x)),
            (0xE, _, 0xA, 0x1) => Some(Instruction::_ExA1(x)),
            (0xF, _, 0x0, 0x7) => Some(Instruction::_Fx07(x)),
            (0xF, _, 0x0, 0xA) => Some(Instruction::_Fx0A(x)),
            (0xF, _, 0x1, 0x5) => Some(Instruction::_Fx15(x)),
            (0xF, _, 0x1, 0x8) => Some(Instruction::_Fx18(x)),
            (0xF, _, 0x1, 0xE) => Some(Instruction::_Fx1E(x)),
            (0xF, _, 0x2, 0x9) => Some(Instruction::_Fx29(x)),
            (0xF, _, 0x3, 0x3) => Some(Instruction::_Fx33(x)),
            (0xF, _, 0x5, 0x5) => Some(Instruction::_Fx55(x)),
            (0xF, _, 0x6, 0x5) => Some(Instruction::_Fx65(x)),
            _ => None,
        }
    }
}

/// Whatever the decoder yields names registers that exist, an address of at
/// most twelve bits and a row count below sixteen.
pub proof fn lemma_decoded_operands(hi: u8, lo: u8)
    ensures
        decode_spec(hi, lo) matches Some(instruction) ==> {
            &&& instruction.well_formed()
            &&& instruction matches Instruction::_1nnn(nnn) ==> nnn < 0x1000
            &&& instruction matches Instruction::_2nnn(nnn) ==> nnn < 0x1000
            &&& instruction matches Instruction::_Annn(nnn) ==> nnn < 0x1000
            &&& instruction matches Instruction::_Bnnn(nnn) ==> nnn < 0x1000
            &&& instruction matches Instruction::_Dxyn(_, _, n) ==> n < 16
        },
{
}

} // verus!
