//! The register file: sixteen general registers, the index register and the
//! two timers.

use vstd::prelude::*;
use crate::machine::hex::hex_byte_text;
use crate::machine::hex::hex_char;
use crate::machine::hex::hex_digit;
use crate::machine::hex::hex_word_text;
use crate::machine::hex::push_hex_byte;
use crate::machine::hex::push_hex_word;

verus! {

/// Number of general registers.
pub const REGISTER_COUNT: usize = 16;

/// What a register file holds.
pub struct RegistersView {
    /// The general registers `V0` to `VF`, by index.
    pub v: Seq<u8>,
    /// The index register.
    pub i: u16,
    /// The delay timer.
    pub delay: u8,
    /// The sound timer.
    pub sound: u8,
}

/// The lines of a dump for the first `k` general registers: the register's
/// name, a colon and its value.
pub open spec fn register_lines(v: Seq<u8>, k: int) -> Seq<char>
    decreases k,
{
    if k <= 0 {
        Seq::empty()
    } else {
        register_lines(v, k - 1) + "V"@ + seq![hex_char(k - 1)] + ": "@ + hex_byte_text(v[k - 1])
            + "\n"@
    }
}

/// The dump of a register file: a line for each general register, then one
/// each for the index register and the two timers.
pub open spec fn registers_text(registers: RegistersView) -> Seq<char> {
    register_lines(registers.v, REGISTER_COUNT as int) + "I: "@ + hex_word_text(registers.i)
        + " \n"@ + "delay: "@ + hex_byte_text(registers.delay) + "\n"@ + "sound: "@
        + hex_byte_text(registers.sound) + "\n"@
}

/// The register file of a machine.
pub struct Registers {
    vx: [u8; 16],
    i: u16,
    delay: u8,
    sound: u8,
}

impl View for Registers {
    type V = RegistersView;

    closed spec fn view(&self) -> RegistersView {
        RegistersView { v: self.vx@, i: self.i, delay: self.delay, sound: self.sound }
    }
}

impl Registers {
    /// Every register file has `REGISTER_COUNT` general registers.
    pub proof fn lemma_count(&self)
        ensures
            self@.v.len() == REGISTER_COUNT,
    {
    }

    /// A register file with every register and timer at zero.
    pub fn new() -> (registers: Registers)
        ensures
            registers@ == (RegistersView {
                v: Seq::new(REGISTER_COUNT as nat, |x: int| 0u8),
                i: 0,
                delay: 0,
                sound: 0,
            }),
    {
        let registers = Registers { vx: [0x00;16], i: 0x0000, delay: 0x00, sound: 0x00 };
        assert(registers@.v =~= Seq::new(REGISTER_COUNT as nat, |x: int| 0u8));
        registers
    }

    /// The value of general register `x`.
    pub fn read_vx(&self, x: u8) -> (byte: u8)
        requires
            x < REGISTER_COUNT,
        ensures
            byte == self@.v[x as int],
    {
        self.vx[x as usize]
    }

    /// Stores `byte` in general register `x`.
    pub fn write_vx(&mut self, x: u8, byte: u8)
        requires
            x < REGISTER_COUNT,
        ensures
            final(self)@ == (RegistersView { v: old(self)@.v.update(x as int, byte), ..old(self)@ }),
    {
        self.vx[x as usize] = byte;
    }

    /// The value of the index register.
    pub fn read_i(&self) -> (bytes: u16)
        ensures
            bytes == self@.i,
    {
        self.i
    }

    /// Stores `bytes` in the index register.
    pub fn write_i(&mut self, bytes: u16)
        ensures
            final(self)@ == (RegistersView { i: bytes, ..old(self)@ }),
    {
        self.i = bytes;
    }

    /// The value of the sound timer.
    pub fn read_sound_timer(&self) -> (byte: u8)
        ensures
            byte == self@.sound,
    {
        self.sound
    }

    /// Stores `byte` in the sound timer.
    pub fn set_sound_timer(&mut self, byte: u8)
        ensures
            final(self)@ == (RegistersView { sound: byte, ..old(self)@ }),
    {
        self.sound = byte;
    }

    /// The registers and timers as text, for a person to read.
    pub fn dump(&self) -> (text: String)
        ensures
            text@ == registers_text(self@),
    {
        let mut text = String::new();
        let mut x: u8 = 0;
        assert(text@ =~= register_lines(self@.v, 0));
        while x < 16
            invariant
                x <= 16,
                text@ == register_lines(self@.v, x as int),
            decreases 16 - x,
        {
            let ghost before = text@;
            text.append("V");
            text.append(hex_digit(x));
            text.append(": ");
            push_hex_byte(&mut text, self.vx[x as usize]);
            text.append("\n");
            assert(text@ =~= before + "V"@ + seq![hex_char(x as int)] + ": "@ + hex_byte_text(
                self@.v[x as int],
            ) + "\n"@);
            x += 1;
        }
        text.append("I: ");
        push_hex_word(&mut text, self.i);
        text.append(" \n");
        text.append("delay: ");
        push_hex_byte(&mut text, self.delay);
        text.append("\n");
        text.append("sound: ");
        push_hex_byte(&mut text, self.sound);
        text.append("\n");
        text
    }

    /// The value of the delay timer.
    pub fn read_delay_timer(&self) -> (byte: u8)
        ensures
            byte == self@.delay,
    {
        self.delay
    }

    /// Stores `byte` in the delay timer.
    pub fn set_delay_timer(&mut self, byte: u8)
        ensures
            final(self)@ == (RegistersView { delay: byte, ..old(self)@ }),
    {
        self.delay = byte;
    }
}

} // verus!
