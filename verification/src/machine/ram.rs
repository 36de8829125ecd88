//! The machine's memory: a flat array of bytes.

use vstd::prelude::*;
use crate::machine::hex::hex_byte_text;
use crate::machine::hex::push_hex_byte;

verus! {

/// Number of addressable bytes.
pub const MEMORY_SIZE: usize = 4096;

/// `mem` with the bytes from `offset` on replaced by `bytes`; every other
/// byte is kept.
pub open spec fn overwrite(mem: Seq<u8>, offset: int, bytes: Seq<u8>) -> Seq<u8> {
    Seq::new(
        mem.len(),
        |i: int|
            if offset <= i < offset + bytes.len() {
                bytes[i - offset]
            } else {
                mem[i]
            },
    )
}

/// The dump of the first `k` bytes of a memory: each byte followed by a
/// blank, thirty-two bytes to a line, each line begun by a line feed.
pub open spec fn memory_cells(mem: Seq<u8>, k: int) -> Seq<char>
    decreases k,
{
    if k <= 0 {
        Seq::empty()
    } else {
        memory_cells(mem, k - 1) + (if (k - 1) % 32 == 0 {
            "\n"@
        } else {
            Seq::empty()
        }) + hex_byte_text(mem[k - 1]) + " "@
    }
}

/// The dump of a memory.
pub open spec fn memory_text(mem: Seq<u8>) -> Seq<char> {
    "Mem: "@ + memory_cells(mem, mem.len() as int)
}

/// The memory of a machine: `MEMORY_SIZE` bytes, addressed from 0.
pub struct Ram {
    memory: [u8; 4096],
}

impl View for Ram {
    type V = Seq<u8>;

    /// The bytes of the memory, by address.
    closed spec fn view(&self) -> Seq<u8> {
        self.memory@
    }
}

impl Ram {
    /// Every memory has `MEMORY_SIZE` bytes.
    pub proof fn lemma_size(&self)
        ensures
            self@.len() == MEMORY_SIZE,
    {
    }

    /// A memory of `MEMORY_SIZE` zero bytes.
    pub fn initialise() -> (ram: Ram)
        ensures
            ram@ == Seq::new(MEMORY_SIZE as nat, |i: int| 0u8),
    {
        Ram { memory: [0x00;4096] }
    }

    /// The memory as text, for a person to read.
    pub fn dump(&self) -> (text: String)
        ensures
            text@ == memory_text(self@),
    {
        let mut text = String::new();
        text.append("Mem: ");
        let mut offset: usize = 0;
        assert(text@ =~= "Mem: "@ + memory_cells(self@, 0));
        while offset < 4096
            invariant
                offset <= 4096,
                text@ == "Mem: "@ + memory_cells(self@, offset as int),
            decreases 4096 - offset,
        {
            let ghost before = text@;
            if offset % 32 == 0 {
                text.append("\n");
            }
            push_hex_byte(&mut text, self.memory[offset]);
            text.append(" ");
            assert(text@ =~= before + (if offset % 32 == 0 {
                "\n"@
            } else {
                Seq::empty()
            }) + hex_byte_text(self@[offset as int]) + " "@);
            assert(text@ =~= "Mem: "@ + memory_cells(self@, offset + 1));
            offset += 1;
        }
        text
    }

    /// The `bytes` bytes that start at address `offset`.
    pub fn read_bytes(&self, offset: usize, bytes: usize) -> (out: &[u8])
        requires
            offset + bytes <= MEMORY_SIZE,
        ensures
            out@ == self@.subrange(offset as int, offset + bytes),
    {
        &self.memory[offset..offset + bytes]
    }

    /// Copies `bytes` into the memory, starting at address `offset`.
    pub fn write_bytes(&mut self, offset: usize, bytes: &[u8])
        requires
            offset + bytes@.len() <= MEMORY_SIZE,
        ensures
            final(self)@ == overwrite(old(self)@, offset as int, bytes@),
    {
        let mut k: usize = 0;
        while k < bytes.len()
            invariant
                k <= bytes@.len(),
                offset + bytes@.len() <= MEMORY_SIZE,
                self@ == overwrite(old(self)@, offset as int, bytes@.subrange(0, k as int)),
            decreases bytes@.len() - k,
        {
            self.memory[offset + k] = bytes[k];
            k += 1;
        }
        assert(bytes@.subrange(0, k as int) == bytes@);
    }
}

} // verus!
