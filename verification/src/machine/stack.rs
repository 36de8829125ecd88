//! The call stack: a bounded last-in, first-out list of return addresses.

use vstd::prelude::*;
use crate::machine::hex::hex_char;
use crate::machine::hex::hex_digit;
use crate::machine::hex::hex_word_text;
use crate::machine::hex::push_hex_word;

verus! {

/// Largest number of return addresses the stack can hold.
pub const STACK_CAPACITY: usize = 16;

/// The lines of a dump for the `k` oldest return addresses of a stack: the
/// position, a colon and the address.
pub open spec fn stack_lines(stack: Seq<u16>, k: int) -> Seq<char>
    decreases k,
{
    if k <= 0 {
        Seq::empty()
    } else {
        stack_lines(stack, k - 1) + "0x"@ + seq![hex_char(k - 1)] + ": "@ + hex_word_text(
            stack[k - 1],
        ) + "\n"@
    }
}

/// The dump of a stack: a heading, then a line for each return address,
/// oldest first.
pub open spec fn stack_text(stack: Seq<u16>) -> Seq<char> {
    "Stack:\n"@ + stack_lines(stack, stack.len() as int)
}

/// The call stack of a machine: at most `STACK_CAPACITY` return addresses.
pub struct Stack {
    pointer: usize,
    stack: [u16; 16],
}

impl View for Stack {
    type V = Seq<u16>;

    /// The return addresses on the stack, oldest first.
    closed spec fn view(&self) -> Seq<u16> {
        self.stack@.subrange(0, vstd::math::min(self.pointer as int, STACK_CAPACITY as int))
    }
}

impl Stack {
    #[verifier::type_invariant]
    spec fn within_capacity(&self) -> bool {
        self.pointer <= STACK_CAPACITY
    }

    /// No stack holds more than `STACK_CAPACITY` return addresses.
    pub proof fn lemma_capacity(&self)
        ensures
            self@.len() <= STACK_CAPACITY,
    {
    }

    /// An empty stack.
    pub fn new() -> (stack: Stack)
        ensures
            stack@ == Seq::<u16>::empty(),
    {
        Stack { pointer: 0, stack: [0x0000;16] }
    }

    /// Number of return addresses on the stack; never more than
    /// `STACK_CAPACITY`.
    pub fn depth(&self) -> (depth: usize)
        ensures
            depth == self@.len(),
            depth <= STACK_CAPACITY,
    {
        proof {
            use_type_invariant(self);
        }
        self.pointer
    }

    /// The stack as text, for a person to read.
    pub fn dump(&self) -> (text: String)
        ensures
            text@ == stack_text(self@),
    {
        proof {
            use_type_invariant(self);
        }
        let mut text = String::new();
        text.append("Stack:\n");
        let mut i: usize = 0;
        assert(text@ =~= "Stack:\n"@ + stack_lines(self@, 0));
        while i < self.pointer
            invariant
                i <= self.pointer <= STACK_CAPACITY,
                text@ == "Stack:\n"@ + stack_lines(self@, i as int),
            decreases self.pointer - i,
        {
            let ghost before = text@;
            text.append("0x");
            text.append(hex_digit(i as u8));
            text.append(": ");
            push_hex_word(&mut text, self.stack[i]);
            text.append("\n");
            assert(text@ =~= before + "0x"@ + seq![hex_char(i as int)] + ": "@ + hex_word_text(
                self@[i as int],
            ) + "\n"@);
            assert(text@ =~= "Stack:\n"@ + stack_lines(self@, i + 1));
            i += 1;
        }
        text
    }

    /// Removes the newest return address and returns it.
    pub fn pop(&mut self) -> (bytes: u16)
        requires
            old(self)@.len() > 0,
        ensures
            bytes == old(self)@.last(),
            final(self)@ == old(self)@.drop_last(),
    {
        proof {
            use_type_invariant(&*self);
        }
        self.pointer -= 1;
        self.stack[self.pointer]
    }

    /// Puts `bytes` on top of the stack.
    pub fn push(&mut self, bytes: u16)
        requires
            old(self)@.len() < STACK_CAPACITY,
        ensures
            final(self)@ == old(self)@.push(bytes),
    {
        proof {
            use_type_invariant(&*self);
        }
        self.stack[self.pointer] = bytes;
        self.pointer += 1;
    }
}

} // verus!
