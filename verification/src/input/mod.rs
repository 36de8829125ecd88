//! The key that was pressed last, and what to make of a keyboard.

pub mod keyboard;

use vstd::prelude::*;

verus! {

/// What an input source has to remember: the key that was pressed last.
pub struct Input {
    pub current_key: Option<u8>,
}

impl Input {
    /// An input with no key pressed.
    pub fn new() -> (input: Self)
        ensures
            input.current_key == None::<u8>,
    {
        Input { current_key: None }
    }

    /// Forgets the key.
    pub fn clear(&mut self)
        ensures
            final(self).current_key == None::<u8>,
    {
        self.current_key = None;
    }

    /// Makes `key` the key that was pressed last.
    pub fn register(&mut self, key: u8)
        ensures
            final(self).current_key == Some(key),
    {
        self.current_key = Some(key);
    }
}

} // verus!
