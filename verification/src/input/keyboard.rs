//! From what a keyboard reports to what the machine is told: which keys are
//! keys of the keypad, which end the run, and when the keys are released.

use vstd::prelude::*;

verus! {

/// The key code of the escape key.
pub const ESCAPE: i32 = 27;

/// Number of turns of the driving loop after which a report that presses no
/// key releases the keys.
pub const IDLE_TURNS: u32 = 40;

/// What the keyboard and the window report.
#[derive(Debug, Clone, Copy, PartialEq, Eq, Structural)]
pub enum Event {
    /// The window was closed.
    Quit,
    /// The key with this key code went down. The code of a key that types a
    /// character is that character's code.
    KeyDown(i32),
    /// Anything else.
    Other,
}

/// What is to be done about a report.
#[derive(Debug, Clone, Copy, PartialEq, Eq, Structural)]
pub enum Action {
    /// End the run.
    Stop,
    /// Tell the machine that this key of the keypad was pressed.
    Press(u8),
    /// Tell the machine that all keys are released.
    Release,
    /// Nothing.
    Nothing,
}

/// The key of the keypad that the key with key code `code` stands for: the
/// digits `0` to `9` and the letters `a` to `f` stand for the key of their
/// hexadecimal value.
pub open spec fn key_of(code: i32) -> Option<u8> {
    if 0x30 <= code <= 0x39 {
        Some((code - 0x30) as u8)
    } else if 0x61 <= code <= 0x66 {
        Some((code - 0x61 + 10) as u8)
    } else {
        None
    }
}

/// What is to be done about `event` when `turns` turns have gone by since
/// the keys were last released. The window's closing and the escape key end
/// the run; a key of the keypad is pressed; any other report releases the
/// keys once more than `IDLE_TURNS` turns have gone by.
pub open spec fn action_for(turns: u32, event: Event) -> Action {
    match event {
        Event::Quit => Action::Stop,
        Event::KeyDown(code) => if code == ESCAPE {
            Action::Stop
        } else if key_of(code) is Some {
            Action::Press(key_of(code).unwrap())
        } else if turns > IDLE_TURNS {
            Action::Release
        } else {
            Action::Nothing
        },
        Event::Other => if turns > IDLE_TURNS {
            Action::Release
        } else {
            Action::Nothing
        },
    }
}

/// The key of the keypad that the key with key code `code` stands for.
pub fn key_for(code: i32) -> (key: Option<u8>)
    ensures
        key == key_of(code),
        key matches Some(k) ==> k < 16,
{
    if 0x30 <= code && code <= 0x39 {
        Some((code - 0x30) as u8)
    } else if 0x61 <= code && code <= 0x66 {
        Some((code - 0x61 + 10) as u8)
    } else {
        None
    }
}

/// The driving loop's count of turns since the keys were last released.
pub struct Keyboard {
    iteration: u32,
}

impl Keyboard {
    /// Turns gone by since the keys were last released.
    pub closed spec fn turns(&self) -> u32 {
        self.iteration
    }

    /// A keyboard at turn 0.
    pub fn new() -> (keyboard: Keyboard)
        ensures
            keyboard.turns() == 0,
    {
        Keyboard { iteration: 0 }
    }

    /// Counts a turn of the driving loop. The count stops at `u32::MAX`.
    pub fn turn(&mut self)
        ensures
            final(self).turns() == if old(self).turns() < u32::MAX {
                (old(self).turns() + 1) as u32
            } else {
                u32::MAX
            },
    {
        if self.iteration < u32::MAX {
            self.iteration += 1;
        }
    }

    /// Decides what is to be done about `event`. Where the keys are
    /// released, the count of turns starts again at 0.
    pub fn react(&mut self, event: Event) -> (action: Action)
        ensures
            action == action_for(old(self).turns(), event),
            final(self).turns() == if action is Release {
                0
            } else {
                old(self).turns()
            },
    {
        match event {
            Event::Quit => Action::Stop,
            Event::KeyDown(code) => {
                if code == ESCAPE {
                    Action::Stop
                } else {
                    match key_for(code) {
                        Some(key) => Action::Press(key),
                        None => self.idle(),
                    }
                }
            },
            Event::Other => self.idle(),
        }
    }

    /// Releases the keys if more than `IDLE_TURNS` turns have gone by.
    fn idle(&mut self) -> (action: Action)
        ensures
            action == if old(self).turns() > IDLE_TURNS {
                Action::Release
            } else {
                Action::Nothing
            },
            final(self).turns() == if action is Release {
                0
            } else {
                old(self).turns()
            },
    {
        if self.iteration > IDLE_TURNS {
            self.iteration = 0;
            Action::Release
        } else {
            Action::Nothing
        }
    }
}

} // verus!
