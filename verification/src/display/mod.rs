//! What the machine needs from a screen, and what a screen needs from a
//! frame.

pub mod points;
pub mod terminal_display;
pub mod virtual_display;
