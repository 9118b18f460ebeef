//! The keys that the terminal interfaces tell apart.
use vstd::prelude::*;

verus! {

/// A key that was pressed.
#[derive(Debug, Clone, Copy, PartialEq, Eq, Structural)]
pub enum Key {
    Enter,
    Esc,
    Tab,
    Backspace,
    Up,
    Down,
    Right,
    PageUp,
    PageDown,
    Char(char),
    Other,
}

} // verus!
