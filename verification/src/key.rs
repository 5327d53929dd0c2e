//! Key presses as the tokenizer sees them.
use vstd::prelude::*;

verus! {

/// The key that was pressed. Keys that no tokenizer reacts to are `Other`.
#[derive(Clone, Copy, PartialEq, Eq, Debug, Structural)]
pub enum KeyCode {
    Backspace,
    Enter,
    Esc,
    Char(char),
    Other,
}

/// A key press.
#[derive(Clone, Copy, PartialEq, Eq, Debug, Structural)]
pub struct KeyEvent {
    pub code: KeyCode,
}

} // verus!
