//! Input events handed to the core by the terminal collaborator each tick.

use vstd::prelude::*;

verus! {

/// A key identity. Only character keys and Escape drive the game; every
/// other key is `Other` and is ignored without error.
#[derive(Clone, Copy, PartialEq, Eq, Structural, Debug)]
pub enum KeyCode {
    Char(char),
    Esc,
    Other,
}

/// What happened to the key.
#[derive(Clone, Copy, PartialEq, Eq, Structural, Debug)]
pub enum KeyEventKind {
    Press,
    Repeat,
    Release,
}

/// One keyboard event.
#[derive(Clone, Copy, PartialEq, Eq, Structural, Debug)]
pub struct KeyEvent {
    pub code: KeyCode,
    pub kind: KeyEventKind,
}

/// An event from the terminal: a key event or a resize to a new
/// (width, height).
#[derive(Clone, Copy, PartialEq, Eq, Structural, Debug)]
pub enum TerminalEvent {
    Key(KeyEvent),
    Resize(u16, u16),
}

} // verus!
