use vstd::prelude::*;

verus! {

/// A decoded keyboard key. The input layer translates whatever raw key
/// representation it receives into this enum before handing it to the core;
/// keys the core does not react to arrive as `Other`.
#[derive(Clone, Copy, Debug, PartialEq, Eq, Structural)]
pub enum Key {
    Char(char),
    Enter,
    Tab,
    BackTab,
    Esc,
    Backspace,
    Delete,
    Left,
    Right,
    Up,
    Down,
    Home,
    End,
    Other,
}

/// A key press together with its control-modifier flag.
#[derive(Clone, Copy, Debug, PartialEq, Eq, Structural)]
pub struct KeyEvent {
    pub ctrl: bool,
    pub code: Key,
}

impl KeyEvent {
    /// A plain press of `code` with no modifier held.
    pub fn plain(code: Key) -> (r: KeyEvent)
        ensures
            r == (KeyEvent { ctrl: false, code }),
    {
        KeyEvent { ctrl: false, code }
    }
}

} // verus!
