use vstd::prelude::*;
use crate::keys::Key;

verus! {

/// The modal input state: which step of a multi-step entry workflow is
/// active. `Normal` is both the initial state and the idle state reached
/// after any completed or cancelled workflow.
#[derive(Clone, Copy, Debug, PartialEq, Eq, Structural)]
pub enum InputMode {
    Normal,
    EnteringName,
    EnteringFrequency,
    MarkingDone,
    EnteringHours,
}

/// The state reached from `m` on an "advance" signal carrying `code`.
///
/// From `Normal` only `a` (start habit creation) and `Tab` (start
/// completion logging) advance; every entry state advances to its
/// successor regardless of the key that triggered the advance.
pub open spec fn mode_next(m: InputMode, code: Key) -> InputMode {
    match (m, code) {
        (InputMode::EnteringName, _) => InputMode::EnteringFrequency,
        (InputMode::EnteringFrequency, _) => InputMode::Normal,
        (InputMode::MarkingDone, _) => InputMode::EnteringHours,
        (InputMode::EnteringHours, _) => InputMode::Normal,
        (InputMode::Normal, Key::Char(c)) => if c == 'a' {
            InputMode::EnteringName
        } else {
            InputMode::Normal
        },
        (InputMode::Normal, Key::Tab) => InputMode::MarkingDone,
        (InputMode::Normal, _) => InputMode::Normal,
    }
}

/// The state reached from `m` on a "cancel/back" signal: each entry step
/// returns to the step before it, and everything else falls back to
/// `Normal`.
pub open spec fn mode_prev(m: InputMode) -> InputMode {
    match m {
        InputMode::EnteringFrequency => InputMode::EnteringName,
        InputMode::EnteringHours => InputMode::MarkingDone,
        _ => InputMode::Normal,
    }
}

impl Default for InputMode {
    fn default() -> (r: Self)
        ensures
            r == InputMode::Normal,
    {
        InputMode::Normal
    }
}

impl InputMode {
    /// Advance to the next state of the active workflow.
    pub fn next(&mut self, code: Key)
        ensures
            *final(self) == mode_next(*old(self), code),
    {
        match (&self, code) {
            (InputMode::EnteringName, _) => {
                *self = InputMode::EnteringFrequency;
            },
            (InputMode::EnteringFrequency, _) => {
                *self = InputMode::Normal;
            },
            (InputMode::MarkingDone, _) => {
                *self = InputMode::EnteringHours;
            },
            (InputMode::EnteringHours, _) => {
                *self = InputMode::Normal;
            },
            (InputMode::Normal, Key::Char(c)) => {
                if c == 'a' {
                    *self = InputMode::EnteringName;
                }
            },
            (InputMode::Normal, Key::Tab) => {
                *self = InputMode::MarkingDone;
            },
            (_, _) => {},
        }
    }

    /// Step back to the previous state of the active workflow.
    pub fn prev(&mut self)
        ensures
            *final(self) == mode_prev(*old(self)),
    {
        match self {
            InputMode::EnteringFrequency => {
                *self = InputMode::EnteringName;
            },
            InputMode::EnteringHours => {
                *self = InputMode::MarkingDone;
            },
            _ => {
                *self = InputMode::Normal;
            },
        }
    }
}

} // verus!
