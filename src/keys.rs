//! Logical key events and the result of a prompt.
use vstd::prelude::*;

verus! {

/// One logical key press, decoded from the terminal's input.
#[derive(Clone, Copy, PartialEq, Eq, Debug, Structural)]
pub enum KeyEvent {
    Character(char),
    Backspace,
    Enter,
    Escape,
    Up,
    Down,
    Left,
    Right,
    Other,
}

/// Where a prompt stands after a key press.
#[derive(Debug)]
pub enum Outcome {
    /// Waiting for more keys.
    Pending,
    /// The user committed this answer.
    Submitted(String),
    /// The user pressed Escape.
    Cancelled,
}

/// The mathematical value of an [`Outcome`].
pub enum Answer {
    Pending,
    Submitted(Seq<char>),
    Cancelled,
}

impl View for Outcome {
    type V = Answer;

    open spec fn view(&self) -> Answer {
        match self {
            Outcome::Pending => Answer::Pending,
            Outcome::Submitted(s) => Answer::Submitted(s@),
            Outcome::Cancelled => Answer::Cancelled,
        }
    }
}

} // verus!
