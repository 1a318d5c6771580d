//! The ways in which an invocation can fail before any file is touched.

use vstd::prelude::*;

verus! {

/// Why a command could not be carried out.
#[derive(Clone, Copy, Debug, PartialEq, Eq, Structural)]
pub enum TodoError {
    /// The invocation names no command, or names `add`, `copy` or `delete`
    /// without the payload that the command takes.
    Usage,
    /// The index given to `delete` is not a non-negative decimal number that
    /// fits in a `usize`.
    Parse,
    /// The command name is none of `new`, `list`, `add`, `copy`, `delete`.
    UnrecognizedCommand,
    /// The index given to `delete` is not the position of an item.
    IndexOutOfBounds,
}

impl TodoError {
    /// The text shown to the user for this error.
    pub open spec fn message_text(self) -> Seq<char> {
        match self {
            TodoError::Usage => "not enough arguments. Usage: list, new, add [name], copy [path], delete [index]"@,
            TodoError::Parse => "invalid index. Usage: list, new, add [name], copy [path], delete [index]"@,
            TodoError::UnrecognizedCommand => "unrecognized command. Usage: list, new, add [name], copy [path], delete [index]"@,
            TodoError::IndexOutOfBounds => "index out of bounds."@,
        }
    }

    /// Returns the text shown to the user for this error.
    pub fn message(&self) -> (text: &'static str)
        ensures
            text@ == self.message_text(),
    {
        match self {
            TodoError::Usage => "not enough arguments. Usage: list, new, add [name], copy [path], delete [index]",
            TodoError::Parse => "invalid index. Usage: list, new, add [name], copy [path], delete [index]",
            TodoError::UnrecognizedCommand => "unrecognized command. Usage: list, new, add [name], copy [path], delete [index]",
            TodoError::IndexOutOfBounds => "index out of bounds.",
        }
    }
}

} // verus!
