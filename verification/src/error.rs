//! The errors a command or an operation on the namespace can end in.
use vstd::prelude::*;
use crate::names::COMMAND_SIZE;

verus! {

/// Why an operation did not take place. None of these is fatal: the state is
/// as it was before the operation.
#[derive(Clone, Copy, Debug, PartialEq, Eq)]
pub enum ShellError {
    /// No directory or file of that name.
    NotFound,
    /// The directory already has a child of that name.
    AlreadyExists,
    /// The name has more bytes than a name buffer holds.
    NameTooLong,
    /// The name has no bytes.
    NameEmpty,
    /// A pool, or the reference array of a directory, has no free entry.
    ArenaExhausted,
    /// The directory to delete still has children.
    NotEmpty,
    /// The line buffer is full.
    BufferFull,
    /// The argument has more bytes than the argument token holds.
    ArgumentTooLong,
    /// The command token names no command; the token is given.
    CommandNotFound([u8; COMMAND_SIZE]),
}

} // verus!
