//! Errors reported by the server to command callers.

use vstd::prelude::*;

verus! {

/// An error from executing a command.
#[derive(Debug)]
pub enum ServerError {
    /// A command failed, with the message shown to the user.
    Command(String),
}

impl ServerError {
    /// The abstract message of the error.
    pub open spec fn msg(&self) -> Seq<char> {
        match self {
            ServerError::Command(m) => m@,
        }
    }

    /// The text shown for this error.
    pub fn message(&self) -> (r: String)
        ensures
            r@ == self.msg(),
    {
        match self {
            ServerError::Command(m) => m.clone(),
        }
    }
}

/// A command error carrying `msg`.
pub fn command_error(msg: String) -> (e: ServerError)
    ensures
        e.msg() == msg@,
{
    ServerError::Command(msg)
}

} // verus!
