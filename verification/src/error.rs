//! The failures that a dispatched line can end in.

use crate::style::{free_of_escapes, headline, is_headline};
use vstd::prelude::*;

verus! {

/// What went wrong with a line. None of these ends the session.
#[derive(Debug, Clone, Copy, PartialEq, Eq, Structural)]
pub enum Error {
    /// The line names a command that is not registered.
    NoSuchCommand,
    /// An argument is not of the type that the command asked for.
    InvalidArgument,
    /// The command asked for more arguments than the line gave.
    BadArgumentsLen,
}

impl Error {
    /// The name of the kind, as it heads the message.
    pub open spec fn kind_text(self) -> Seq<char> {
        match self {
            Error::NoSuchCommand => "NoSuchCommand"@,
            Error::InvalidArgument => "InvalidArgument"@,
            Error::BadArgumentsLen => "BadArgumentsLen"@,
        }
    }

    /// The sentence that explains the kind to the user.
    pub open spec fn explanation_text(self) -> Seq<char> {
        match self {
            Error::NoSuchCommand => "You typed in the name of a command that does not exist."@,
            Error::InvalidArgument => "You passed an argument that is of incorrect type."@,
            Error::BadArgumentsLen => "You passed too little arguments to the command."@,
        }
    }

    /// The name of the kind.
    pub fn kind(&self) -> (name: &'static str)
        ensures
            name@ == self.kind_text(),
    {
        match self {
            Error::NoSuchCommand => "NoSuchCommand",
            Error::InvalidArgument => "InvalidArgument",
            Error::BadArgumentsLen => "BadArgumentsLen",
        }
    }

    /// The sentence that explains the kind.
    pub fn explanation(&self) -> (sentence: &'static str)
        ensures
            sentence@ == self.explanation_text(),
    {
        match self {
            Error::NoSuchCommand => "You typed in the name of a command that does not exist.",
            Error::InvalidArgument => "You passed an argument that is of incorrect type.",
            Error::BadArgumentsLen => "You passed too little arguments to the command.",
        }
    }

    /// The line that reports the error: the kind as a headline, then the
    /// explanation.
    pub fn message(&self) -> (line: String)
        ensures
            is_headline(self.kind_text(), self.explanation_text(), line@),
    {
        proof {
            reveal_strlit("NoSuchCommand");
            reveal_strlit("InvalidArgument");
            reveal_strlit("BadArgumentsLen");
            assert(free_of_escapes(self.kind_text()));
        }
        headline(self.kind(), self.explanation())
    }
}

} // verus!
