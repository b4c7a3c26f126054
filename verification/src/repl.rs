//! What the read loop does with each thing that the line reader hands over.
//!
//! The loop itself waits for input and prints, so it lives with the caller. It
//! reports each reading here, and is told what to do next.

use crate::registry::exit_word;
use crate::style::{headline, is_headline};
use vstd::prelude::*;

verus! {

/// What one call of the line reader came back with.
#[derive(Debug, PartialEq, Eq)]
pub enum Reading {
    /// A completed line, without its line ending.
    Line(String),
    /// The user interrupted the prompt.
    Interrupted,
    /// The input is at its end.
    EndOfInput,
    /// The reader failed; the text says how.
    Failed(String),
}

/// What the loop does next.
#[derive(Debug, PartialEq, Eq)]
pub enum Step {
    /// Nothing: ask for the next line.
    Skip,
    /// Remember the line in the history, dispatch it, and ask for the next one.
    Dispatch(String),
    /// Leave the loop, after showing the notice if there is one.
    Stop(Option<String>),
}

/// What heads the notice of a failed reading.
pub open spec fn failure_heading() -> Seq<char> {
    "Error while reading input"@
}

/// `step` is what follows `reading`.
///
/// An empty line is skipped. The line `exit` stops the loop silently. Any
/// other line is dispatched as it is. An interrupt stops the loop with `^C`, the
/// end of input with `^D`, and a failure with a headline that gives the reason.
pub open spec fn follows(reading: Reading, step: Step) -> bool {
    match reading {
        Reading::Line(line) => if line@.len() == 0 {
            step is Skip
        } else if line@ == exit_word() {
            step == Step::Stop(None)
        } else {
            step matches Step::Dispatch(dispatched) && dispatched@ == line@
        },
        Reading::Interrupted => step matches Step::Stop(Some(notice)) && notice@ == "^C"@,
        Reading::EndOfInput => step matches Step::Stop(Some(notice)) && notice@ == "^D"@,
        Reading::Failed(reason) => step matches Step::Stop(Some(notice)) && is_headline(
            failure_heading(),
            reason@,
            notice@,
        ),
    }
}

/// Decides what the loop does after `reading`.
pub fn next_step(reading: Reading) -> (step: Step)
    ensures
        follows(reading, step),
{
    match reading {
        Reading::Line(line) => {
            if line.as_str().is_empty() {
                Step::Skip
            } else if line == "exit".to_owned() {
                Step::Stop(None)
            } else {
                Step::Dispatch(line)
            }
        },
        Reading::Interrupted => Step::Stop(Some("^C".to_owned())),
        Reading::EndOfInput => Step::Stop(Some("^D".to_owned())),
        Reading::Failed(reason) => {
            proof {
                reveal_strlit("Error while reading input");
            }
            Step::Stop(Some(headline("Error while reading input", reason.as_str())))
        },
    }
}

} // verus!
