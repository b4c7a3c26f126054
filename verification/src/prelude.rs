//! What a program that builds a console needs, in one import.

pub use crate::console::{Console, Dispatch};
pub use crate::error::Error as RustermError;
pub use crate::lex::{lex, Argument, Arguments, PopArgument};
pub use crate::registry::Registry;
pub use std::convert::TryInto;
