//! The core of an embeddable interactive command shell.
//!
//! One line of text goes through three stages. [`scan::scan`] splits it into
//! substrings, with double quotes grouping. [`lex::lex`] types each substring:
//! an integer, a floating-point number or a text. A [`Console`] takes the first
//! substring as the name of a command, looks the name up in its
//! [`registry::Registry`], and calls the command with the rest as its
//! arguments, which the command takes out of the store with
//! [`lex::PopArgument`].
//!
//! Reading lines and printing stay with the caller. The library takes a line
//! and hands back what happened ([`Dispatch`]) and what is left to print;
//! [`repl::next_step`] tells a read loop what to do with each thing that its
//! reader hands over.
//!
//! The library holds no floating-point values. A floating-point argument is
//! kept by its IEEE 754 bit pattern, and the caller hands in the function that
//! reads one from a text.

pub mod console;
pub mod error;
pub mod lex;
pub mod number;
pub mod prelude;
pub mod registry;
pub mod repl;
pub mod scan;
pub mod style;
pub mod text;

pub use console::{Console, Dispatch, Resolved};
