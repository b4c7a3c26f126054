//! Typed arguments: what the substrings of a line become, and how a command
//! takes them in.

use crate::error::Error;
use crate::number::{integer_of, parse_integer};
use vstd::prelude::*;
use vstd::std_specs::convert::{FromSpecImpl, TryFromSpecImpl};

verus! {

/// A typed value, as contracts speak of it.
pub enum Token {
    /// A text.
    Text(Seq<char>),
    /// A signed 64-bit integer.
    Integer(i64),
    /// A 64-bit floating-point number, by its IEEE 754 bit pattern.
    Float(u64),
}

/// One argument of a command.
///
/// A floating-point number is held by its IEEE 754 bit pattern, so that two
/// arguments are equal exactly when they hold the same bits.
#[derive(Debug, PartialEq, Clone)]
pub enum Argument {
    /// A text that is no number.
    String(String),
    /// A signed 64-bit integer.
    Integer(i64),
    /// The bit pattern of a 64-bit floating-point number.
    Float(u64),
}

/// The arguments of one command, the first one at index 0.
pub type Arguments = Vec<Argument>;

impl View for Argument {
    type V = Token;

    open spec fn view(&self) -> Token {
        match *self {
            Argument::String(text) => Token::Text(text@),
            Argument::Integer(value) => Token::Integer(value),
            Argument::Float(bits) => Token::Float(bits),
        }
    }
}

impl DeepView for Argument {
    type V = Token;

    open spec fn deep_view(&self) -> Token {
        self@
    }
}

impl From<String> for Argument {
    fn from(input: String) -> (argument: Argument) {
        Argument::String(input)
    }
}

impl FromSpecImpl<String> for Argument {
    open spec fn obeys_from_spec() -> bool {
        true
    }

    open spec fn from_spec(input: String) -> Argument {
        Argument::String(input)
    }
}

impl From<i64> for Argument {
    fn from(input: i64) -> (argument: Argument) {
        Argument::Integer(input)
    }
}

impl FromSpecImpl<i64> for Argument {
    open spec fn obeys_from_spec() -> bool {
        true
    }

    open spec fn from_spec(input: i64) -> Argument {
        Argument::Integer(input)
    }
}

impl TryFrom<Argument> for String {
    type Error = Error;

    fn try_from(input: Argument) -> (text: Result<String, Error>) {
        match input {
            Argument::String(x) => Ok(x),
            _ => Err(Error::InvalidArgument),
        }
    }
}

impl TryFromSpecImpl<Argument> for String {
    open spec fn obeys_try_from_spec() -> bool {
        true
    }

    open spec fn try_from_spec(input: Argument) -> Result<String, Error> {
        match input {
            Argument::String(x) => Ok(x),
            _ => Err(Error::InvalidArgument),
        }
    }
}

impl TryFrom<Argument> for i64 {
    type Error = Error;

    fn try_from(input: Argument) -> (value: Result<i64, Error>) {
        match input {
            Argument::Integer(x) => Ok(x),
            _ => Err(Error::InvalidArgument),
        }
    }
}

impl TryFromSpecImpl<Argument> for i64 {
    open spec fn obeys_try_from_spec() -> bool {
        true
    }

    open spec fn try_from_spec(input: Argument) -> Result<i64, Error> {
        match input {
            Argument::Integer(x) => Ok(x),
            _ => Err(Error::InvalidArgument),
        }
    }
}

impl Argument {
    /// The bit pattern of a floating-point argument, and `InvalidArgument` for
    /// any other.
    pub open spec fn float_bits_of(self) -> Result<u64, Error> {
        match self {
            Argument::Float(bits) => Ok(bits),
            _ => Err(Error::InvalidArgument),
        }
    }

    /// Takes the argument as a floating-point number, by its bit pattern.
    ///
    /// Only the kind of the argument counts: a text is never read as a number
    /// here, whatever it holds.
    pub fn into_float_bits(self) -> (bits: Result<u64, Error>)
        ensures
            bits == self.float_bits_of(),
    {
        match self {
            Argument::Float(x) => Ok(x),
            _ => Err(Error::InvalidArgument),
        }
    }
}

/// A text argument never converts to a number, whatever the text is.
pub proof fn lemma_text_is_no_number(text: String)
    ensures
        <i64 as vstd::std_specs::convert::TryFromSpec<Argument>>::try_from_spec(
            Argument::String(text),
        ) == Err::<i64, Error>(Error::InvalidArgument),
        Argument::String(text).float_bits_of() == Err::<u64, Error>(Error::InvalidArgument),
{
}

/// Whether `popped` is what taking the argument at `index` out of `tokens`
/// gives: that argument, or `BadArgumentsLen` where there is none.
pub open spec fn is_popped(
    tokens: Seq<Token>,
    index: int,
    popped: Result<Argument, Error>,
) -> bool {
    if 0 <= index < tokens.len() {
        popped matches Ok(argument) && argument@ == tokens[index]
    } else {
        popped matches Err(error) && error == Error::BadArgumentsLen
    }
}

/// What is left of `tokens` once the argument at `index` is out: the others in
/// their order, or all of them where there is none at `index`.
pub open spec fn after_pop(tokens: Seq<Token>, index: int) -> Seq<Token> {
    if 0 <= index < tokens.len() {
        tokens.remove(index)
    } else {
        tokens
    }
}

/// A pop that succeeds shortens the store by one and leaves the other
/// arguments in their order; a pop from an empty store leaves it empty.
pub proof fn lemma_pop_shortens_by_one(tokens: Seq<Token>, index: int)
    ensures
        0 <= index < tokens.len() ==> {
            &&& after_pop(tokens, index).len() == tokens.len() - 1
            &&& forall|i: int| 0 <= i < index ==> after_pop(tokens, index)[i] == tokens[i]
            &&& forall|i: int|
                index <= i < tokens.len() - 1 ==> after_pop(tokens, index)[i] == tokens[i + 1]
        },
        tokens.len() == 0 ==> after_pop(tokens, index).len() == 0,
{
}

/// Taking arguments out of a store, one at a time.
pub trait PopArgument {
    /// The arguments in the store, in order.
    spec fn tokens(&self) -> Seq<Token>;

    /// Removes the first argument and returns it.
    ///
    /// An empty store stays as it is and gives `BadArgumentsLen`.
    fn pop_arg(&mut self) -> (popped: Result<Argument, Error>)
        ensures
            is_popped(old(self).tokens(), 0, popped),
            final(self).tokens() == after_pop(old(self).tokens(), 0),
    ;

    /// Removes the argument at `index` and returns it; those behind it move
    /// up by one.
    ///
    /// With no argument at `index` the store stays as it is and the call gives
    /// `BadArgumentsLen`.
    fn pop_arg_at(&mut self, index: usize) -> (popped: Result<Argument, Error>)
        ensures
            is_popped(old(self).tokens(), index as int, popped),
            final(self).tokens() == after_pop(old(self).tokens(), index as int),
    ;
}

impl PopArgument for Vec<Argument> {
    open spec fn tokens(&self) -> Seq<Token> {
        self.deep_view()
    }

    fn pop_arg(&mut self) -> (popped: Result<Argument, Error>) {
        self.pop_arg_at(0)
    }

    fn pop_arg_at(&mut self, index: usize) -> (popped: Result<Argument, Error>) {
        if index < self.len() {
            let argument = self.remove(index);
            assert(self.deep_view() =~= old(self).deep_view().remove(index as int));
            Ok(argument)
        } else {
            Err(Error::BadArgumentsLen)
        }
    }
}

/// The typed value of a substring, given what reading it as an integer and as
/// a floating-point number came to: the integer if there is one, else the
/// floating-point number if there is one, else the text itself.
pub open spec fn typed(text: Seq<char>, integer: Option<i64>, float: Option<u64>) -> Token {
    match integer {
        Some(value) => Token::Integer(value),
        None => match float {
            Some(bits) => Token::Float(bits),
            None => Token::Text(text),
        },
    }
}

/// Whether `token` is the typed value of `text` when `read_float` reads
/// floating-point numbers.
///
/// A text that writes a 64-bit integer is that integer, and the reader is not
/// asked. Any other text is what the reader makes of it: the number that it
/// returns, or the text unchanged where it returns none.
pub open spec fn lexed_as<F: Fn(&str) -> Option<u64>>(
    read_float: F,
    text: Seq<char>,
    token: Token,
) -> bool {
    match integer_of(text) {
        Some(value) => token == Token::Integer(value),
        None => exists|asked: &str, float: Option<u64>|
            {
                &&& #[trigger] call_ensures(read_float, (asked,), float)
                &&& asked@ == text
                &&& token == typed(text, None, float)
            },
    }
}

/// Whether `arguments` is what `texts` are typed to, one for one and in the
/// same order, when `read_float` reads floating-point numbers.
pub open spec fn lexes_to<F: Fn(&str) -> Option<u64>>(
    read_float: F,
    texts: Seq<Seq<char>>,
    arguments: Arguments,
) -> bool {
    &&& arguments@.len() == texts.len()
    &&& forall|i: int|
        0 <= i < texts.len() ==> lexed_as(read_float, texts[i], #[trigger] arguments@[i]@)
}

/// The order of preference among the types: a text that writes an integer is
/// that integer, whatever the reader would make of it; any other text is the
/// floating-point number that the reader reads from it, and is itself where
/// the reader reads none.
pub proof fn lemma_type_preference<F: Fn(&str) -> Option<u64>>(
    read_float: F,
    text: Seq<char>,
    float: Option<u64>,
    token: Token,
)
    requires
        lexed_as(read_float, text, token),
        forall|asked: &str, read: Option<u64>|
            asked@ == text && #[trigger] call_ensures(read_float, (asked,), read) ==> read
                == float,
    ensures
        token == typed(text, integer_of(text), float),
        integer_of(text) matches Some(value) ==> token == Token::Integer(value),
        integer_of(text) is None ==> (float matches Some(bits) ==> token == Token::Float(bits)),
        integer_of(text) is None && float is None ==> token == Token::Text(text),
{
}

/// Builds the argument for a substring from the two readings of it.
pub fn argument_from(text: String, integer: Option<i64>, float: Option<u64>) -> (argument:
    Argument)
    ensures
        argument@ == typed(text@, integer, float),
{
    match integer {
        Some(value) => Argument::Integer(value),
        None => match float {
            Some(bits) => Argument::Float(bits),
            None => Argument::String(text),
        },
    }
}

/// Types each substring: an integer where it writes one, else a
/// floating-point number where `read_float` reads one, else a text.
///
/// `read_float` returns the IEEE 754 bit pattern of the number that a text
/// writes, or `None`. The result has one argument for each substring, in the
/// same order.
pub fn lex<F: Fn(&str) -> Option<u64>>(input: Vec<String>, read_float: F) -> (output: Arguments)
    requires
        forall|asked: &str| call_requires(read_float, (asked,)),
    ensures
        output@.len() == input@.len(),
        lexes_to(read_float, input.deep_view(), output),
{
    let mut output: Vec<Argument> = Vec::new();
    for text in it: input
        invariant
            it.seq() == input@,
            forall|asked: &str| call_requires(read_float, (asked,)),
            output@.len() == it.index(),
            forall|i: int|
                0 <= i < it.index() ==> lexed_as(read_float, input@[i]@, #[trigger] output@[i]@),
    {
        let integer = parse_integer(text.as_str());
        let float = match integer {
            Some(_) => None,
            None => read_float(text.as_str()),
        };
        let ghost words = text@;
        let argument = argument_from(text, integer, float);
        assert(lexed_as(read_float, words, argument@));
        output.push(argument);
    }
    assert forall|i: int| 0 <= i < input.deep_view().len() implies lexed_as(
        read_float,
        input.deep_view()[i],
        #[trigger] output@[i]@,
    ) by {
        assert(input.deep_view()[i] == input@[i]@);
    }
    output
}

} // verus!
