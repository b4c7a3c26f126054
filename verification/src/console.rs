//! The console: a registry of commands, a prompt, and the dispatch of one
//! line.

use crate::error::Error;
use crate::lex::{lex, lexes_to, Arguments};
use crate::registry::{exit_word, help_word, Registry};
use crate::scan::{lemma_first_word, lemma_scan_single_word, scan, scanned};
use crate::style::{bold, bold_codes, is_headline, is_styled};
use crate::text::lemma_deep_view_push;
use vstd::prelude::*;

verus! {

/// What a line asks for, before anything is called.
pub enum Resolved<'a, C> {
    /// Nothing: the line names no command.
    Idle,
    /// The list of commands, in the lines given.
    Help(Vec<String>),
    /// A call of this registered command with these arguments.
    Call(&'a C, Arguments),
}

/// What the dispatch of a line came to.
#[derive(Debug, PartialEq, Eq)]
pub enum Dispatch {
    /// The line named no command, and nothing was called.
    Idle,
    /// The line asked for the list of commands, in the lines given, and
    /// nothing was called.
    Help(Vec<String>),
    /// The command that the line names was called, once, and returned this.
    /// A failure in it is for the user to read; it ends nothing.
    Ran(Result<(), Error>),
}

/// The name of the command on a line: its first substring, or the empty text
/// where it has none.
pub open spec fn command_name(words: Seq<Seq<char>>) -> Seq<char> {
    if words.len() > 0 {
        words[0]
    } else {
        Seq::empty()
    }
}

/// What heads the list of commands.
pub open spec fn help_heading() -> Seq<char> {
    "List of commands:"@
}

/// The list of commands under `heading`: the registered names in their
/// order, then the two words that the console answers itself.
pub open spec fn listing_under(heading: Seq<char>, names: Seq<Seq<char>>) -> Seq<Seq<char>> {
    seq![heading] + names + seq![help_word(), exit_word()]
}

/// Whether `lines` is the list of commands for `names`, under the heading in
/// bold.
pub open spec fn is_listing(names: Seq<Seq<char>>, lines: Seq<Seq<char>>) -> bool {
    exists|heading: Seq<char>| #[trigger]
        is_styled(help_heading(), bold_codes(), heading) && lines == listing_under(heading, names)
}

/// Whether `lines` is what `dispatch` leaves to print: the list of commands
/// where the line asked for it, one line that reports the failure where the
/// command failed, and nothing otherwise.
pub open spec fn is_output_of(dispatch: Dispatch, lines: Seq<Seq<char>>) -> bool {
    match dispatch {
        Dispatch::Idle => lines.len() == 0,
        Dispatch::Help(listing) => lines == listing.deep_view(),
        Dispatch::Ran(Ok(_)) => lines.len() == 0,
        Dispatch::Ran(Err(error)) => lines.len() == 1 && is_headline(
            error.kind_text(),
            error.explanation_text(),
            lines[0],
        ),
    }
}

impl Dispatch {
    /// The lines that the dispatch leaves to print, in order.
    pub fn output(self) -> (lines: Vec<String>)
        ensures
            is_output_of(self, lines.deep_view()),
    {
        match self {
            Dispatch::Idle => Vec::new(),
            Dispatch::Help(listing) => listing,
            Dispatch::Ran(Ok(_)) => Vec::new(),
            Dispatch::Ran(Err(error)) => {
                let mut lines: Vec<String> = Vec::new();
                let line = error.message();
                lines.push(line);
                assert(lines.deep_view()[0] == line@);
                lines
            },
        }
    }
}

/// The console: the commands that it knows, and the prompt that it shows.
pub struct Console<C> {
    /// The commands, by the names under which a line calls them.
    pub command_table: Registry<C>,
    /// The characters that come before the input, like `>> `.
    pub prompt: String,
}

impl<C> Console<C> {
    /// A console with these commands and this prompt.
    pub fn new(command_table: Registry<C>, prompt: &str) -> (console: Console<C>)
        ensures
            console.command_table == command_table,
            console.prompt@ == prompt@,
    {
        Console { command_table, prompt: prompt.to_owned() }
    }

    /// The list of commands under a heading that is already styled.
    pub fn listing(&self, heading: String) -> (lines: Vec<String>)
        ensures
            lines.deep_view() == listing_under(heading@, self.command_table.names()),
    {
        let names = self.command_table.names_in_order();
        let mut lines: Vec<String> = Vec::new();
        lines.push(heading);
        assert(lines.deep_view() =~= seq![heading@]);
        for i in 0..names.len()
            invariant
                names.deep_view() == self.command_table.names(),
                lines.deep_view() == seq![heading@] + self.command_table.names().take(i as int),
        {
            let ghost before = lines;
            let name = names[i].clone();
            lines.push(name);
            proof {
                lemma_deep_view_push(before, lines, name);
                assert(names.deep_view()[i as int] == name@);
                assert(self.command_table.names().take(i + 1) =~= self.command_table.names().take(
                    i as int,
                ).push(name@));
                assert(lines.deep_view() =~= seq![heading@] + self.command_table.names().take(
                    i + 1,
                ));
            }
        }
        assert(self.command_table.names().take(names.len() as int) =~= self.command_table.names());
        let ghost listed = lines;
        let help = "help".to_owned();
        lines.push(help);
        let ghost with_help = lines;
        let exit = "exit".to_owned();
        lines.push(exit);
        proof {
            lemma_deep_view_push(listed, with_help, help);
            lemma_deep_view_push(with_help, lines, exit);
            assert(lines.deep_view() =~= listing_under(heading@, self.command_table.names()));
        }
        lines
    }

    /// The list of commands: a heading in bold, the registered names in the
    /// order in which they came in, then `help` and `exit`.
    pub fn help(&self) -> (lines: Vec<String>)
        ensures
            is_listing(self.command_table.names(), lines.deep_view()),
    {
        proof {
            reveal_strlit("List of commands:");
        }
        let heading = bold("List of commands:");
        assert(is_styled(help_heading(), bold_codes(), heading@));
        self.listing(heading)
    }

    /// Whether `resolved` is what the line `input` asks of this console.
    ///
    /// A line whose first substring is missing or empty asks for nothing. The
    /// name `help` asks for the list of commands, whatever follows it and
    /// whatever is registered. Any other name asks for the command registered
    /// under it, with the substrings after the name typed as its arguments,
    /// and is an error where no command has that name.
    pub open spec fn is_resolution_of<F: Fn(&str) -> Option<u64>>(
        &self,
        read_float: F,
        input: Seq<char>,
        resolved: Result<Resolved<C>, Error>,
    ) -> bool {
        let words = scanned(input);
        let name = command_name(words);
        if name.len() == 0 {
            resolved matches Ok(Resolved::Idle)
        } else if name == help_word() {
            resolved matches Ok(Resolved::Help(lines)) && is_listing(
                self.command_table.names(),
                lines.deep_view(),
            )
        } else if !self.command_table@.contains_key(name) {
            resolved matches Err(error) && error == Error::NoSuchCommand
        } else {
            resolved matches Ok(Resolved::Call(command, arguments)) && *command
                == self.command_table@[name] && lexes_to(read_float, words.skip(1), arguments)
        }
    }

    /// Finds out what a line asks for, and calls nothing.
    pub fn resolve<'a, F: Fn(&str) -> Option<u64>>(
        &'a self,
        input: String,
        read_float: F,
    ) -> (resolved: Result<Resolved<'a, C>, Error>)
        requires
            forall|asked: &str| call_requires(read_float, (asked,)),
        ensures
            self.is_resolution_of(read_float, input@, resolved),
    {
        let mut words = scan(input);
        let ghost all = words;
        if words.len() == 0 {
            return Ok(Resolved::Idle);
        }
        let name = words.remove(0);
        assert(name@ == all.deep_view()[0]);
        if name.as_str().is_empty() {
            return Ok(Resolved::Idle);
        }
        if name == "help".to_owned() {
            return Ok(Resolved::Help(self.help()));
        }
        match self.command_table.get(name.as_str()) {
            None => Err(Error::NoSuchCommand),
            Some(command) => {
                let ghost texts = words;
                let arguments = lex(words, read_float);
                assert(texts.deep_view() =~= all.deep_view().skip(1));
                Ok(Resolved::Call(command, arguments))
            },
        }
    }
}

impl<C: Fn(Arguments) -> Result<(), Error>> Console<C> {
    /// Whether every registered command can be called with any arguments.
    pub open spec fn takes_any_arguments(&self) -> bool {
        forall|name: Seq<char>, arguments: Arguments|
            self.command_table@.contains_key(name) ==> #[trigger] call_requires(
                self.command_table@[name],
                (arguments,),
            )
    }

    /// Whether the line `input` can be dispatched: where it names a
    /// registered command, that command can be called with the arguments of
    /// the line. Nothing is asked of any other command, nor of any command
    /// where the line names none.
    pub open spec fn can_dispatch<F: Fn(&str) -> Option<u64>>(
        &self,
        read_float: F,
        input: Seq<char>,
    ) -> bool {
        let words = scanned(input);
        let name = command_name(words);
        name.len() > 0 && name != help_word() && self.command_table@.contains_key(name)
            ==> forall|arguments: Arguments| #[trigger]
            lexes_to(read_float, words.skip(1), arguments) ==> call_requires(
                self.command_table@[name],
                (arguments,),
            )
    }

    /// Whether `outcome` is what dispatching the line `input` comes to.
    ///
    /// It is what [`Console::is_resolution_of`] says that the line asks for,
    /// carried out: where the line asks for a command, the outcome holds what
    /// one call of that command returned for the arguments of the line.
    pub open spec fn is_dispatch_of<F: Fn(&str) -> Option<u64>>(
        &self,
        read_float: F,
        input: Seq<char>,
        outcome: Result<Dispatch, Error>,
    ) -> bool {
        let words = scanned(input);
        let name = command_name(words);
        if name.len() == 0 {
            outcome matches Ok(Dispatch::Idle)
        } else if name == help_word() {
            outcome matches Ok(Dispatch::Help(lines)) && is_listing(
                self.command_table.names(),
                lines.deep_view(),
            )
        } else if !self.command_table@.contains_key(name) {
            outcome matches Err(error) && error == Error::NoSuchCommand
        } else {
            outcome matches Ok(Dispatch::Ran(returned)) && exists|arguments: Arguments|
                lexes_to(read_float, words.skip(1), arguments) && #[trigger] call_ensures(
                    self.command_table@[name],
                    (arguments,),
                    returned,
                )
        }
    }

    /// Dispatches one line: finds out what it asks for and carries it out.
    ///
    /// A command is called only where the line names a registered one; what
    /// it returns is handed back in [`Dispatch::Ran`], failure or not. For
    /// any other line nothing is required of the commands, so none of them
    /// can be called: a call needs a command that is known to accept it.
    pub fn parse<F: Fn(&str) -> Option<u64>>(&self, input: String, read_float: F) -> (outcome:
        Result<Dispatch, Error>)
        requires
            self.can_dispatch(read_float, input@),
            forall|asked: &str| call_requires(read_float, (asked,)),
        ensures
            self.is_dispatch_of(read_float, input@, outcome),
    {
        match self.resolve(input, read_float) {
            Err(error) => Err(error),
            Ok(Resolved::Idle) => Ok(Dispatch::Idle),
            Ok(Resolved::Help(lines)) => Ok(Dispatch::Help(lines)),
            Ok(Resolved::Call(command, arguments)) => {
                let returned = command(arguments);
                Ok(Dispatch::Ran(returned))
            },
        }
    }
}

/// Commands that take any arguments let every line be dispatched.
pub proof fn lemma_any_line_can_be_dispatched<
    C: Fn(Arguments) -> Result<(), Error>,
    F: Fn(&str) -> Option<u64>,
>(console: Console<C>, read_float: F, input: Seq<char>)
    requires
        console.takes_any_arguments(),
    ensures
        console.can_dispatch(read_float, input),
{
}

/// A line that names a command which is not registered fails with
/// `NoSuchCommand`: no command is handed out for it, the dispatch ends in
/// the error and not in what a call returned, and dispatching it asks nothing
/// of the registered commands.
pub proof fn lemma_unknown_name_fails<
    C: Fn(Arguments) -> Result<(), Error>,
    F: Fn(&str) -> Option<u64>,
>(
    console: Console<C>,
    read_float: F,
    input: Seq<char>,
    resolved: Result<Resolved<C>, Error>,
    outcome: Result<Dispatch, Error>,
)
    requires
        console.is_resolution_of(read_float, input, resolved),
        console.is_dispatch_of(read_float, input, outcome),
        command_name(scanned(input)).len() > 0,
        command_name(scanned(input)) != help_word(),
        !console.command_table@.contains_key(command_name(scanned(input))),
    ensures
        resolved matches Err(error) && error == Error::NoSuchCommand,
        outcome matches Err(error) && error == Error::NoSuchCommand,
        console.can_dispatch(read_float, input),
{
}

/// The line `help`, alone or with anything after a space, is answered with
/// the list of commands, whatever follows the word and whatever is
/// registered: no command is handed out for it, the dispatch ends in the
/// list and not in what a call returned, and dispatching it asks nothing of
/// the registered commands.
pub proof fn lemma_help_is_answered<
    C: Fn(Arguments) -> Result<(), Error>,
    F: Fn(&str) -> Option<u64>,
>(
    console: Console<C>,
    read_float: F,
    input: Seq<char>,
    rest: Seq<char>,
    resolved: Result<Resolved<C>, Error>,
    outcome: Result<Dispatch, Error>,
)
    requires
        input == help_word() || input == help_word() + seq![' '] + rest,
        console.is_resolution_of(read_float, input, resolved),
        console.is_dispatch_of(read_float, input, outcome),
    ensures
        resolved matches Ok(Resolved::Help(_)),
        outcome matches Ok(Dispatch::Help(_)),
        console.can_dispatch(read_float, input),
{
    reveal_strlit("help");
    if input == help_word() {
        lemma_scan_single_word(help_word());
    } else {
        lemma_first_word(help_word(), rest);
    }
}

} // verus!
