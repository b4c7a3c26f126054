use rusterm::error::Error;
use rusterm::lex::{Argument, Arguments, PopArgument};
use rusterm::registry::Registry;
use rusterm::{Console, Dispatch, Resolved};
use std::cell::RefCell;
use std::rc::Rc;

type Command = fn(Arguments) -> Result<(), Error>;

type Recorder = Box<dyn Fn(Arguments) -> Result<(), Error>>;

fn read_float(text: &str) -> Option<u64> {
    text.parse::<f64>().ok().map(f64::to_bits)
}

fn succeed(_arguments: Arguments) -> Result<(), Error> {
    Ok(())
}

fn need_one_integer(mut arguments: Arguments) -> Result<(), Error> {
    let _first: i64 = arguments.pop_arg()?.try_into()?;
    Ok(())
}

/// A command that writes down the arguments of each call and then returns
/// `result`.
fn recorder(calls: &Rc<RefCell<Vec<Arguments>>>, result: Result<(), Error>) -> Recorder {
    let calls = Rc::clone(calls);
    Box::new(move |arguments: Arguments| {
        calls.borrow_mut().push(arguments);
        result
    })
}

fn listing(lines: &[&str]) -> Dispatch {
    Dispatch::Help(lines.iter().map(|line| line.to_string()).collect())
}

#[test]
fn parse() {
    let console: Console<Command> = Console::new(Registry::new(), "");
    console
        .parse("help \"hello, world\"".to_string(), read_float)
        .unwrap();
}

#[test]
fn new_keeps_the_table_and_the_prompt() {
    let mut table: Registry<Command> = Registry::new();
    assert!(table.insert("ok".to_string(), succeed));
    let console = Console::new(table, ">> ");
    assert_eq!(console.prompt, ">> ");
    assert_eq!(console.command_table.names_in_order(), vec!["ok"]);
    assert!(console.command_table.get("ok").is_some());
}

#[test]
fn help_lists_the_names_then_help_and_exit() {
    let mut table: Registry<Command> = Registry::new();
    table.insert("zeta".to_string(), succeed);
    table.insert("alpha".to_string(), succeed);
    table.insert("mid".to_string(), need_one_integer);
    let console = Console::new(table, "");
    colored::control::set_override(false);
    assert_eq!(
        console.help(),
        vec!["List of commands:", "zeta", "alpha", "mid", "help", "exit"]
    );
    assert_eq!(
        console.listing("Commands".to_string()),
        vec!["Commands", "zeta", "alpha", "mid", "help", "exit"]
    );
}

#[test]
fn help_of_an_empty_console_lists_the_two_built_in_words() {
    let console: Console<Command> = Console::new(Registry::new(), "");
    colored::control::set_override(false);
    assert_eq!(console.help(), vec!["List of commands:", "help", "exit"]);
}

#[test]
fn help_heading_is_bold_where_colours_are_on() {
    let console: Console<Command> = Console::new(Registry::new(), "");
    colored::control::set_override(true);
    assert_eq!(
        console.help(),
        vec!["\u{1b}[1mList of commands:\u{1b}[0m", "help", "exit"]
    );
}

#[test]
fn dispatch_of_help_calls_nothing() {
    let calls = Rc::new(RefCell::new(Vec::new()));
    let mut table: Registry<Recorder> = Registry::new();
    table.insert("run".to_string(), recorder(&calls, Ok(())));
    table.insert("hello,".to_string(), recorder(&calls, Ok(())));
    let console = Console::new(table, "");
    colored::control::set_override(false);
    for line in ["help", "help run", "help \"hello, world\"", "  help 1 2.5 x", "\"help\""] {
        assert_eq!(
            console.parse(line.to_string(), read_float),
            Ok(listing(&["List of commands:", "run", "hello,", "help", "exit"])),
            "{:?}",
            line
        );
    }
    assert!(calls.borrow().is_empty());
}

#[test]
fn dispatch_of_an_unknown_name_fails_and_calls_nothing() {
    let calls = Rc::new(RefCell::new(Vec::new()));
    let mut table: Registry<Recorder> = Registry::new();
    table.insert("run".to_string(), recorder(&calls, Ok(())));
    let console = Console::new(table, "");
    for line in ["walk", "Run", "runs", "walk run", "exit now", "helper", "\"run \""] {
        assert_eq!(
            console.parse(line.to_string(), read_float),
            Err(Error::NoSuchCommand),
            "{:?}",
            line
        );
    }
    assert!(calls.borrow().is_empty());
}

#[test]
fn dispatch_of_a_line_without_a_name_does_nothing() {
    let calls = Rc::new(RefCell::new(Vec::new()));
    let mut table: Registry<Recorder> = Registry::new();
    table.insert("run".to_string(), recorder(&calls, Ok(())));
    let console = Console::new(table, "");
    for line in ["", "   ", "\"\"", "\"\" run", "\""] {
        assert_eq!(
            console.parse(line.to_string(), read_float),
            Ok(Dispatch::Idle),
            "{:?}",
            line
        );
    }
    assert!(calls.borrow().is_empty());
}

#[test]
fn dispatch_calls_the_command_once_with_the_typed_rest() {
    let calls = Rc::new(RefCell::new(Vec::new()));
    let mut table: Registry<Recorder> = Registry::new();
    table.insert("run".to_string(), recorder(&calls, Ok(())));
    let console = Console::new(table, "");
    assert_eq!(
        console.parse(
            "run hh 43 \"Hello, world!\" 3.3 run".to_string(),
            read_float
        ),
        Ok(Dispatch::Ran(Ok(())))
    );
    assert_eq!(
        *calls.borrow(),
        vec![vec![
            Argument::String("hh".to_string()),
            Argument::Integer(43),
            Argument::String("Hello, world!".to_string()),
            Argument::Float(3.3f64.to_bits()),
            Argument::String("run".to_string()),
        ]]
    );
}

#[test]
fn dispatch_finds_a_quoted_name() {
    let calls = Rc::new(RefCell::new(Vec::new()));
    let mut table: Registry<Recorder> = Registry::new();
    table.insert("two words".to_string(), recorder(&calls, Ok(())));
    let console = Console::new(table, "");
    assert_eq!(
        console.parse("\"two words\" 1".to_string(), read_float),
        Ok(Dispatch::Ran(Ok(())))
    );
    assert_eq!(*calls.borrow(), vec![vec![Argument::Integer(1)]]);
}

#[test]
fn dispatch_hands_back_the_failure_of_the_command() {
    let mut table: Registry<Command> = Registry::new();
    table.insert("need".to_string(), need_one_integer);
    let console = Console::new(table, "");
    let ran = |line: &str| console.parse(line.to_string(), read_float);
    assert_eq!(ran("need 5"), Ok(Dispatch::Ran(Ok(()))));
    assert_eq!(ran("need"), Ok(Dispatch::Ran(Err(Error::BadArgumentsLen))));
    assert_eq!(
        ran("need five"),
        Ok(Dispatch::Ran(Err(Error::InvalidArgument)))
    );
    assert_eq!(
        ran("need 5.0"),
        Ok(Dispatch::Ran(Err(Error::InvalidArgument)))
    );
}

#[test]
fn resolve_hands_out_the_command_without_calling_it() {
    let calls = Rc::new(RefCell::new(Vec::new()));
    let mut table: Registry<Recorder> = Registry::new();
    table.insert("run".to_string(), recorder(&calls, Err(Error::InvalidArgument)));
    let console = Console::new(table, "");
    match console.resolve("run 1 two".to_string(), read_float) {
        Ok(Resolved::Call(command, arguments)) => {
            assert_eq!(
                arguments,
                vec![Argument::Integer(1), Argument::String("two".to_string())]
            );
            assert!(calls.borrow().is_empty());
            assert_eq!(command(arguments), Err(Error::InvalidArgument));
            assert_eq!(calls.borrow().len(), 1);
        }
        _ => panic!("no call"),
    }
    assert!(matches!(
        console.resolve("".to_string(), read_float),
        Ok(Resolved::Idle)
    ));
    assert!(matches!(
        console.resolve("help run".to_string(), read_float),
        Ok(Resolved::Help(_))
    ));
    assert!(matches!(
        console.resolve("walk".to_string(), read_float),
        Err(Error::NoSuchCommand)
    ));
    assert_eq!(calls.borrow().len(), 1);
}

#[test]
fn output_is_the_listing_or_the_failure_or_nothing() {
    colored::control::set_override(false);
    assert_eq!(Dispatch::Idle.output(), Vec::<String>::new());
    assert_eq!(Dispatch::Ran(Ok(())).output(), Vec::<String>::new());
    assert_eq!(
        listing(&["List of commands:", "help", "exit"]).output(),
        vec!["List of commands:", "help", "exit"]
    );
    assert_eq!(
        Dispatch::Ran(Err(Error::BadArgumentsLen)).output(),
        vec!["BadArgumentsLen: You passed too little arguments to the command."]
    );
    assert_eq!(
        Dispatch::Ran(Err(Error::InvalidArgument)).output(),
        vec!["InvalidArgument: You passed an argument that is of incorrect type."]
    );
}
