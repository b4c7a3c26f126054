use rusterm::error::Error;
use rusterm::lex::{argument_from, lex, Argument, Arguments, PopArgument};
use rusterm::number::parse_integer;
use rusterm::scan::scan;

fn read_float(text: &str) -> Option<u64> {
    text.parse::<f64>().ok().map(f64::to_bits)
}

fn texts(words: &[&str]) -> Vec<String> {
    words.iter().map(|word| word.to_string()).collect()
}

#[test]
fn lex_cmp() {
    let lexed = lex(scan("hh 43 \"Hello, world!\" 3.3".to_string()), read_float);
    let expected = vec![
        Argument::String("hh".to_string()),
        Argument::Integer(43),
        Argument::String("Hello, world!".to_string()),
        Argument::Float(3.3f64.to_bits()),
    ];
    assert_eq!(lexed.len(), expected.len());
    for (right, left) in lexed.iter().zip(expected) {
        assert_eq!(right, &left);
    }
}

#[test]
fn pop_arg() {
    let mut arguments = vec![Argument::String("Hello, World!".to_string())];
    arguments.pop_arg().unwrap();
    arguments.pop_arg().unwrap_err();
}

#[test]
fn lex_prefers_integer_then_float_then_text() {
    assert_eq!(lex(texts(&["33"]), read_float), vec![Argument::Integer(33)]);
    assert_eq!(
        lex(texts(&["4.2"]), read_float),
        vec![Argument::Float(4.2f64.to_bits())]
    );
    assert_eq!(
        lex(texts(&["hello, world"]), read_float),
        vec![Argument::String("hello, world".to_string())]
    );
    assert_eq!(
        lex(texts(&["1e3"]), read_float),
        vec![Argument::Float(1000.0f64.to_bits())]
    );
    assert_eq!(lex(texts(&["-0"]), read_float), vec![Argument::Integer(0)]);
    assert_eq!(
        lex(texts(&["-0.0"]), read_float),
        vec![Argument::Float((-0.0f64).to_bits())]
    );
}

#[test]
fn lex_takes_an_integer_out_of_range_as_a_float() {
    assert_eq!(
        lex(texts(&["9223372036854775807"]), read_float),
        vec![Argument::Integer(i64::MAX)]
    );
    assert_eq!(
        lex(texts(&["-9223372036854775808"]), read_float),
        vec![Argument::Integer(i64::MIN)]
    );
    assert_eq!(
        lex(texts(&["9223372036854775808"]), read_float),
        vec![Argument::Float(9223372036854775808.0f64.to_bits())]
    );
}

#[test]
fn lex_keeps_number_and_order() {
    let input = texts(&["b", "2", "a", "1.5", "", "1"]);
    let lexed = lex(input.clone(), read_float);
    assert_eq!(lexed.len(), input.len());
    assert_eq!(
        lexed,
        vec![
            Argument::String("b".to_string()),
            Argument::Integer(2),
            Argument::String("a".to_string()),
            Argument::Float(1.5f64.to_bits()),
            Argument::String(String::new()),
            Argument::Integer(1),
        ]
    );
    assert_eq!(lex(Vec::new(), read_float), Vec::<Argument>::new());
}

#[test]
fn lex_does_not_know_what_was_quoted() {
    let lexed = lex(scan("\"33\" 33".to_string()), read_float);
    assert_eq!(lexed, vec![Argument::Integer(33), Argument::Integer(33)]);
}

#[test]
fn lex_asks_the_reader_only_for_what_is_no_integer() {
    let asked = std::cell::RefCell::new(Vec::<String>::new());
    let reader = |text: &str| {
        asked.borrow_mut().push(text.to_string());
        None
    };
    let lexed = lex(texts(&["12", "x", "-3", "0.5"]), reader);
    assert_eq!(
        lexed,
        vec![
            Argument::Integer(12),
            Argument::String("x".to_string()),
            Argument::Integer(-3),
            Argument::String("0.5".to_string()),
        ]
    );
    assert_eq!(*asked.borrow(), vec!["x", "0.5"]);
}

#[test]
fn argument_from_takes_the_integer_first() {
    assert_eq!(
        argument_from("7".to_string(), Some(7), Some(7.0f64.to_bits())),
        Argument::Integer(7)
    );
    assert_eq!(
        argument_from("7.5".to_string(), None, Some(7.5f64.to_bits())),
        Argument::Float(7.5f64.to_bits())
    );
    assert_eq!(
        argument_from("seven".to_string(), None, None),
        Argument::String("seven".to_string())
    );
}

#[test]
fn parse_integer_reads_signed_decimals() {
    assert_eq!(parse_integer("0"), Some(0));
    assert_eq!(parse_integer("43"), Some(43));
    assert_eq!(parse_integer("+43"), Some(43));
    assert_eq!(parse_integer("-43"), Some(-43));
    assert_eq!(parse_integer("-0"), Some(0));
    assert_eq!(parse_integer("0007"), Some(7));
    assert_eq!(parse_integer("9223372036854775807"), Some(i64::MAX));
    assert_eq!(parse_integer("-9223372036854775808"), Some(i64::MIN));
    assert_eq!(
        parse_integer("00000000000000000000000000000000000012"),
        Some(12)
    );
}

#[test]
fn parse_integer_refuses_everything_else() {
    for text in [
        "",
        "+",
        "-",
        "+-1",
        "--1",
        "1-",
        " 1",
        "1 ",
        "1_000",
        "1.0",
        "1e3",
        "0x10",
        "abc",
        "12a",
        "٣",
        "9223372036854775808",
        "-9223372036854775809",
        "99999999999999999999999999999999999999999",
        "-99999999999999999999999999999999999999999",
        "18446744073709551616",
    ] {
        assert_eq!(parse_integer(text), None, "{:?}", text);
    }
}

#[test]
fn parse_integer_agrees_with_the_standard_parser() {
    let mut samples: Vec<String> = Vec::new();
    let pieces = ["", "+", "-", "0", "1", "9", "a", " ", "_", ".", "922337203685477580"];
    for a in pieces {
        for b in pieces {
            for c in pieces {
                samples.push(format!("{}{}{}", a, b, c));
            }
        }
    }
    for value in [i64::MIN, i64::MIN + 1, -1, 0, 1, i64::MAX - 1, i64::MAX] {
        samples.push(format!("{}", value));
        samples.push(format!("{}0", value));
        samples.push(format!("+{}", value));
    }
    for sample in samples {
        assert_eq!(
            parse_integer(&sample),
            sample.parse::<i64>().ok(),
            "{:?}",
            sample
        );
    }
}

#[test]
fn pop_arg_takes_the_first_and_shortens_by_one() {
    let mut store: Arguments = vec![
        Argument::String("a".to_string()),
        Argument::Integer(2),
        Argument::Float(2.5f64.to_bits()),
    ];
    assert_eq!(store.pop_arg(), Ok(Argument::String("a".to_string())));
    assert_eq!(
        store,
        vec![Argument::Integer(2), Argument::Float(2.5f64.to_bits())]
    );
    assert_eq!(store.pop_arg(), Ok(Argument::Integer(2)));
    assert_eq!(store.len(), 1);
    assert_eq!(store.pop_arg(), Ok(Argument::Float(2.5f64.to_bits())));
    assert_eq!(store.len(), 0);
}

#[test]
fn pop_arg_on_an_empty_store_fails_and_changes_nothing() {
    let mut store: Arguments = Vec::new();
    assert_eq!(store.pop_arg(), Err(Error::BadArgumentsLen));
    assert_eq!(store.len(), 0);
    assert_eq!(store.pop_arg_at(0), Err(Error::BadArgumentsLen));
    assert_eq!(store.len(), 0);
}

#[test]
fn pop_arg_at_takes_the_one_at_the_index() {
    let mut store: Arguments = vec![
        Argument::Integer(0),
        Argument::Integer(1),
        Argument::Integer(2),
        Argument::Integer(3),
    ];
    assert_eq!(store.pop_arg_at(2), Ok(Argument::Integer(2)));
    assert_eq!(
        store,
        vec![
            Argument::Integer(0),
            Argument::Integer(1),
            Argument::Integer(3)
        ]
    );
    assert_eq!(store.pop_arg_at(3), Err(Error::BadArgumentsLen));
    assert_eq!(store.len(), 3);
    assert_eq!(store.pop_arg_at(usize::MAX), Err(Error::BadArgumentsLen));
    assert_eq!(store.pop_arg_at(2), Ok(Argument::Integer(3)));
    assert_eq!(store.pop_arg_at(0), Ok(Argument::Integer(0)));
    assert_eq!(store, vec![Argument::Integer(1)]);
}

#[test]
fn a_text_never_converts_to_a_number() {
    for text in ["33", "4.2", "", "abc", "-1"] {
        let integer: Result<i64, Error> = Argument::String(text.to_string()).try_into();
        assert_eq!(integer, Err(Error::InvalidArgument));
        assert_eq!(
            Argument::String(text.to_string()).into_float_bits(),
            Err(Error::InvalidArgument)
        );
    }
}

#[test]
fn an_argument_converts_to_its_own_type_only() {
    let text: Result<String, Error> = Argument::String("x".to_string()).try_into();
    assert_eq!(text, Ok("x".to_string()));
    let text: Result<String, Error> = Argument::Integer(1).try_into();
    assert_eq!(text, Err(Error::InvalidArgument));
    let text: Result<String, Error> = Argument::Float(1.0f64.to_bits()).try_into();
    assert_eq!(text, Err(Error::InvalidArgument));

    assert_eq!(i64::try_from(Argument::Integer(-5)), Ok(-5));
    assert_eq!(
        i64::try_from(Argument::Float(5.0f64.to_bits())),
        Err(Error::InvalidArgument)
    );

    assert_eq!(
        Argument::Float(2.5f64.to_bits())
            .into_float_bits()
            .map(f64::from_bits),
        Ok(2.5)
    );
    assert_eq!(
        Argument::Integer(2).into_float_bits(),
        Err(Error::InvalidArgument)
    );
}

#[test]
fn an_argument_is_made_from_a_text_or_an_integer() {
    assert_eq!(
        Argument::from("x".to_string()),
        Argument::String("x".to_string())
    );
    assert_eq!(Argument::from(9i64), Argument::Integer(9));
}
