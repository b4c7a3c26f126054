//! Emphasis for the words that head a message, through the `colored` crate.

use colored::Colorize;
use vstd::prelude::*;

verus! {

/// The codes of bold red text.
pub open spec fn red_bold_codes() -> Seq<char> {
    seq!['1', ';', '3', '1']
}

/// The code of bold text.
pub open spec fn bold_codes() -> Seq<char> {
    seq!['1']
}

/// The escape sequence that switches the styles named by `codes` on.
pub open spec fn style_on(codes: Seq<char>) -> Seq<char> {
    seq!['\x1b', '['] + codes + seq!['m']
}

/// The escape sequence that switches every style off.
pub open spec fn style_off() -> Seq<char> {
    seq!['\x1b', '[', '0', 'm']
}

/// No character of `text` is the escape character.
pub open spec fn free_of_escapes(text: Seq<char>) -> bool {
    forall|i: int| 0 <= i < text.len() ==> text[i] != '\x1b'
}

/// `shown` is one of the texts that `colored` writes for `text` in the styles
/// named by `codes`.
///
/// Which one depends on the process: on its environment, on whether it writes
/// to a terminal, and on the crate's override switch. With colouring off the
/// text comes out as it is; with colouring on it stands between the opening
/// sequence and the reset. The crate reads its switch more than once while it
/// writes, so a switch turned off by another thread in between leaves the text
/// followed by the reset alone.
pub open spec fn is_styled(text: Seq<char>, codes: Seq<char>, shown: Seq<char>) -> bool {
    ||| shown == text
    ||| shown == style_on(codes) + text + style_off()
    ||| shown == text + style_off()
}

/// `line` is a headline: `kind` in bold red, a bold colon, a space and `detail`.
pub open spec fn is_headline(kind: Seq<char>, detail: Seq<char>, line: Seq<char>) -> bool {
    exists|shown_kind: Seq<char>, shown_colon: Seq<char>|
        is_headline_of(kind, detail, shown_kind, shown_colon, line)
}

/// `line` is the headline made of the two styled pieces given.
pub open spec fn is_headline_of(
    kind: Seq<char>,
    detail: Seq<char>,
    shown_kind: Seq<char>,
    shown_colon: Seq<char>,
    line: Seq<char>,
) -> bool {
    &&& is_styled(kind, red_bold_codes(), shown_kind)
    &&& is_styled(seq![':'], bold_codes(), shown_colon)
    &&& line == headline_text(shown_kind, shown_colon, detail)
}

/// The two styled pieces, a space and the detail, in a row.
pub open spec fn headline_text(
    shown_kind: Seq<char>,
    shown_colon: Seq<char>,
    detail: Seq<char>,
) -> Seq<char> {
    shown_kind + shown_colon + seq![' '] + detail
}

/// `colored::Colorize::red` and `bold` on `text`, written out through the
/// `Display` of `colored::ColoredString`.
///
/// Trusted: the result is one of the three texts of [`is_styled`] for the codes
/// `1;31`. The text must hold no escape character, since `colored` changes reset
/// sequences that it finds inside the text.
#[verifier::external_body]
fn red_bold(text: &str) -> (shown: String)
    requires
        free_of_escapes(text@),
    ensures
        is_styled(text@, red_bold_codes(), shown@),
{
    text.red().bold().to_string()
}

/// `colored::Colorize::bold` on `text`, written out through the `Display` of
/// `colored::ColoredString`.
///
/// Trusted: the result is one of the three texts of [`is_styled`] for the code
/// `1`. The text must hold no escape character.
#[verifier::external_body]
pub(crate) fn bold(text: &str) -> (shown: String)
    requires
        free_of_escapes(text@),
    ensures
        is_styled(text@, bold_codes(), shown@),
{
    text.bold().to_string()
}

/// Puts a headline together from its pieces.
pub fn join_headline(shown_kind: String, shown_colon: &str, detail: &str) -> (line: String)
    ensures
        line@ == headline_text(shown_kind@, shown_colon@, detail@),
{
    let mut line = shown_kind;
    line.append(shown_colon);
    line.append(" ");
    line.append(detail);
    proof {
        reveal_strlit(" ");
        assert(" "@ =~= seq![' ']);
    }
    line
}

/// The headline for `kind` and `detail`: the kind in bold red, a bold colon, a
/// space, and the detail as it is.
pub(crate) fn headline(kind: &str, detail: &str) -> (line: String)
    requires
        free_of_escapes(kind@),
    ensures
        is_headline(kind@, detail@, line@),
{
    let shown_kind = red_bold(kind);
    proof {
        reveal_strlit(":");
        assert(":"@ =~= seq![':']);
    }
    let shown_colon = bold(":");
    let ghost kind_text = shown_kind@;
    let line = join_headline(shown_kind, shown_colon.as_str(), detail);
    assert(is_headline_of(kind@, detail@, kind_text, shown_colon@, line@));
    line
}

} // verus!
