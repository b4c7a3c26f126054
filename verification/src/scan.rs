//! Splitting a line into substrings, with double quotes grouping.

use crate::text::lemma_deep_view_push;
use vstd::prelude::*;

verus! {

/// Whether `c` ends the run of characters that is being read.
///
/// A double quote always does. A space does outside quotes only.
pub open spec fn ends_run(c: char, in_quote: bool) -> bool {
    c == '"' || (!in_quote && c == ' ')
}

/// How many characters at the head of `text` come before the first one that
/// ends a run.
pub open spec fn run_len(text: Seq<char>, in_quote: bool) -> nat
    decreases text.len(),
{
    if text.len() == 0 || ends_run(text[0], in_quote) {
        0
    } else {
        1 + run_len(text.skip(1), in_quote)
    }
}

/// The substrings of `text`, read from a point inside or outside quotes.
///
/// The run at the head of the text goes up to the next character that ends
/// it. A run that a closing quote ends is a substring even when it is empty;
/// any other run is one unless it is empty. The character that ends the run
/// is dropped, and a quote switches between inside and outside.
pub open spec fn substrings(text: Seq<char>, in_quote: bool) -> Seq<Seq<char>>
    decreases text.len(),
{
    let n = run_len(text, in_quote) as int;
    if n >= text.len() {
        if n > 0 {
            seq![text]
        } else {
            Seq::empty()
        }
    } else {
        let rest = substrings(text.skip(n + 1), !in_quote && text[n] == '"');
        if n > 0 || in_quote {
            seq![text.take(n)] + rest
        } else {
            rest
        }
    }
}

/// The substrings of a whole line.
pub open spec fn scanned(line: Seq<char>) -> Seq<Seq<char>> {
    substrings(line, false)
}

/// No character of `text` ends a run.
pub open spec fn is_run(text: Seq<char>, in_quote: bool) -> bool {
    forall|i: int| 0 <= i < text.len() ==> !ends_run(#[trigger] text[i], in_quote)
}

/// A run never goes beyond the text.
pub proof fn lemma_run_len_bound(text: Seq<char>, in_quote: bool)
    ensures
        run_len(text, in_quote) <= text.len(),
    decreases text.len(),
{
    if text.len() > 0 && !ends_run(text[0], in_quote) {
        lemma_run_len_bound(text.skip(1), in_quote);
    }
}

/// A run in front of a text lengthens the run at its head by its own length.
pub proof fn lemma_run_len_after_run(run: Seq<char>, rest: Seq<char>, in_quote: bool)
    requires
        is_run(run, in_quote),
    ensures
        run_len(run + rest, in_quote) == run.len() + run_len(rest, in_quote),
    decreases run.len(),
{
    if run.len() == 0 {
        assert(run + rest =~= rest);
    } else {
        let whole = run + rest;
        assert(whole[0] == run[0]);
        assert(whole.skip(1) =~= run.skip(1) + rest);
        assert forall|i: int| 0 <= i < run.skip(1).len() implies !ends_run(
            #[trigger] run.skip(1)[i],
            in_quote,
        ) by {
            assert(run.skip(1)[i] == run[i + 1]);
        }
        lemma_run_len_after_run(run.skip(1), rest, in_quote);
    }
}

/// What a pending run and the text after it come to, when the text starts
/// with a character that ends the run.
pub proof fn lemma_substrings_at_end_of_run(run: Seq<char>, rest: Seq<char>, in_quote: bool)
    requires
        is_run(run, in_quote),
        rest.len() > 0,
        ends_run(rest[0], in_quote),
    ensures
        substrings(run + rest, in_quote) == if run.len() > 0 || in_quote {
            seq![run] + substrings(rest.skip(1), !in_quote && rest[0] == '"')
        } else {
            substrings(rest.skip(1), !in_quote && rest[0] == '"')
        },
{
    let whole = run + rest;
    let n = run.len() as int;
    lemma_run_len_after_run(run, rest, in_quote);
    assert(run_len(rest, in_quote) == 0);
    assert(whole.take(n) =~= run);
    assert(whole.skip(n + 1) =~= rest.skip(1));
    assert(whole[n] == rest[0]);
}

/// What a pending run comes to when the line ends after it.
pub proof fn lemma_substrings_of_run(run: Seq<char>, in_quote: bool)
    requires
        is_run(run, in_quote),
    ensures
        substrings(run, in_quote) == if run.len() > 0 {
            seq![run]
        } else {
            Seq::<Seq<char>>::empty()
        },
{
    lemma_run_len_after_run(run, Seq::empty(), in_quote);
    assert(run + Seq::<char>::empty() =~= run);
}

/// A line that is one word, with no space and no quote in it, scans to that
/// word alone.
pub proof fn lemma_scan_single_word(word: Seq<char>)
    requires
        word.len() > 0,
        forall|i: int| 0 <= i < word.len() ==> word[i] != ' ' && word[i] != '"',
    ensures
        scanned(word) == seq![word],
{
    lemma_substrings_of_run(word, false);
}

/// A line that starts with a word and a space scans to that word first,
/// whatever comes after the space.
pub proof fn lemma_first_word(word: Seq<char>, rest: Seq<char>)
    requires
        word.len() > 0,
        forall|i: int| 0 <= i < word.len() ==> word[i] != ' ' && word[i] != '"',
    ensures
        scanned(word + seq![' '] + rest) == seq![word] + scanned(rest),
        scanned(word + seq![' '] + rest).len() > 0,
        scanned(word + seq![' '] + rest)[0] == word,
{
    let tail = seq![' '] + rest;
    lemma_substrings_at_end_of_run(word, tail, false);
    assert(tail.skip(1) =~= rest);
    assert(word + seq![' '] + rest =~= word + tail);
}

/// No character inside the run at the head of a text ends a run.
pub proof fn lemma_run_holds_no_end(text: Seq<char>, in_quote: bool, j: int)
    requires
        0 <= j < run_len(text, in_quote),
    ensures
        j < text.len(),
        !ends_run(text[j], in_quote),
    decreases text.len(),
{
    lemma_run_len_bound(text, in_quote);
    if j > 0 {
        lemma_run_holds_no_end(text.skip(1), in_quote, j - 1);
        assert(text.skip(1)[j - 1] == text[j]);
    }
}

/// No substring holds a double quote.
pub proof fn lemma_substrings_hold_no_quote(text: Seq<char>, in_quote: bool, i: int, j: int)
    requires
        0 <= i < substrings(text, in_quote).len(),
        0 <= j < substrings(text, in_quote)[i].len(),
    ensures
        substrings(text, in_quote)[i][j] != '"',
    decreases text.len(),
{
    let n = run_len(text, in_quote) as int;
    lemma_run_len_bound(text, in_quote);
    if n >= text.len() {
        lemma_run_holds_no_end(text, in_quote, j);
    } else {
        let next = !in_quote && text[n] == '"';
        if n > 0 || in_quote {
            if i == 0 {
                lemma_run_holds_no_end(text, in_quote, j);
            } else {
                lemma_substrings_hold_no_quote(text.skip(n + 1), next, i - 1, j);
            }
        } else {
            lemma_substrings_hold_no_quote(text.skip(n + 1), next, i, j);
        }
    }
}

/// Scanning a substring of a line once more changes nothing, where the
/// substring is a single word: not empty, and without a space.
pub proof fn lemma_scan_keeps_a_scanned_word(line: Seq<char>, i: int)
    requires
        0 <= i < scanned(line).len(),
        scanned(line)[i].len() > 0,
        forall|j: int| 0 <= j < scanned(line)[i].len() ==> scanned(line)[i][j] != ' ',
    ensures
        scanned(scanned(line)[i]) == seq![scanned(line)[i]],
{
    let word = scanned(line)[i];
    assert forall|j: int| 0 <= j < word.len() implies word[j] != ' ' && word[j] != '"' by {
        lemma_substrings_hold_no_quote(line, false, i, j);
    }
    lemma_scan_single_word(word);
}

/// Moves the pending text to the end of `array` unless it is empty, and
/// empties it.
pub fn push_string_to(string: &mut String, array: &mut Vec<String>)
    ensures
        final(string)@ == Seq::<char>::empty(),
        final(array).deep_view() == if old(string)@.len() > 0 {
            old(array).deep_view().push(old(string)@)
        } else {
            old(array).deep_view()
        },
{
    if !string.as_str().is_empty() {
        let word = string.clone();
        array.push(word);
        proof {
            lemma_deep_view_push(*old(array), *array, word);
        }
    }
    *string = String::new();
}

/// Moves the pending text to the end of `array`, empty or not, and empties
/// it. This is what a closing quote does.
pub fn close_string_to(string: &mut String, array: &mut Vec<String>)
    ensures
        final(string)@ == Seq::<char>::empty(),
        final(array).deep_view() == old(array).deep_view().push(old(string)@),
{
    let word = string.clone();
    array.push(word);
    proof {
        lemma_deep_view_push(*old(array), *array, word);
    }
    *string = String::new();
}

/// Splits a line into its substrings.
///
/// Spaces separate substrings outside double quotes and belong to them
/// inside. A quote is never part of a substring. A pair of quotes with nothing
/// between them gives an empty substring; a quote that is never closed
/// groups up to the end of the line.
pub fn scan(input: String) -> (output: Vec<String>)
    ensures
        output.deep_view() == scanned(input@),
{
    let mut current = String::new();
    let mut output: Vec<String> = Vec::new();
    let mut in_quote = false;
    assert(output.deep_view() =~= Seq::<Seq<char>>::empty());
    assert(current@ + input@.skip(0) =~= input@);
    assert(output.deep_view() + scanned(input@) =~= scanned(input@));

    for character in it: input.as_str().chars()
        invariant
            it.seq() == input@,
            is_run(current@, in_quote),
            scanned(input@) == output.deep_view() + substrings(
                current@ + input@.skip(it.index() as int),
                in_quote,
            ),
    {
        let ghost rest = input@.skip(it.index() as int);
        let ghost after = input@.skip(it.index() + 1);
        let ghost pending = current@;
        let ghost done = output.deep_view();
        assert(rest[0] == character);
        assert(rest.skip(1) =~= after);
        if character == '"' || (!in_quote && character == ' ') {
            proof {
                lemma_substrings_at_end_of_run(pending, rest, in_quote);
            }
            if in_quote {
                close_string_to(&mut current, &mut output);
            } else {
                push_string_to(&mut current, &mut output);
            }
            in_quote = !in_quote && character == '"';
            assert(current@ + after =~= after);
            assert(scanned(input@) =~= output.deep_view() + substrings(current@ + after, in_quote));
        } else {
            current.push(character);
            assert(current@ + after =~= pending + rest);
        }
    }

    proof {
        assert(input@.skip(input@.len() as int) =~= Seq::<char>::empty());
        assert(current@ + Seq::<char>::empty() =~= current@);
        lemma_substrings_of_run(current@, in_quote);
    }
    push_string_to(&mut current, &mut output);
    assert(scanned(input@) =~= output.deep_view());
    output
}

} // verus!
