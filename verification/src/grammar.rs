//! The character-level rules of the language: runs of like characters, the
//! extent of a number, and line counting.
//!
//! All of them read the source as text, one character for each byte.

use vstd::prelude::*;
use crate::text::text_of;
use crate::utils::{is_alphanumeric, is_digit, spec_is_alphanumeric, spec_is_digit};

verus! {

pub const NEWLINE: char = '\n';

pub const QUOTE: char = '"';

pub const POINT: char = '.';

/// The kinds of run that the scanner consumes in one go.
#[derive(Clone, Copy, Debug, PartialEq, Eq, Structural)]
pub enum Run {
    /// Decimal digits.
    Digits,
    /// The characters of a name: letters, digits and underscores.
    Name,
    /// The body of a line comment: everything up to the end of the line.
    Comment,
    /// The body of a string literal: everything up to the closing quote.
    Quoted,
}

impl Run {
    /// Whether a run of this kind goes on over the character `c`.
    pub open spec fn continues(self, c: char) -> bool {
        match self {
            Run::Digits => spec_is_digit(c),
            Run::Name => spec_is_alphanumeric(c),
            Run::Comment => c != NEWLINE,
            Run::Quoted => c != QUOTE,
        }
    }

    pub fn accepts(self, c: char) -> (r: bool)
        ensures
            r == self.continues(c),
    {
        match self {
            Run::Digits => is_digit(c),
            Run::Name => is_alphanumeric(c),
            Run::Comment => c != NEWLINE,
            Run::Quoted => c != QUOTE,
        }
    }
}

/// Where the run of kind `run` that starts at `from` ends: the first position
/// at or after `from` whose character does not continue the run, or the end
/// of the text.
pub open spec fn run_end(text: Seq<char>, from: int, run: Run) -> int
    decreases text.len() - from,
{
    if 0 <= from < text.len() && run.continues(text[from]) {
        run_end(text, from + 1, run)
    } else {
        from
    }
}

/// Where the number that starts at `from` ends: after its digits, and after
/// one decimal point with the digits behind it where a digit follows the
/// point directly.
pub open spec fn number_end(text: Seq<char>, from: int) -> int {
    let whole = run_end(text, from, Run::Digits);
    if whole + 1 < text.len() && text[whole] == POINT && spec_is_digit(text[whole + 1]) {
        run_end(text, whole + 1, Run::Digits)
    } else {
        whole
    }
}

/// The number of line breaks among the first `pos` characters.
pub open spec fn newlines_before(text: Seq<char>, pos: int) -> nat
    decreases pos,
{
    if pos <= 0 {
        0
    } else if pos <= text.len() && text[pos - 1] == NEWLINE {
        newlines_before(text, pos - 1) + 1
    } else {
        newlines_before(text, pos - 1)
    }
}

/// The line on which position `pos` lies, counted from 1.
pub open spec fn line_at(text: Seq<char>, pos: int) -> nat {
    1 + newlines_before(text, pos)
}

/// A run ends at or after its start and within the text; every character in
/// it continues the run, and the character at its end, if any, does not.
pub proof fn lemma_run_end(text: Seq<char>, from: int, run: Run)
    requires
        0 <= from <= text.len(),
    ensures
        from <= run_end(text, from, run) <= text.len(),
        forall|i: int| from <= i < run_end(text, from, run) ==> run.continues(#[trigger] text[i]),
        run_end(text, from, run) < text.len() ==> !run.continues(text[run_end(text, from, run)]),
    decreases text.len() - from,
{
    if from < text.len() && run.continues(text[from]) {
        lemma_run_end(text, from + 1, run);
    }
}

/// A position reached over characters that all continue the run, and at
/// which the run stops, is the end of the run.
pub proof fn lemma_run_end_is(text: Seq<char>, from: int, run: Run, end: int)
    requires
        0 <= from <= end <= text.len(),
        forall|i: int| from <= i < end ==> run.continues(#[trigger] text[i]),
        end < text.len() ==> !run.continues(text[end]),
    ensures
        run_end(text, from, run) == end,
    decreases end - from,
{
    if from < end {
        lemma_run_end_is(text, from + 1, run, end);
    }
}

/// The count of line breaks never exceeds the number of characters counted.
pub proof fn lemma_newlines_bounded(text: Seq<char>, pos: int)
    requires
        0 <= pos,
    ensures
        newlines_before(text, pos) <= pos,
    decreases pos,
{
    if pos > 0 {
        lemma_newlines_bounded(text, pos - 1);
    }
}

/// Over a stretch without a line break the count of line breaks stays.
pub proof fn lemma_newlines_unchanged(text: Seq<char>, from: int, to: int)
    requires
        0 <= from <= to <= text.len(),
        forall|i: int| from <= i < to ==> #[trigger] text[i] != NEWLINE,
    ensures
        newlines_before(text, to) == newlines_before(text, from),
    decreases to - from,
{
    if from < to {
        lemma_newlines_unchanged(text, from, to - 1);
    }
}

/// Finds the end of the run of kind `run` that starts at `from`.
pub fn find_run_end(source: &[u8], from: usize, run: Run) -> (end: usize)
    requires
        from <= source@.len(),
    ensures
        end == run_end(text_of(source@), from as int, run),
        from <= end <= source@.len(),
{
    let mut end: usize = from;
    while end < source.len() && run.accepts(source[end] as char)
        invariant
            from <= end <= source@.len(),
            forall|i: int| from <= i < end ==> run.continues(#[trigger] text_of(source@)[i]),
        decreases source@.len() - end,
    {
        end += 1;
    }
    proof {
        lemma_run_end_is(text_of(source@), from as int, run, end as int);
    }
    end
}

/// Finds the end of the number that starts at `from`.
pub fn find_number_end(source: &[u8], from: usize) -> (end: usize)
    requires
        from <= source@.len(),
    ensures
        end == number_end(text_of(source@), from as int),
        from <= end <= source@.len(),
{
    let whole = find_run_end(source, from, Run::Digits);
    if whole < source.len() && source.len() - whole > 1 && source[whole] as char == POINT
        && is_digit(source[whole + 1] as char) {
        find_run_end(source, whole + 1, Run::Digits)
    } else {
        whole
    }
}

} // verus!
