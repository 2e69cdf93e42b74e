//! What holds of every scan, proved from the rules.

use vstd::prelude::*;
use crate::decimal::{is_numeral, lemma_number_span};
use crate::errors::{invalid_character_message, unterminated_string_message, LexicalError};
use crate::grammar::{lemma_run_end, newlines_before, number_end, run_end, Run, POINT, QUOTE};
use crate::lexical::{
    followed_by, is_blank, lemma_next_after, lex, lex_at, lex_from, operator, punctuation,
    spanning_token, tokens_from, tokens_of, Lexed,
};
use crate::text::text_of;
use crate::token_scanner::{outcome_view, Scanner};
use crate::tokens::{keyword_type, Token, TokenType, TokenView};
use crate::utils::{spec_is_alpha, spec_is_alphanumeric, spec_is_digit};

verus! {

/// Whether the rules give exactly `token` at the position where it starts.
pub open spec fn emitted(text: Seq<char>, token: TokenView) -> bool {
    &&& token.position_start < text.len()
    &&& lex_at(text, token.position_start as int) matches Lexed::Emit { token: found, .. }
        && found == token
}

/// A token that the rules give at a position starts there and ends just
/// before the place where the scan goes on.
pub proof fn lemma_emit_span(text: Seq<char>, pos: int)
    requires
        0 <= pos < text.len(),
        lex_at(text, pos) is Emit,
    ensures
        lex_at(text, pos) matches Lexed::Emit { token, next } && token.position_start == pos
            && pos <= token.position_end == next - 1 < text.len(),
{
    lemma_next_after(text, pos);
}

/// Every token of a scan is the one that the rules give at the position
/// where it starts, and no token starts before the scan does.
pub proof fn lemma_tokens_emitted(text: Seq<char>, from: int, i: int)
    requires
        0 <= from,
        0 <= i < tokens_from(text, from).len(),
    ensures
        emitted(text, tokens_from(text, from)[i]),
        from <= tokens_from(text, from)[i].position_start,
    decreases text.len() - from,
{
    if from < text.len() {
        lemma_next_after(text, from);
        match lex_at(text, from) {
            Lexed::Skip { next } => {
                lemma_tokens_emitted(text, next, i);
            },
            Lexed::Emit { token, next } => {
                lemma_emit_span(text, from);
                if i > 0 {
                    lemma_tokens_emitted(text, next, i - 1);
                }
            },
            Lexed::Fail { .. } => {},
        }
    }
}

/// Tokens come in source order and do not overlap: each one ends before the
/// next one starts.
pub proof fn lemma_tokens_in_order(text: Seq<char>, from: int, i: int)
    requires
        0 <= from,
        0 <= i && i + 1 < tokens_from(text, from).len(),
    ensures
        tokens_from(text, from)[i].position_end < tokens_from(text, from)[i
            + 1].position_start,
    decreases text.len() - from,
{
    if from < text.len() {
        lemma_next_after(text, from);
        match lex_at(text, from) {
            Lexed::Skip { next } => {
                lemma_tokens_in_order(text, next, i);
            },
            Lexed::Emit { token, next } => {
                lemma_emit_span(text, from);
                if i == 0 {
                    lemma_tokens_emitted(text, next, 0);
                } else {
                    lemma_tokens_in_order(text, next, i - 1);
                }
            },
            Lexed::Fail { .. } => {},
        }
    }
}

/// The fault of a scan is the one that the rules give at the position it
/// names, and that position lies in the text.
pub proof fn lemma_fault_found(text: Seq<char>, from: int)
    requires
        0 <= from,
        lex_from(text, from) is Err,
    ensures
        ({
            let error = lex_from(text, from)->Err_0;
            &&& from <= error.position < text.len()
            &&& lex_at(text, error.position as int) == (Lexed::Fail { error })
        }),
    decreases text.len() - from,
{
    if from < text.len() {
        lemma_next_after(text, from);
        match lex_at(text, from) {
            Lexed::Skip { next } => {
                lemma_fault_found(text, next);
            },
            Lexed::Emit { token, next } => {
                lemma_fault_found(text, next);
            },
            Lexed::Fail { .. } => {},
        }
    }
}

/// Scanning is a function of the source: whatever two scans of equal
/// buffers return, tokens or fault, is the same.
pub proof fn lemma_scan_deterministic(
    first: Scanner,
    second: Scanner,
    first_outcome: Result<Vec<Token>, LexicalError>,
    second_outcome: Result<Vec<Token>, LexicalError>,
)
    requires
        first@ == second@,
        outcome_view(first_outcome) == lex(text_of(first@)),
        outcome_view(second_outcome) == lex(text_of(second@)),
    ensures
        outcome_view(first_outcome) == outcome_view(second_outcome),
{
}

/// The lexeme of every token is the text of the source that the token
/// spans. For a string literal that is the text between its two quotes,
/// which stand at the token's first and last position.
pub proof fn lemma_lexeme_fidelity(text: Seq<char>, i: int)
    requires
        0 <= i < tokens_of(text).len(),
    ensures
        ({
            let token = tokens_of(text)[i];
            let start = token.position_start as int;
            let end = token.position_end as int;
            &&& 0 <= start <= end < text.len()
            &&& token.token_type != TokenType::String ==> token.lexeme == text.subrange(
                start,
                end + 1,
            )
            &&& token.token_type == TokenType::String ==> {
                &&& start < end
                &&& text[start] == QUOTE
                &&& text[end] == QUOTE
                &&& token.lexeme == text.subrange(start + 1, end)
            }
        }),
{
    let token = tokens_of(text)[i];
    let start = token.position_start as int;
    lemma_tokens_emitted(text, 0, i);
    lemma_emit_span(text, start);
    lemma_run_end(text, start + 1, Run::Quoted);
}

/// The line of every token is one more than the number of line breaks in
/// the source before the token's start.
pub proof fn lemma_line_counting(text: Seq<char>, i: int)
    requires
        0 <= i < tokens_of(text).len(),
    ensures
        tokens_of(text)[i].line == 1 + newlines_before(
            text,
            tokens_of(text)[i].position_start as int,
        ),
{
    lemma_tokens_emitted(text, 0, i);
}

/// A fault names a position in the source and the line of that position.
/// It is either a character there that starts no token, or a quote there
/// with no other quote anywhere behind it.
pub proof fn lemma_fault_location(text: Seq<char>)
    requires
        lex(text) is Err,
    ensures
        ({
            let error = lex(text)->Err_0;
            let at = error.position as int;
            &&& 0 <= at < text.len()
            &&& error.line == 1 + newlines_before(text, at)
            &&& error.message == invalid_character_message() || error.message
                == unterminated_string_message()
            &&& error.message == unterminated_string_message() ==> {
                &&& text[at] == QUOTE
                &&& forall|j: int| at < j < text.len() ==> #[trigger] text[j] != QUOTE
            }
            &&& error.message == invalid_character_message() ==> {
                &&& punctuation(text[at]) is None
                &&& operator(text[at]) is None
                &&& text[at] != '/'
                &&& text[at] != QUOTE
                &&& !is_blank(text[at])
                &&& !spec_is_alphanumeric(text[at])
            }
        }),
{
    let error = lex(text)->Err_0;
    let at = error.position as int;
    lemma_fault_found(text, 0);
    lemma_run_end(text, at + 1, Run::Quoted);
    lemma_messages_differ();
}

/// The two faults have different messages.
pub proof fn lemma_messages_differ()
    ensures
        invalid_character_message() != unterminated_string_message(),
{
    reveal_strlit("Invalid character");
    reveal_strlit("Non terminated string starting at line");
    assert(invalid_character_message().len() != unterminated_string_message().len());
}

/// An operator character takes the `=` that follows it directly: together
/// they are one token of two characters. Before anything else, and at the
/// end of the source, it is a token of its own.
pub proof fn lemma_operator_maximal_munch(text: Seq<char>, pos: int)
    requires
        0 <= pos < text.len(),
        operator(text[pos]) is Some,
    ensures
        pos + 1 < text.len() && text[pos + 1] == '=' ==> lex_from(text, pos) == followed_by(
            seq![spanning_token(text, operator(text[pos]).unwrap().1, pos, pos + 1, None)],
            lex_from(text, pos + 2),
        ),
        !(pos + 1 < text.len() && text[pos + 1] == '=') ==> lex_from(text, pos) == followed_by(
            seq![spanning_token(text, operator(text[pos]).unwrap().0, pos, pos, None)],
            lex_from(text, pos + 1),
        ),
{
}

/// A word is taken whole: an identifier or keyword starts with a letter or
/// underscore, holds only letters, digits and underscores, and no such
/// character follows it directly. It is a keyword exactly if the whole word
/// is reserved.
pub proof fn lemma_word_maximal_munch(text: Seq<char>, i: int)
    requires
        0 <= i < tokens_of(text).len(),
        spec_is_alpha(text[tokens_of(text)[i].position_start as int]),
    ensures
        ({
            let token = tokens_of(text)[i];
            let start = token.position_start as int;
            let end = token.position_end as int;
            &&& forall|j: int| start <= j <= end ==> spec_is_alphanumeric(#[trigger] text[j])
            &&& end + 1 < text.len() ==> !spec_is_alphanumeric(text[end + 1])
            &&& token.lexeme == text.subrange(start, end + 1)
            &&& match keyword_type(token.lexeme) {
                Some(keyword) => token.token_type == keyword,
                None => token.token_type == TokenType::Identifier,
            }
        }),
{
    let token = tokens_of(text)[i];
    let start = token.position_start as int;
    lemma_tokens_emitted(text, 0, i);
    lemma_emit_span(text, start);
    lemma_run_end(text, start, Run::Name);
}

/// A number is taken whole and no further: its lexeme is a numeral, no
/// digit follows it directly, and where a point follows it directly, no
/// digit follows the point unless the number holds a point already.
pub proof fn lemma_number_maximal_munch(text: Seq<char>, i: int)
    requires
        0 <= i < tokens_of(text).len(),
        tokens_of(text)[i].token_type == TokenType::Number,
    ensures
        ({
            let token = tokens_of(text)[i];
            let end = token.position_end as int;
            &&& is_numeral(token.lexeme)
            &&& end + 1 < text.len() ==> !spec_is_digit(text[end + 1])
            &&& end + 2 < text.len() && text[end + 1] == POINT && spec_is_digit(text[end + 2])
                ==> token.lexeme.contains(POINT)
        }),
{
    let token = tokens_of(text)[i];
    let start = token.position_start as int;
    lemma_tokens_emitted(text, 0, i);
    lemma_emit_span(text, start);
    lemma_number_kind(text, start);
    lemma_number_span(text, start);
    lemma_run_end(text, start, Run::Digits);
    let whole = run_end(text, start, Run::Digits);
    if whole < text.len() {
        lemma_run_end(text, whole + 1, Run::Digits);
    }
    let end = number_end(text, start);
    if end != whole {
        assert(token.lexeme[whole - start] == POINT);
    }
}

/// Only the number rule gives a number token.
pub proof fn lemma_number_kind(text: Seq<char>, pos: int)
    requires
        0 <= pos < text.len(),
        lex_at(text, pos) matches Lexed::Emit { token, .. } && token.token_type
            == TokenType::Number,
    ensures
        spec_is_digit(text[pos]),
{
}

/// A token carries a value exactly if it is an identifier, a string or a
/// number.
pub proof fn lemma_literal_presence(text: Seq<char>, i: int)
    requires
        0 <= i < tokens_of(text).len(),
    ensures
        ({
            let token = tokens_of(text)[i];
            token.literal is Some <==> token.token_type == TokenType::Identifier
                || token.token_type == TokenType::String || token.token_type
                == TokenType::Number
        }),
{
    lemma_tokens_emitted(text, 0, i);
}

/// No scan gives an end marker.
pub proof fn lemma_no_end_marker(text: Seq<char>, i: int)
    requires
        0 <= i < tokens_of(text).len(),
    ensures
        tokens_of(text)[i].token_type != TokenType::Eof,
{
    lemma_tokens_emitted(text, 0, i);
}

} // verus!
