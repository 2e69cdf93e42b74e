//! What scanning means: the tokens of a source text, stated as a function of
//! the text alone.
//!
//! At every position one rule applies, chosen by the character found there;
//! it gives a token, or nothing, or a fault, and says where to go on. The
//! tokens of the whole text are those met on the way from its start to its
//! end, up to the first fault.

use vstd::prelude::*;
use crate::errors::LexicalErrorView;
use crate::grammar::{lemma_run_end, line_at, number_end, run_end, Run, NEWLINE, QUOTE};
use crate::tokens::{keyword_type, LiteralView, TokenType, TokenView};
use crate::utils::{spec_is_alpha, spec_is_digit};

verus! {

/// The token of a punctuation mark that stands for itself wherever it is.
pub open spec fn punctuation(c: char) -> Option<TokenType> {
    if c == '(' {
        Some(TokenType::LeftParen)
    } else if c == ')' {
        Some(TokenType::RightParen)
    } else if c == '{' {
        Some(TokenType::LeftBrace)
    } else if c == '}' {
        Some(TokenType::RightBrace)
    } else if c == ',' {
        Some(TokenType::Comma)
    } else if c == '.' {
        Some(TokenType::Dot)
    } else if c == '-' {
        Some(TokenType::Minus)
    } else if c == '+' {
        Some(TokenType::Plus)
    } else if c == ';' {
        Some(TokenType::Semicolon)
    } else if c == '*' {
        Some(TokenType::Star)
    } else {
        None
    }
}

/// The two tokens that an operator character can start: the one it is alone,
/// and the one it forms with an `=` directly behind it.
pub open spec fn operator(c: char) -> Option<(TokenType, TokenType)> {
    if c == '!' {
        Some((TokenType::Bang, TokenType::BangEq))
    } else if c == '=' {
        Some((TokenType::Eq, TokenType::EqEq))
    } else if c == '<' {
        Some((TokenType::Lt, TokenType::Lte))
    } else if c == '>' {
        Some((TokenType::Gt, TokenType::Gte))
    } else {
        None
    }
}

/// A character that separates tokens and is no token itself.
pub open spec fn is_blank(c: char) -> bool {
    c == ' ' || c == '\r' || c == '\t' || c == NEWLINE
}

/// The token of kind `token_type` that spans the text from `start` to `end`,
/// both included. Its lexeme is that stretch of the text, and its line the
/// line of its first character.
pub open spec fn spanning_token(
    text: Seq<char>,
    token_type: TokenType,
    start: int,
    end: int,
    literal: Option<LiteralView>,
) -> TokenView {
    TokenView {
        token_type,
        lexeme: text.subrange(start, end + 1),
        line: line_at(text, start),
        position_start: start as nat,
        position_end: end as nat,
        literal,
    }
}

/// The string token whose quotes stand at `open` and `close`. Its lexeme,
/// and the value it carries, is the text between the quotes.
pub open spec fn string_token(text: Seq<char>, open: int, close: int) -> TokenView {
    TokenView {
        token_type: TokenType::String,
        lexeme: text.subrange(open + 1, close),
        line: line_at(text, open),
        position_start: open as nat,
        position_end: close as nat,
        literal: Some(LiteralView::Str { value: text.subrange(open + 1, close) }),
    }
}

/// The token of the word that spans the text from `start` up to `end`: a
/// keyword where the word is reserved, else an identifier that carries the
/// word.
pub open spec fn word_token(text: Seq<char>, start: int, end: int) -> TokenView {
    let word = text.subrange(start, end);
    match keyword_type(word) {
        Some(keyword) => spanning_token(text, keyword, start, end - 1, None),
        None => spanning_token(
            text,
            TokenType::Identifier,
            start,
            end - 1,
            Some(LiteralView::Str { value: word }),
        ),
    }
}

/// The number token that spans the text from `start` up to `end`; it carries
/// its numeral.
pub open spec fn number_token(text: Seq<char>, start: int, end: int) -> TokenView {
    spanning_token(
        text,
        TokenType::Number,
        start,
        end - 1,
        Some(LiteralView::Number { value: text.subrange(start, end) }),
    )
}

/// What the scanner finds at one position.
pub enum Lexed {
    /// Nothing that counts: blank space or a comment. Go on at `next`.
    Skip { next: int },
    /// A token. Go on at `next`.
    Emit { token: TokenView, next: int },
    /// A fault; the scan ends here.
    Fail { error: LexicalErrorView },
}

/// What the scanner finds at position `pos` of the text.
pub open spec fn lex_at(text: Seq<char>, pos: int) -> Lexed
    recommends
        0 <= pos < text.len(),
{
    let c = text[pos];
    if punctuation(c) is Some {
        Lexed::Emit {
            token: spanning_token(text, punctuation(c).unwrap(), pos, pos, None),
            next: pos + 1,
        }
    } else if operator(c) is Some {
        if pos + 1 < text.len() && text[pos + 1] == '=' {
            Lexed::Emit {
                token: spanning_token(text, operator(c).unwrap().1, pos, pos + 1, None),
                next: pos + 2,
            }
        } else {
            Lexed::Emit {
                token: spanning_token(text, operator(c).unwrap().0, pos, pos, None),
                next: pos + 1,
            }
        }
    } else if c == '/' {
        if pos + 1 < text.len() && text[pos + 1] == '/' {
            Lexed::Skip { next: run_end(text, pos, Run::Comment) }
        } else {
            Lexed::Emit {
                token: spanning_token(text, TokenType::Slash, pos, pos, None),
                next: pos + 1,
            }
        }
    } else if c == QUOTE {
        let close = run_end(text, pos + 1, Run::Quoted);
        if close < text.len() {
            Lexed::Emit { token: string_token(text, pos, close), next: close + 1 }
        } else {
            Lexed::Fail {
                error: LexicalErrorView::unterminated_string(line_at(text, pos), pos as nat),
            }
        }
    } else if is_blank(c) {
        Lexed::Skip { next: pos + 1 }
    } else if spec_is_digit(c) {
        let end = number_end(text, pos);
        Lexed::Emit { token: number_token(text, pos, end), next: end }
    } else if spec_is_alpha(c) {
        let end = run_end(text, pos, Run::Name);
        Lexed::Emit { token: word_token(text, pos, end), next: end }
    } else {
        Lexed::Fail {
            error: LexicalErrorView::invalid_character(line_at(text, pos), pos as nat),
        }
    }
}

/// Where the scan goes on after position `pos`; at a fault, the end of the
/// text.
pub open spec fn next_after(text: Seq<char>, pos: int) -> int {
    match lex_at(text, pos) {
        Lexed::Skip { next } => next,
        Lexed::Emit { next, .. } => next,
        Lexed::Fail { .. } => text.len() as int,
    }
}

/// The tokens `done`, followed by what the rest of the scan gave: more
/// tokens, or a fault that takes the place of them all.
pub open spec fn followed_by(
    done: Seq<TokenView>,
    rest: Result<Seq<TokenView>, LexicalErrorView>,
) -> Result<Seq<TokenView>, LexicalErrorView> {
    match rest {
        Ok(tokens) => Ok(done + tokens),
        Err(error) => Err(error),
    }
}

/// The tokens of the text from position `pos` on, or the first fault.
pub open spec fn lex_from(text: Seq<char>, pos: int) -> Result<Seq<TokenView>, LexicalErrorView>
    decreases text.len() - pos,
{
    if pos < 0 || pos >= text.len() {
        Ok(Seq::empty())
    } else {
        proof {
            lemma_next_after(text, pos);
        }
        match lex_at(text, pos) {
            Lexed::Skip { next } => lex_from(text, next),
            Lexed::Emit { token, next } => followed_by(seq![token], lex_from(text, next)),
            Lexed::Fail { error } => Err(error),
        }
    }
}

/// The tokens of the whole text, in the order in which they stand in it, or
/// the first fault.
pub open spec fn lex(text: Seq<char>) -> Result<Seq<TokenView>, LexicalErrorView> {
    lex_from(text, 0)
}

/// The tokens of the text from position `pos` on; none where the scan ends
/// in a fault.
pub open spec fn tokens_from(text: Seq<char>, pos: int) -> Seq<TokenView> {
    match lex_from(text, pos) {
        Ok(tokens) => tokens,
        Err(_) => Seq::empty(),
    }
}

/// The tokens of the whole text; none where the scan ends in a fault.
pub open spec fn tokens_of(text: Seq<char>) -> Seq<TokenView> {
    tokens_from(text, 0)
}

/// Every rule consumes at least one character and stays within the text.
pub proof fn lemma_next_after(text: Seq<char>, pos: int)
    requires
        0 <= pos < text.len(),
    ensures
        pos < next_after(text, pos) <= text.len(),
{
    lemma_run_end(text, pos, Run::Comment);
    lemma_run_end(text, pos + 1, Run::Quoted);
    lemma_run_end(text, pos, Run::Name);
    lemma_run_end(text, pos, Run::Digits);
    let whole = run_end(text, pos, Run::Digits);
    if whole < text.len() {
        lemma_run_end(text, whole + 1, Run::Digits);
    }
}

} // verus!
