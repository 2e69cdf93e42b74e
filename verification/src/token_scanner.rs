//! The scanner: one pass over the source bytes that yields its tokens.

use vstd::prelude::*;
use crate::decimal::{lemma_number_span, Decimal};
use crate::errors::{LexicalError, LexicalErrorView};
use crate::grammar::{
    find_number_end, find_run_end, lemma_newlines_bounded, lemma_newlines_unchanged,
    lemma_run_end, lemma_run_end_is, line_at, newlines_before, number_end, run_end, Run, NEWLINE,
    QUOTE,
};
use crate::lexical::{
    followed_by, lex, lex_at, lex_from, number_token, operator, punctuation, spanning_token,
    word_token, Lexed,
};
use crate::text::{text_from_bytes, text_of};
use crate::tokens::{carried, Literal, Token, TokenType, TokenView};
use crate::utils::{is_alpha, is_digit, spec_is_alpha, spec_is_digit};

verus! {

/// The tokens of a vector as contracts see them.
pub open spec fn tokens_view(tokens: Seq<Token>) -> Seq<TokenView> {
    tokens.map_values(|token: Token| token@)
}

/// The outcome of a scan as contracts see it.
pub open spec fn outcome_view(outcome: Result<Vec<Token>, LexicalError>) -> Result<
    Seq<TokenView>,
    LexicalErrorView,
> {
    match outcome {
        Ok(tokens) => Ok(tokens_view(tokens@)),
        Err(error) => Err(error@),
    }
}

/// What one step of the scanner found: a token or nothing, where to go on,
/// and how many line breaks lie before that place.
struct Scanned {
    token: Option<Token>,
    next: usize,
    newlines: usize,
}

impl Scanned {
    /// Whether this is what the rules find at a position.
    spec fn agrees_with(self, lexed: Lexed) -> bool {
        match self.token {
            Some(token) => lexed == (Lexed::Emit { token: token@, next: self.next as int }),
            None => lexed == (Lexed::Skip { next: self.next as int }),
        }
    }
}

fn punctuation_type(c: char) -> (r: Option<TokenType>)
    ensures
        r == punctuation(c),
{
    if c == '(' {
        Some(TokenType::LeftParen)
    } else if c == ')' {
        Some(TokenType::RightParen)
    } else if c == '{' {
        Some(TokenType::LeftBrace)
    } else if c == '}' {
        Some(TokenType::RightBrace)
    } else if c == ',' {
        Some(TokenType::Comma)
    } else if c == '.' {
        Some(TokenType::Dot)
    } else if c == '-' {
        Some(TokenType::Minus)
    } else if c == '+' {
        Some(TokenType::Plus)
    } else if c == ';' {
        Some(TokenType::Semicolon)
    } else if c == '*' {
        Some(TokenType::Star)
    } else {
        None
    }
}

fn operator_types(c: char) -> (r: Option<(TokenType, TokenType)>)
    ensures
        r == operator(c),
{
    if c == '!' {
        Some((TokenType::Bang, TokenType::BangEq))
    } else if c == '=' {
        Some((TokenType::Eq, TokenType::EqEq))
    } else if c == '<' {
        Some((TokenType::Lt, TokenType::Lte))
    } else if c == '>' {
        Some((TokenType::Gt, TokenType::Gte))
    } else {
        None
    }
}

/// Makes the token that spans the source from `start` up to `to`.
fn span(
    source: &[u8],
    token_type: TokenType,
    line: usize,
    start: usize,
    to: usize,
    literal: Option<Literal>,
) -> (token: Token)
    requires
        start < to <= source@.len(),
        line == line_at(text_of(source@), start as int),
    ensures
        token@ == spanning_token(
            text_of(source@),
            token_type,
            start as int,
            to - 1,
            carried(literal),
        ),
{
    Token::new(token_type, text_from_bytes(source, start, to), line, start, to - 1, literal)
}

/// Scans the string literal whose opening quote stands at `pos`.
fn scan_string(source: &[u8], pos: usize, newlines: usize) -> (r: Result<Scanned, LexicalError>)
    requires
        pos < source@.len(),
        text_of(source@)[pos as int] == QUOTE,
        newlines == newlines_before(text_of(source@), pos as int),
    ensures
        match r {
            Ok(found) => found.agrees_with(lex_at(text_of(source@), pos as int))
                && pos < found.next <= source@.len()
                && found.newlines == newlines_before(text_of(source@), found.next as int),
            Err(error) => lex_at(text_of(source@), pos as int) == (Lexed::Fail { error: error@ }),
        },
{
    let ghost text = text_of(source@);
    let len = source.len();
    proof {
        lemma_newlines_bounded(text, pos as int);
    }
    let mut close: usize = pos + 1;
    let mut seen: usize = newlines;
    while close < len && source[close] as char != QUOTE
        invariant
            pos < close <= source@.len(),
            len == source@.len(),
            text == text_of(source@),
            seen == newlines_before(text, close as int),
            forall|i: int| pos < i < close ==> Run::Quoted.continues(#[trigger] text[i]),
        decreases source@.len() - close,
    {
        proof {
            lemma_newlines_bounded(text, close as int);
        }
        if source[close] as char == NEWLINE {
            seen += 1;
        }
        close += 1;
    }
    proof {
        lemma_run_end_is(text, pos + 1, Run::Quoted, close as int);
    }
    if close == len {
        return Err(LexicalError::unterminated_string(newlines + 1, pos));
    }
    let value = text_from_bytes(source, pos + 1, close);
    let token = Token::new(
        TokenType::String,
        value.clone(),
        newlines + 1,
        pos,
        close,
        Some(Literal::Str { value }),
    );
    Ok(Scanned { token: Some(token), next: close + 1, newlines: seen })
}

/// Scans the number whose first digit stands at `pos`.
fn scan_number(source: &[u8], pos: usize, newlines: usize) -> (found: Scanned)
    requires
        pos < source@.len(),
        spec_is_digit(text_of(source@)[pos as int]),
        newlines == newlines_before(text_of(source@), pos as int),
    ensures
        found.token is Some,
        found.token.unwrap()@ == number_token(
            text_of(source@),
            pos as int,
            number_end(text_of(source@), pos as int),
        ),
        found.next == number_end(text_of(source@), pos as int),
        pos < found.next <= source@.len(),
        found.newlines == newlines_before(text_of(source@), found.next as int),
{
    let ghost text = text_of(source@);
    let end = find_number_end(source, pos);
    proof {
        lemma_newlines_bounded(text, pos as int);
        lemma_number_span(text, pos as int);
        lemma_newlines_unchanged(text, pos as int, end as int);
    }
    let value = Decimal::from_source(source, pos, end);
    let token = span(
        source,
        TokenType::Number,
        newlines + 1,
        pos,
        end,
        Some(Literal::Number { value }),
    );
    Scanned { token: Some(token), next: end, newlines }
}

/// Scans the word whose first letter stands at `pos`.
fn scan_word(source: &[u8], pos: usize, newlines: usize) -> (found: Scanned)
    requires
        pos < source@.len(),
        spec_is_alpha(text_of(source@)[pos as int]),
        newlines == newlines_before(text_of(source@), pos as int),
    ensures
        found.token is Some,
        found.token.unwrap()@ == word_token(
            text_of(source@),
            pos as int,
            run_end(text_of(source@), pos as int, Run::Name),
        ),
        found.next == run_end(text_of(source@), pos as int, Run::Name),
        pos < found.next <= source@.len(),
        found.newlines == newlines_before(text_of(source@), found.next as int),
{
    let ghost text = text_of(source@);
    let end = find_run_end(source, pos, Run::Name);
    proof {
        lemma_newlines_bounded(text, pos as int);
        lemma_run_end(text, pos as int, Run::Name);
        lemma_newlines_unchanged(text, pos as int, end as int);
    }
    let token = match TokenType::keyword_in(source, pos, end) {
        Some(keyword) => span(source, keyword, newlines + 1, pos, end, None),
        None => {
            let value = text_from_bytes(source, pos, end);
            span(
                source,
                TokenType::Identifier,
                newlines + 1,
                pos,
                end,
                Some(Literal::Str { value }),
            )
        },
    };
    Scanned { token: Some(token), next: end, newlines }
}

/// Applies the rule for the character at `pos`.
fn scan_at(source: &[u8], pos: usize, newlines: usize) -> (r: Result<Scanned, LexicalError>)
    requires
        pos < source@.len(),
        newlines == newlines_before(text_of(source@), pos as int),
    ensures
        match r {
            Ok(found) => found.agrees_with(lex_at(text_of(source@), pos as int))
                && pos < found.next <= source@.len()
                && found.newlines == newlines_before(text_of(source@), found.next as int),
            Err(error) => lex_at(text_of(source@), pos as int) == (Lexed::Fail { error: error@ }),
        },
{
    let ghost text = text_of(source@);
    let len = source.len();
    proof {
        lemma_newlines_bounded(text, pos as int);
    }
    let line = newlines + 1;
    let c = source[pos] as char;
    let followed = len - pos > 1;
    if let Some(token_type) = punctuation_type(c) {
        let token = span(source, token_type, line, pos, pos + 1, None);
        Ok(Scanned { token: Some(token), next: pos + 1, newlines })
    } else if let Some((alone, with_equals)) = operator_types(c) {
        if followed && source[pos + 1] as char == '=' {
            proof {
                lemma_newlines_unchanged(text, pos as int, pos + 2);
            }
            let token = span(source, with_equals, line, pos, pos + 2, None);
            Ok(Scanned { token: Some(token), next: pos + 2, newlines })
        } else {
            let token = span(source, alone, line, pos, pos + 1, None);
            Ok(Scanned { token: Some(token), next: pos + 1, newlines })
        }
    } else if c == '/' {
        if followed && source[pos + 1] as char == '/' {
            let end = find_run_end(source, pos, Run::Comment);
            proof {
                lemma_run_end(text, pos as int, Run::Comment);
                lemma_newlines_unchanged(text, pos as int, end as int);
            }
            Ok(Scanned { token: None, next: end, newlines })
        } else {
            let token = span(source, TokenType::Slash, line, pos, pos + 1, None);
            Ok(Scanned { token: Some(token), next: pos + 1, newlines })
        }
    } else if c == QUOTE {
        scan_string(source, pos, newlines)
    } else if c == NEWLINE {
        Ok(Scanned { token: None, next: pos + 1, newlines: newlines + 1 })
    } else if c == ' ' || c == '\r' || c == '\t' {
        Ok(Scanned { token: None, next: pos + 1, newlines })
    } else if is_digit(c) {
        Ok(scan_number(source, pos, newlines))
    } else if is_alpha(c) {
        Ok(scan_word(source, pos, newlines))
    } else {
        Err(LexicalError::invalid_character(line, pos))
    }
}

/// A scanner over a source buffer, ready to scan it once from its start.
pub struct Scanner<'a> {
    source: &'a [u8],
    current_line: usize,
    current_position: usize,
}

impl<'a> View for Scanner<'a> {
    type V = Seq<u8>;

    /// The bytes of the source.
    closed spec fn view(&self) -> Seq<u8> {
        self.source@
    }
}

impl<'a> Scanner<'a> {
    #[verifier::type_invariant]
    spec fn at_start(&self) -> bool {
        self.source@.len() > 0 && self.current_line == 1 && self.current_position == 0
    }

    /// Makes a scanner over `source`; an empty source is refused.
    pub fn new(source: &'a [u8]) -> (r: Result<Self, &'static str>)
        ensures
            r is Ok <==> source@.len() > 0,
            r matches Ok(scanner) ==> scanner@ == source@,
            r matches Err(message) ==> message@ == "Cannot create a Scanner with empty source"@,
    {
        if source.len() == 0 {
            return Err("Cannot create a Scanner with empty source");
        }
        Ok(Scanner { source: source, current_line: 1, current_position: 0 })
    }

    /// Scans the whole source. The result is its tokens in source order, or
    /// the first fault and nothing else.
    pub fn scan(self) -> (r: Result<Vec<Token>, LexicalError>)
        ensures
            outcome_view(r) == lex(text_of(self@)),
    {
        proof {
            use_type_invariant(&self);
        }
        let source = self.source;
        let ghost text = text_of(source@);
        let mut tokens: Vec<Token> = Vec::new();
        let mut pos: usize = self.current_position;
        let mut newlines: usize = self.current_line - 1;
        assert(followed_by(tokens_view(tokens@), lex_from(text, pos as int)) =~= lex(text)) by {
            match lex_from(text, 0) {
                Ok(rest) => assert(Seq::<TokenView>::empty() + rest =~= rest),
                Err(_) => {},
            }
        }
        while pos < source.len()
            invariant
                pos <= source@.len(),
                source@ == self@,
                text == text_of(source@),
                newlines == newlines_before(text, pos as int),
                followed_by(tokens_view(tokens@), lex_from(text, pos as int)) == lex(text),
            decreases source@.len() - pos,
        {
            let ghost done = tokens_view(tokens@);
            match scan_at(source, pos, newlines) {
                Ok(found) => {
                    if let Some(token) = found.token {
                        proof {
                            let rest = lex_from(text, found.next as int);
                            assert(tokens_view(tokens@.push(token)) =~= done.push(token@));
                            match rest {
                                Ok(more) => assert(done + (seq![token@] + more) =~= done.push(
                                    token@,
                                ) + more),
                                Err(_) => {},
                            }
                        }
                        tokens.push(token);
                    }
                    pos = found.next;
                    newlines = found.newlines;
                },
                Err(error) => {
                    assert(lex_from(text, pos as int) == Err::<Seq<TokenView>, LexicalErrorView>(
                        error@,
                    ));
                    return Err(error);
                },
            }
        }
        Ok(tokens)
    }
}

} // verus!
