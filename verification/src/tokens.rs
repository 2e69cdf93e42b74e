//! Tokens: their kinds, the values they carry, and the reserved words.

use vstd::prelude::*;
use vstd::string::*;
use crate::decimal::{plain_form, Decimal};
use crate::text::{bytes_spell, lemma_text_of_ascii_bytes, text_of};

verus! {

/// The value that a literal token carries.
#[derive(Debug, Clone, PartialEq)]
#[allow(inconsistent_fields)]
pub enum Literal {
    Str { value: String },
    Number { value: Decimal },
}

/// A literal as contracts see it: the text of a string, the numeral of a
/// number.
pub enum LiteralView {
    Str { value: Seq<char> },
    Number { value: Seq<char> },
}

impl LiteralView {
    /// What the literal looks like when printed: a string as it is, a number
    /// in its plain form.
    pub open spec fn text(self) -> Seq<char> {
        match self {
            LiteralView::Str { value } => value,
            LiteralView::Number { value } => plain_form(value),
        }
    }
}

impl View for Literal {
    type V = LiteralView;

    open spec fn view(&self) -> LiteralView {
        match self {
            Literal::Str { value } => LiteralView::Str { value: value@ },
            Literal::Number { value } => LiteralView::Number { value: value@ },
        }
    }
}

impl Literal {
    pub fn to_str(&self) -> (text: String)
        ensures
            text@ == self@.text(),
    {
        match self {
            Literal::Str { value } => value.clone(),
            Literal::Number { value } => value.to_text(),
        }
    }
}

#[derive(Debug, PartialEq, Eq, Clone, Copy, Structural)]
pub enum TokenType {
    // Single character token
    LeftParen,
    RightParen,
    LeftBrace,
    RightBrace,
    Comma,
    Dot,
    Minus,
    Plus,
    Semicolon,
    Slash,
    Star,
    // One or two character token
    Bang,
    BangEq,
    Eq,
    EqEq,
    Gt,
    Gte,
    Lt,
    Lte,
    // literals
    Identifier,
    String,
    Number,
    // keywords
    And,
    Class,
    Else,
    False,
    Fun,
    For,
    If,
    Nil,
    Or,
    Print,
    Return,
    Super,
    This,
    True,
    Var,
    While,
    Eof,
}

/// The keyword that `word` spells, if it is a reserved word.
pub open spec fn keyword_type(word: Seq<char>) -> Option<TokenType> {
    if word == "and"@ {
        Some(TokenType::And)
    } else if word == "class"@ {
        Some(TokenType::Class)
    } else if word == "else"@ {
        Some(TokenType::Else)
    } else if word == "false"@ {
        Some(TokenType::False)
    } else if word == "for"@ {
        Some(TokenType::For)
    } else if word == "fun"@ {
        Some(TokenType::Fun)
    } else if word == "if"@ {
        Some(TokenType::If)
    } else if word == "nil"@ {
        Some(TokenType::Nil)
    } else if word == "or"@ {
        Some(TokenType::Or)
    } else if word == "print"@ {
        Some(TokenType::Print)
    } else if word == "return"@ {
        Some(TokenType::Return)
    } else if word == "super"@ {
        Some(TokenType::Super)
    } else if word == "this"@ {
        Some(TokenType::This)
    } else if word == "true"@ {
        Some(TokenType::True)
    } else if word == "var"@ {
        Some(TokenType::Var)
    } else if word == "while"@ {
        Some(TokenType::While)
    } else {
        None
    }
}

/// Every reserved word is plain ASCII text.
pub proof fn lemma_keywords_are_ascii(word: Seq<char>)
    requires
        keyword_type(word) is Some,
    ensures
        vstd::utf8::is_ascii_chars(word),
{
    reveal_strlit("and");
    reveal_strlit("class");
    reveal_strlit("else");
    reveal_strlit("false");
    reveal_strlit("for");
    reveal_strlit("fun");
    reveal_strlit("if");
    reveal_strlit("nil");
    reveal_strlit("or");
    reveal_strlit("print");
    reveal_strlit("return");
    reveal_strlit("super");
    reveal_strlit("this");
    reveal_strlit("true");
    reveal_strlit("var");
    reveal_strlit("while");
}

impl TokenType {
    /// Looks up the word that the source holds from `from` up to `to` among
    /// the reserved words.
    pub fn keyword_in(source: &[u8], from: usize, to: usize) -> (r: Option<TokenType>)
        requires
            from <= to <= source@.len(),
        ensures
            r == keyword_type(text_of(source@).subrange(from as int, to as int)),
    {
        proof {
            reveal_strlit("and");
            reveal_strlit("class");
            reveal_strlit("else");
            reveal_strlit("false");
            reveal_strlit("for");
            reveal_strlit("fun");
            reveal_strlit("if");
            reveal_strlit("nil");
            reveal_strlit("or");
            reveal_strlit("print");
            reveal_strlit("return");
            reveal_strlit("super");
            reveal_strlit("this");
            reveal_strlit("true");
            reveal_strlit("var");
            reveal_strlit("while");
        }
        if bytes_spell(source, from, to, "and") {
            Some(TokenType::And)
        } else if bytes_spell(source, from, to, "class") {
            Some(TokenType::Class)
        } else if bytes_spell(source, from, to, "else") {
            Some(TokenType::Else)
        } else if bytes_spell(source, from, to, "false") {
            Some(TokenType::False)
        } else if bytes_spell(source, from, to, "for") {
            Some(TokenType::For)
        } else if bytes_spell(source, from, to, "fun") {
            Some(TokenType::Fun)
        } else if bytes_spell(source, from, to, "if") {
            Some(TokenType::If)
        } else if bytes_spell(source, from, to, "nil") {
            Some(TokenType::Nil)
        } else if bytes_spell(source, from, to, "or") {
            Some(TokenType::Or)
        } else if bytes_spell(source, from, to, "print") {
            Some(TokenType::Print)
        } else if bytes_spell(source, from, to, "return") {
            Some(TokenType::Return)
        } else if bytes_spell(source, from, to, "super") {
            Some(TokenType::Super)
        } else if bytes_spell(source, from, to, "this") {
            Some(TokenType::This)
        } else if bytes_spell(source, from, to, "true") {
            Some(TokenType::True)
        } else if bytes_spell(source, from, to, "var") {
            Some(TokenType::Var)
        } else if bytes_spell(source, from, to, "while") {
            Some(TokenType::While)
        } else {
            None
        }
    }

    pub fn get_type_by_reserved_keyword(k: &str) -> (r: Option<TokenType>)
        ensures
            r == keyword_type(k@),
    {
        broadcast use is_ascii_spec_bytes;

        if !k.is_ascii() {
            proof {
                if keyword_type(k@) is Some {
                    lemma_keywords_are_ascii(k@);
                }
            }
            return None;
        }
        let bytes = k.as_bytes();
        proof {
            lemma_text_of_ascii_bytes(k@);
            assert(text_of(bytes@).subrange(0, bytes@.len() as int) =~= k@);
        }
        TokenType::keyword_in(bytes, 0, bytes.len())
    }
}

/// A classified, positioned piece of the source.
#[derive(Debug, Clone, PartialEq)]
pub struct Token {
    pub token_type: TokenType,
    pub lexeme: String,
    pub line: usize,
    pub position_start: usize,
    pub position_end: usize,
    pub literal: Option<Literal>,
}

/// A token as contracts see it.
pub struct TokenView {
    pub token_type: TokenType,
    pub lexeme: Seq<char>,
    pub line: nat,
    pub position_start: nat,
    pub position_end: nat,
    pub literal: Option<LiteralView>,
}

/// The value that a token carries, if any, as contracts see it.
pub open spec fn carried(literal: Option<Literal>) -> Option<LiteralView> {
    match literal {
        Some(literal) => Some(literal@),
        None => None,
    }
}

impl View for Token {
    type V = TokenView;

    open spec fn view(&self) -> TokenView {
        TokenView {
            token_type: self.token_type,
            lexeme: self.lexeme@,
            line: self.line as nat,
            position_start: self.position_start as nat,
            position_end: self.position_end as nat,
            literal: carried(self.literal),
        }
    }
}

impl Token {
    pub fn new(
        token_type: TokenType,
        lexeme: String,
        line: usize,
        position_start: usize,
        position_end: usize,
        literal: Option<Literal>,
    ) -> (token: Self)
        ensures
            token.token_type == token_type,
            token.lexeme == lexeme,
            token.line == line,
            token.position_start == position_start,
            token.position_end == position_end,
            token.literal == literal,
    {
        Token { token_type, lexeme, line, position_start, position_end, literal }
    }
}

} // verus!
