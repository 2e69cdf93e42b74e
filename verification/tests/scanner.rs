use lox_scanner::decimal::Decimal;
use lox_scanner::errors::LexicalError;
use lox_scanner::token_scanner::Scanner;
use lox_scanner::tokens::{Literal, Token, TokenType};

fn scan(source: &str) -> Result<Vec<Token>, LexicalError> {
    Scanner::new(source.as_bytes()).unwrap().scan()
}

fn kinds(source: &str) -> Vec<TokenType> {
    scan(source).unwrap().iter().map(|token| token.token_type).collect()
}

#[test]
fn test_reserved_keyword() {
    let v = String::from("if(var == 12) {\nprint(\"value\")}");
    let scanner = Scanner::new(v.as_bytes()).unwrap();
    let tokens = scanner.scan().unwrap();

    assert_eq!(tokens[0].token_type, TokenType::If);
    assert_eq!(tokens[1].token_type, TokenType::LeftParen);
    assert_eq!(tokens[2].token_type, TokenType::Var);
    assert_eq!(tokens[3].token_type, TokenType::EqEq);
    assert_eq!(tokens[4].token_type, TokenType::Number);
    assert_eq!(tokens[5].token_type, TokenType::RightParen);
    assert_eq!(tokens[6].token_type, TokenType::LeftBrace);
    assert_eq!(tokens[7].token_type, TokenType::Print);
    assert_eq!(tokens[8].token_type, TokenType::LeftParen);
    assert_eq!(tokens[9].token_type, TokenType::String);
    assert_eq!(tokens[10].token_type, TokenType::RightParen);
    assert_eq!(tokens[11].token_type, TokenType::RightBrace);
    assert_eq!(tokens.len(), 12);
}

#[test]
fn new_refuses_an_empty_source() {
    let refused = Scanner::new(b"");
    assert!(matches!(refused, Err("Cannot create a Scanner with empty source")));
    assert!(Scanner::new(b" ").is_ok());
}

#[test]
fn scanning_twice_gives_the_same_tokens() {
    let source = "var answer = 42.50; // the answer\nprint(\"it is\" + answer) != nil";
    let first = scan(source).unwrap();
    let second = scan(source).unwrap();
    assert_eq!(first, second);
    assert_eq!(first.len(), 13);
    assert_eq!(scan("var x = @"), scan("var x = @"));
}

#[test]
fn every_lexeme_is_the_source_text_it_spans() {
    let source = "fun add(a, b) {\n  return a+b*2.5 >= \"two\nlines\"; }\nadd(1,2) <= x_1 / 3";
    let bytes = source.as_bytes();
    let tokens = scan(source).unwrap();
    assert_eq!(tokens.len(), 28);
    for token in &tokens {
        let spanned = &source[token.position_start..=token.position_end];
        if token.token_type == TokenType::String {
            assert_eq!(bytes[token.position_start], b'"');
            assert_eq!(bytes[token.position_end], b'"');
            assert_eq!(token.lexeme, &spanned[1..spanned.len() - 1]);
        } else {
            assert_eq!(token.lexeme, spanned);
        }
    }
}

#[test]
fn a_token_is_on_the_line_after_the_line_breaks_before_it() {
    let source = "a\nb\n\n  c \"x\ny\" d\r\n// note\ne";
    let tokens = scan(source).unwrap();
    let lines: Vec<usize> = tokens.iter().map(|token| token.line).collect();
    assert_eq!(lines, vec![1, 2, 4, 4, 5, 7]);
    for token in &tokens {
        let before = &source.as_bytes()[..token.position_start];
        let breaks = before.iter().filter(|byte| **byte == b'\n').count();
        assert_eq!(token.line, 1 + breaks);
    }
}

#[test]
fn positions_are_offsets_into_the_whole_source() {
    let tokens = scan("ab\n cd").unwrap();
    assert_eq!(tokens.len(), 2);
    assert_eq!((tokens[0].position_start, tokens[0].position_end), (0, 1));
    assert_eq!((tokens[1].position_start, tokens[1].position_end), (4, 5));
    assert_eq!(tokens[1].line, 2);
}

#[test]
fn bang_equals_is_one_token() {
    let tokens = scan("!=").unwrap();
    assert_eq!(tokens.len(), 1);
    assert_eq!(tokens[0].token_type, TokenType::BangEq);
    assert_eq!(tokens[0].lexeme, "!=");
    assert_eq!((tokens[0].position_start, tokens[0].position_end), (0, 1));
    assert_eq!(tokens[0].literal, None);
}

#[test]
fn bang_before_another_byte_is_bang_alone() {
    assert_eq!(kinds("!"), vec![TokenType::Bang]);
    assert_eq!(kinds("! "), vec![TokenType::Bang]);
    assert_eq!(kinds("!("), vec![TokenType::Bang, TokenType::LeftParen]);
    assert_eq!(kinds("!!="), vec![TokenType::Bang, TokenType::BangEq]);
    let tokens = scan("!x").unwrap();
    assert_eq!(tokens[0].lexeme, "!");
    assert_eq!((tokens[0].position_start, tokens[0].position_end), (0, 0));
}

#[test]
fn operators_take_a_following_equals_sign() {
    assert_eq!(kinds("= =="), vec![TokenType::Eq, TokenType::EqEq]);
    assert_eq!(kinds("< <="), vec![TokenType::Lt, TokenType::Lte]);
    assert_eq!(kinds("> >="), vec![TokenType::Gt, TokenType::Gte]);
    assert_eq!(kinds("==="), vec![TokenType::EqEq, TokenType::Eq]);
    assert_eq!(kinds("<=>"), vec![TokenType::Lte, TokenType::Gt]);
    assert_eq!(kinds("=\n="), vec![TokenType::Eq, TokenType::Eq]);
}

#[test]
fn punctuation_marks_are_tokens_of_one_byte() {
    let tokens = scan("(){},.-+;/*").unwrap();
    let expected = vec![
        TokenType::LeftParen,
        TokenType::RightParen,
        TokenType::LeftBrace,
        TokenType::RightBrace,
        TokenType::Comma,
        TokenType::Dot,
        TokenType::Minus,
        TokenType::Plus,
        TokenType::Semicolon,
        TokenType::Slash,
        TokenType::Star,
    ];
    assert_eq!(tokens.len(), expected.len());
    for (i, token) in tokens.iter().enumerate() {
        assert_eq!(token.token_type, expected[i]);
        assert_eq!(token.lexeme, &"(){},.-+;/*"[i..i + 1]);
        assert_eq!((token.position_start, token.position_end), (i, i));
        assert_eq!(token.line, 1);
        assert_eq!(token.literal, None);
    }
}

#[test]
fn forest_is_an_identifier() {
    let tokens = scan("forest").unwrap();
    assert_eq!(tokens.len(), 1);
    assert_eq!(tokens[0].token_type, TokenType::Identifier);
    assert_eq!(tokens[0].lexeme, "forest");
    assert_eq!(tokens[0].literal, Some(Literal::Str { value: String::from("forest") }));
    assert_eq!((tokens[0].position_start, tokens[0].position_end), (0, 5));
}

#[test]
fn keywords_carry_no_literal() {
    let tokens = scan("for _for for1 For").unwrap();
    assert_eq!(tokens[0].token_type, TokenType::For);
    assert_eq!(tokens[0].lexeme, "for");
    assert_eq!(tokens[0].literal, None);
    assert_eq!(tokens[1].token_type, TokenType::Identifier);
    assert_eq!(tokens[2].token_type, TokenType::Identifier);
    assert_eq!(tokens[3].token_type, TokenType::Identifier);
    assert_eq!(tokens[3].literal, Some(Literal::Str { value: String::from("For") }));
}

#[test]
fn a_number_stops_before_a_point_without_a_digit() {
    let tokens = scan("3.x").unwrap();
    assert_eq!(tokens.len(), 3);
    assert_eq!(tokens[0].token_type, TokenType::Number);
    assert_eq!(tokens[0].lexeme, "3");
    assert_eq!(tokens[0].literal, Some(Literal::Number { value: Decimal::parse("3").unwrap() }));
    assert_eq!(tokens[1].token_type, TokenType::Dot);
    assert_eq!(tokens[1].lexeme, ".");
    assert_eq!(tokens[2].token_type, TokenType::Identifier);
    assert_eq!(tokens[2].lexeme, "x");
}

#[test]
fn a_number_takes_one_point_only() {
    let tokens = scan("12.50.75 7.").unwrap();
    let lexemes: Vec<&str> = tokens.iter().map(|token| token.lexeme.as_str()).collect();
    assert_eq!(lexemes, vec!["12.50", ".", "75", "7", "."]);
    assert_eq!((tokens[0].position_start, tokens[0].position_end), (0, 4));
    match &tokens[0].literal {
        Some(Literal::Number { value }) => {
            assert_eq!(value.as_str(), "12.50");
            assert_eq!(value.as_str().parse::<f64>().unwrap(), 12.5);
        }
        _ => panic!("a number carries its value"),
    }
}

#[test]
fn an_unclosed_string_is_reported_where_it_opens() {
    let error = scan("\"abc").unwrap_err();
    assert_eq!(error.message(), "Non terminated string starting at line");
    assert_eq!(error.line(), 1);
    assert_eq!(error.position(), 0);

    let error = scan("x\n  \"abc\ndef\n").unwrap_err();
    assert_eq!(error.message(), "Non terminated string starting at line");
    assert_eq!(error.line(), 2);
    assert_eq!(error.position(), 4);
}

#[test]
fn a_string_carries_the_text_between_its_quotes() {
    let tokens = scan("\"one\ntwo\" \"\"").unwrap();
    assert_eq!(tokens.len(), 2);
    assert_eq!(tokens[0].token_type, TokenType::String);
    assert_eq!(tokens[0].lexeme, "one\ntwo");
    assert_eq!(tokens[0].literal, Some(Literal::Str { value: String::from("one\ntwo") }));
    assert_eq!(tokens[0].line, 1);
    assert_eq!((tokens[0].position_start, tokens[0].position_end), (0, 8));
    assert_eq!(tokens[1].lexeme, "");
    assert_eq!(tokens[1].line, 2);
    assert_eq!((tokens[1].position_start, tokens[1].position_end), (10, 11));
}

#[test]
fn bytes_in_a_string_are_read_one_character_each() {
    let source: [u8; 4] = [b'"', 0xe9, b'!', b'"'];
    let tokens = Scanner::new(&source).unwrap().scan().unwrap();
    assert_eq!(tokens.len(), 1);
    assert_eq!(tokens[0].lexeme, "\u{e9}!");
}

#[test]
fn a_comment_is_skipped() {
    let tokens = scan("// hello\n(").unwrap();
    assert_eq!(tokens.len(), 1);
    assert_eq!(tokens[0].token_type, TokenType::LeftParen);
    assert_eq!(tokens[0].line, 2);
    assert_eq!((tokens[0].position_start, tokens[0].position_end), (9, 9));
}

#[test]
fn a_comment_may_end_the_source() {
    assert_eq!(kinds("1 // no line break"), vec![TokenType::Number]);
    assert_eq!(kinds("//"), vec![]);
    assert_eq!(kinds("/ /"), vec![TokenType::Slash, TokenType::Slash]);
    assert_eq!(kinds("\"// not a comment\""), vec![TokenType::String]);
}

#[test]
fn blank_space_gives_no_token() {
    assert_eq!(kinds(" \r\t\n"), vec![]);
}

#[test]
fn a_byte_that_starts_no_token_is_a_fault() {
    let error = scan("var a;\n  a = #1;").unwrap_err();
    assert_eq!(error.message(), "Invalid character");
    assert_eq!(error.line(), 2);
    assert_eq!(error.position(), 13);
    assert_eq!(error.to_string(), "Error: Invalid character. Line 2, position 13");

    let source: [u8; 2] = [b'a', 0xff];
    let error = Scanner::new(&source).unwrap().scan().unwrap_err();
    assert_eq!(error.message(), "Invalid character");
    assert_eq!(error.position(), 1);
}

#[test]
fn the_first_fault_ends_the_scan() {
    let error = scan("@ \"open").unwrap_err();
    assert_eq!(error.message(), "Invalid character");
    assert_eq!(error.position(), 0);
    let error = scan("\"open @").unwrap_err();
    assert_eq!(error.message(), "Non terminated string starting at line");
}

#[test]
fn end_to_end_example() {
    let tokens = scan("if(var == 12) { print(\"value\") }").unwrap();
    let expected = vec![
        TokenType::If,
        TokenType::LeftParen,
        TokenType::Var,
        TokenType::EqEq,
        TokenType::Number,
        TokenType::RightParen,
        TokenType::LeftBrace,
        TokenType::Print,
        TokenType::LeftParen,
        TokenType::String,
        TokenType::RightParen,
        TokenType::RightBrace,
    ];
    let found: Vec<TokenType> = tokens.iter().map(|token| token.token_type).collect();
    assert_eq!(found, expected);
    assert_eq!(tokens.len(), 12);
    assert_eq!(tokens[4].lexeme, "12");
    assert_eq!(tokens[4].literal, Some(Literal::Number { value: Decimal::parse("12").unwrap() }));
    assert_eq!(tokens[9].lexeme, "value");
    assert_eq!(tokens[9].literal, Some(Literal::Str { value: String::from("value") }));
    assert_eq!((tokens[3].position_start, tokens[3].position_end), (7, 8));
    assert_eq!((tokens[9].position_start, tokens[9].position_end), (22, 28));
}
