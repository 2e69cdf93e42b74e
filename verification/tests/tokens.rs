use lox_scanner::decimal::Decimal;
use lox_scanner::errors::LexicalError;
use lox_scanner::grammar::{find_number_end, find_run_end, Run};
use lox_scanner::text::{bytes_spell, text_from_bytes};
use lox_scanner::tokens::{Literal, Token, TokenType};
use lox_scanner::utils::{is_alpha, is_alphanumeric, is_digit};

#[test]
fn letters_and_underscore_start_a_name() {
    for c in ['a', 'm', 'z', 'A', 'Q', 'Z', '_'] {
        assert!(is_alpha(c));
        assert!(is_alphanumeric(c));
    }
    for c in ['0', '9', ' ', '-', '@', '[', '`', '{', '\u{e9}'] {
        assert!(!is_alpha(c));
    }
}

#[test]
fn digits_continue_a_name() {
    for c in ['0', '5', '9'] {
        assert!(is_digit(c));
        assert!(is_alphanumeric(c));
    }
    for c in ['/', ':', ' ', '.', '\u{663}'] {
        assert!(!is_digit(c));
        assert!(!is_alphanumeric(c));
    }
}

#[test]
fn reserved_words_have_their_types() {
    let words = [
        ("and", TokenType::And),
        ("class", TokenType::Class),
        ("else", TokenType::Else),
        ("false", TokenType::False),
        ("for", TokenType::For),
        ("fun", TokenType::Fun),
        ("if", TokenType::If),
        ("nil", TokenType::Nil),
        ("or", TokenType::Or),
        ("print", TokenType::Print),
        ("return", TokenType::Return),
        ("super", TokenType::Super),
        ("this", TokenType::This),
        ("true", TokenType::True),
        ("var", TokenType::Var),
        ("while", TokenType::While),
    ];
    for (word, token_type) in words {
        assert_eq!(TokenType::get_type_by_reserved_keyword(word), Some(token_type));
    }
}

#[test]
fn other_words_are_not_reserved() {
    for word in ["", "forest", "fo", "If", "AND", "eof", "printf", "nil ", "f\u{fc}r", "var1"] {
        assert_eq!(TokenType::get_type_by_reserved_keyword(word), None);
    }
}

#[test]
fn a_keyword_is_found_inside_a_buffer() {
    let source = b"x while y";
    assert_eq!(TokenType::keyword_in(source, 2, 7), Some(TokenType::While));
    assert_eq!(TokenType::keyword_in(source, 2, 6), None);
    assert_eq!(TokenType::keyword_in(source, 0, 1), None);
}

#[test]
fn a_token_keeps_what_it_is_made_of() {
    let token = Token::new(
        TokenType::Identifier,
        String::from("count"),
        3,
        10,
        14,
        Some(Literal::Str { value: String::from("count") }),
    );
    assert_eq!(token.token_type, TokenType::Identifier);
    assert_eq!(token.lexeme, "count");
    assert_eq!(token.line, 3);
    assert_eq!(token.position_start, 10);
    assert_eq!(token.position_end, 14);
    assert_eq!(token.literal, Some(Literal::Str { value: String::from("count") }));
}

#[test]
fn a_literal_prints_as_its_text() {
    assert_eq!(Literal::Str { value: String::from("a \"b\"") }.to_str(), "a \"b\"");
    assert_eq!(Literal::Number { value: Decimal::parse("123.0").unwrap() }.to_str(), "123");
    assert_eq!(Literal::Number { value: Decimal::parse("45.67").unwrap() }.to_str(), "45.67");
}

#[test]
fn numerals_are_digits_with_at_most_one_inner_point() {
    for text in ["0", "7", "123", "0.5", "45.67", "007.100", "1.0"] {
        let decimal = Decimal::parse(text).unwrap();
        assert_eq!(decimal.as_str(), text);
    }
    for text in ["", ".", ".5", "5.", "1..2", "1.2.3", "-1", "+1", "1e5", "0x10", " 1", "1 ", "\u{661}"] {
        assert_eq!(Decimal::parse(text), None);
    }
}

#[test]
fn a_number_prints_in_its_plain_form() {
    let cases = [
        ("123", "123"),
        ("123.0", "123"),
        ("45.67", "45.67"),
        ("0", "0"),
        ("000", "0"),
        ("0.0", "0"),
        ("007", "7"),
        ("00.50", "0.5"),
        ("10.010", "10.01"),
        ("100", "100"),
        ("1.000", "1"),
    ];
    for (text, plain) in cases {
        assert_eq!(Decimal::parse(text).unwrap().to_text(), plain);
        let value: f64 = text.parse().unwrap();
        assert_eq!(format!("{}", value), plain);
    }
}

#[test]
fn a_fault_reads_as_one_line() {
    let error = LexicalError::new(String::from("Invalid character"), 12, 340);
    assert_eq!(error.message(), "Invalid character");
    assert_eq!(error.line(), 12);
    assert_eq!(error.position(), 340);
    assert_eq!(error.to_string(), "Error: Invalid character. Line 12, position 340");
    let error = LexicalError::new(String::new(), 0, 9);
    assert_eq!(error.to_string(), "Error: . Line 0, position 9");
    let error = LexicalError::new(String::from("x"), 1000, usize::MAX);
    assert_eq!(error.to_string(), format!("Error: x. Line 1000, position {}", usize::MAX));
}

#[test]
fn the_named_faults_carry_their_messages() {
    let error = LexicalError::invalid_character(2, 5);
    assert_eq!(error, LexicalError::new(String::from("Invalid character"), 2, 5));
    let error = LexicalError::unterminated_string(1, 0);
    assert_eq!(
        error.to_string(),
        "Error: Non terminated string starting at line. Line 1, position 0"
    );
}

#[test]
fn runs_end_at_the_first_byte_that_does_not_belong() {
    let source = b"abc_1 23.5\n\"q\"";
    assert_eq!(find_run_end(source, 0, Run::Name), 5);
    assert_eq!(find_run_end(source, 5, Run::Name), 5);
    assert_eq!(find_run_end(source, 6, Run::Digits), 8);
    assert_eq!(find_run_end(source, 0, Run::Comment), 10);
    assert_eq!(find_run_end(source, 0, Run::Quoted), 11);
    assert_eq!(find_run_end(source, 12, Run::Quoted), 13);
    assert_eq!(find_run_end(source, 13, Run::Digits), 13);
    assert_eq!(find_run_end(source, 14, Run::Comment), 14);
    assert_eq!(find_number_end(source, 6), 10);
    assert_eq!(find_number_end(b"1.", 0), 1);
    assert_eq!(find_number_end(b"1.2.3", 0), 3);
    assert_eq!(find_number_end(b"12", 0), 2);
}

#[test]
fn bytes_are_copied_out_as_text() {
    let source = b"print(x)";
    assert_eq!(text_from_bytes(source, 0, 5), "print");
    assert_eq!(text_from_bytes(source, 6, 7), "x");
    assert_eq!(text_from_bytes(source, 3, 3), "");
    assert!(bytes_spell(source, 0, 5, "print"));
    assert!(!bytes_spell(source, 0, 4, "print"));
    assert!(!bytes_spell(source, 1, 6, "print"));
    assert!(bytes_spell(source, 2, 2, ""));
}

#[test]
fn a_plain_form_is_a_numeral_in_plain_form() {
    for text in ["0012.3400", "0.0", "000", "5", "10.010", "9.99"] {
        let plain = Decimal::parse(text).unwrap().to_text();
        let again = Decimal::parse(&plain).unwrap();
        assert_eq!(again.to_text(), plain);
        let value: f64 = text.parse().unwrap();
        assert_eq!(plain.parse::<f64>().unwrap(), value);
    }
}

#[test]
fn a_copy_of_a_number_is_the_same_number() {
    let number = Decimal::parse("3.140").unwrap();
    let copy = number.clone();
    assert_eq!(copy, number);
    assert_eq!(copy.as_str(), "3.140");
    assert_eq!(copy.to_text(), "3.14");
}

#[test]
fn a_number_is_taken_out_of_a_buffer() {
    let source = b"x = 12.50;";
    let number = Decimal::from_source(source, 4, 9);
    assert_eq!(number.as_str(), "12.50");
    assert_eq!(number, Decimal::parse("12.50").unwrap());
}
