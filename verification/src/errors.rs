//! The fault that ends a scan.

use vstd::prelude::*;
use vstd::string::*;
use crate::text::{append_decimal, decimal_text};

verus! {

/// The message of a byte that starts no token.
pub open spec fn invalid_character_message() -> Seq<char> {
    "Invalid character"@
}

/// The message of a string literal that is never closed.
pub open spec fn unterminated_string_message() -> Seq<char> {
    "Non terminated string starting at line"@
}

/// One fatal fault in the source: what is wrong, and where.
#[derive(Debug, Clone, PartialEq, Eq)]
pub struct LexicalError {
    message: String,
    line: usize,
    position: usize,
}

/// A fault as contracts see it.
pub struct LexicalErrorView {
    pub message: Seq<char>,
    pub line: nat,
    pub position: nat,
}

impl LexicalErrorView {
    /// The fault of a byte at `position`, on `line`, that starts no token.
    pub open spec fn invalid_character(line: nat, position: nat) -> LexicalErrorView {
        LexicalErrorView { message: invalid_character_message(), line, position }
    }

    /// The fault of a string literal, opened at `position` on `line`, that
    /// is never closed.
    pub open spec fn unterminated_string(line: nat, position: nat) -> LexicalErrorView {
        LexicalErrorView { message: unterminated_string_message(), line, position }
    }

    /// The fault in one line of text.
    pub open spec fn text(self) -> Seq<char> {
        "Error: "@ + self.message + ". Line "@ + decimal_text(self.line) + ", position "@
            + decimal_text(self.position)
    }
}

impl View for LexicalError {
    type V = LexicalErrorView;

    closed spec fn view(&self) -> LexicalErrorView {
        LexicalErrorView {
            message: self.message@,
            line: self.line as nat,
            position: self.position as nat,
        }
    }
}

impl LexicalError {
    pub fn new(message: String, line: usize, position: usize) -> (error: LexicalError)
        ensures
            error@ == (LexicalErrorView {
                message: message@,
                line: line as nat,
                position: position as nat,
            }),
    {
        LexicalError { message, line, position }
    }

    /// The fault of a byte that starts no token.
    pub fn invalid_character(line: usize, position: usize) -> (error: LexicalError)
        ensures
            error@ == LexicalErrorView::invalid_character(line as nat, position as nat),
    {
        LexicalError::new("Invalid character".to_owned(), line, position)
    }

    /// The fault of a string literal that is never closed.
    pub fn unterminated_string(line: usize, position: usize) -> (error: LexicalError)
        ensures
            error@ == LexicalErrorView::unterminated_string(line as nat, position as nat),
    {
        LexicalError::new("Non terminated string starting at line".to_owned(), line, position)
    }

    pub fn message(&self) -> (message: &str)
        ensures
            message@ == self@.message,
    {
        self.message.as_str()
    }

    pub fn line(&self) -> (line: usize)
        ensures
            line == self@.line,
    {
        self.line
    }

    pub fn position(&self) -> (position: usize)
        ensures
            position == self@.position,
    {
        self.position
    }

    /// The fault in one line of text, for the user to read.
    pub fn to_string(&self) -> (text: String)
        ensures
            text@ == self@.text(),
    {
        let mut text = "Error: ".to_owned();
        text.append(self.message.as_str());
        text.append(". Line ");
        append_decimal(&mut text, self.line);
        text.append(", position ");
        append_decimal(&mut text, self.position);
        text
    }
}

} // verus!
