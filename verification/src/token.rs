//! The token that a tokenizer produces.

use vstd::prelude::*;

verus! {

/// The kind of a token.
#[derive(Debug, Clone, PartialEq)]
pub enum TokenKind {
    /// Text that no rule matches.
    Unknown,
    // Literals
    Identifier,
    Number,
    Float,
    String,
    Char,
    // Operators
    Plus,
    Minus,
    Multiply,
    Divide,
    Modulo,
    Assign,
    Equal,
    NotEqual,
    LessThan,
    LessEqual,
    GreaterThan,
    GreaterEqual,
    // Delimiters
    LeftParen,
    RightParen,
    LeftBrace,
    RightBrace,
    LeftBracket,
    RightBracket,
    Comma,
    Semicolon,
    Colon,
    Dot,
    // Keywords
    If,
    Else,
    While,
    For,
    Function,
    Return,
    Let,
    Const,
    // Layout and the end of the input
    Whitespace,
    Newline,
    Comment,
    Eof,
    // Tokens that depend on the token before
    IndexedNumber,
    PositiveNumber,
    /// A kind of the user's own, by its number.
    Custom(u32),
}

/// One token of the input: what was matched, and where.
#[derive(Debug, Clone, PartialEq)]
pub struct Token {
    /// The kind of the token.
    pub kind: TokenKind,
    /// The matched text.
    pub value: String,
    /// The position at which the token begins in the input, from 0.
    pub index: usize,
    /// The line of the token, from 1.
    pub row: usize,
    /// The column of the token, from 1.
    pub col: usize,
    /// The length of the token.
    pub length: usize,
    /// The number of spaces at the beginning of the token's line.
    pub indent: usize,
    /// A tag for the caller's use.
    pub tag: isize,
}

impl Token {
    /// The token with the given kind, text and place, and the tag 0.
    pub fn new(
        kind: TokenKind,
        value: String,
        index: usize,
        row: usize,
        col: usize,
        length: usize,
        indent: usize,
    ) -> (token: Self)
        ensures
            token.kind == kind,
            token.value == value,
            token.index == index,
            token.row == row,
            token.col == col,
            token.length == length,
            token.indent == indent,
            token.tag == 0,
    {
        Token { kind, value, index, row, col, length, indent, tag: 0 }
    }
}

} // verus!
