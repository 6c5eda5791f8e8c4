//! The token model: a closed set of lexical categories produced by the
//! lexer and consumed by the parser. Tokens are immutable values compared
//! by structural equality over their contents.

use vstd::prelude::*;

verus! {

/// Mathematical model of a token: identical to [`Token`] except that text
/// payloads are character sequences. Contracts throughout the crate speak
/// of this type.
pub enum TokenV {
    Let,
    Print,
    If,
    Else,
    While,
    Break,
    Func,
    Return,
    Identifier(Seq<char>),
    Number(i64),
    StringLiteral(Seq<char>),
    Assign,
    Equal,
    Plus,
    Minus,
    Multiply,
    Divide,
    LessThan,
    GreaterThan,
    LeftParen,
    RightParen,
    LeftBracket,
    RightBracket,
    LeftCurly,
    RightCurly,
    Colon,
    Comma,
    Semicolon,
    True,
    False,
    Or,
    And,
    Nil,
    Eof,
    Unknown(char),
}

/// One lexical unit of source text.
#[derive(Debug)]
pub enum Token {
    /// Keyword `let`
    Let,
    /// Keyword `print`
    Print,
    /// Keyword `if`
    If,
    /// Keyword `else`
    Else,
    /// Keyword `while`
    While,
    /// Keyword `break`
    Break,
    /// Keyword `func`
    Func,
    /// Keyword `return`
    Return,
    /// A variable or function name
    Identifier(String),
    /// An integer literal
    Number(i64),
    /// A quoted string literal (quotes removed, no escape processing)
    StringLiteral(String),
    /// `=`
    Assign,
    /// `==`
    Equal,
    /// `+`
    Plus,
    /// `-`
    Minus,
    /// `*`
    Multiply,
    /// `/`
    Divide,
    /// `<`
    LessThan,
    /// `>`
    GreaterThan,
    /// `(`
    LeftParen,
    /// `)`
    RightParen,
    /// `[`
    LeftBracket,
    /// `]`
    RightBracket,
    /// `{`
    LeftCurly,
    /// `}`
    RightCurly,
    /// `:`
    Colon,
    /// `,`
    Comma,
    /// `;`
    Semicolon,
    /// Keyword `true`
    True,
    /// Keyword `false`
    False,
    /// Keyword `or`
    Or,
    /// Keyword `and`
    And,
    /// Keyword `nil`
    Nil,
    /// End of input; returned forever once the input is exhausted
    Eof,
    /// A character that starts no token
    Unknown(char),
}

impl View for Token {
    type V = TokenV;

    open spec fn view(&self) -> TokenV {
        match self {
            Token::Let => TokenV::Let,
            Token::Print => TokenV::Print,
            Token::If => TokenV::If,
            Token::Else => TokenV::Else,
            Token::While => TokenV::While,
            Token::Break => TokenV::Break,
            Token::Func => TokenV::Func,
            Token::Return => TokenV::Return,
            Token::Identifier(s) => TokenV::Identifier(s@),
            Token::Number(n) => TokenV::Number(*n),
            Token::StringLiteral(s) => TokenV::StringLiteral(s@),
            Token::Assign => TokenV::Assign,
            Token::Equal => TokenV::Equal,
            Token::Plus => TokenV::Plus,
            Token::Minus => TokenV::Minus,
            Token::Multiply => TokenV::Multiply,
            Token::Divide => TokenV::Divide,
            Token::LessThan => TokenV::LessThan,
            Token::GreaterThan => TokenV::GreaterThan,
            Token::LeftParen => TokenV::LeftParen,
            Token::RightParen => TokenV::RightParen,
            Token::LeftBracket => TokenV::LeftBracket,
            Token::RightBracket => TokenV::RightBracket,
            Token::LeftCurly => TokenV::LeftCurly,
            Token::RightCurly => TokenV::RightCurly,
            Token::Colon => TokenV::Colon,
            Token::Comma => TokenV::Comma,
            Token::Semicolon => TokenV::Semicolon,
            Token::True => TokenV::True,
            Token::False => TokenV::False,
            Token::Or => TokenV::Or,
            Token::And => TokenV::And,
            Token::Nil => TokenV::Nil,
            Token::Eof => TokenV::Eof,
            Token::Unknown(c) => TokenV::Unknown(*c),
        }
    }
}

impl Clone for Token {
    /// Cloning preserves the token exactly.
    fn clone(&self) -> (res: Self)
        ensures
            res@ == self@,
    {
        match self {
            Token::Let => Token::Let,
            Token::Print => Token::Print,
            Token::If => Token::If,
            Token::Else => Token::Else,
            Token::While => Token::While,
            Token::Break => Token::Break,
            Token::Func => Token::Func,
            Token::Return => Token::Return,
            Token::Identifier(s) => Token::Identifier(s.clone()),
            Token::Number(n) => Token::Number(*n),
            Token::StringLiteral(s) => Token::StringLiteral(s.clone()),
            Token::Assign => Token::Assign,
            Token::Equal => Token::Equal,
            Token::Plus => Token::Plus,
            Token::Minus => Token::Minus,
            Token::Multiply => Token::Multiply,
            Token::Divide => Token::Divide,
            Token::LessThan => Token::LessThan,
            Token::GreaterThan => Token::GreaterThan,
            Token::LeftParen => Token::LeftParen,
            Token::RightParen => Token::RightParen,
            Token::LeftBracket => Token::LeftBracket,
            Token::RightBracket => Token::RightBracket,
            Token::LeftCurly => Token::LeftCurly,
            Token::RightCurly => Token::RightCurly,
            Token::Colon => Token::Colon,
            Token::Comma => Token::Comma,
            Token::Semicolon => Token::Semicolon,
            Token::True => Token::True,
            Token::False => Token::False,
            Token::Or => Token::Or,
            Token::And => Token::And,
            Token::Nil => Token::Nil,
            Token::Eof => Token::Eof,
            Token::Unknown(c) => Token::Unknown(*c),
        }
    }
}

/// Decides structural equality of two tokens, payloads included.
#[verifier::rlimit(60)]
pub fn token_eq(a: &Token, b: &Token) -> (r: bool)
    ensures
        r == (a@ == b@),
{
    match a {
        Token::Let => matches!(b, Token::Let),
        Token::Print => matches!(b, Token::Print),
        Token::If => matches!(b, Token::If),
        Token::Else => matches!(b, Token::Else),
        Token::While => matches!(b, Token::While),
        Token::Break => matches!(b, Token::Break),
        Token::Func => matches!(b, Token::Func),
        Token::Return => matches!(b, Token::Return),
        Token::Identifier(x) => match b {
            Token::Identifier(y) => *x == *y,
            _ => false,
        },
        Token::Number(x) => match b {
            Token::Number(y) => *x == *y,
            _ => false,
        },
        Token::StringLiteral(x) => match b {
            Token::StringLiteral(y) => *x == *y,
            _ => false,
        },
        Token::Assign => matches!(b, Token::Assign),
        Token::Equal => matches!(b, Token::Equal),
        Token::Plus => matches!(b, Token::Plus),
        Token::Minus => matches!(b, Token::Minus),
        Token::Multiply => matches!(b, Token::Multiply),
        Token::Divide => matches!(b, Token::Divide),
        Token::LessThan => matches!(b, Token::LessThan),
        Token::GreaterThan => matches!(b, Token::GreaterThan),
        Token::LeftParen => matches!(b, Token::LeftParen),
        Token::RightParen => matches!(b, Token::RightParen),
        Token::LeftBracket => matches!(b, Token::LeftBracket),
        Token::RightBracket => matches!(b, Token::RightBracket),
        Token::LeftCurly => matches!(b, Token::LeftCurly),
        Token::RightCurly => matches!(b, Token::RightCurly),
        Token::Colon => matches!(b, Token::Colon),
        Token::Comma => matches!(b, Token::Comma),
        Token::Semicolon => matches!(b, Token::Semicolon),
        Token::True => matches!(b, Token::True),
        Token::False => matches!(b, Token::False),
        Token::Or => matches!(b, Token::Or),
        Token::And => matches!(b, Token::And),
        Token::Nil => matches!(b, Token::Nil),
        Token::Eof => matches!(b, Token::Eof),
        Token::Unknown(x) => match b {
            Token::Unknown(y) => *x == *y,
            _ => false,
        },
    }
}

} // verus!
