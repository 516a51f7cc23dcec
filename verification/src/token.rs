//! Token values produced by the scanner: a closed classification, the
//! matched lexeme text, and the 1-based line number where it was produced.

use vstd::prelude::*;

verus! {

/// The closed set of token classifications. No extension points: every
/// lexeme the scanner can produce falls under exactly one of these.
#[derive(Eq, PartialEq, Structural, Debug, Copy, Clone)]
pub enum TokenType {
    // Single-character tokens.
    LeftParen,
    RightParen,
    LeftBrace,
    RightBrace,
    Comma,
    Dot,
    Minus,
    Plus,
    Semicolon,
    Slash,
    Star,
    // One- or two-character tokens.
    Bang,
    BangEqual,
    Equal,
    EqualEqual,
    Greater,
    GreaterEqual,
    Less,
    LessEqual,
    // Literals.
    Identifier,
    StringLiteral,
    Integer,
    // Keywords.
    Void,
    Int,
    Else,
    For,
    If,
    Return,
    While,
    Error,
    Eof,
}

impl TokenType {
    /// The canonical display string of each kind, as a sequence of characters.
    pub open spec fn canonical(self) -> Seq<char> {
        match self {
            TokenType::LeftParen => "("@,
            TokenType::RightParen => ")"@,
            TokenType::LeftBrace => "{"@,
            TokenType::RightBrace => "}"@,
            TokenType::Comma => ","@,
            TokenType::Dot => "."@,
            TokenType::Minus => "-"@,
            TokenType::Plus => "+"@,
            TokenType::Semicolon => ";"@,
            TokenType::Slash => "/"@,
            TokenType::Star => "*"@,
            TokenType::Bang => "!"@,
            TokenType::BangEqual => "!="@,
            TokenType::Equal => "="@,
            TokenType::EqualEqual => "=="@,
            TokenType::Greater => ">"@,
            TokenType::GreaterEqual => ">="@,
            TokenType::Less => "<"@,
            TokenType::LessEqual => "<="@,
            TokenType::Identifier => "identifier"@,
            TokenType::StringLiteral => "string"@,
            TokenType::Integer => "integer"@,
            TokenType::Void => "void"@,
            TokenType::Int => "int"@,
            TokenType::Else => "else"@,
            TokenType::For => "for"@,
            TokenType::If => "if"@,
            TokenType::Return => "return"@,
            TokenType::While => "while"@,
            TokenType::Error => "error"@,
            TokenType::Eof => "eof"@,
        }
    }

    /// The canonical display string, used verbatim in diagnostics.
    pub fn as_str(&self) -> (r: &'static str)
        ensures
            r@ == self.canonical(),
    {
        match self {
            TokenType::LeftParen => "(",
            TokenType::RightParen => ")",
            TokenType::LeftBrace => "{",
            TokenType::RightBrace => "}",
            TokenType::Comma => ",",
            TokenType::Dot => ".",
            TokenType::Minus => "-",
            TokenType::Plus => "+",
            TokenType::Semicolon => ";",
            TokenType::Slash => "/",
            TokenType::Star => "*",
            TokenType::Bang => "!",
            TokenType::BangEqual => "!=",
            TokenType::Equal => "=",
            TokenType::EqualEqual => "==",
            TokenType::Greater => ">",
            TokenType::GreaterEqual => ">=",
            TokenType::Less => "<",
            TokenType::LessEqual => "<=",
            TokenType::Identifier => "identifier",
            TokenType::StringLiteral => "string",
            TokenType::Integer => "integer",
            TokenType::Void => "void",
            TokenType::Int => "int",
            TokenType::Else => "else",
            TokenType::For => "for",
            TokenType::If => "if",
            TokenType::Return => "return",
            TokenType::While => "while",
            TokenType::Error => "error",
            TokenType::Eof => "eof",
        }
    }
}

/// An immutable value produced once per scan step: a classification, the
/// exact text matched (or a diagnostic message for error tokens), and the
/// 1-based line number the token is reported at.
#[derive(Debug, Clone)]
pub struct Token {
    pub ttype: TokenType,
    pub lexeme: String,
    pub line: usize,
}

impl Token {
    pub fn new(ttype: TokenType, lexeme: String, line: usize) -> (t: Self)
        ensures
            t.ttype == ttype,
            t.lexeme == lexeme,
            t.line == line,
    {
        Self { ttype, lexeme, line }
    }
}

} // verus!
