//! The vocabulary of lexical units, with the source line each token
//! started on, and the spec-level image the scanner's contracts speak of.

use vstd::prelude::*;
use crate::num::Num;

verus! {

#[derive(Debug)]
pub enum TokenType {
    Number(Num),
    Str(String),
    Identifier(String),
    Plus,
    Minus,
    Multiply,
    Divide,
    Assign,
    Equal,
    NotEqual,
    Less,
    Greater,
    LessEqual,
    GreaterEqual,
    Let,
    If,
    Else,
    While,
    Print,
    LeftParen,
    RightParen,
    LeftBrace,
    RightBrace,
    Semicolon,
    Eof,
}

#[derive(Debug)]
pub struct Token {
    pub token_type: TokenType,
    pub line: usize,
}

/// The mathematical image of a token kind: mantissas as integers, text as
/// character sequences.
pub enum TokenTypeV {
    Number(int),
    Str(Seq<char>),
    Identifier(Seq<char>),
    Plus,
    Minus,
    Multiply,
    Divide,
    Assign,
    Equal,
    NotEqual,
    Less,
    Greater,
    LessEqual,
    GreaterEqual,
    Let,
    If,
    Else,
    While,
    Print,
    LeftParen,
    RightParen,
    LeftBrace,
    RightBrace,
    Semicolon,
    Eof,
}

pub struct TokenV {
    pub kind: TokenTypeV,
    pub line: usize,
}

impl View for TokenType {
    type V = TokenTypeV;

    open spec fn view(&self) -> TokenTypeV {
        match self {
            TokenType::Number(n) => TokenTypeV::Number(n.mantissa as int),
            TokenType::Str(s) => TokenTypeV::Str(s@),
            TokenType::Identifier(s) => TokenTypeV::Identifier(s@),
            TokenType::Plus => TokenTypeV::Plus,
            TokenType::Minus => TokenTypeV::Minus,
            TokenType::Multiply => TokenTypeV::Multiply,
            TokenType::Divide => TokenTypeV::Divide,
            TokenType::Assign => TokenTypeV::Assign,
            TokenType::Equal => TokenTypeV::Equal,
            TokenType::NotEqual => TokenTypeV::NotEqual,
            TokenType::Less => TokenTypeV::Less,
            TokenType::Greater => TokenTypeV::Greater,
            TokenType::LessEqual => TokenTypeV::LessEqual,
            TokenType::GreaterEqual => TokenTypeV::GreaterEqual,
            TokenType::Let => TokenTypeV::Let,
            TokenType::If => TokenTypeV::If,
            TokenType::Else => TokenTypeV::Else,
            TokenType::While => TokenTypeV::While,
            TokenType::Print => TokenTypeV::Print,
            TokenType::LeftParen => TokenTypeV::LeftParen,
            TokenType::RightParen => TokenTypeV::RightParen,
            TokenType::LeftBrace => TokenTypeV::LeftBrace,
            TokenType::RightBrace => TokenTypeV::RightBrace,
            TokenType::Semicolon => TokenTypeV::Semicolon,
            TokenType::Eof => TokenTypeV::Eof,
        }
    }
}

impl DeepView for TokenType {
    type V = TokenTypeV;

    open spec fn deep_view(&self) -> TokenTypeV {
        self.view()
    }
}

impl View for Token {
    type V = TokenV;

    open spec fn view(&self) -> TokenV {
        TokenV { kind: self.token_type@, line: self.line }
    }
}

impl DeepView for Token {
    type V = TokenV;

    open spec fn deep_view(&self) -> TokenV {
        self.view()
    }
}

} // verus!
