//! Tokens of the Atoy language and their printed form.

use vstd::prelude::*;
use crate::text::{string_of, int_text, int_to_string, escape_debug, escape_debug_text};

verus! {

/// A token produced by the lexer.
///
/// A float literal is kept as the text it was written with (digits and one
/// dot); turning that text into a number is left to the caller.
#[derive(Debug, Clone, PartialEq)]
pub enum Token {
    Integer(i64),
    Float(String),
    String(String),
    Plus,
    Minus,
    Star,
    Slash,
    Assign,
    PlusAssign,
    MinusAssign,
    StarAssign,
    SlashAssign,
    Eq,
    NEq,
    Gt,
    Lt,
    Gte,
    Lte,
    And,
    Or,
    Not,
    LParen,
    RParen,
    Comma,
    LBrace,
    RBrace,
    Semicolon,
    Dot,
    DotDot,
    Colon,
    LBracket,
    RBracket,
    Ident(String),
    Eof,
    // keywords
    Let,
    True,
    False,
    If,
    Else,
    Return,
    While,
    Fn,
}

/// The mathematical value of a token: its text payloads as character sequences.
pub enum TokenV {
    Integer(i64),
    Float(Seq<char>),
    String(Seq<char>),
    Plus,
    Minus,
    Star,
    Slash,
    Assign,
    PlusAssign,
    MinusAssign,
    StarAssign,
    SlashAssign,
    Eq,
    NEq,
    Gt,
    Lt,
    Gte,
    Lte,
    And,
    Or,
    Not,
    LParen,
    RParen,
    Comma,
    LBrace,
    RBrace,
    Semicolon,
    Dot,
    DotDot,
    Colon,
    LBracket,
    RBracket,
    Ident(Seq<char>),
    Eof,
    Let,
    True,
    False,
    If,
    Else,
    Return,
    While,
    Fn,
}

impl View for Token {
    type V = TokenV;

    open spec fn view(&self) -> TokenV {
        match self {
            Token::Integer(n) => TokenV::Integer(*n),
            Token::Float(t) => TokenV::Float(t@),
            Token::String(t) => TokenV::String(t@),
            Token::Plus => TokenV::Plus,
            Token::Minus => TokenV::Minus,
            Token::Star => TokenV::Star,
            Token::Slash => TokenV::Slash,
            Token::Assign => TokenV::Assign,
            Token::PlusAssign => TokenV::PlusAssign,
            Token::MinusAssign => TokenV::MinusAssign,
            Token::StarAssign => TokenV::StarAssign,
            Token::SlashAssign => TokenV::SlashAssign,
            Token::Eq => TokenV::Eq,
            Token::NEq => TokenV::NEq,
            Token::Gt => TokenV::Gt,
            Token::Lt => TokenV::Lt,
            Token::Gte => TokenV::Gte,
            Token::Lte => TokenV::Lte,
            Token::And => TokenV::And,
            Token::Or => TokenV::Or,
            Token::Not => TokenV::Not,
            Token::LParen => TokenV::LParen,
            Token::RParen => TokenV::RParen,
            Token::Comma => TokenV::Comma,
            Token::LBrace => TokenV::LBrace,
            Token::RBrace => TokenV::RBrace,
            Token::Semicolon => TokenV::Semicolon,
            Token::Dot => TokenV::Dot,
            Token::DotDot => TokenV::DotDot,
            Token::Colon => TokenV::Colon,
            Token::LBracket => TokenV::LBracket,
            Token::RBracket => TokenV::RBracket,
            Token::Ident(t) => TokenV::Ident(t@),
            Token::Eof => TokenV::Eof,
            Token::Let => TokenV::Let,
            Token::True => TokenV::True,
            Token::False => TokenV::False,
            Token::If => TokenV::If,
            Token::Else => TokenV::Else,
            Token::Return => TokenV::Return,
            Token::While => TokenV::While,
            Token::Fn => TokenV::Fn,
        }
    }
}

/// The printed form of a token, as it appears in parse error messages.
pub open spec fn token_text(t: TokenV) -> Seq<char> {
    match t {
        TokenV::Integer(n) => int_text(n as int),
        TokenV::Float(lit) => lit,
        TokenV::String(s) => escape_debug_text(s),
        TokenV::Plus => seq!['+'],
        TokenV::Minus => seq!['-'],
        TokenV::Star => seq!['*'],
        TokenV::Slash => seq!['/'],
        TokenV::Assign => seq!['='],
        TokenV::PlusAssign => seq!['+', '='],
        TokenV::MinusAssign => seq!['-', '='],
        TokenV::StarAssign => seq!['*', '='],
        TokenV::SlashAssign => seq!['/', '='],
        TokenV::Eq => seq!['=', '='],
        TokenV::NEq => seq!['!', '='],
        TokenV::Gt => seq!['>'],
        TokenV::Lt => seq!['<'],
        TokenV::Gte => seq!['>', '='],
        TokenV::Lte => seq!['<', '='],
        TokenV::LParen => seq!['('],
        TokenV::RParen => seq![')'],
        TokenV::Comma => seq![','],
        TokenV::LBrace => seq!['{'],
        TokenV::RBrace => seq!['}'],
        TokenV::Semicolon => seq![';'],
        TokenV::Dot => seq!['.'],
        TokenV::DotDot => seq!['.', '.'],
        TokenV::Colon => seq![':'],
        TokenV::LBracket => seq!['['],
        TokenV::RBracket => seq![']'],
        TokenV::Ident(name) => name,
        TokenV::Eof => seq!['E', 'O', 'F'],
        TokenV::Let => seq!['l', 'e', 't'],
        TokenV::True => seq!['t', 'r', 'u', 'e'],
        TokenV::False => seq!['f', 'a', 'l', 's', 'e'],
        TokenV::If => seq!['i', 'f'],
        TokenV::Else => seq!['e', 'l', 's', 'e'],
        TokenV::Return => seq!['r', 'e', 't', 'u', 'r', 'n'],
        TokenV::While => seq!['w', 'h', 'i', 'l', 'e'],
        TokenV::Fn => seq!['f', 'n'],
        TokenV::And => seq!['a', 'n', 'd'],
        TokenV::Or => seq!['o', 'r'],
        TokenV::Not => seq!['n', 'o', 't'],
    }
}

impl Token {
    /// The printed form of the token (what `Display` shows): the symbol or
    /// keyword, the number, the name, or the escaped contents of a string.
    pub fn text(&self) -> (r: String)
        ensures
            r@ == token_text(self@),
    {
        let cs: Vec<char> = match self {
            Token::Integer(n) => return int_to_string(*n),
            Token::Float(t) => return t.clone(),
            Token::String(s) => return escape_debug(s),
            Token::Ident(name) => return name.clone(),
            Token::Plus => vec!['+'],
            Token::Minus => vec!['-'],
            Token::Star => vec!['*'],
            Token::Slash => vec!['/'],
            Token::Assign => vec!['='],
            Token::PlusAssign => vec!['+', '='],
            Token::MinusAssign => vec!['-', '='],
            Token::StarAssign => vec!['*', '='],
            Token::SlashAssign => vec!['/', '='],
            Token::Eq => vec!['=', '='],
            Token::NEq => vec!['!', '='],
            Token::Gt => vec!['>'],
            Token::Lt => vec!['<'],
            Token::Gte => vec!['>', '='],
            Token::Lte => vec!['<', '='],
            Token::LParen => vec!['('],
            Token::RParen => vec![')'],
            Token::Comma => vec![','],
            Token::LBrace => vec!['{'],
            Token::RBrace => vec!['}'],
            Token::Semicolon => vec![';'],
            Token::Dot => vec!['.'],
            Token::DotDot => vec!['.', '.'],
            Token::Colon => vec![':'],
            Token::LBracket => vec!['['],
            Token::RBracket => vec![']'],
            Token::Eof => vec!['E', 'O', 'F'],
            Token::Let => vec!['l', 'e', 't'],
            Token::True => vec!['t', 'r', 'u', 'e'],
            Token::False => vec!['f', 'a', 'l', 's', 'e'],
            Token::If => vec!['i', 'f'],
            Token::Else => vec!['e', 'l', 's', 'e'],
            Token::Return => vec!['r', 'e', 't', 'u', 'r', 'n'],
            Token::While => vec!['w', 'h', 'i', 'l', 'e'],
            Token::Fn => vec!['f', 'n'],
            Token::And => vec!['a', 'n', 'd'],
            Token::Or => vec!['o', 'r'],
            Token::Not => vec!['n', 'o', 't'],
        };
        string_of(&cs)
    }

    /// A copy of the token.
    pub fn duplicate(&self) -> (r: Token)
        ensures
            r@ == self@,
    {
        match self {
            Token::Integer(n) => Token::Integer(*n),
            Token::Float(t) => Token::Float(t.clone()),
            Token::String(t) => Token::String(t.clone()),
            Token::Ident(t) => Token::Ident(t.clone()),
            Token::Plus => Token::Plus,
            Token::Minus => Token::Minus,
            Token::Star => Token::Star,
            Token::Slash => Token::Slash,
            Token::Assign => Token::Assign,
            Token::PlusAssign => Token::PlusAssign,
            Token::MinusAssign => Token::MinusAssign,
            Token::StarAssign => Token::StarAssign,
            Token::SlashAssign => Token::SlashAssign,
            Token::Eq => Token::Eq,
            Token::NEq => Token::NEq,
            Token::Gt => Token::Gt,
            Token::Lt => Token::Lt,
            Token::Gte => Token::Gte,
            Token::Lte => Token::Lte,
            Token::And => Token::And,
            Token::Or => Token::Or,
            Token::Not => Token::Not,
            Token::LParen => Token::LParen,
            Token::RParen => Token::RParen,
            Token::Comma => Token::Comma,
            Token::LBrace => Token::LBrace,
            Token::RBrace => Token::RBrace,
            Token::Semicolon => Token::Semicolon,
            Token::Dot => Token::Dot,
            Token::DotDot => Token::DotDot,
            Token::Colon => Token::Colon,
            Token::LBracket => Token::LBracket,
            Token::RBracket => Token::RBracket,
            Token::Eof => Token::Eof,
            Token::Let => Token::Let,
            Token::True => Token::True,
            Token::False => Token::False,
            Token::If => Token::If,
            Token::Else => Token::Else,
            Token::Return => Token::Return,
            Token::While => Token::While,
            Token::Fn => Token::Fn,
        }
    }
}

} // verus!

verus! {

/// The variant of a token, as a number: two tokens have the same number
/// exactly when they are the same variant.
pub open spec fn token_tag(t: TokenV) -> u8 {
    match t {
        TokenV::Integer(_) => 0,
        TokenV::Float(_) => 1,
        TokenV::String(_) => 2,
        TokenV::Plus => 3,
        TokenV::Minus => 4,
        TokenV::Star => 5,
        TokenV::Slash => 6,
        TokenV::Assign => 7,
        TokenV::PlusAssign => 8,
        TokenV::MinusAssign => 9,
        TokenV::StarAssign => 10,
        TokenV::SlashAssign => 11,
        TokenV::Eq => 12,
        TokenV::NEq => 13,
        TokenV::Gt => 14,
        TokenV::Lt => 15,
        TokenV::Gte => 16,
        TokenV::Lte => 17,
        TokenV::And => 18,
        TokenV::Or => 19,
        TokenV::Not => 20,
        TokenV::LParen => 21,
        TokenV::RParen => 22,
        TokenV::Comma => 23,
        TokenV::LBrace => 24,
        TokenV::RBrace => 25,
        TokenV::Semicolon => 26,
        TokenV::Ident(_) => 27,
        TokenV::Eof => 28,
        TokenV::Let => 29,
        TokenV::True => 30,
        TokenV::False => 31,
        TokenV::If => 32,
        TokenV::Else => 33,
        TokenV::Return => 34,
        TokenV::While => 35,
        TokenV::Fn => 36,
        TokenV::Dot => 37,
        TokenV::DotDot => 38,
        TokenV::Colon => 39,
        TokenV::LBracket => 40,
        TokenV::RBracket => 41,
    }
}

impl Token {
    /// The number of the token's variant.
    pub fn tag(&self) -> (r: u8)
        ensures
            r == token_tag(self@),
    {
        match self {
            Token::Integer(_) => 0,
            Token::Float(_) => 1,
            Token::String(_) => 2,
            Token::Plus => 3,
            Token::Minus => 4,
            Token::Star => 5,
            Token::Slash => 6,
            Token::Assign => 7,
            Token::PlusAssign => 8,
            Token::MinusAssign => 9,
            Token::StarAssign => 10,
            Token::SlashAssign => 11,
            Token::Eq => 12,
            Token::NEq => 13,
            Token::Gt => 14,
            Token::Lt => 15,
            Token::Gte => 16,
            Token::Lte => 17,
            Token::And => 18,
            Token::Or => 19,
            Token::Not => 20,
            Token::LParen => 21,
            Token::RParen => 22,
            Token::Comma => 23,
            Token::LBrace => 24,
            Token::RBrace => 25,
            Token::Semicolon => 26,
            Token::Ident(_) => 27,
            Token::Eof => 28,
            Token::Let => 29,
            Token::True => 30,
            Token::False => 31,
            Token::If => 32,
            Token::Else => 33,
            Token::Return => 34,
            Token::While => 35,
            Token::Fn => 36,
            Token::Dot => 37,
            Token::DotDot => 38,
            Token::Colon => 39,
            Token::LBracket => 40,
            Token::RBracket => 41,
        }
    }
}

} // verus!
