use vstd::prelude::*;

verus! {

/// The lexical categories of C1.
#[derive(Debug, Clone, Copy, PartialEq, Eq, Structural)]
pub enum C1Token {
    And,
    Assign,
    Asterisk,
    ConstBoolean,
    ConstFloat,
    ConstInt,
    Equal,
    /// A malformed lexeme.
    Error,
    Greater,
    GreaterEqual,
    Identifier,
    KwBoolean,
    KwFloat,
    KwIf,
    KwInt,
    KwPrintf,
    KwReturn,
    KwVoid,
    LeftBrace,
    LeftParenthesis,
    Less,
    LessEqual,
    Minus,
    NotEqual,
    Or,
    Plus,
    RightBrace,
    RightParenthesis,
    Semicolon,
    Slash,
}

/// One token of the input: its category, the range of characters it covers
/// (`start..end`), and the 1-based line on which it starts.
#[derive(Debug, Clone, Copy, PartialEq, Eq, Structural)]
pub struct Lexeme {
    pub token: C1Token,
    pub start: usize,
    pub end: usize,
    pub line: usize,
}

pub open spec fn is_relop(t: C1Token) -> bool {
    t == C1Token::Equal || t == C1Token::NotEqual || t == C1Token::Less || t == C1Token::LessEqual
        || t == C1Token::Greater || t == C1Token::GreaterEqual
}

pub open spec fn is_addop(t: C1Token) -> bool {
    t == C1Token::Plus || t == C1Token::Minus || t == C1Token::Or
}

pub open spec fn is_mulop(t: C1Token) -> bool {
    t == C1Token::Asterisk || t == C1Token::Slash || t == C1Token::And
}

pub open spec fn is_type_keyword(t: C1Token) -> bool {
    t == C1Token::KwBoolean || t == C1Token::KwFloat || t == C1Token::KwInt || t == C1Token::KwVoid
}

} // verus!
