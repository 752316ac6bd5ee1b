use vstd::prelude::*;
use crate::token::{C1Token, Lexeme};

verus! {

pub open spec fn is_blank(c: char) -> bool {
    c == ' ' || c == '\t' || c == '\r' || c == '\x0c'
}

pub open spec fn is_letter(c: char) -> bool {
    ('a' <= c && c <= 'z') || ('A' <= c && c <= 'Z') || c == '_'
}

pub open spec fn is_digit(c: char) -> bool {
    '0' <= c && c <= '9'
}

pub open spec fn is_word_char(c: char) -> bool {
    is_letter(c) || is_digit(c)
}

/// Whether the two characters at `i` are `a` and `b`.
pub open spec fn pair_at(s: Seq<char>, i: int, a: char, b: char) -> bool {
    0 <= i && i + 1 < s.len() && s[i] == a && s[i + 1] == b
}

/// The end of the run of letters, digits and underscores that starts at `i`.
pub open spec fn word_end(s: Seq<char>, i: int) -> int
    decreases s.len() - i,
{
    if 0 <= i < s.len() && is_word_char(s[i]) {
        word_end(s, i + 1)
    } else {
        i
    }
}

/// The end of the run of decimal digits that starts at `i`.
pub open spec fn digits_end(s: Seq<char>, i: int) -> int
    decreases s.len() - i,
{
    if 0 <= i < s.len() && is_digit(s[i]) {
        digits_end(s, i + 1)
    } else {
        i
    }
}

/// The category of a word: a keyword, a boolean constant or an identifier.
pub open spec fn word_kind(w: Seq<char>) -> C1Token {
    if w == seq!['i', 'f'] {
        C1Token::KwIf
    } else if w == seq!['r', 'e', 't', 'u', 'r', 'n'] {
        C1Token::KwReturn
    } else if w == seq!['p', 'r', 'i', 'n', 't', 'f'] {
        C1Token::KwPrintf
    } else if w == seq!['b', 'o', 'o', 'l', 'e', 'a', 'n'] {
        C1Token::KwBoolean
    } else if w == seq!['f', 'l', 'o', 'a', 't'] {
        C1Token::KwFloat
    } else if w == seq!['i', 'n', 't'] {
        C1Token::KwInt
    } else if w == seq!['v', 'o', 'i', 'd'] {
        C1Token::KwVoid
    } else if w == seq!['t', 'r', 'u', 'e'] || w == seq!['f', 'a', 'l', 's', 'e'] {
        C1Token::ConstBoolean
    } else {
        C1Token::Identifier
    }
}

/// The operator spelled by the two characters `c` and `d`, if any.
pub open spec fn double_kind(c: char, d: char) -> Option<C1Token> {
    if c == '=' && d == '=' {
        Some(C1Token::Equal)
    } else if c == '!' && d == '=' {
        Some(C1Token::NotEqual)
    } else if c == '<' && d == '=' {
        Some(C1Token::LessEqual)
    } else if c == '>' && d == '=' {
        Some(C1Token::GreaterEqual)
    } else if c == '&' && d == '&' {
        Some(C1Token::And)
    } else if c == '|' && d == '|' {
        Some(C1Token::Or)
    } else {
        None
    }
}

/// The operator or punctuation spelled by the one character `c`, if any.
pub open spec fn single_kind(c: char) -> Option<C1Token> {
    if c == '=' {
        Some(C1Token::Assign)
    } else if c == '<' {
        Some(C1Token::Less)
    } else if c == '>' {
        Some(C1Token::Greater)
    } else if c == '+' {
        Some(C1Token::Plus)
    } else if c == '-' {
        Some(C1Token::Minus)
    } else if c == '*' {
        Some(C1Token::Asterisk)
    } else if c == '/' {
        Some(C1Token::Slash)
    } else if c == '(' {
        Some(C1Token::LeftParenthesis)
    } else if c == ')' {
        Some(C1Token::RightParenthesis)
    } else if c == '{' {
        Some(C1Token::LeftBrace)
    } else if c == '}' {
        Some(C1Token::RightBrace)
    } else if c == ';' {
        Some(C1Token::Semicolon)
    } else {
        None
    }
}

/// The longest token that starts at `i`: its category and where it ends.
/// A character that starts no token is a one-character `Error`.
pub open spec fn scan(s: Seq<char>, i: int) -> (C1Token, int) {
    let c = s[i];
    if is_letter(c) {
        let e = word_end(s, i + 1);
        (word_kind(s.subrange(i, e)), e)
    } else if is_digit(c) {
        let e = digits_end(s, i + 1);
        if e + 1 < s.len() && s[e] == '.' && is_digit(s[e + 1]) {
            (C1Token::ConstFloat, digits_end(s, e + 2))
        } else {
            (C1Token::ConstInt, e)
        }
    } else if c == '.' && i + 1 < s.len() && is_digit(s[i + 1]) {
        (C1Token::ConstFloat, digits_end(s, i + 2))
    } else if i + 1 < s.len() && double_kind(c, s[i + 1]) is Some {
        (double_kind(c, s[i + 1])->0, i + 2)
    } else if single_kind(c) is Some {
        (single_kind(c)->0, i + 1)
    } else {
        (C1Token::Error, i + 1)
    }
}

/// Adds `ls` in front of the tokens of a lexing result.
pub open spec fn prepend(ls: Seq<Lexeme>, r: (Seq<Lexeme>, nat)) -> (Seq<Lexeme>, nat) {
    (ls + r.0, r.1)
}

/// The tokens of `s` from position `i` on, where `i` is on line `line`, and the
/// line on which the input ends. Blanks, line breaks, `// ...` comments and
/// `/* ... */` comments separate tokens; an unterminated `/*` comment is one
/// `Error` token that reaches the end of the input.
pub open spec fn lex_from(s: Seq<char>, i: int, line: nat) -> (Seq<Lexeme>, nat)
    decreases s.len() - i, 0nat,
{
    if i < 0 || i >= s.len() {
        (seq![], line)
    } else if s[i] == '\n' {
        lex_from(s, i + 1, line + 1)
    } else if is_blank(s[i]) {
        lex_from(s, i + 1, line)
    } else if pair_at(s, i, '/', '/') {
        lex_line_comment(s, i + 2, line)
    } else if pair_at(s, i, '/', '*') {
        lex_block_comment(s, i + 2, line, i, line)
    } else {
        let (k, e) = scan(s, i);
        if i < e <= s.len() {
            prepend(
                seq![Lexeme { token: k, start: i as usize, end: e as usize, line: line as usize }],
                lex_from(s, e, line),
            )
        } else {
            (seq![], line)
        }
    }
}

/// Lexing inside a `// ...` comment, which ends before the next line break.
pub open spec fn lex_line_comment(s: Seq<char>, i: int, line: nat) -> (Seq<Lexeme>, nat)
    decreases s.len() - i, 1nat,
{
    if 0 <= i < s.len() && s[i] != '\n' {
        lex_line_comment(s, i + 1, line)
    } else {
        lex_from(s, i, line)
    }
}

/// Lexing inside a `/* ... */` comment that started at `start` on `start_line`.
pub open spec fn lex_block_comment(s: Seq<char>, i: int, line: nat, start: int, start_line: nat) -> (
    Seq<Lexeme>,
    nat,
)
    decreases s.len() - i, 1nat,
{
    if pair_at(s, i, '*', '/') {
        lex_from(s, i + 2, line)
    } else if 0 <= i < s.len() {
        lex_block_comment(
            s,
            i + 1,
            if s[i] == '\n' {
                line + 1
            } else {
                line
            },
            start,
            start_line,
        )
    } else {
        (
            seq![
                Lexeme {
                    token: C1Token::Error,
                    start: start as usize,
                    end: s.len() as usize,
                    line: start_line as usize,
                },
            ],
            line,
        )
    }
}

/// The categories of a sequence of tokens.
pub open spec fn kinds_of(ls: Seq<Lexeme>) -> Seq<C1Token> {
    ls.map_values(|l: Lexeme| l.token)
}

/// The text of token `p` of `ls` in `s`, empty past the last token.
pub open spec fn text_of(s: Seq<char>, ls: Seq<Lexeme>, p: int) -> Seq<char> {
    if 0 <= p < ls.len() {
        s.subrange(ls[p].start as int, ls[p].end as int)
    } else {
        Seq::empty()
    }
}

/// The line of token `p` of `ls`; past the last token, `end_line`.
pub open spec fn line_of(ls: Seq<Lexeme>, end_line: nat, p: int) -> nat {
    if 0 <= p < ls.len() {
        ls[p].line as nat
    } else {
        end_line
    }
}

/// The tokens of a whole source text, and the line on which it ends.
pub open spec fn lex(s: Seq<char>) -> (Seq<Lexeme>, nat) {
    lex_from(s, 0, 1)
}

} // verus!
