use vstd::prelude::*;
use crate::token::{C1Token, Lexeme};
use crate::lexer_spec::{
    double_kind, is_blank, is_digit, is_letter, lex, lex_block_comment, lex_from, lex_line_comment,
    prepend, scan, single_kind, word_end, digits_end, word_kind,
};

verus! {

/// The characters of `s`, in order.
pub fn collect_chars(s: &str) -> (r: Vec<char>)
    ensures
        r@ == s@,
{
    let mut out: Vec<char> = Vec::new();
    for c in it: s.chars()
        invariant
            it.seq() == s@,
            out@ == it.seq().take(it.index() as int),
    {
        out.push(c);
    }
    out
}

fn blank(c: char) -> (r: bool)
    ensures
        r == is_blank(c),
{
    c == ' ' || c == '\t' || c == '\r' || c == '\x0c'
}

fn letter(c: char) -> (r: bool)
    ensures
        r == is_letter(c),
{
    ('a' <= c && c <= 'z') || ('A' <= c && c <= 'Z') || c == '_'
}

fn digit(c: char) -> (r: bool)
    ensures
        r == is_digit(c),
{
    '0' <= c && c <= '9'
}

/// Whether the characters `start..end` of `cs` spell `w`.
fn same_word(cs: &Vec<char>, start: usize, end: usize, w: &[char]) -> (r: bool)
    requires
        start <= end <= cs.len(),
    ensures
        r == (cs@.subrange(start as int, end as int) == w@),
{
    if end - start != w.len() {
        return false;
    }
    let mut k: usize = 0;
    while k < w.len()
        invariant
            k <= w.len(),
            end - start == w.len(),
            start <= end <= cs.len(),
            forall|j: int| 0 <= j < k ==> cs@[start + j] == w@[j],
        decreases w.len() - k,
    {
        if cs[start + k] != w[k] {
            assert(cs@.subrange(start as int, end as int)[k as int] != w@[k as int]);
            return false;
        }
        k = k + 1;
    }
    assert(cs@.subrange(start as int, end as int) =~= w@);
    true
}

fn word_kind_of(cs: &Vec<char>, start: usize, end: usize) -> (r: C1Token)
    requires
        start <= end <= cs.len(),
    ensures
        r == word_kind(cs@.subrange(start as int, end as int)),
{
    if same_word(cs, start, end, &['i', 'f']) {
        C1Token::KwIf
    } else if same_word(cs, start, end, &['r', 'e', 't', 'u', 'r', 'n']) {
        C1Token::KwReturn
    } else if same_word(cs, start, end, &['p', 'r', 'i', 'n', 't', 'f']) {
        C1Token::KwPrintf
    } else if same_word(cs, start, end, &['b', 'o', 'o', 'l', 'e', 'a', 'n']) {
        C1Token::KwBoolean
    } else if same_word(cs, start, end, &['f', 'l', 'o', 'a', 't']) {
        C1Token::KwFloat
    } else if same_word(cs, start, end, &['i', 'n', 't']) {
        C1Token::KwInt
    } else if same_word(cs, start, end, &['v', 'o', 'i', 'd']) {
        C1Token::KwVoid
    } else if same_word(cs, start, end, &['t', 'r', 'u', 'e']) || same_word(
        cs,
        start,
        end,
        &['f', 'a', 'l', 's', 'e'],
    ) {
        C1Token::ConstBoolean
    } else {
        C1Token::Identifier
    }
}

fn skip_word(cs: &Vec<char>, i: usize) -> (r: usize)
    requires
        i <= cs.len(),
    ensures
        r == word_end(cs@, i as int),
        i <= r <= cs.len(),
{
    let mut j = i;
    while j < cs.len() && (letter(cs[j]) || digit(cs[j]))
        invariant
            i <= j <= cs.len(),
            word_end(cs@, i as int) == word_end(cs@, j as int),
        decreases cs.len() - j,
    {
        j = j + 1;
    }
    j
}

fn skip_digits(cs: &Vec<char>, i: usize) -> (r: usize)
    requires
        i <= cs.len(),
    ensures
        r == digits_end(cs@, i as int),
        i <= r <= cs.len(),
{
    let mut j = i;
    while j < cs.len() && digit(cs[j])
        invariant
            i <= j <= cs.len(),
            digits_end(cs@, i as int) == digits_end(cs@, j as int),
        decreases cs.len() - j,
    {
        j = j + 1;
    }
    j
}

fn double_kind_of(c: char, d: char) -> (r: Option<C1Token>)
    ensures
        r == double_kind(c, d),
{
    if c == '=' && d == '=' {
        Some(C1Token::Equal)
    } else if c == '!' && d == '=' {
        Some(C1Token::NotEqual)
    } else if c == '<' && d == '=' {
        Some(C1Token::LessEqual)
    } else if c == '>' && d == '=' {
        Some(C1Token::GreaterEqual)
    } else if c == '&' && d == '&' {
        Some(C1Token::And)
    } else if c == '|' && d == '|' {
        Some(C1Token::Or)
    } else {
        None
    }
}

fn single_kind_of(c: char) -> (r: Option<C1Token>)
    ensures
        r == single_kind(c),
{
    if c == '=' {
        Some(C1Token::Assign)
    } else if c == '<' {
        Some(C1Token::Less)
    } else if c == '>' {
        Some(C1Token::Greater)
    } else if c == '+' {
        Some(C1Token::Plus)
    } else if c == '-' {
        Some(C1Token::Minus)
    } else if c == '*' {
        Some(C1Token::Asterisk)
    } else if c == '/' {
        Some(C1Token::Slash)
    } else if c == '(' {
        Some(C1Token::LeftParenthesis)
    } else if c == ')' {
        Some(C1Token::RightParenthesis)
    } else if c == '{' {
        Some(C1Token::LeftBrace)
    } else if c == '}' {
        Some(C1Token::RightBrace)
    } else if c == ';' {
        Some(C1Token::Semicolon)
    } else {
        None
    }
}

/// Scans the longest token that starts at `i`.
fn scan_token(cs: &Vec<char>, i: usize) -> (r: (C1Token, usize))
    requires
        i < cs.len(),
    ensures
        r.0 == scan(cs@, i as int).0,
        r.1 == scan(cs@, i as int).1,
        i < r.1 <= cs.len(),
{
    let n = cs.len();
    let c = cs[i];
    if letter(c) {
        let e = skip_word(cs, i + 1);
        (word_kind_of(cs, i, e), e)
    } else if digit(c) {
        let e = skip_digits(cs, i + 1);
        if n - e > 1 && cs[e] == '.' && digit(cs[e + 1]) {
            (C1Token::ConstFloat, skip_digits(cs, e + 2))
        } else {
            (C1Token::ConstInt, e)
        }
    } else if c == '.' && i + 1 < n && digit(cs[i + 1]) {
        (C1Token::ConstFloat, skip_digits(cs, i + 2))
    } else {
        let two = if i + 1 < n {
            double_kind_of(c, cs[i + 1])
        } else {
            None
        };
        match two {
            Some(k) => (k, i + 2),
            None => match single_kind_of(c) {
                Some(k) => (k, i + 1),
                None => (C1Token::Error, i + 1),
            },
        }
    }
}

/// Splits `cs` into its tokens; also returns the line on which the input ends.
pub fn tokenize(cs: &Vec<char>) -> (r: (Vec<Lexeme>, usize))
    requires
        cs.len() < usize::MAX,
    ensures
        r.0@ == lex(cs@).0,
        r.1 == lex(cs@).1,
{
    let n = cs.len();
    let mut out: Vec<Lexeme> = Vec::new();
    let mut i: usize = 0;
    let mut line: usize = 1;
    while i < n
        invariant
            n == cs.len(),
            n < usize::MAX,
            i <= n,
            1 <= line <= i + 1,
            lex(cs@) == prepend(out@, lex_from(cs@, i as int, line as nat)),
        decreases n - i,
    {
        let c = cs[i];
        if c == '\n' {
            i = i + 1;
            line = line + 1;
        } else if blank(c) {
            i = i + 1;
        } else if c == '/' && i + 1 < n && cs[i + 1] == '/' {
            let mut j = i + 2;
            while j < n && cs[j] != '\n'
                invariant
                    i + 2 <= j <= n,
                    n == cs.len(),
                    lex_from(cs@, i as int, line as nat) == lex_line_comment(cs@, j as int, line as nat),
                decreases n - j,
            {
                j = j + 1;
            }
            i = j;
        } else if c == '/' && i + 1 < n && cs[i + 1] == '*' {
            let start = i;
            let start_line = line;
            let mut j = i + 2;
            let mut closed = false;
            while j < n && !closed
                invariant
                    i + 2 <= j <= n,
                    n == cs.len(),
                    n < usize::MAX,
                    1 <= line <= j + 1,
                    !closed ==> lex_from(cs@, i as int, start_line as nat) == lex_block_comment(
                        cs@,
                        j as int,
                        line as nat,
                        start as int,
                        start_line as nat,
                    ),
                    closed ==> lex_from(cs@, i as int, start_line as nat) == lex_from(cs@, j as int, line as nat),
                decreases n - j,
            {
                if j + 1 < n && cs[j] == '*' && cs[j + 1] == '/' {
                    j = j + 2;
                    closed = true;
                } else {
                    if cs[j] == '\n' {
                        line = line + 1;
                    }
                    j = j + 1;
                }
            }
            if !closed {
                let err = Lexeme { token: C1Token::Error, start, end: n, line: start_line };
                let ghost before = out@;
                out.push(err);
                assert(out@ + lex_from(cs@, n as int, line as nat).0 =~= before + seq![err]);
            }
            i = j;
        } else {
            let (k, e) = scan_token(cs, i);
            let lx = Lexeme { token: k, start: i, end: e, line };
            let ghost before = out@;
            out.push(lx);
            assert(out@ + lex_from(cs@, e as int, line as nat).0 =~= before + (seq![lx] + lex_from(
                cs@,
                e as int,
                line as nat,
            ).0));
            i = e;
        }
    }
    assert(out@ + seq![] =~= out@);
    (out, line)
}

} // verus!
