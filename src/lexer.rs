use vstd::prelude::*;
use vstd::string::StrSliceExecFns;
use crate::token::{C1Token, Lexeme};
use crate::lexer_spec::{
    kinds_of, lex, lex_block_comment, lex_from, lex_line_comment, line_of, scan, text_of,
};
use crate::rules::tok;
use crate::scan::{collect_chars, tokenize};

verus! {

/// Every token that `lex_from` yields covers a non-empty range inside `s`.
proof fn lemma_lex_from_in_bounds(s: Seq<char>, i: int, line: nat)
    requires
        s.len() < usize::MAX,
    ensures
        forall|k: int|
            0 <= k < lex_from(s, i, line).0.len() ==> {
                let l = #[trigger] lex_from(s, i, line).0[k];
                l.start < l.end <= s.len()
            },
    decreases s.len() - i, 0nat,
{
    if i < 0 || i >= s.len() {
    } else if s[i] == '\n' {
        lemma_lex_from_in_bounds(s, i + 1, line + 1);
    } else if crate::lexer_spec::is_blank(s[i]) {
        lemma_lex_from_in_bounds(s, i + 1, line);
    } else if crate::lexer_spec::pair_at(s, i, '/', '/') {
        lemma_line_comment_in_bounds(s, i + 2, line);
    } else if crate::lexer_spec::pair_at(s, i, '/', '*') {
        lemma_block_comment_in_bounds(s, i + 2, line, i, line);
    } else {
        let (k, e) = scan(s, i);
        if i < e <= s.len() {
            lemma_lex_from_in_bounds(s, e, line);
            let head = Lexeme { token: k, start: i as usize, end: e as usize, line: line as usize };
            let r = lex_from(s, e, line).0;
            assert forall|j: int| 0 <= j < (seq![head] + r).len() implies {
                let l = #[trigger] (seq![head] + r)[j];
                l.start < l.end <= s.len()
            } by {
                if j > 0 {
                    assert((seq![head] + r)[j] == r[j - 1]);
                }
            }
        }
    }
}

proof fn lemma_line_comment_in_bounds(s: Seq<char>, i: int, line: nat)
    requires
        s.len() < usize::MAX,
    ensures
        forall|k: int|
            0 <= k < lex_line_comment(s, i, line).0.len() ==> {
                let l = #[trigger] lex_line_comment(s, i, line).0[k];
                l.start < l.end <= s.len()
            },
    decreases s.len() - i, 1nat,
{
    if 0 <= i < s.len() && s[i] != '\n' {
        lemma_line_comment_in_bounds(s, i + 1, line);
    } else {
        lemma_lex_from_in_bounds(s, i, line);
    }
}

proof fn lemma_block_comment_in_bounds(s: Seq<char>, i: int, line: nat, start: int, start_line: nat)
    requires
        s.len() < usize::MAX,
        0 <= start,
        start + 2 <= i <= s.len(),
    ensures
        forall|k: int|
            0 <= k < lex_block_comment(s, i, line, start, start_line).0.len() ==> {
                let l = #[trigger] lex_block_comment(s, i, line, start, start_line).0[k];
                l.start < l.end <= s.len()
            },
    decreases s.len() - i, 1nat,
{
    if crate::lexer_spec::pair_at(s, i, '*', '/') {
        lemma_lex_from_in_bounds(s, i + 2, line);
    } else if 0 <= i < s.len() {
        lemma_block_comment_in_bounds(
            s,
            i + 1,
            if s[i] == '\n' {
                line + 1
            } else {
                line
            },
            start,
            start_line,
        );
    }
}

/// Every token of `s` covers a non-empty range inside `s`.
pub proof fn lemma_lex_in_bounds(s: Seq<char>)
    requires
        s.len() < usize::MAX,
    ensures
        forall|k: int|
            0 <= k < lex(s).0.len() ==> {
                let l = #[trigger] lex(s).0[k];
                l.start < l.end <= s.len()
            },
{
    lemma_lex_from_in_bounds(s, 0, 1);
}

/// A token source over one source text: the current token, one token of
/// lookahead, and the text and line of the current token. The tokens are
/// read once, when the lexer is made, so the lookahead never changes.
pub struct C1Lexer<'a> {
    source: &'a str,
    lexemes: Vec<Lexeme>,
    pos: usize,
    end_line: usize,
}

impl<'a> C1Lexer<'a> {
    /// The text that is being read.
    pub closed spec fn source(&self) -> Seq<char> {
        self.source@
    }

    /// All tokens of the source, consumed or not.
    pub closed spec fn lexemes(&self) -> Seq<Lexeme> {
        self.lexemes@
    }

    /// The categories of all tokens of the source.
    pub open spec fn kinds(&self) -> Seq<C1Token> {
        kinds_of(self.lexemes())
    }

    /// The index of the current token; the number of tokens at the end of the input.
    pub closed spec fn pos(&self) -> int {
        self.pos as int
    }

    /// The line on which the source ends.
    pub closed spec fn end_line(&self) -> nat {
        self.end_line as nat
    }

    /// The tokens are those of the source, and the current one is among them
    /// or just past the last.
    pub open spec fn wf(&self) -> bool {
        &&& self.source().len() < usize::MAX
        &&& lex(self.source()) == (self.lexemes(), self.end_line())
        &&& 0 <= self.pos() <= self.lexemes().len()
    }

    /// The category of the token at index `p`, `None` past the end.
    pub open spec fn token_at(&self, p: int) -> Option<C1Token> {
        tok(self.kinds(), p)
    }

    /// The text of the token at index `p`, empty past the end.
    pub open spec fn text_at(&self, p: int) -> Seq<char> {
        text_of(self.source(), self.lexemes(), p)
    }

    /// The line of the token at index `p`; past the end, the line on which the source ends.
    pub open spec fn line_at(&self, p: int) -> nat {
        line_of(self.lexemes(), self.end_line(), p)
    }

    /// Reads the tokens of `input`; the first one is current.
    pub fn new(input: &'a str) -> (r: Self)
        requires
            input@.len() < usize::MAX,
        ensures
            r.wf(),
            r.source() == input@,
            r.lexemes() == lex(input@).0,
            r.end_line() == lex(input@).1,
            r.pos() == 0,
    {
        let cs = collect_chars(input);
        let (lexemes, end_line) = tokenize(&cs);
        C1Lexer { source: input, lexemes, pos: 0, end_line }
    }

    /// The category of the current token; `None` at the end of the input.
    pub fn current_token(&self) -> (r: Option<C1Token>)
        requires
            self.wf(),
        ensures
            r == self.token_at(self.pos()),
    {
        if self.pos < self.lexemes.len() {
            Some(self.lexemes[self.pos].token)
        } else {
            None
        }
    }

    /// The category of the token after the current one; `None` if there is none.
    pub fn peek_token(&self) -> (r: Option<C1Token>)
        requires
            self.wf(),
        ensures
            r == self.token_at(self.pos() + 1),
    {
        if self.pos < self.lexemes.len() && self.pos + 1 < self.lexemes.len() {
            Some(self.lexemes[self.pos + 1].token)
        } else {
            None
        }
    }

    /// The text of the current token; empty at the end of the input.
    pub fn current_text(&self) -> (r: &'a str)
        requires
            self.wf(),
        ensures
            r@ == self.text_at(self.pos()),
    {
        if self.pos < self.lexemes.len() {
            proof {
                lemma_lex_in_bounds(self.source@);
                assert(self.lexemes@[self.pos as int] == lex(self.source@).0[self.pos as int]);
            }
            let l = self.lexemes[self.pos];
            self.source.substring_char(l.start, l.end)
        } else {
            self.source.substring_char(0, 0)
        }
    }

    /// The line of the current token; at the end of the input, the last line.
    pub fn current_line_number(&self) -> (r: usize)
        requires
            self.wf(),
        ensures
            r == self.line_at(self.pos()),
    {
        if self.pos < self.lexemes.len() {
            self.lexemes[self.pos].line
        } else {
            self.end_line
        }
    }

    /// Consumes the current token; does nothing at the end of the input.
    pub fn eat(&mut self)
        requires
            old(self).wf(),
        ensures
            final(self).wf(),
            final(self).source() == old(self).source(),
            final(self).lexemes() == old(self).lexemes(),
            final(self).end_line() == old(self).end_line(),
            final(self).pos() == if old(self).pos() < old(self).lexemes().len() {
                old(self).pos() + 1
            } else {
                old(self).pos()
            },
    {
        if self.pos < self.lexemes.len() {
            self.pos = self.pos + 1;
        }
    }
}

} // verus!
