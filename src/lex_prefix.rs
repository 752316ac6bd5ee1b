//! Lexing a text cut at the start of its last token gives the same tokens
//! without the last one.
use vstd::prelude::*;
use crate::lexer_spec::{
    digits_end, is_blank, is_word_char, lex_block_comment, lex_from, lex_line_comment, pair_at, scan,
    word_end,
};
use crate::token::Lexeme;

verus! {

/// Every token from index `i` on starts at `i` or later.
pub proof fn lemma_starts_from(s: Seq<char>, i: int, line: nat)
    requires
        0 <= i,
        s.len() < usize::MAX,
    ensures
        forall|k: int|
            0 <= k < lex_from(s, i, line).0.len() ==> #[trigger] lex_from(s, i, line).0[k].start >= i,
    decreases s.len() - i, 0nat,
{
    if i >= s.len() {
    } else if s[i] == '\n' || is_blank(s[i]) {
        lemma_starts_from(s, i + 1, if s[i] == '\n' { line + 1 } else { line });
    } else if pair_at(s, i, '/', '/') {
        lemma_starts_line(s, i + 2, line);
    } else if pair_at(s, i, '/', '*') {
        lemma_starts_block(s, i + 2, line, i, line);
    } else {
        let (k, e) = scan(s, i);
        if i < e <= s.len() {
            lemma_starts_from(s, e, line);
            let head = Lexeme { token: k, start: i as usize, end: e as usize, line: line as usize };
            let r = lex_from(s, e, line).0;
            assert forall|j: int| 0 <= j < (seq![head] + r).len() implies #[trigger] (seq![head]
                + r)[j].start >= i by {
                if j > 0 {
                    assert((seq![head] + r)[j] == r[j - 1]);
                }
            }
        }
    }
}

pub proof fn lemma_starts_line(s: Seq<char>, j: int, line: nat)
    requires
        0 <= j,
        s.len() < usize::MAX,
    ensures
        forall|k: int|
            0 <= k < lex_line_comment(s, j, line).0.len() ==> #[trigger] lex_line_comment(
                s,
                j,
                line,
            ).0[k].start >= j,
    decreases s.len() - j, 1nat,
{
    if 0 <= j < s.len() && s[j] != '\n' {
        lemma_starts_line(s, j + 1, line);
    } else {
        lemma_starts_from(s, j, line);
    }
}

/// Inside a comment, the tokens start after the current position, but for
/// the one `Error` token of an unterminated comment.
pub proof fn lemma_starts_block(s: Seq<char>, j: int, line: nat, start: int, start_line: nat)
    requires
        0 <= start,
        start + 2 <= j <= s.len(),
        s.len() < usize::MAX,
    ensures
        ({
            let r = lex_block_comment(s, j, line, start, start_line).0;
            (r.len() == 1 && r[0].start == start) || forall|k: int|
                0 <= k < r.len() ==> #[trigger] r[k].start >= j
        }),
    decreases s.len() - j, 1nat,
{
    if pair_at(s, j, '*', '/') {
        lemma_starts_from(s, j + 2, line);
    } else if 0 <= j < s.len() {
        lemma_starts_block(s, j + 1, if s[j] == '\n' { line + 1 } else { line }, start, start_line);
    }
}

/// A token that `scan` finds ends after it starts, within the text.
pub proof fn lemma_scan_advances(s: Seq<char>, i: int)
    requires
        0 <= i < s.len(),
    ensures
        i < scan(s, i).1 <= s.len(),
{
    lemma_word_end_bounds(s, i + 1);
    lemma_digits_end_bounds(s, i + 1);
    if i + 2 <= s.len() {
        lemma_digits_end_bounds(s, i + 2);
    }
    let e1 = digits_end(s, i + 1);
    if e1 + 2 <= s.len() {
        lemma_digits_end_bounds(s, e1 + 2);
    }
}

proof fn lemma_word_end_prefix(s: Seq<char>, c: int, j: int)
    requires
        0 <= j,
        word_end(s, j) <= c <= s.len(),
    ensures
        word_end(s.subrange(0, c), j) == word_end(s, j),
        word_end(s, j) >= j,
    decreases s.len() - j,
{
    if j < s.len() && is_word_char(s[j]) {
        lemma_word_end_prefix(s, c, j + 1);
        assert(s.subrange(0, c)[j] == s[j]);
    } else if j < c {
        assert(s.subrange(0, c)[j] == s[j]);
    }
}

proof fn lemma_digits_end_prefix(s: Seq<char>, c: int, j: int)
    requires
        0 <= j,
        digits_end(s, j) <= c <= s.len(),
    ensures
        digits_end(s.subrange(0, c), j) == digits_end(s, j),
        digits_end(s, j) >= j,
    decreases s.len() - j,
{
    if j < s.len() && crate::lexer_spec::is_digit(s[j]) {
        lemma_digits_end_prefix(s, c, j + 1);
        assert(s.subrange(0, c)[j] == s[j]);
    } else if j < c {
        assert(s.subrange(0, c)[j] == s[j]);
    }
}

pub proof fn lemma_digits_end_bounds(s: Seq<char>, j: int)
    requires
        0 <= j <= s.len(),
    ensures
        j <= digits_end(s, j) <= s.len(),
    decreases s.len() - j,
{
    if j < s.len() && crate::lexer_spec::is_digit(s[j]) {
        lemma_digits_end_bounds(s, j + 1);
    }
}

pub proof fn lemma_word_end_bounds(s: Seq<char>, j: int)
    requires
        0 <= j <= s.len(),
    ensures
        j <= word_end(s, j) <= s.len(),
    decreases s.len() - j,
{
    if j < s.len() && is_word_char(s[j]) {
        lemma_word_end_bounds(s, j + 1);
    }
}

/// A token that ends at or before the cut is scanned the same in the cut text.
proof fn lemma_scan_prefix(s: Seq<char>, c: int, i: int)
    requires
        0 <= i < c <= s.len(),
        scan(s, i).1 <= c,
    ensures
        scan(s.subrange(0, c), i) == scan(s, i),
{
    let s2 = s.subrange(0, c);
    assert(s2[i] == s[i]);
    let ch = s[i];
    if crate::lexer_spec::is_letter(ch) {
        let e = word_end(s, i + 1);
        lemma_word_end_prefix(s, c, i + 1);
        assert(s2.subrange(i, e) =~= s.subrange(i, e));
    } else if crate::lexer_spec::is_digit(ch) {
        let e1 = digits_end(s, i + 1);
        lemma_digits_end_bounds(s, i + 1);
        if e1 + 1 < s.len() && s[e1] == '.' && crate::lexer_spec::is_digit(s[e1 + 1]) {
            lemma_digits_end_bounds(s, e1 + 2);
            lemma_digits_end_prefix(s, c, i + 1);
            lemma_digits_end_prefix(s, c, e1 + 2);
            assert(s2[e1] == s[e1]);
            assert(s2[e1 + 1] == s[e1 + 1]);
        } else {
            lemma_digits_end_prefix(s, c, i + 1);
            if e1 + 1 < c {
                assert(s2[e1] == s[e1]);
                assert(s2[e1 + 1] == s[e1 + 1]);
            }
        }
    } else if ch == '.' && i + 1 < s.len() && crate::lexer_spec::is_digit(s[i + 1]) {
        lemma_digits_end_bounds(s, i + 2);
        lemma_digits_end_prefix(s, c, i + 2);
        assert(s2[i + 1] == s[i + 1]);
    } else if i + 1 < c {
        assert(s2[i + 1] == s[i + 1]);
    }
}

/// Cutting the text at the start `c` of the last token from index `i` on drops
/// exactly that token.
pub proof fn lemma_prefix_from(s: Seq<char>, c: int, i: int, line: nat)
    requires
        0 <= i <= c <= s.len(),
        s.len() < usize::MAX,
        lex_from(s, i, line).0.len() > 0,
        lex_from(s, i, line).0.last().start == c,
    ensures
        lex_from(s.subrange(0, c), i, line).0 == lex_from(s, i, line).0.drop_last(),
    decreases s.len() - i, 0nat,
{
    let s2 = s.subrange(0, c);
    let r = lex_from(s, i, line).0;
    if i == c {
        if s[i] == '\n' || is_blank(s[i]) {
            lemma_starts_from(s, i + 1, if s[i] == '\n' { line + 1 } else { line });
        } else if pair_at(s, i, '/', '/') {
            lemma_starts_line(s, i + 2, line);
        } else if pair_at(s, i, '/', '*') {
            lemma_starts_block(s, i + 2, line, i, line);
        } else {
            let (k, e) = scan(s, i);
            lemma_scan_advances(s, i);
            lemma_starts_from(s, e, line);
            let rest = lex_from(s, e, line).0;
            if rest.len() > 0 {
                assert(r.last() == rest.last());
            }
        }
        assert(r.drop_last() =~= Seq::<Lexeme>::empty());
    } else {
        assert(s2[i] == s[i]);
        if s[i] == '\n' || is_blank(s[i]) {
            lemma_prefix_from(s, c, i + 1, if s[i] == '\n' { line + 1 } else { line });
        } else if pair_at(s, i, '/', '/') {
            lemma_starts_line(s, i + 2, line);
            assert(s2[i + 1] == s[i + 1]);
            lemma_prefix_line(s, c, i + 2, line);
        } else if pair_at(s, i, '/', '*') {
            lemma_starts_block(s, i + 2, line, i, line);
            assert(s2[i + 1] == s[i + 1]);
            lemma_prefix_block(s, c, i + 2, line, i, line);
        } else {
            if i + 1 < c {
                assert(s2[i + 1] == s[i + 1]);
            }
            let (k, e) = scan(s, i);
            lemma_scan_advances(s, i);
            lemma_starts_from(s, e, line);
            let rest = lex_from(s, e, line).0;
            let head = Lexeme { token: k, start: i as usize, end: e as usize, line: line as usize };
            assert(r == seq![head] + rest);
            assert(rest.len() > 0);
            assert(r.last() == rest.last());
            assert(rest[rest.len() - 1].start >= e);
            lemma_scan_prefix(s, c, i);
            lemma_prefix_from(s, c, e, line);
            assert((seq![head] + rest).drop_last() =~= seq![head] + rest.drop_last());
        }
    }
}

pub proof fn lemma_prefix_line(s: Seq<char>, c: int, j: int, line: nat)
    requires
        0 <= j,
        c <= s.len(),
        s.len() < usize::MAX,
        lex_line_comment(s, j, line).0.len() > 0,
        lex_line_comment(s, j, line).0.last().start == c,
    ensures
        lex_line_comment(s.subrange(0, c), j, line).0 == lex_line_comment(s, j, line).0.drop_last(),
    decreases s.len() - j, 1nat,
{
    let r = lex_line_comment(s, j, line).0;
    lemma_starts_line(s, j, line);
    assert(r[r.len() - 1].start >= j);
    if 0 <= j < s.len() && s[j] != '\n' {
        lemma_starts_line(s, j + 1, line);
        assert(r[r.len() - 1].start >= j + 1);
        assert(s.subrange(0, c)[j] == s[j]);
        lemma_prefix_line(s, c, j + 1, line);
    } else {
        lemma_prefix_from(s, c, j, line);
    }
}

pub proof fn lemma_prefix_block(s: Seq<char>, c: int, j: int, line: nat, start: int, start_line: nat)
    requires
        0 <= start < c,
        start + 2 <= j,
        c <= s.len(),
        s.len() < usize::MAX,
        lex_block_comment(s, j, line, start, start_line).0.len() > 0,
        lex_block_comment(s, j, line, start, start_line).0.last().start == c,
    ensures
        lex_block_comment(s.subrange(0, c), j, line, start, start_line).0 == lex_block_comment(
            s,
            j,
            line,
            start,
            start_line,
        ).0.drop_last(),
    decreases s.len() - j, 1nat,
{
    let s2 = s.subrange(0, c);
    let r = lex_block_comment(s, j, line, start, start_line).0;
    if pair_at(s, j, '*', '/') {
        lemma_starts_from(s, j + 2, line);
        assert(r[r.len() - 1].start >= j + 2);
        assert(s2[j] == s[j]);
        assert(s2[j + 1] == s[j + 1]);
        lemma_prefix_from(s, c, j + 2, line);
    } else if 0 <= j < s.len() {
        let next = if s[j] == '\n' { line + 1 } else { line };
        lemma_starts_block(s, j + 1, next, start, start_line);
        assert(r[r.len() - 1].start >= j + 1);
        assert(s2[j] == s[j]);
        if j + 1 < c {
            assert(s2[j + 1] == s[j + 1]);
        }
        lemma_prefix_block(s, c, j + 1, next, start, start_line);
    }
}

} // verus!
