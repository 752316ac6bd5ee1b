//! Whatever the recognizer accepts is derived by the grammar.
use vstd::prelude::*;
use crate::grammar::{
    span,
    derives_assignment, derives_block, derives_expr, derives_factor, derives_funcdef, derives_funcdefs,
    derives_if, derives_simpexpr, derives_statement, derives_statementlist, derives_sum, derives_term,
};
use crate::rules::{
    assignment, block, expr, factor, funcdef, funcdefs, if_stmt, simpexpr, simpexpr_tail, statement,
    statementlist, sum, term, term_tail, tok,
};
use crate::token::C1Token;

verus! {

pub proof fn lemma_sound_factor(t: Seq<C1Token>, p: int, d: nat)
    ensures
        factor(t, p, d) is Ok ==> derives_factor(t, p, factor(t, p, d)->Ok_0),
    decreases t.len() - p, 0nat,
{
    if tok(t, p) == Some(C1Token::LeftParenthesis) {
        lemma_sound_assignment(t, p + 1, d + 1);
    }
}

pub proof fn lemma_sound_term_tail(t: Seq<C1Token>, a: int, d: nat)
    ensures
        term_tail(t, a, d) is Ok ==> {
            let q = term_tail(t, a, d)->Ok_0;
            q == a || (crate::grammar::mulop_at(t, a) && derives_term(t, a + 1, q))
        },
    decreases t.len() - a, 0nat,
{
    if 0 <= a < t.len() && crate::token::is_mulop(t[a]) {
        lemma_sound_factor(t, a + 1, d);
        if let Ok(b) = factor(t, a + 1, d) {
            if a + 1 < b <= t.len() {
                lemma_sound_term_tail(t, b, d);
                if let Ok(q) = term_tail(t, b, d) {
                    assert(derives_factor(t, a + 1, b));
                    if q == b {
                        assert(derives_term(t, a + 1, q));
                    } else {
                        assert(derives_term(t, b + 1, q));
                        assert(span(t, a + 1, q));
                        assert(derives_term(t, a + 1, q));
                    }
                }
            }
        }
    }
}

pub proof fn lemma_sound_term(t: Seq<C1Token>, p: int, d: nat)
    ensures
        term(t, p, d) is Ok ==> derives_term(t, p, term(t, p, d)->Ok_0),
    decreases t.len() - p, 1nat,
{
    lemma_sound_factor(t, p, d);
    if let Ok(a) = factor(t, p, d) {
        if p < a <= t.len() {
            lemma_sound_term_tail(t, a, d);
            if let Ok(q) = term_tail(t, a, d) {
                assert(derives_factor(t, p, a));
                assert(derives_term(t, p, q));
            }
        }
    }
}

pub proof fn lemma_sound_sum_tail(t: Seq<C1Token>, a: int, d: nat)
    ensures
        simpexpr_tail(t, a, d) is Ok ==> {
            let q = simpexpr_tail(t, a, d)->Ok_0;
            q == a || (crate::grammar::addop_at(t, a) && derives_sum(t, a + 1, q))
        },
    decreases t.len() - a, 0nat,
{
    if 0 <= a < t.len() && crate::token::is_addop(t[a]) {
        lemma_sound_term(t, a + 1, d);
        if let Ok(b) = term(t, a + 1, d) {
            if a + 1 < b <= t.len() {
                lemma_sound_sum_tail(t, b, d);
                if let Ok(q) = simpexpr_tail(t, b, d) {
                    assert(derives_term(t, a + 1, b));
                    assert(derives_sum(t, a + 1, q));
                }
            }
        }
    }
}

pub proof fn lemma_sound_sum(t: Seq<C1Token>, p: int, d: nat)
    ensures
        sum(t, p, d) is Ok ==> derives_sum(t, p, sum(t, p, d)->Ok_0),
    decreases t.len() - p, 2nat,
{
    lemma_sound_term(t, p, d);
    if let Ok(a) = term(t, p, d) {
        if p < a <= t.len() {
            lemma_sound_sum_tail(t, a, d);
            if let Ok(q) = simpexpr_tail(t, a, d) {
                assert(derives_term(t, p, a));
                assert(derives_sum(t, p, q));
            }
        }
    }
}

pub proof fn lemma_sound_simpexpr(t: Seq<C1Token>, p: int, d: nat)
    ensures
        simpexpr(t, p, d) is Ok ==> derives_simpexpr(t, p, simpexpr(t, p, d)->Ok_0),
    decreases t.len() - p, 3nat,
{
    if tok(t, p) == Some(C1Token::Minus) {
        lemma_sound_sum(t, p + 1, d);
    } else {
        lemma_sound_sum(t, p, d);
    }
}

pub proof fn lemma_sound_expr(t: Seq<C1Token>, p: int, d: nat)
    ensures
        expr(t, p, d) is Ok ==> derives_expr(t, p, expr(t, p, d)->Ok_0),
    decreases t.len() - p, 4nat,
{
    lemma_sound_simpexpr(t, p, d);
    if let Ok(a) = simpexpr(t, p, d) {
        if 0 <= a < t.len() && crate::token::is_relop(t[a]) && p < a {
            lemma_sound_simpexpr(t, a + 1, d);
            if let Ok(q) = simpexpr(t, a + 1, d) {
                assert(crate::grammar::relop_at(t, a));
            }
        }
    }
}

pub proof fn lemma_sound_assignment(t: Seq<C1Token>, p: int, d: nat)
    ensures
        assignment(t, p, d) is Ok ==> derives_assignment(t, p, assignment(t, p, d)->Ok_0),
    decreases t.len() - p, 5nat,
{
    if tok(t, p) == Some(C1Token::Identifier) && tok(t, p + 1) == Some(C1Token::Assign) {
        lemma_sound_assignment(t, p + 2, d);
    } else {
        lemma_sound_expr(t, p, d);
    }
}

pub proof fn lemma_sound_if(t: Seq<C1Token>, p: int, d: nat)
    ensures
        if_stmt(t, p, d) is Ok ==> derives_if(t, p, if_stmt(t, p, d)->Ok_0),
    decreases t.len() - p, 0nat,
{
    if tok(t, p) == Some(C1Token::KwIf) && tok(t, p + 1) == Some(C1Token::LeftParenthesis) {
        lemma_sound_assignment(t, p + 2, d);
        if let Ok(m) = assignment(t, p + 2, d) {
            if tok(t, m) == Some(C1Token::RightParenthesis) && p < m {
                lemma_sound_block(t, m + 1, d + 1);
                if let Ok(q) = block(t, m + 1, d + 1) {
                    assert(derives_assignment(t, p + 2, m));
                }
            }
        }
    }
}

pub proof fn lemma_sound_statement(t: Seq<C1Token>, p: int, d: nat)
    ensures
        statement(t, p, d) is Ok ==> derives_statement(t, p, statement(t, p, d)->Ok_0),
    decreases t.len() - p, 1nat,
{
    lemma_sound_if(t, p, d);
    lemma_sound_assignment(t, p + 1, d);
    lemma_sound_assignment(t, p + 2, d);
}

pub proof fn lemma_sound_block(t: Seq<C1Token>, p: int, d: nat)
    ensures
        block(t, p, d) is Ok ==> derives_block(t, p, block(t, p, d)->Ok_0),
    decreases t.len() - p, 2nat,
{
    if tok(t, p) == Some(C1Token::LeftBrace) {
        lemma_sound_statementlist(t, p + 1, d + 1);
    } else {
        lemma_sound_statement(t, p, d);
    }
}

pub proof fn lemma_sound_statementlist(t: Seq<C1Token>, p: int, d: nat)
    ensures
        statementlist(t, p, d) is Ok ==> derives_statementlist(t, p, statementlist(t, p, d)->Ok_0),
    decreases t.len() - p, 3nat,
{
    if tok(t, p) != Some(C1Token::RightBrace) {
        lemma_sound_block(t, p, d);
        if let Ok(m) = block(t, p, d) {
            if p < m <= t.len() {
                lemma_sound_statementlist(t, m, d);
                if let Ok(q) = statementlist(t, m, d) {
                    assert(crate::grammar::split(p, m, q));
                }
            }
        }
    }
}

pub proof fn lemma_sound_funcdef(t: Seq<C1Token>, p: int)
    ensures
        funcdef(t, p) is Ok ==> derives_funcdef(t, p, funcdef(t, p)->Ok_0),
{
    lemma_sound_statementlist(t, p + 5, 0);
}

pub proof fn lemma_sound_funcdefs(t: Seq<C1Token>, p: int)
    ensures
        funcdefs(t, p) is Ok && 0 <= p < t.len() ==> derives_funcdefs(t, p, t.len() as int),
    decreases t.len() - p,
{
    if 0 <= p < t.len() {
        lemma_sound_funcdef(t, p);
        if let Ok(m) = funcdef(t, p) {
            if p < m {
                lemma_sound_funcdefs(t, m);
                assert(derives_funcdef(t, p, m));
            }
        }
    }
}

} // verus!
