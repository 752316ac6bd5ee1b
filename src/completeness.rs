//! Whatever the grammar derives, the recognizer accepts, given the token that
//! follows the derived range in a program.
use vstd::prelude::*;
use crate::grammar::{
    addop_at, at, derives_assignment, derives_block, derives_expr, derives_factor, derives_funcdef,
    derives_funcdefs, derives_if, derives_simpexpr, derives_statement, derives_statementlist,
    derives_sum, derives_term, mulop_at, relop_at, split,
};
use crate::rules::{
    assignment, block, expr, factor, funcdef, funcdefs, if_stmt, simpexpr, simpexpr_tail, statement,
    statementlist, sum, term, term_tail, tok, Stop,
};
use crate::token::C1Token;

verus! {

/// A token that may follow an assignment: ")" or ";".
pub open spec fn follows_assignment(t: Seq<C1Token>, q: int) -> bool {
    at(t, q, C1Token::RightParenthesis) || at(t, q, C1Token::Semicolon)
}

/// A token that may follow a simpexpr: a relational operator, ")" or ";".
pub open spec fn follows_simpexpr(t: Seq<C1Token>, q: int) -> bool {
    follows_assignment(t, q) || relop_at(t, q)
}

/// A token that may follow a term: an additive operator, or what may follow a simpexpr.
pub open spec fn follows_term(t: Seq<C1Token>, q: int) -> bool {
    follows_simpexpr(t, q) || addop_at(t, q)
}

/// A token that may follow a factor: a multiplicative operator, or what may follow a term.
pub open spec fn follows_factor(t: Seq<C1Token>, q: int) -> bool {
    follows_term(t, q) || mulop_at(t, q)
}

/// `r` is `Ok(q)`, or the recognizer stopped at the nesting bound.
pub open spec fn ok_or_deep(r: Result<int, Stop>, q: int) -> bool {
    r == Ok::<int, Stop>(q) || (r is Err && r->Err_0 is TooDeep)
}

/// A token that may start a term.
pub open spec fn starts_operand(t: Seq<C1Token>, p: int) -> bool {
    ||| at(t, p, C1Token::ConstInt)
    ||| at(t, p, C1Token::ConstFloat)
    ||| at(t, p, C1Token::ConstBoolean)
    ||| at(t, p, C1Token::Identifier)
    ||| at(t, p, C1Token::LeftParenthesis)
}

proof fn lemma_first_term(t: Seq<C1Token>, p: int, q: int)
    requires
        derives_term(t, p, q),
    ensures
        starts_operand(t, p),
{
    if !derives_factor(t, p, q) {
        let m = choose|m: int|
            p < m && m + 1 < q && derives_factor(t, p, m) && #[trigger] mulop_at(t, m)
                && derives_term(t, m + 1, q);
        assert(derives_factor(t, p, m));
    }
}

proof fn lemma_first_sum(t: Seq<C1Token>, p: int, q: int)
    requires
        derives_sum(t, p, q),
    ensures
        starts_operand(t, p),
{
    if derives_term(t, p, q) {
        lemma_first_term(t, p, q);
    } else {
        let m = choose|m: int|
            p < m && m + 1 < q && derives_term(t, p, m) && #[trigger] addop_at(t, m) && derives_sum(
                t,
                m + 1,
                q,
            );
        lemma_first_term(t, p, m);
    }
}

proof fn lemma_first_assignment(t: Seq<C1Token>, p: int, q: int)
    requires
        derives_assignment(t, p, q),
    ensures
        starts_operand(t, p) || at(t, p, C1Token::Minus),
{
    if !at(t, p, C1Token::Identifier) {
        assert(derives_expr(t, p, q));
        let s = if derives_simpexpr(t, p, q) {
            q
        } else {
            choose|m: int|
                p < m && m + 1 < q && derives_simpexpr(t, p, m) && #[trigger] relop_at(t, m)
                    && derives_simpexpr(t, m + 1, q)
        };
        assert(derives_simpexpr(t, p, s));
        if !at(t, p, C1Token::Minus) {
            lemma_first_sum(t, p, s);
        }
    }
}

proof fn lemma_after_id_term(t: Seq<C1Token>, p: int, q: int)
    requires
        derives_term(t, p, q),
        at(t, p, C1Token::Identifier),
    ensures
        q == p + 1 || at(t, p + 1, C1Token::LeftParenthesis) || mulop_at(t, p + 1),
{
    if !derives_factor(t, p, q) {
        let m = choose|m: int|
            p < m && m + 1 < q && derives_factor(t, p, m) && #[trigger] mulop_at(t, m)
                && derives_term(t, m + 1, q);
        assert(derives_factor(t, p, m));
    }
}

proof fn lemma_after_id_sum(t: Seq<C1Token>, p: int, q: int)
    requires
        derives_sum(t, p, q),
        at(t, p, C1Token::Identifier),
    ensures
        q == p + 1 || at(t, p + 1, C1Token::LeftParenthesis) || mulop_at(t, p + 1) || addop_at(t, p + 1),
{
    if derives_term(t, p, q) {
        lemma_after_id_term(t, p, q);
    } else {
        let m = choose|m: int|
            p < m && m + 1 < q && derives_term(t, p, m) && #[trigger] addop_at(t, m) && derives_sum(
                t,
                m + 1,
                q,
            );
        lemma_after_id_term(t, p, m);
    }
}

/// In an expression an identifier is followed by "(", an operator, or nothing:
/// never by "=".
proof fn lemma_after_id_expr(t: Seq<C1Token>, p: int, q: int)
    requires
        derives_expr(t, p, q),
        at(t, p, C1Token::Identifier),
    ensures
        q == p + 1 || at(t, p + 1, C1Token::LeftParenthesis) || mulop_at(t, p + 1) || addop_at(t, p + 1)
            || relop_at(t, p + 1),
{
    let s = if derives_simpexpr(t, p, q) {
        q
    } else {
        choose|m: int|
            p < m && m + 1 < q && derives_simpexpr(t, p, m) && #[trigger] relop_at(t, m)
                && derives_simpexpr(t, m + 1, q)
    };
    assert(derives_simpexpr(t, p, s));
    lemma_after_id_sum(t, p, s);
}

pub proof fn lemma_complete_factor(t: Seq<C1Token>, p: int, q: int, d: nat)
    requires
        derives_factor(t, p, q),
        follows_factor(t, q),
    ensures
        ok_or_deep(factor(t, p, d), q),
    decreases q - p, 0nat,
{
    if at(t, p, C1Token::LeftParenthesis) {
        lemma_complete_assignment(t, p + 1, q - 1, d + 1);
    }
}

pub proof fn lemma_complete_term_tail(t: Seq<C1Token>, a: int, q: int, d: nat)
    requires
        mulop_at(t, a),
        derives_term(t, a + 1, q),
        follows_term(t, q),
    ensures
        ok_or_deep(term_tail(t, a, d), q),
    decreases q - a, 0nat,
{
    if derives_factor(t, a + 1, q) {
        lemma_complete_factor(t, a + 1, q, d);
        assert(term_tail(t, q, d) == Ok::<int, Stop>(q));
    } else {
        let m = choose|m: int|
            a + 1 < m && m + 1 < q && derives_factor(t, a + 1, m) && #[trigger] mulop_at(t, m)
                && derives_term(t, m + 1, q);
        lemma_complete_factor(t, a + 1, m, d);
        lemma_complete_term_tail(t, m, q, d);
    }
}

pub proof fn lemma_complete_term(t: Seq<C1Token>, p: int, q: int, d: nat)
    requires
        derives_term(t, p, q),
        follows_term(t, q),
    ensures
        ok_or_deep(term(t, p, d), q),
    decreases q - p, 1nat,
{
    if derives_factor(t, p, q) {
        lemma_complete_factor(t, p, q, d);
    } else {
        let m = choose|m: int|
            p < m && m + 1 < q && derives_factor(t, p, m) && #[trigger] mulop_at(t, m)
                && derives_term(t, m + 1, q);
        lemma_complete_factor(t, p, m, d);
        lemma_complete_term_tail(t, m, q, d);
    }
}

pub proof fn lemma_complete_sum_tail(t: Seq<C1Token>, a: int, q: int, d: nat)
    requires
        addop_at(t, a),
        derives_sum(t, a + 1, q),
        follows_simpexpr(t, q),
    ensures
        ok_or_deep(simpexpr_tail(t, a, d), q),
    decreases q - a, 0nat,
{
    if derives_term(t, a + 1, q) {
        lemma_complete_term(t, a + 1, q, d);
        assert(simpexpr_tail(t, q, d) == Ok::<int, Stop>(q));
    } else {
        let m = choose|m: int|
            a + 1 < m && m + 1 < q && derives_term(t, a + 1, m) && #[trigger] addop_at(t, m)
                && derives_sum(t, m + 1, q);
        lemma_complete_term(t, a + 1, m, d);
        lemma_complete_sum_tail(t, m, q, d);
    }
}

pub proof fn lemma_complete_sum(t: Seq<C1Token>, p: int, q: int, d: nat)
    requires
        derives_sum(t, p, q),
        follows_simpexpr(t, q),
    ensures
        ok_or_deep(sum(t, p, d), q),
    decreases q - p, 2nat,
{
    if derives_term(t, p, q) {
        lemma_complete_term(t, p, q, d);
    } else {
        let m = choose|m: int|
            p < m && m + 1 < q && derives_term(t, p, m) && #[trigger] addop_at(t, m) && derives_sum(
                t,
                m + 1,
                q,
            );
        lemma_complete_term(t, p, m, d);
        lemma_complete_sum_tail(t, m, q, d);
    }
}

pub proof fn lemma_complete_simpexpr(t: Seq<C1Token>, p: int, q: int, d: nat)
    requires
        derives_simpexpr(t, p, q),
        follows_simpexpr(t, q),
    ensures
        ok_or_deep(simpexpr(t, p, d), q),
    decreases q - p, 3nat,
{
    if at(t, p, C1Token::Minus) {
        if derives_sum(t, p, q) {
            lemma_first_sum(t, p, q);
        }
        lemma_complete_sum(t, p + 1, q, d);
    } else {
        lemma_complete_sum(t, p, q, d);
    }
}

pub proof fn lemma_complete_expr(t: Seq<C1Token>, p: int, q: int, d: nat)
    requires
        derives_expr(t, p, q),
        follows_assignment(t, q),
    ensures
        ok_or_deep(expr(t, p, d), q),
    decreases q - p, 4nat,
{
    if derives_simpexpr(t, p, q) {
        lemma_complete_simpexpr(t, p, q, d);
    } else {
        let m = choose|m: int|
            p < m && m + 1 < q && derives_simpexpr(t, p, m) && #[trigger] relop_at(t, m)
                && derives_simpexpr(t, m + 1, q);
        lemma_complete_simpexpr(t, p, m, d);
        lemma_complete_simpexpr(t, m + 1, q, d);
    }
}

pub proof fn lemma_complete_assignment(t: Seq<C1Token>, p: int, q: int, d: nat)
    requires
        derives_assignment(t, p, q),
        follows_assignment(t, q),
    ensures
        ok_or_deep(assignment(t, p, d), q),
    decreases q - p, 5nat,
{
    if tok(t, p) == Some(C1Token::Identifier) && tok(t, p + 1) == Some(C1Token::Assign) {
        if derives_expr(t, p, q) {
            lemma_after_id_expr(t, p, q);
        }
        lemma_complete_assignment(t, p + 2, q, d);
    } else {
        lemma_complete_expr(t, p, q, d);
    }
}

pub proof fn lemma_complete_if(t: Seq<C1Token>, p: int, q: int, d: nat)
    requires
        derives_if(t, p, q),
    ensures
        ok_or_deep(if_stmt(t, p, d), q),
    decreases q - p, 0nat,
{
    let m = choose|m: int|
        p + 2 < m && m + 1 < q && #[trigger] derives_assignment(t, p + 2, m) && at(
            t,
            m,
            C1Token::RightParenthesis,
        ) && derives_block(t, m + 1, q);
    lemma_complete_assignment(t, p + 2, m, d);
    lemma_complete_block(t, m + 1, q, d + 1);
}

pub proof fn lemma_complete_statement(t: Seq<C1Token>, p: int, q: int, d: nat)
    requires
        derives_statement(t, p, q),
    ensures
        ok_or_deep(statement(t, p, d), q),
    decreases q - p, 1nat,
{
    if at(t, p, C1Token::KwIf) {
        lemma_complete_if(t, p, q, d);
    } else if at(t, p, C1Token::KwReturn) {
        if q != p + 2 {
            lemma_first_assignment(t, p + 1, q - 1);
            lemma_complete_assignment(t, p + 1, q - 1, d);
        }
    } else if at(t, p, C1Token::KwPrintf) {
        lemma_complete_assignment(t, p + 2, q - 2, d);
    } else if at(t, p + 1, C1Token::Assign) {
        lemma_complete_assignment(t, p + 2, q - 1, d);
    }
}

pub proof fn lemma_complete_block(t: Seq<C1Token>, p: int, q: int, d: nat)
    requires
        derives_block(t, p, q),
    ensures
        ok_or_deep(block(t, p, d), q),
    decreases q - p, 2nat,
{
    if at(t, p, C1Token::LeftBrace) {
        if derives_statement(t, p, q) {
            assert(derives_if(t, p, q) ==> at(t, p, C1Token::KwIf));
        }
        lemma_complete_statementlist(t, p + 1, q - 1, d + 1);
    } else {
        lemma_complete_statement(t, p, q, d);
    }
}

pub proof fn lemma_complete_statementlist(t: Seq<C1Token>, p: int, q: int, d: nat)
    requires
        derives_statementlist(t, p, q),
        at(t, q, C1Token::RightBrace),
    ensures
        ok_or_deep(statementlist(t, p, d), q),
    decreases q - p, 3nat,
{
    if p < q {
        let m = choose|m: int|
            #[trigger] split(p, m, q) && derives_block(t, p, m) && derives_statementlist(t, m, q);
        lemma_complete_block(t, p, m, d);
        lemma_complete_statementlist(t, m, q, d);
    }
}

pub proof fn lemma_complete_funcdef(t: Seq<C1Token>, p: int, q: int)
    requires
        derives_funcdef(t, p, q),
    ensures
        ok_or_deep(funcdef(t, p), q),
{
    lemma_complete_statementlist(t, p + 5, q - 1, 0);
}

pub proof fn lemma_complete_funcdefs(t: Seq<C1Token>, p: int)
    requires
        derives_funcdefs(t, p, t.len() as int),
    ensures
        funcdefs(t, p) == Ok::<(), Stop>(()) || (funcdefs(t, p) is Err && funcdefs(t, p)->Err_0 is TooDeep),
    decreases t.len() - p,
{
    if derives_funcdef(t, p, t.len() as int) {
        lemma_complete_funcdef(t, p, t.len() as int);
        assert(funcdefs(t, t.len() as int) == Ok::<(), Stop>(()));
    } else {
        let m = choose|m: int|
            p < m < t.len() && #[trigger] derives_funcdef(t, p, m) && derives_funcdefs(
                t,
                m,
                t.len() as int,
            );
        lemma_complete_funcdef(t, p, m);
        lemma_complete_funcdefs(t, m);
    }
}

} // verus!
