//! Every derived range holds as many "{" as "}".
use vstd::prelude::*;
use crate::grammar::{
    addop_at, at, derives_assignment, derives_block, derives_expr, derives_factor, derives_funcdef,
    derives_funcdefs, derives_if, derives_simpexpr, derives_statement, derives_statementlist,
    derives_sum, derives_term, mulop_at, relop_at, split,
};
use crate::token::C1Token;

verus! {

/// What a token adds to the nesting depth of braces.
pub open spec fn brace_delta(x: C1Token) -> int {
    if x == C1Token::LeftBrace {
        1
    } else if x == C1Token::RightBrace {
        -1
    } else {
        0
    }
}

/// The number of "{" less the number of "}" in `t[p..q]`.
pub open spec fn depth(t: Seq<C1Token>, p: int, q: int) -> int
    decreases q - p,
{
    if p < q {
        depth(t, p, q - 1) + brace_delta(t[q - 1])
    } else {
        0
    }
}

pub proof fn lemma_depth_add(t: Seq<C1Token>, p: int, m: int, q: int)
    requires
        p <= m <= q,
    ensures
        depth(t, p, q) == depth(t, p, m) + depth(t, m, q),
    decreases q - m,
{
    if m < q {
        lemma_depth_add(t, p, m, q - 1);
    }
}

pub proof fn lemma_depth_one(t: Seq<C1Token>, k: int)
    ensures
        depth(t, k, k + 1) == brace_delta(t[k]),
{
    assert(depth(t, k, k) == 0);
}

/// Two sequences that agree on `p..q` have the same depth there.
pub proof fn lemma_depth_frame(t: Seq<C1Token>, u: Seq<C1Token>, p: int, q: int)
    requires
        0 <= p <= q <= t.len(),
        q <= u.len(),
        forall|k: int| p <= k < q ==> t[k] == u[k],
    ensures
        depth(t, p, q) == depth(u, p, q),
    decreases q - p,
{
    if p < q {
        lemma_depth_frame(t, u, p, q - 1);
    }
}

/// The depth of `t[p..q]` cut at `a` and `b`.
proof fn lemma_depth3(t: Seq<C1Token>, p: int, a: int, b: int, q: int)
    requires
        p <= a <= b <= q,
    ensures
        depth(t, p, q) == depth(t, p, a) + depth(t, a, b) + depth(t, b, q),
{
    lemma_depth_add(t, p, a, q);
    lemma_depth_add(t, a, b, q);
}

pub proof fn lemma_balanced_factor(t: Seq<C1Token>, p: int, q: int)
    requires
        derives_factor(t, p, q),
    ensures
        depth(t, p, q) == 0,
    decreases q - p, 0nat,
{
    lemma_depth_one(t, p);
    if q == p + 3 && !at(t, p, C1Token::LeftParenthesis) {
        lemma_depth_one(t, p + 1);
        lemma_depth_one(t, p + 2);
        lemma_depth3(t, p, p + 1, p + 2, q);
    } else if q > p + 1 {
        lemma_balanced_assignment(t, p + 1, q - 1);
        lemma_depth_one(t, q - 1);
        lemma_depth3(t, p, p + 1, q - 1, q);
    }
}

pub proof fn lemma_balanced_term(t: Seq<C1Token>, p: int, q: int)
    requires
        derives_term(t, p, q),
    ensures
        depth(t, p, q) == 0,
    decreases q - p, 1nat,
{
    if derives_factor(t, p, q) {
        lemma_balanced_factor(t, p, q);
    } else {
        let m = choose|m: int|
            p < m && m + 1 < q && derives_factor(t, p, m) && #[trigger] mulop_at(t, m)
                && derives_term(t, m + 1, q);
        lemma_balanced_factor(t, p, m);
        lemma_depth_one(t, m);
        lemma_balanced_term(t, m + 1, q);
        lemma_depth3(t, p, m, m + 1, q);
    }
}

pub proof fn lemma_balanced_sum(t: Seq<C1Token>, p: int, q: int)
    requires
        derives_sum(t, p, q),
    ensures
        depth(t, p, q) == 0,
    decreases q - p, 2nat,
{
    if derives_term(t, p, q) {
        lemma_balanced_term(t, p, q);
    } else {
        let m = choose|m: int|
            p < m && m + 1 < q && derives_term(t, p, m) && #[trigger] addop_at(t, m) && derives_sum(
                t,
                m + 1,
                q,
            );
        lemma_balanced_term(t, p, m);
        lemma_depth_one(t, m);
        lemma_balanced_sum(t, m + 1, q);
        lemma_depth3(t, p, m, m + 1, q);
    }
}

pub proof fn lemma_balanced_simpexpr(t: Seq<C1Token>, p: int, q: int)
    requires
        derives_simpexpr(t, p, q),
    ensures
        depth(t, p, q) == 0,
    decreases q - p, 3nat,
{
    if derives_sum(t, p, q) {
        lemma_balanced_sum(t, p, q);
    } else {
        lemma_balanced_sum(t, p + 1, q);
        lemma_depth_one(t, p);
        lemma_depth_add(t, p, p + 1, q);
    }
}

pub proof fn lemma_balanced_expr(t: Seq<C1Token>, p: int, q: int)
    requires
        derives_expr(t, p, q),
    ensures
        depth(t, p, q) == 0,
    decreases q - p, 4nat,
{
    if derives_simpexpr(t, p, q) {
        lemma_balanced_simpexpr(t, p, q);
    } else {
        let m = choose|m: int|
            p < m && m + 1 < q && derives_simpexpr(t, p, m) && #[trigger] relop_at(t, m)
                && derives_simpexpr(t, m + 1, q);
        lemma_balanced_simpexpr(t, p, m);
        lemma_depth_one(t, m);
        lemma_balanced_simpexpr(t, m + 1, q);
        lemma_depth3(t, p, m, m + 1, q);
    }
}

pub proof fn lemma_balanced_assignment(t: Seq<C1Token>, p: int, q: int)
    requires
        derives_assignment(t, p, q),
    ensures
        depth(t, p, q) == 0,
    decreases q - p, 5nat,
{
    if derives_expr(t, p, q) {
        lemma_balanced_expr(t, p, q);
    } else {
        lemma_balanced_assignment(t, p + 2, q);
        lemma_depth_one(t, p);
        lemma_depth_one(t, p + 1);
        lemma_depth3(t, p, p + 1, p + 2, q);
    }
}

pub proof fn lemma_balanced_if(t: Seq<C1Token>, p: int, q: int)
    requires
        derives_if(t, p, q),
    ensures
        depth(t, p, q) == 0,
    decreases q - p, 0nat,
{
    let m = choose|m: int|
        p + 2 < m && m + 1 < q && #[trigger] derives_assignment(t, p + 2, m) && at(
            t,
            m,
            C1Token::RightParenthesis,
        ) && derives_block(t, m + 1, q);
    lemma_depth_one(t, p);
    lemma_depth_one(t, p + 1);
    lemma_depth_one(t, m);
    lemma_balanced_assignment(t, p + 2, m);
    lemma_balanced_block(t, m + 1, q);
    lemma_depth3(t, p, p + 1, p + 2, m);
    lemma_depth3(t, p, m, m + 1, q);
}

pub proof fn lemma_balanced_statement(t: Seq<C1Token>, p: int, q: int)
    requires
        derives_statement(t, p, q),
    ensures
        depth(t, p, q) == 0,
    decreases q - p, 1nat,
{
    lemma_depth_one(t, p);
    lemma_depth_one(t, p + 1);
    lemma_depth_one(t, q - 1);
    if at(t, p, C1Token::KwIf) {
        lemma_balanced_if(t, p, q);
    } else if at(t, p, C1Token::KwReturn) {
        if q == p + 2 {
            lemma_depth_add(t, p, p + 1, q);
        } else {
            lemma_balanced_assignment(t, p + 1, q - 1);
            lemma_depth3(t, p, p + 1, q - 1, q);
        }
    } else if at(t, p, C1Token::KwPrintf) {
        lemma_balanced_assignment(t, p + 2, q - 2);
        lemma_depth_one(t, q - 2);
        lemma_depth3(t, p, p + 1, p + 2, q - 2);
        lemma_depth3(t, p, q - 2, q - 1, q);
    } else if at(t, p + 1, C1Token::Assign) {
        lemma_balanced_assignment(t, p + 2, q - 1);
        lemma_depth3(t, p, p + 1, p + 2, q - 1);
        lemma_depth_add(t, p, q - 1, q);
    } else {
        lemma_depth_one(t, p + 2);
        lemma_depth3(t, p, p + 1, p + 2, p + 3);
        lemma_depth_add(t, p, p + 3, q);
    }
}

pub proof fn lemma_balanced_block(t: Seq<C1Token>, p: int, q: int)
    requires
        derives_block(t, p, q),
    ensures
        depth(t, p, q) == 0,
    decreases q - p, 2nat,
{
    if derives_statement(t, p, q) {
        lemma_balanced_statement(t, p, q);
    } else {
        lemma_depth_one(t, p);
        lemma_depth_one(t, q - 1);
        lemma_balanced_statementlist(t, p + 1, q - 1);
        lemma_depth3(t, p, p + 1, q - 1, q);
    }
}

pub proof fn lemma_balanced_statementlist(t: Seq<C1Token>, p: int, q: int)
    requires
        derives_statementlist(t, p, q),
    ensures
        depth(t, p, q) == 0,
    decreases q - p, 3nat,
{
    if p < q {
        let m = choose|m: int|
            #[trigger] split(p, m, q) && derives_block(t, p, m) && derives_statementlist(t, m, q);
        lemma_balanced_block(t, p, m);
        lemma_balanced_statementlist(t, m, q);
        lemma_depth_add(t, p, m, q);
    }
}

pub proof fn lemma_balanced_funcdef(t: Seq<C1Token>, p: int, q: int)
    requires
        derives_funcdef(t, p, q),
    ensures
        depth(t, p, q) == 0,
{
    lemma_depth_one(t, p);
    lemma_depth_one(t, p + 1);
    lemma_depth_one(t, p + 2);
    lemma_depth_one(t, p + 3);
    lemma_depth_one(t, p + 4);
    lemma_depth_one(t, q - 1);
    lemma_balanced_statementlist(t, p + 5, q - 1);
    lemma_depth3(t, p, p + 1, p + 2, p + 5);
    lemma_depth3(t, p + 2, p + 3, p + 4, p + 5);
    lemma_depth3(t, p, p + 5, q - 1, q);
}

/// A run of function definitions is balanced and ends with "}".
pub proof fn lemma_balanced_funcdefs(t: Seq<C1Token>, p: int, q: int)
    requires
        derives_funcdefs(t, p, q),
    ensures
        depth(t, p, q) == 0,
        at(t, q - 1, C1Token::RightBrace),
    decreases q - p,
{
    if derives_funcdef(t, p, q) {
        lemma_balanced_funcdef(t, p, q);
    } else {
        let m = choose|m: int| p < m < q && #[trigger] derives_funcdef(t, p, m) && derives_funcdefs(t, m, q);
        lemma_balanced_funcdef(t, p, m);
        lemma_balanced_funcdefs(t, m, q);
        lemma_depth_add(t, p, m, q);
    }
}

} // verus!
