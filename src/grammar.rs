//! The grammar of C1 as derivations: `derives_x(t, p, q)` holds when the
//! tokens `t[p..q]` form the nonterminal `x`. These read only the tokens in
//! the range and say nothing of how a parser finds them.
use vstd::prelude::*;
use crate::token::{C1Token, is_addop, is_mulop, is_relop, is_type_keyword};

verus! {

/// Token `k` of `t` has category `x`.
pub open spec fn at(t: Seq<C1Token>, k: int, x: C1Token) -> bool {
    0 <= k < t.len() && t[k] == x
}

pub open spec fn mulop_at(t: Seq<C1Token>, k: int) -> bool {
    0 <= k < t.len() && is_mulop(t[k])
}

pub open spec fn addop_at(t: Seq<C1Token>, k: int) -> bool {
    0 <= k < t.len() && is_addop(t[k])
}

pub open spec fn relop_at(t: Seq<C1Token>, k: int) -> bool {
    0 <= k < t.len() && is_relop(t[k])
}

/// `p..q` is a non-empty range of tokens of `t`.
pub open spec fn span(t: Seq<C1Token>, p: int, q: int) -> bool {
    0 <= p < q <= t.len()
}

/// `m` cuts `p..q` into a non-empty first part and a rest.
pub open spec fn split(p: int, m: int, q: int) -> bool {
    p < m <= q
}

/// functioncall ::= ID "(" ")"
pub open spec fn derives_functioncall(t: Seq<C1Token>, p: int, q: int) -> bool {
    &&& q == p + 3
    &&& at(t, p, C1Token::Identifier)
    &&& at(t, p + 1, C1Token::LeftParenthesis)
    &&& at(t, p + 2, C1Token::RightParenthesis)
}

/// factor ::= INT | FLOAT | BOOL | functioncall | ID | "(" assignment ")"
pub open spec fn derives_factor(t: Seq<C1Token>, p: int, q: int) -> bool
    decreases q - p, 0nat,
{
    span(t, p, q) && {
        ||| q == p + 1 && (at(t, p, C1Token::ConstInt) || at(t, p, C1Token::ConstFloat) || at(
            t,
            p,
            C1Token::ConstBoolean,
        ) || at(t, p, C1Token::Identifier))
        ||| derives_functioncall(t, p, q)
        ||| p + 2 < q && at(t, p, C1Token::LeftParenthesis) && at(t, q - 1, C1Token::RightParenthesis)
            && derives_assignment(t, p + 1, q - 1)
    }
}

/// term ::= factor ( ("*" | "/" | "&&") factor )*
pub open spec fn derives_term(t: Seq<C1Token>, p: int, q: int) -> bool
    decreases q - p, 1nat,
{
    span(t, p, q) && {
        ||| derives_factor(t, p, q)
        ||| exists|m: int|
            p < m && m + 1 < q && derives_factor(t, p, m) && #[trigger] mulop_at(t, m) && derives_term(
                t,
                m + 1,
                q,
            )
    }
}

/// term ( ("+" | "-" | "||") term )*
pub open spec fn derives_sum(t: Seq<C1Token>, p: int, q: int) -> bool
    decreases q - p, 2nat,
{
    span(t, p, q) && {
        ||| derives_term(t, p, q)
        ||| exists|m: int|
            p < m && m + 1 < q && derives_term(t, p, m) && #[trigger] addop_at(t, m) && derives_sum(
                t,
                m + 1,
                q,
            )
    }
}

/// simpexpr ::= "-"? term ( ("+" | "-" | "||") term )*
pub open spec fn derives_simpexpr(t: Seq<C1Token>, p: int, q: int) -> bool
    decreases q - p, 3nat,
{
    span(t, p, q) && {
        ||| derives_sum(t, p, q)
        ||| at(t, p, C1Token::Minus) && p + 1 < q && derives_sum(t, p + 1, q)
    }
}

/// expr ::= simpexpr ( ("==" | "!=" | "<=" | ">=" | "<" | ">") simpexpr )?
pub open spec fn derives_expr(t: Seq<C1Token>, p: int, q: int) -> bool
    decreases q - p, 4nat,
{
    span(t, p, q) && {
        ||| derives_simpexpr(t, p, q)
        ||| exists|m: int|
            p < m && m + 1 < q && derives_simpexpr(t, p, m) && #[trigger] relop_at(t, m)
                && derives_simpexpr(t, m + 1, q)
    }
}

/// assignment ::= ID "=" assignment | expr
pub open spec fn derives_assignment(t: Seq<C1Token>, p: int, q: int) -> bool
    decreases q - p, 5nat,
{
    span(t, p, q) && {
        ||| at(t, p, C1Token::Identifier) && at(t, p + 1, C1Token::Assign) && p + 2 < q
            && derives_assignment(t, p + 2, q)
        ||| derives_expr(t, p, q)
    }
}

/// ifstatement ::= "if" "(" assignment ")" block
pub open spec fn derives_if(t: Seq<C1Token>, p: int, q: int) -> bool
    decreases q - p, 0nat,
{
    &&& span(t, p, q)
    &&& at(t, p, C1Token::KwIf)
    &&& at(t, p + 1, C1Token::LeftParenthesis)
    &&& exists|m: int|
        p + 2 < m && m + 1 < q && #[trigger] derives_assignment(t, p + 2, m) && at(
            t,
            m,
            C1Token::RightParenthesis,
        ) && derives_block(t, m + 1, q)
}

/// statement ::= ifstatement | "return" assignment? ";" | "printf" "(" assignment ")" ";"
///             | ID "=" assignment ";" | ID "(" ")" ";"
pub open spec fn derives_statement(t: Seq<C1Token>, p: int, q: int) -> bool
    decreases q - p, 1nat,
{
    span(t, p, q) && {
        ||| derives_if(t, p, q)
        ||| at(t, p, C1Token::KwReturn) && at(t, q - 1, C1Token::Semicolon) && (q == p + 2 || (p + 1
            < q - 1 && derives_assignment(t, p + 1, q - 1)))
        ||| at(t, p, C1Token::KwPrintf) && at(t, p + 1, C1Token::LeftParenthesis) && p + 4 < q && at(
            t,
            q - 2,
            C1Token::RightParenthesis,
        ) && at(t, q - 1, C1Token::Semicolon) && derives_assignment(t, p + 2, q - 2)
        ||| at(t, p, C1Token::Identifier) && at(t, p + 1, C1Token::Assign) && p + 3 < q && at(
            t,
            q - 1,
            C1Token::Semicolon,
        ) && derives_assignment(t, p + 2, q - 1)
        ||| q == p + 4 && derives_functioncall(t, p, p + 3) && at(t, p + 3, C1Token::Semicolon)
    }
}

/// block ::= "{" statementlist "}" | statement
pub open spec fn derives_block(t: Seq<C1Token>, p: int, q: int) -> bool
    decreases q - p, 2nat,
{
    span(t, p, q) && {
        ||| p + 2 <= q && at(t, p, C1Token::LeftBrace) && at(t, q - 1, C1Token::RightBrace)
            && derives_statementlist(t, p + 1, q - 1)
        ||| derives_statement(t, p, q)
    }
}

/// statementlist ::= block*
pub open spec fn derives_statementlist(t: Seq<C1Token>, p: int, q: int) -> bool
    decreases q - p, 3nat,
{
    0 <= p <= q <= t.len() && {
        ||| p == q
        ||| exists|m: int|
            #[trigger] split(p, m, q) && derives_block(t, p, m) && derives_statementlist(t, m, q)
    }
}

/// functiondefinition ::= type ID "(" ")" "{" statementlist "}"
pub open spec fn derives_funcdef(t: Seq<C1Token>, p: int, q: int) -> bool {
    &&& span(t, p, q)
    &&& p + 6 <= q
    &&& is_type_keyword(t[p])
    &&& at(t, p + 1, C1Token::Identifier)
    &&& at(t, p + 2, C1Token::LeftParenthesis)
    &&& at(t, p + 3, C1Token::RightParenthesis)
    &&& at(t, p + 4, C1Token::LeftBrace)
    &&& at(t, q - 1, C1Token::RightBrace)
    &&& derives_statementlist(t, p + 5, q - 1)
}

/// functiondefinition+
pub open spec fn derives_funcdefs(t: Seq<C1Token>, p: int, q: int) -> bool
    decreases q - p,
{
    span(t, p, q) && {
        ||| derives_funcdef(t, p, q)
        ||| exists|m: int| p < m < q && #[trigger] derives_funcdef(t, p, m) && derives_funcdefs(t, m, q)
    }
}

/// program ::= functiondefinition+: the whole of `t` is a C1 program.
pub open spec fn derives_program(t: Seq<C1Token>) -> bool {
    derives_funcdefs(t, 0, t.len() as int)
}

} // verus!
