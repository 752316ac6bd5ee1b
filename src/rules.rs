//! What the recognizer decides, as functions over the categories of the tokens.
//! Each function reads the production it is named after from index `p` of `t`,
//! at nesting level `d`, with one token of lookahead. It gives `Ok(q)` when the
//! production covers `t[p..q]`; `Err(Stop::Mismatch(e))` when the token at
//! index `e` (the end of the input if `e == t.len()`) is the first that does
//! not fit; `Err(Stop::TooDeep(e))` when the "(", "{" or `if` at index `e`
//! would open a level beyond `MAX_NESTING`.
use vstd::prelude::*;
use crate::token::{C1Token, is_addop, is_mulop, is_relop, is_type_keyword};

verus! {

/// How deeply parentheses, braces and `if` bodies may nest; deeper input is
/// refused rather than read with ever more recursion.
pub const MAX_NESTING: usize = 256;

/// Why a production stopped: a token that does not fit, or nesting beyond
/// `MAX_NESTING`, each at the index of the token concerned.
pub enum Stop {
    Mismatch(int),
    TooDeep(int),
}

/// The index of the token at which the recognizer stopped.
pub open spec fn stop_at(s: Stop) -> int {
    match s {
        Stop::Mismatch(e) => e,
        Stop::TooDeep(e) => e,
    }
}

/// The token at index `p`, `None` past the end.
pub open spec fn tok(t: Seq<C1Token>, p: int) -> Option<C1Token> {
    if 0 <= p < t.len() {
        Some(t[p])
    } else {
        None
    }
}

/// Matches one token of category `k`.
pub open spec fn expect(t: Seq<C1Token>, p: int, k: C1Token) -> Result<int, Stop> {
    if tok(t, p) == Some(k) {
        Ok(p + 1)
    } else {
        Err(Stop::Mismatch(p))
    }
}

/// After `r`, matches one token of category `k`.
pub open spec fn then_expect(t: Seq<C1Token>, r: Result<int, Stop>, k: C1Token) -> Result<int, Stop> {
    match r {
        Ok(q) => expect(t, q, k),
        Err(e) => Err(e),
    }
}

/// functioncall ::= ID "(" ")"
pub open spec fn functioncall(t: Seq<C1Token>, p: int) -> Result<int, Stop> {
    if tok(t, p) != Some(C1Token::Identifier) {
        Err(Stop::Mismatch(p))
    } else if tok(t, p + 1) != Some(C1Token::LeftParenthesis) {
        Err(Stop::Mismatch(p + 1))
    } else {
        expect(t, p + 2, C1Token::RightParenthesis)
    }
}

/// factor ::= INT | FLOAT | BOOL | functioncall | ID | "(" assignment ")"
pub open spec fn factor(t: Seq<C1Token>, p: int, d: nat) -> Result<int, Stop>
    decreases t.len() - p, 0nat,
{
    match tok(t, p) {
        Some(C1Token::ConstInt) => Ok(p + 1),
        Some(C1Token::ConstFloat) => Ok(p + 1),
        Some(C1Token::ConstBoolean) => Ok(p + 1),
        Some(C1Token::Identifier) => if tok(t, p + 1) == Some(C1Token::LeftParenthesis) {
            functioncall(t, p)
        } else {
            Ok(p + 1)
        },
        Some(C1Token::LeftParenthesis) => if d >= MAX_NESTING {
            Err(Stop::TooDeep(p))
        } else {
            then_expect(t, assignment(t, p + 1, d + 1), C1Token::RightParenthesis)
        },
        _ => Err(Stop::Mismatch(p)),
    }
}

/// ( ("*" | "/" | "&&") factor )*
pub open spec fn term_tail(t: Seq<C1Token>, p: int, d: nat) -> Result<int, Stop>
    decreases t.len() - p, 0nat,
{
    if 0 <= p < t.len() && is_mulop(t[p]) {
        match factor(t, p + 1, d) {
            Ok(q) => if p + 1 < q <= t.len() {
                term_tail(t, q, d)
            } else {
                Err(Stop::Mismatch(q))
            },
            Err(e) => Err(e),
        }
    } else {
        Ok(p)
    }
}

/// term ::= factor ( ("*" | "/" | "&&") factor )*
pub open spec fn term(t: Seq<C1Token>, p: int, d: nat) -> Result<int, Stop>
    decreases t.len() - p, 1nat,
{
    match factor(t, p, d) {
        Ok(q) => if p < q <= t.len() {
            term_tail(t, q, d)
        } else {
            Err(Stop::Mismatch(q))
        },
        Err(e) => Err(e),
    }
}

/// ( ("+" | "-" | "||") term )*
pub open spec fn simpexpr_tail(t: Seq<C1Token>, p: int, d: nat) -> Result<int, Stop>
    decreases t.len() - p, 0nat,
{
    if 0 <= p < t.len() && is_addop(t[p]) {
        match term(t, p + 1, d) {
            Ok(q) => if p + 1 < q <= t.len() {
                simpexpr_tail(t, q, d)
            } else {
                Err(Stop::Mismatch(q))
            },
            Err(e) => Err(e),
        }
    } else {
        Ok(p)
    }
}

/// term ( ("+" | "-" | "||") term )*
pub open spec fn sum(t: Seq<C1Token>, p: int, d: nat) -> Result<int, Stop>
    decreases t.len() - p, 2nat,
{
    match term(t, p, d) {
        Ok(q) => if p < q <= t.len() {
            simpexpr_tail(t, q, d)
        } else {
            Err(Stop::Mismatch(q))
        },
        Err(e) => Err(e),
    }
}

/// simpexpr ::= "-"? term ( ("+" | "-" | "||") term )*
pub open spec fn simpexpr(t: Seq<C1Token>, p: int, d: nat) -> Result<int, Stop>
    decreases t.len() - p, 3nat,
{
    if tok(t, p) == Some(C1Token::Minus) {
        sum(t, p + 1, d)
    } else {
        sum(t, p, d)
    }
}

/// expr ::= simpexpr ( relop simpexpr )?
pub open spec fn expr(t: Seq<C1Token>, p: int, d: nat) -> Result<int, Stop>
    decreases t.len() - p, 4nat,
{
    match simpexpr(t, p, d) {
        Ok(q) => if 0 <= q < t.len() && is_relop(t[q]) {
            if p < q {
                simpexpr(t, q + 1, d)
            } else {
                Err(Stop::Mismatch(q))
            }
        } else {
            Ok(q)
        },
        Err(e) => Err(e),
    }
}

/// assignment ::= ID "=" assignment | expr
pub open spec fn assignment(t: Seq<C1Token>, p: int, d: nat) -> Result<int, Stop>
    decreases t.len() - p, 5nat,
{
    if tok(t, p) == Some(C1Token::Identifier) && tok(t, p + 1) == Some(C1Token::Assign) {
        assignment(t, p + 2, d)
    } else {
        expr(t, p, d)
    }
}

/// statassignment ::= ID "=" assignment
pub open spec fn statassignment(t: Seq<C1Token>, p: int, d: nat) -> Result<int, Stop> {
    if tok(t, p) != Some(C1Token::Identifier) {
        Err(Stop::Mismatch(p))
    } else if tok(t, p + 1) != Some(C1Token::Assign) {
        Err(Stop::Mismatch(p + 1))
    } else {
        assignment(t, p + 2, d)
    }
}

/// returnstatement ::= "return" assignment?
pub open spec fn return_stmt(t: Seq<C1Token>, p: int, d: nat) -> Result<int, Stop> {
    if tok(t, p) != Some(C1Token::KwReturn) {
        Err(Stop::Mismatch(p))
    } else if tok(t, p + 1) == Some(C1Token::Semicolon) {
        Ok(p + 1)
    } else {
        assignment(t, p + 1, d)
    }
}

/// printf ::= "printf" "(" assignment ")"
pub open spec fn printf_stmt(t: Seq<C1Token>, p: int, d: nat) -> Result<int, Stop> {
    if tok(t, p) != Some(C1Token::KwPrintf) {
        Err(Stop::Mismatch(p))
    } else if tok(t, p + 1) != Some(C1Token::LeftParenthesis) {
        Err(Stop::Mismatch(p + 1))
    } else {
        then_expect(t, assignment(t, p + 2, d), C1Token::RightParenthesis)
    }
}

/// type ::= "boolean" | "float" | "int" | "void"
pub open spec fn type_kw(t: Seq<C1Token>, p: int) -> Result<int, Stop> {
    if 0 <= p < t.len() && is_type_keyword(t[p]) {
        Ok(p + 1)
    } else {
        Err(Stop::Mismatch(p))
    }
}

/// ifstatement ::= "if" "(" assignment ")" block
pub open spec fn if_stmt(t: Seq<C1Token>, p: int, d: nat) -> Result<int, Stop>
    decreases t.len() - p, 0nat,
{
    if tok(t, p) != Some(C1Token::KwIf) {
        Err(Stop::Mismatch(p))
    } else if d >= MAX_NESTING {
        Err(Stop::TooDeep(p))
    } else if tok(t, p + 1) != Some(C1Token::LeftParenthesis) {
        Err(Stop::Mismatch(p + 1))
    } else {
        match assignment(t, p + 2, d) {
            Ok(q) => if tok(t, q) != Some(C1Token::RightParenthesis) {
                Err(Stop::Mismatch(q))
            } else if p < q {
                block(t, q + 1, d + 1)
            } else {
                Err(Stop::Mismatch(q))
            },
            Err(e) => Err(e),
        }
    }
}

/// statement ::= ifstatement | returnstatement ";" | printf ";"
///             | statassignment ";" | functioncall ";"
pub open spec fn statement(t: Seq<C1Token>, p: int, d: nat) -> Result<int, Stop>
    decreases t.len() - p, 1nat,
{
    match tok(t, p) {
        Some(C1Token::KwIf) => if_stmt(t, p, d),
        Some(C1Token::KwReturn) => then_expect(t, return_stmt(t, p, d), C1Token::Semicolon),
        Some(C1Token::KwPrintf) => then_expect(t, printf_stmt(t, p, d), C1Token::Semicolon),
        Some(C1Token::Identifier) => if tok(t, p + 1) == Some(C1Token::Assign) {
            then_expect(t, statassignment(t, p, d), C1Token::Semicolon)
        } else if tok(t, p + 1) == Some(C1Token::LeftParenthesis) {
            then_expect(t, functioncall(t, p), C1Token::Semicolon)
        } else {
            Err(Stop::Mismatch(p))
        },
        _ => Err(Stop::Mismatch(p)),
    }
}

/// block ::= "{" statementlist "}" | statement
pub open spec fn block(t: Seq<C1Token>, p: int, d: nat) -> Result<int, Stop>
    decreases t.len() - p, 2nat,
{
    if tok(t, p) == Some(C1Token::LeftBrace) {
        if d >= MAX_NESTING {
            Err(Stop::TooDeep(p))
        } else {
            then_expect(t, statementlist(t, p + 1, d + 1), C1Token::RightBrace)
        }
    } else {
        statement(t, p, d)
    }
}

/// statementlist ::= block*, which runs up to the next "}"
pub open spec fn statementlist(t: Seq<C1Token>, p: int, d: nat) -> Result<int, Stop>
    decreases t.len() - p, 3nat,
{
    if tok(t, p) == Some(C1Token::RightBrace) {
        Ok(p)
    } else {
        match block(t, p, d) {
            Ok(q) => if p < q <= t.len() {
                statementlist(t, q, d)
            } else {
                Err(Stop::Mismatch(q))
            },
            Err(e) => Err(e),
        }
    }
}

/// functiondefinition ::= type ID "(" ")" "{" statementlist "}"
pub open spec fn funcdef(t: Seq<C1Token>, p: int) -> Result<int, Stop> {
    if type_kw(t, p) is Err {
        Err(Stop::Mismatch(p))
    } else if tok(t, p + 1) != Some(C1Token::Identifier) {
        Err(Stop::Mismatch(p + 1))
    } else if tok(t, p + 2) != Some(C1Token::LeftParenthesis) {
        Err(Stop::Mismatch(p + 2))
    } else if tok(t, p + 3) != Some(C1Token::RightParenthesis) {
        Err(Stop::Mismatch(p + 3))
    } else if tok(t, p + 4) != Some(C1Token::LeftBrace) {
        Err(Stop::Mismatch(p + 4))
    } else {
        then_expect(t, statementlist(t, p + 5, 0), C1Token::RightBrace)
    }
}

/// functiondefinition* up to the end of the input.
pub open spec fn funcdefs(t: Seq<C1Token>, p: int) -> Result<(), Stop>
    decreases t.len() - p,
{
    if 0 <= p < t.len() {
        match funcdef(t, p) {
            Ok(q) => if p < q {
                funcdefs(t, q)
            } else {
                Err(Stop::Mismatch(q))
            },
            Err(e) => Err(e),
        }
    } else {
        Ok(())
    }
}

/// program ::= functiondefinition+ EOF. `Err(None)` stands for an input
/// without tokens, `Err(Some(f))` for where and why the recognizer stopped.
pub open spec fn program(t: Seq<C1Token>) -> Result<(), Option<Stop>> {
    if t.len() == 0 {
        Err(None)
    } else {
        match funcdefs(t, 0) {
            Ok(()) => Ok(()),
            Err(e) => Err(Some(e)),
        }
    }
}

} // verus!
