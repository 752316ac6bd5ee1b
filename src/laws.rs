//! What holds of the recognizer as a whole.
use vstd::prelude::*;
use crate::balance::{lemma_balanced_funcdefs, lemma_depth_add, lemma_depth_frame, lemma_depth_one};
use crate::completeness::lemma_complete_funcdefs;
use crate::error::ParseResult;
use crate::grammar::derives_program;
use crate::lex_prefix::lemma_prefix_from;
use crate::lexer::lemma_lex_in_bounds;
use crate::lexer_spec::{kinds_of, lex};
use crate::parser::outcome;
use crate::rules::{program, Stop};
use crate::soundness::lemma_sound_funcdefs;
use crate::token::C1Token;

verus! {

/// Every sequence of tokens that the grammar derives as a program is accepted,
/// unless it nests deeper than `MAX_NESTING`.
pub proof fn lemma_valid_program_accepted(t: Seq<C1Token>)
    requires
        derives_program(t),
    ensures
        program(t) == Ok::<(), Option<Stop>>(()) || (program(t) is Err && program(t)->Err_0
            matches Some(Stop::TooDeep(_))),
{
    lemma_complete_funcdefs(t, 0);
}

/// Every sequence of tokens that is accepted is derived by the grammar as a program.
pub proof fn lemma_accepted_program_valid(t: Seq<C1Token>)
    requires
        program(t) is Ok,
    ensures
        derives_program(t),
{
    lemma_sound_funcdefs(t, 0);
}

/// A program cut short before its last token is rejected.
pub proof fn lemma_truncated_program_rejected(t: Seq<C1Token>)
    requires
        derives_program(t),
    ensures
        program(t.drop_last()) is Err,
{
    let n = t.len() as int;
    let u = t.drop_last();
    lemma_balanced_funcdefs(t, 0, n);
    lemma_depth_add(t, 0, n - 1, n);
    lemma_depth_one(t, n - 1);
    lemma_depth_frame(t, u, 0, n - 1);
    if program(u) is Ok {
        lemma_accepted_program_valid(u);
        lemma_balanced_funcdefs(u, 0, n - 1);
        assert(false);
    }
}

/// A source text that is a program, cut just before the start of its last
/// token, is rejected by `parse`.
pub proof fn lemma_truncated_text_rejected(s: Seq<char>, r: ParseResult)
    requires
        s.len() < usize::MAX,
        derives_program(kinds_of(lex(s).0)),
        outcome(s.subrange(0, lex(s).0.last().start as int), r),
    ensures
        r is Err,
{
    let ls = lex(s).0;
    let c = ls.last().start as int;
    lemma_lex_in_bounds(s);
    assert(ls[ls.len() - 1].start < ls[ls.len() - 1].end <= s.len());
    lemma_prefix_from(s, c, 0, 1);
    let t = kinds_of(ls);
    assert(kinds_of(ls.drop_last()) =~= t.drop_last());
    lemma_truncated_program_rejected(t);
}

/// Parsing one text twice gives the same outcome: the same success, or an
/// error of the same kind, text and line.
pub proof fn lemma_parse_deterministic(s: Seq<char>, r1: ParseResult, r2: ParseResult)
    requires
        outcome(s, r1),
        outcome(s, r2),
    ensures
        r1 is Ok <==> r2 is Ok,
        r1 is Err ==> {
            &&& r1->Err_0.kind == r2->Err_0.kind
            &&& r1->Err_0.text@ == r2->Err_0.text@
            &&& r1->Err_0.line == r2->Err_0.line
        },
{
}

} // verus!
