use vstd::prelude::*;
use crate::error::{ErrorKind, ParseResult, SyntaxError};
use crate::grammar::derives_program;
use crate::laws::{lemma_accepted_program_valid, lemma_valid_program_accepted};
use crate::lexer::C1Lexer;
use crate::rules::{
    MAX_NESTING, Stop, stop_at,
    assignment, block, expect, expr, factor, funcdef, funcdefs, functioncall, if_stmt, printf_stmt,
    program, return_stmt, simpexpr, simpexpr_tail, statassignment, statement, statementlist, term,
    term_tail, type_kw,
};
use crate::lexer_spec::{kinds_of, lex, line_of, text_of};
use crate::token::C1Token;

verus! {

/// A recursive-descent recognizer for C1 over one token source.
pub struct C1Parser<'a> {
    lexer: C1Lexer<'a>,
    depth: usize,
}

/// The kind of error that reports `s`.
pub open spec fn stop_kind(s: Stop) -> ErrorKind {
    match s {
        Stop::Mismatch(_) => ErrorKind::UnexpectedToken,
        Stop::TooDeep(_) => ErrorKind::TooDeep,
    }
}

/// `r` is what parsing the text `s` gives: `Ok` when its tokens form a
/// program; for a text without tokens, an `EmptyFile` error with empty text on
/// the last line; else, with the text and line of the token at which the
/// recognizer stopped (empty text and the last line when the input ends too
/// early), an `UnexpectedToken` error for a token that does not fit or a
/// `TooDeep` error for nesting beyond `MAX_NESTING`.
pub open spec fn outcome(s: Seq<char>, r: ParseResult) -> bool {
    let ls = lex(s).0;
    let end_line = lex(s).1;
    match program(kinds_of(ls)) {
        Ok(()) => r is Ok,
        Err(None) => {
            &&& r is Err
            &&& r->Err_0.kind == ErrorKind::EmptyFile
            &&& r->Err_0.text@ == Seq::<char>::empty()
            &&& r->Err_0.line == end_line
        },
        Err(Some(f)) => {
            &&& r is Err
            &&& r->Err_0.kind == stop_kind(f)
            &&& r->Err_0.text@ == text_of(s, ls, stop_at(f))
            &&& r->Err_0.line == line_of(ls, end_line, stop_at(f))
        },
    }
}

/// `before` and `after` read the same tokens of the same text.
pub open spec fn same_input(before: C1Lexer, after: C1Lexer) -> bool {
    &&& after.source() == before.source()
    &&& after.lexemes() == before.lexemes()
    &&& after.end_line() == before.end_line()
}

/// `err` reports `f`, at the token of what `lx` reads where it stopped.
pub open spec fn reports_at(lx: C1Lexer, err: SyntaxError, f: Stop) -> bool {
    &&& err.kind == stop_kind(f)
    &&& err.text@ == lx.text_at(stop_at(f))
    &&& err.line == lx.line_at(stop_at(f))
}

/// The call that went from `before` to `after` and returned `r` did what `s` says:
/// on `Ok(q)` it succeeded and stopped at index `q`; on `Err(f)` it reported
/// `f` and stands at the token where it stopped, having consumed nothing after
/// it. Either way the nesting level is back where it was.
pub open spec fn follows(before: C1Parser, after: C1Parser, r: ParseResult, s: Result<int, Stop>) -> bool {
    &&& after.wf()
    &&& same_input(before.lexer(), after.lexer())
    &&& after.nesting() == before.nesting()
    &&& match s {
        Ok(q) => r is Ok && after.pos() == q,
        Err(f) => r is Err && reports_at(before.lexer(), r->Err_0, f) && after.pos() == stop_at(f),
    }
}

/// A successful call consumed at least one token.
pub open spec fn advances(before: C1Parser, after: C1Parser, r: ParseResult) -> bool {
    r is Ok ==> before.pos() < after.pos()
}

impl<'a> C1Parser<'a> {
    pub closed spec fn lexer(&self) -> C1Lexer<'a> {
        self.lexer
    }

    /// How many parentheses, braces and `if` bodies enclose the current token.
    pub closed spec fn nesting(&self) -> nat {
        self.depth as nat
    }

    pub open spec fn wf(&self) -> bool {
        self.lexer().wf() && self.nesting() <= MAX_NESTING
    }

    /// The categories of all tokens.
    pub open spec fn toks(&self) -> Seq<C1Token> {
        self.lexer().kinds()
    }

    /// The index of the current token.
    pub open spec fn pos(&self) -> int {
        self.lexer().pos()
    }

    /// Whether `input` is a C1 program: `Ok` when its tokens form one and nest
    /// no deeper than `MAX_NESTING`, else the first syntax error.
    pub fn parse(input: &str) -> (r: ParseResult)
        requires
            input@.len() < usize::MAX,
        ensures
            outcome(input@, r),
            r is Ok ==> derives_program(kinds_of(lex(input@).0)),
            derives_program(kinds_of(lex(input@).0)) ==> r is Ok || r->Err_0.kind == ErrorKind::TooDeep,
    {
        let lexer = C1Lexer::new(input);
        let parser = C1Parser::new(lexer);
        let r = parser.parse_program();
        proof {
            let t = kinds_of(lex(input@).0);
            if derives_program(t) {
                lemma_valid_program_accepted(t);
            }
            if program(t) is Ok {
                lemma_accepted_program_valid(t);
            }
        }
        r
    }

    /// A parser that starts at the current token of `lexer`.
    pub fn new(lexer: C1Lexer<'a>) -> (r: Self)
        ensures
            r.lexer() == lexer,
            r.nesting() == 0,
    {
        C1Parser { lexer, depth: 0 }
    }

    /// program ::= functiondefinition+ EOF, read from the first token on.
    pub fn parse_program(self) -> (r: ParseResult)
        requires
            self.wf(),
            self.pos() == 0,
            self.nesting() == 0,
        ensures
            outcome(self.lexer().source(), r),
    {
        let mut this = self;
        if this.lexer.current_token().is_none() {
            return Err(
                SyntaxError {
                    kind: ErrorKind::EmptyFile,
                    text: String::new(),
                    line: this.lexer.current_line_number(),
                },
            );
        }
        let ghost t = this.toks();
        let ghost start = this;
        while this.lexer.current_token().is_some()
            invariant
                this.wf(),
                t == this.toks(),
                t == start.toks(),
                t.len() > 0,
                this.nesting() == 0,
                start.lexer() == self.lexer(),
                same_input(start.lexer(), this.lexer()),
                funcdefs(t, 0) == funcdefs(t, this.pos()),
            decreases t.len() - this.pos(),
        {
            if let Err(e) = this.parse_funcdef() {
                return Err(e);
            }
        }
        Ok(())
    }

    /// functiondefinition ::= type ID "(" ")" "{" statementlist "}"
    fn parse_funcdef(&mut self) -> (r: ParseResult)
        requires
            old(self).wf(),
            old(self).nesting() == 0,
        ensures
            follows(*old(self), *final(self), r, funcdef(old(self).toks(), old(self).pos())),
            advances(*old(self), *final(self), r),
    {
        if let Err(e) = self.parse_type() {
            return Err(e);
        }
        if let Err(e) = self.check_token(C1Token::Identifier) {
            return Err(e);
        }
        if let Err(e) = self.check_token(C1Token::LeftParenthesis) {
            return Err(e);
        }
        if let Err(e) = self.check_token(C1Token::RightParenthesis) {
            return Err(e);
        }
        if let Err(e) = self.check_token(C1Token::LeftBrace) {
            return Err(e);
        }
        if let Err(e) = self.parse_statementlist() {
            return Err(e);
        }
        self.check_token(C1Token::RightBrace)
    }

    /// functioncall ::= ID "(" ")"
    fn parse_functioncall(&mut self) -> (r: ParseResult)
        requires
            old(self).wf(),
        ensures
            follows(*old(self), *final(self), r, functioncall(old(self).toks(), old(self).pos())),
            advances(*old(self), *final(self), r),
    {
        if let Err(e) = self.check_token(C1Token::Identifier) {
            return Err(e);
        }
        if let Err(e) = self.check_token(C1Token::LeftParenthesis) {
            return Err(e);
        }
        self.check_token(C1Token::RightParenthesis)
    }

    /// statementlist ::= block*, up to the next "}"
    fn parse_statementlist(&mut self) -> (r: ParseResult)
        requires
            old(self).wf(),
        ensures
            follows(*old(self), *final(self), r, statementlist(old(self).toks(), old(self).pos(), old(self).nesting())),
            r is Ok ==> old(self).pos() <= final(self).pos(),
        decreases old(self).toks().len() - old(self).pos(), 3nat,
    {
        let ghost t = self.toks();
        let ghost p0 = self.pos();
        while !self.at(C1Token::RightBrace)
            invariant
                self.wf(),
                same_input(old(self).lexer(), self.lexer()),
                t == self.toks(),
                p0 == old(self).pos(),
                p0 <= self.pos(),
                self.nesting() == old(self).nesting(),
                statementlist(t, p0, self.nesting()) == statementlist(t, self.pos(), self.nesting()),
            decreases t.len() - self.pos(),
        {
            if let Err(e) = self.parse_block() {
                return Err(e);
            }
        }
        Ok(())
    }

    /// block ::= "{" statementlist "}" | statement
    fn parse_block(&mut self) -> (r: ParseResult)
        requires
            old(self).wf(),
        ensures
            follows(*old(self), *final(self), r, block(old(self).toks(), old(self).pos(), old(self).nesting())),
            advances(*old(self), *final(self), r),
        decreases old(self).toks().len() - old(self).pos(), 2nat,
    {
        if self.at(C1Token::LeftBrace) {
            if self.depth >= MAX_NESTING {
                return Err(self.too_deep());
            }
            self.lexer.eat();
            self.depth = self.depth + 1;
            let inner = self.parse_statementlist();
            self.depth = self.depth - 1;
            if let Err(e) = inner {
                return Err(e);
            }
            self.check_token(C1Token::RightBrace)
        } else {
            self.parse_statement()
        }
    }

    /// statement ::= ifstatement | returnstatement ";" | printf ";"
    ///             | statassignment ";" | functioncall ";"
    fn parse_statement(&mut self) -> (r: ParseResult)
        requires
            old(self).wf(),
        ensures
            follows(*old(self), *final(self), r, statement(old(self).toks(), old(self).pos(), old(self).nesting())),
            advances(*old(self), *final(self), r),
        decreases old(self).toks().len() - old(self).pos(), 1nat,
    {
        let lookahead = self.peek_token();
        if self.at(C1Token::KwIf) {
            self.parse_if()
        } else if self.at(C1Token::KwReturn) {
            if let Err(e) = self.parse_return() {
                return Err(e);
            }
            self.check_token(C1Token::Semicolon)
        } else if self.at(C1Token::KwPrintf) {
            if let Err(e) = self.parse_printf() {
                return Err(e);
            }
            self.check_token(C1Token::Semicolon)
        } else if self.at(C1Token::Identifier) {
            match lookahead {
                Some(C1Token::Assign) => {
                    if let Err(e) = self.parse_statassignment() {
                        return Err(e);
                    }
                    self.check_token(C1Token::Semicolon)
                },
                Some(C1Token::LeftParenthesis) => {
                    if let Err(e) = self.parse_functioncall() {
                        return Err(e);
                    }
                    self.check_token(C1Token::Semicolon)
                },
                _ => Err(self.unexpected()),
            }
        } else {
            Err(self.unexpected())
        }
    }

    /// ifstatement ::= "if" "(" assignment ")" block
    fn parse_if(&mut self) -> (r: ParseResult)
        requires
            old(self).wf(),
        ensures
            follows(*old(self), *final(self), r, if_stmt(old(self).toks(), old(self).pos(), old(self).nesting())),
            advances(*old(self), *final(self), r),
        decreases old(self).toks().len() - old(self).pos(), 0nat,
    {
        if self.at(C1Token::KwIf) && self.depth >= MAX_NESTING {
            return Err(self.too_deep());
        }
        if let Err(e) = self.check_token(C1Token::KwIf) {
            return Err(e);
        }
        if let Err(e) = self.check_token(C1Token::LeftParenthesis) {
            return Err(e);
        }
        if let Err(e) = self.parse_assignment() {
            return Err(e);
        }
        if let Err(e) = self.check_token(C1Token::RightParenthesis) {
            return Err(e);
        }
        self.depth = self.depth + 1;
        let body = self.parse_block();
        self.depth = self.depth - 1;
        body
    }

    /// returnstatement ::= "return" assignment?
    fn parse_return(&mut self) -> (r: ParseResult)
        requires
            old(self).wf(),
        ensures
            follows(*old(self), *final(self), r, return_stmt(old(self).toks(), old(self).pos(), old(self).nesting())),
            advances(*old(self), *final(self), r),
    {
        if let Err(e) = self.check_token(C1Token::KwReturn) {
            return Err(e);
        }
        if !self.at(C1Token::Semicolon) {
            if let Err(e) = self.parse_assignment() {
                return Err(e);
            }
        }
        Ok(())
    }

    /// printf ::= "printf" "(" assignment ")"
    fn parse_printf(&mut self) -> (r: ParseResult)
        requires
            old(self).wf(),
        ensures
            follows(*old(self), *final(self), r, printf_stmt(old(self).toks(), old(self).pos(), old(self).nesting())),
            advances(*old(self), *final(self), r),
    {
        if let Err(e) = self.check_token(C1Token::KwPrintf) {
            return Err(e);
        }
        if let Err(e) = self.check_token(C1Token::LeftParenthesis) {
            return Err(e);
        }
        if let Err(e) = self.parse_assignment() {
            return Err(e);
        }
        self.check_token(C1Token::RightParenthesis)
    }

    /// type ::= "boolean" | "float" | "int" | "void"
    fn parse_type(&mut self) -> (r: ParseResult)
        requires
            old(self).wf(),
        ensures
            follows(*old(self), *final(self), r, type_kw(old(self).toks(), old(self).pos())),
            advances(*old(self), *final(self), r),
    {
        if self.whilechecker(C1Token::KwBoolean, C1Token::KwFloat, C1Token::KwInt) || self.at(
            C1Token::KwVoid,
        ) {
            self.lexer.eat();
            Ok(())
        } else {
            Err(self.unexpected())
        }
    }

    /// statassignment ::= ID "=" assignment
    fn parse_statassignment(&mut self) -> (r: ParseResult)
        requires
            old(self).wf(),
        ensures
            follows(*old(self), *final(self), r, statassignment(old(self).toks(), old(self).pos(), old(self).nesting())),
            advances(*old(self), *final(self), r),
    {
        if let Err(e) = self.check_token(C1Token::Identifier) {
            return Err(e);
        }
        if let Err(e) = self.check_token(C1Token::Assign) {
            return Err(e);
        }
        self.parse_assignment()
    }

    /// assignment ::= ID "=" assignment | expr, told apart by the token after ID;
    /// a chain of `ID "="` is read in a loop, so it takes no stack
    fn parse_assignment(&mut self) -> (r: ParseResult)
        requires
            old(self).wf(),
        ensures
            follows(*old(self), *final(self), r, assignment(old(self).toks(), old(self).pos(), old(self).nesting())),
            advances(*old(self), *final(self), r),
        decreases old(self).toks().len() - old(self).pos(), 4nat,
    {
        let ghost t = self.toks();
        let ghost d = self.nesting();
        let ghost p0 = self.pos();
        while self.at(C1Token::Identifier) && matches!(self.peek_token(), Some(C1Token::Assign))
            invariant
                self.wf(),
                same_input(old(self).lexer(), self.lexer()),
                t == self.toks(),
                d == old(self).nesting(),
                d == self.nesting(),
                p0 == old(self).pos(),
                p0 <= self.pos(),
                assignment(t, p0, d) == assignment(t, self.pos(), d),
            decreases t.len() - self.pos(),
        {
            self.lexer.eat();
            self.lexer.eat();
        }
        self.parse_expression()
    }

    /// expr ::= simpexpr ( ("==" | "!=" | "<=" | ">=" | "<" | ">") simpexpr )?
    fn parse_expression(&mut self) -> (r: ParseResult)
        requires
            old(self).wf(),
        ensures
            follows(*old(self), *final(self), r, expr(old(self).toks(), old(self).pos(), old(self).nesting())),
            advances(*old(self), *final(self), r),
        decreases old(self).toks().len() - old(self).pos(), 3nat,
    {
        if let Err(e) = self.parse_simpexpr() {
            return Err(e);
        }
        if self.whilechecker(C1Token::Equal, C1Token::NotEqual, C1Token::LessEqual)
            || self.whilechecker(C1Token::GreaterEqual, C1Token::Less, C1Token::Greater) {
            self.lexer.eat();
            self.parse_simpexpr()
        } else {
            Ok(())
        }
    }

    /// simpexpr ::= "-"? term ( ("+" | "-" | "||") term )*
    fn parse_simpexpr(&mut self) -> (r: ParseResult)
        requires
            old(self).wf(),
        ensures
            follows(*old(self), *final(self), r, simpexpr(old(self).toks(), old(self).pos(), old(self).nesting())),
            advances(*old(self), *final(self), r),
        decreases old(self).toks().len() - old(self).pos(), 2nat,
    {
        let ghost t = self.toks();
        let ghost p0 = self.pos();
        if self.at(C1Token::Minus) {
            self.lexer.eat();
        }
        let ghost p1 = self.pos();
        if let Err(e) = self.parse_term() {
            return Err(e);
        }
        while self.whilechecker(C1Token::Plus, C1Token::Minus, C1Token::Or)
            invariant
                self.wf(),
                same_input(old(self).lexer(), self.lexer()),
                t == self.toks(),
                p0 == old(self).pos(),
                p0 <= p1 < self.pos(),
                self.nesting() == old(self).nesting(),
                simpexpr(t, p0, self.nesting()) == simpexpr_tail(t, self.pos(), self.nesting()),
            decreases t.len() - self.pos(),
        {
            self.lexer.eat();
            if let Err(e) = self.parse_term() {
                return Err(e);
            }
        }
        Ok(())
    }

    /// term ::= factor ( ("*" | "/" | "&&") factor )*
    fn parse_term(&mut self) -> (r: ParseResult)
        requires
            old(self).wf(),
        ensures
            follows(*old(self), *final(self), r, term(old(self).toks(), old(self).pos(), old(self).nesting())),
            advances(*old(self), *final(self), r),
        decreases old(self).toks().len() - old(self).pos(), 1nat,
    {
        let ghost t = self.toks();
        let ghost p0 = self.pos();
        if let Err(e) = self.parse_factor() {
            return Err(e);
        }
        while self.whilechecker(C1Token::Asterisk, C1Token::Slash, C1Token::And)
            invariant
                self.wf(),
                same_input(old(self).lexer(), self.lexer()),
                t == self.toks(),
                p0 == old(self).pos(),
                p0 < self.pos(),
                self.nesting() == old(self).nesting(),
                term(t, p0, self.nesting()) == term_tail(t, self.pos(), self.nesting()),
            decreases t.len() - self.pos(),
        {
            self.lexer.eat();
            if let Err(e) = self.parse_factor() {
                return Err(e);
            }
        }
        Ok(())
    }

    /// factor ::= INT | FLOAT | BOOL | functioncall | ID | "(" assignment ")"
    fn parse_factor(&mut self) -> (r: ParseResult)
        requires
            old(self).wf(),
        ensures
            follows(*old(self), *final(self), r, factor(old(self).toks(), old(self).pos(), old(self).nesting())),
            advances(*old(self), *final(self), r),
        decreases old(self).toks().len() - old(self).pos(), 0nat,
    {
        if self.whilechecker(C1Token::ConstInt, C1Token::ConstFloat, C1Token::ConstBoolean) {
            self.lexer.eat();
            Ok(())
        } else if self.at(C1Token::Identifier) {
            if matches!(self.peek_token(), Some(C1Token::LeftParenthesis)) {
                self.parse_functioncall()
            } else {
                self.lexer.eat();
                Ok(())
            }
        } else if self.at(C1Token::LeftParenthesis) {
            if self.depth >= MAX_NESTING {
                return Err(self.too_deep());
            }
            self.lexer.eat();
            self.depth = self.depth + 1;
            let inner = self.parse_assignment();
            self.depth = self.depth - 1;
            if let Err(e) = inner {
                return Err(e);
            }
            self.check_token(C1Token::RightParenthesis)
        } else {
            Err(self.unexpected())
        }
    }

    /// The error for the current token.
    fn unexpected(&self) -> (r: SyntaxError)
        requires
            self.wf(),
        ensures
            reports_at(self.lexer(), r, Stop::Mismatch(self.pos())),
    {
        SyntaxError {
            kind: ErrorKind::UnexpectedToken,
            text: String::from_str(self.lexer.current_text()),
            line: self.lexer.current_line_number(),
        }
    }

    /// The error for a current token that would nest too deeply.
    fn too_deep(&self) -> (r: SyntaxError)
        requires
            self.wf(),
        ensures
            reports_at(self.lexer(), r, Stop::TooDeep(self.pos())),
    {
        SyntaxError {
            kind: ErrorKind::TooDeep,
            text: String::from_str(self.lexer.current_text()),
            line: self.lexer.current_line_number(),
        }
    }

    /// Whether the current token has category `k`.
    fn at(&self, k: C1Token) -> (r: bool)
        requires
            self.wf(),
        ensures
            r == (self.lexer().token_at(self.pos()) == Some(k)),
    {
        match self.lexer.current_token() {
            Some(c) => c == k,
            None => false,
        }
    }

    fn peek_token(&self) -> (r: Option<C1Token>)
        requires
            self.wf(),
        ensures
            r == self.lexer().token_at(self.pos() + 1),
    {
        self.lexer.peek_token()
    }

    /// Whether the current token is one of `a`, `b`, `c`.
    fn whilechecker(&self, a: C1Token, b: C1Token, c: C1Token) -> (r: bool)
        requires
            self.wf(),
        ensures
            r == (self.lexer().token_at(self.pos()) == Some(a) || self.lexer().token_at(self.pos())
                == Some(b) || self.lexer().token_at(self.pos()) == Some(c)),
    {
        self.at(a) || self.at(b) || self.at(c)
    }

    /// Matches and consumes one token of category `k`.
    fn check_token(&mut self, k: C1Token) -> (r: ParseResult)
        requires
            old(self).wf(),
        ensures
            follows(*old(self), *final(self), r, expect(old(self).toks(), old(self).pos(), k)),
            advances(*old(self), *final(self), r),
    {
        if self.at(k) {
            self.lexer.eat();
            Ok(())
        } else {
            Err(self.unexpected())
        }
    }
}

} // verus!
