use c1_parser::error::decimal_string;
use c1_parser::{C1Lexer, C1Parser, C1Token, ErrorKind, ParseResult, SyntaxError};

fn err_of(r: ParseResult) -> (ErrorKind, String, usize) {
    match r {
        Ok(()) => panic!("expected a syntax error"),
        Err(e) => (e.kind, e.text, e.line),
    }
}

#[test]
fn call_statement_is_accepted() {
    assert!(C1Parser::parse("int f(){ a(); }").is_ok());
}

#[test]
fn assignment_statement_is_accepted() {
    assert!(C1Parser::parse("int f(){ a = 1; }").is_ok());
}

#[test]
fn bare_identifier_statement_is_rejected() {
    let (kind, text, line) = err_of(C1Parser::parse("int f(){ a; }"));
    assert_eq!(kind, ErrorKind::UnexpectedToken);
    assert_eq!(text, "a");
    assert_eq!(line, 1);
}

#[test]
fn relational_operators_do_not_chain() {
    let (kind, text, _) = err_of(C1Parser::parse("int f(){ return 1<2<3; }"));
    assert_eq!(kind, ErrorKind::UnexpectedToken);
    assert_eq!(text, "<");
}

#[test]
fn single_comparison_is_accepted() {
    assert!(C1Parser::parse("int f(){ return 1<2; }").is_ok());
}

#[test]
fn empty_body_is_accepted() {
    assert!(C1Parser::parse("void f(){}").is_ok());
}

#[test]
fn empty_input_is_an_empty_file() {
    let (kind, text, line) = err_of(C1Parser::parse(""));
    assert_eq!(kind, ErrorKind::EmptyFile);
    assert_eq!(text, "");
    assert_eq!(line, 1);
}

#[test]
fn comments_and_blanks_only_is_an_empty_file() {
    let (kind, _, line) = err_of(C1Parser::parse("  // nothing\n/* still\nnothing */\n"));
    assert_eq!(kind, ErrorKind::EmptyFile);
    assert_eq!(line, 4);
}

#[test]
fn missing_semicolon_is_reported_at_the_next_token() {
    let src = "int f(){\n  a = 1\n  b = 2;\n}";
    let (kind, text, line) = err_of(C1Parser::parse(src));
    assert_eq!(kind, ErrorKind::UnexpectedToken);
    assert_eq!(text, "b");
    assert_eq!(line, 3);
}

#[test]
fn parse_is_deterministic() {
    let src = "int f(){\n  if (x == 1) { y = 2 }\n}";
    let a = err_of(C1Parser::parse(src));
    let b = err_of(C1Parser::parse(src));
    assert_eq!(a, b);
    assert_eq!(a.1, "}");
    assert_eq!(a.2, 2);
    assert_eq!(C1Parser::parse("void f(){}").is_ok(), C1Parser::parse("void f(){}").is_ok());
}

#[test]
fn truncated_program_is_rejected() {
    let full = "int f(){ return 1; }";
    assert!(C1Parser::parse(full).is_ok());
    let (kind, text, line) = err_of(C1Parser::parse("int f(){ return 1; "));
    assert_eq!(kind, ErrorKind::UnexpectedToken);
    assert_eq!(text, "");
    assert_eq!(line, 1);
    assert!(C1Parser::parse("int f(){ return 1 }").is_err());
    assert!(C1Parser::parse("int").is_err());
}

#[test]
fn chained_assignment_is_accepted() {
    assert!(C1Parser::parse("int f(){ a = b = c = 4; }").is_ok());
    assert!(C1Parser::parse("int f(){ printf(a = b = 1); }").is_ok());
}

#[test]
fn full_program_is_accepted() {
    let src = "\
// a small program
boolean even(){ return true; }
float half(){ return .5 * 2.0; }
void main(){
    /* block
       comment */
    int_x = -3 + 4 * (2 - 1) / 7 || false && x;
    if (x >= (2 != 1)) { printf(x); }
    if (even()) printf(half() + 1);
    { { } }
    return;
}
int last(){ x(); }";
    assert!(C1Parser::parse(src).is_ok());
}

#[test]
fn nested_blocks_must_close() {
    let (_, text, line) = err_of(C1Parser::parse("void f(){ {\n}\n"));
    assert_eq!(text, "");
    assert_eq!(line, 3);
}

#[test]
fn trailing_tokens_are_rejected() {
    let (kind, text, _) = err_of(C1Parser::parse("void f(){} x"));
    assert_eq!(kind, ErrorKind::UnexpectedToken);
    assert_eq!(text, "x");
}

#[test]
fn second_definition_is_checked() {
    let (_, text, line) = err_of(C1Parser::parse("void f(){}\nvoid g(){ 1; }"));
    assert_eq!(text, "1");
    assert_eq!(line, 2);
}

#[test]
fn lexical_error_is_a_syntax_error() {
    let (kind, text, line) = err_of(C1Parser::parse("void f(){\n a = 1 @ 2;\n}"));
    assert_eq!(kind, ErrorKind::UnexpectedToken);
    assert_eq!(text, "@");
    assert_eq!(line, 2);
}

#[test]
fn unterminated_comment_is_one_error_token() {
    let (_, text, line) = err_of(C1Parser::parse("void f(){\n /* open\n"));
    assert_eq!(text, "/* open\n");
    assert_eq!(line, 2);
}

#[test]
fn function_needs_a_type() {
    let (_, text, _) = err_of(C1Parser::parse("f(){}"));
    assert_eq!(text, "f");
    let (_, text, _) = err_of(C1Parser::parse("bool f(){}"));
    assert_eq!(text, "bool");
}

#[test]
fn statement_needs_a_known_start() {
    let (_, text, _) = err_of(C1Parser::parse("void f(){ = 1; }"));
    assert_eq!(text, "=");
    let (_, text, _) = err_of(C1Parser::parse("void f(){ a + 1; }"));
    assert_eq!(text, "a");
}

#[test]
fn factor_rejects_operator() {
    let (_, text, _) = err_of(C1Parser::parse("void f(){ return 1 + * 2; }"));
    assert_eq!(text, "*");
}

#[test]
fn lexer_reads_tokens_lines_and_text() {
    let mut lx = C1Lexer::new("int x1 = 3.25;\n// note\n  a<=b && true");
    let mut seen = Vec::new();
    while let Some(t) = lx.current_token() {
        seen.push((t, lx.current_text().to_string(), lx.current_line_number(), lx.peek_token()));
        lx.eat();
    }
    let kinds: Vec<C1Token> = seen.iter().map(|s| s.0).collect();
    assert_eq!(
        kinds,
        vec![
            C1Token::KwInt,
            C1Token::Identifier,
            C1Token::Assign,
            C1Token::ConstFloat,
            C1Token::Semicolon,
            C1Token::Identifier,
            C1Token::LessEqual,
            C1Token::Identifier,
            C1Token::And,
            C1Token::ConstBoolean,
        ]
    );
    assert_eq!(seen[1].1, "x1");
    assert_eq!(seen[3].1, "3.25");
    assert_eq!(seen[0].3, Some(C1Token::Identifier));
    assert_eq!(seen[9].3, None);
    assert_eq!(seen[4].2, 1);
    assert_eq!(seen[5].2, 3);
    assert_eq!(seen[6].1, "<=");
    assert_eq!(lx.current_text(), "");
    assert_eq!(lx.current_line_number(), 3);
    lx.eat();
    assert_eq!(lx.current_token(), None);
}

#[test]
fn lexer_splits_operators() {
    let mut lx = C1Lexer::new("== != < > = ! & | || 12 .5 7.");
    let mut kinds = Vec::new();
    while let Some(t) = lx.current_token() {
        kinds.push(t);
        lx.eat();
    }
    assert_eq!(
        kinds,
        vec![
            C1Token::Equal,
            C1Token::NotEqual,
            C1Token::Less,
            C1Token::Greater,
            C1Token::Assign,
            C1Token::Error,
            C1Token::Error,
            C1Token::Error,
            C1Token::Or,
            C1Token::ConstInt,
            C1Token::ConstFloat,
            C1Token::ConstInt,
            C1Token::Error,
        ]
    );
}

#[test]
fn parser_over_a_lexer() {
    let lx = C1Lexer::new("void f(){ g(); }");
    assert!(C1Parser::new(lx).parse_program().is_ok());
    let lx = C1Lexer::new("void f(){ g(; }");
    let (_, text, _) = err_of(C1Parser::new(lx).parse_program());
    assert_eq!(text, ";");
}

#[test]
fn message_renders_kind_text_and_line() {
    let e = C1Parser::parse("int f(){\n  a = 1\n  b = 2;\n}").unwrap_err();
    assert_eq!(e.message(), "Unexpected token found: \"b\" at line 3");
    let e = C1Parser::parse("").unwrap_err();
    assert_eq!(e.message(), "Empty file found: \"\" at line 1");
    let e = SyntaxError { kind: ErrorKind::UnexpectedToken, text: "x".to_string(), line: 1207 };
    assert_eq!(e.message(), "Unexpected token found: \"x\" at line 1207");
}

#[test]
fn decimal_writes_numbers() {
    assert_eq!(decimal_string(0), "0");
    assert_eq!(decimal_string(9), "9");
    assert_eq!(decimal_string(10), "10");
    assert_eq!(decimal_string(40301), "40301");
}

#[test]
fn program_cut_before_its_last_token_is_rejected() {
    let programs = [
        "int f(){ if (a == b) { x = -1 + y * (z || w); } return f(); } void g(){ printf(1); }",
        "void f(){}",
        "int f(){ {{{}}} }\n",
        "int f(){ return 1; } // trailing comment",
    ];
    for full in programs.iter() {
        assert!(C1Parser::parse(full).is_ok());
        let cut = full.rfind('}').unwrap();
        let (kind, text, _) = err_of(C1Parser::parse(&full[..cut]));
        assert_eq!(kind, ErrorKind::UnexpectedToken);
        assert_eq!(text, "");
    }
}

#[test]
fn many_valid_programs_are_accepted() {
    let programs = [
        "void f(){}",
        "int a(){} int b(){} int c(){}",
        "float f(){ return 1.5; }",
        "boolean f(){ return true && false || 1 < 2; }",
        "int f(){ if (x) if (y) return; }",
        "int f(){ {{{}}} }",
        "int f(){ x = (y = 3) + 1; }",
        "int f(){ return -x - 1; }",
    ];
    for p in programs.iter() {
        assert!(C1Parser::parse(p).is_ok(), "{} was rejected", p);
    }
}

#[test]
fn unary_minus_only_at_the_start_of_a_simpexpr() {
    assert!(C1Parser::parse("int f(){ return -1 + 2; }").is_ok());
    let (_, text, _) = err_of(C1Parser::parse("int f(){ return 1 + -2; }"));
    assert_eq!(text, "-");
}

#[test]
fn comparison_operators_accepted_once_each() {
    for op in ["==", "!=", "<", "<=", ">", ">="].iter() {
        let src = format!("int f(){{ return a {} b; }}", op);
        assert!(C1Parser::parse(&src).is_ok(), "{}", src);
    }
}

#[test]
fn printf_needs_an_argument() {
    let (_, text, _) = err_of(C1Parser::parse("int f(){ printf(); }"));
    assert_eq!(text, ")");
}

#[test]
fn if_needs_parenthesised_condition() {
    let (_, text, _) = err_of(C1Parser::parse("int f(){ if x { } }"));
    assert_eq!(text, "x");
}

#[test]
fn line_comment_at_end_of_input() {
    assert!(C1Parser::parse("void f(){} // done").is_ok());
    assert!(C1Parser::parse("void f(){} /* done */").is_ok());
}

fn nested_braces(n: usize) -> String {
    format!("void f(){{\n{}{}}}", "{".repeat(n), "}".repeat(n))
}

fn nested_parens(n: usize) -> String {
    format!("int f(){{ return {}1{}; }}", "(".repeat(n), ")".repeat(n))
}

#[test]
fn braces_up_to_the_bound_are_accepted() {
    assert!(C1Parser::parse(&nested_braces(256)).is_ok());
}

#[test]
fn braces_beyond_the_bound_are_too_deep() {
    let (kind, text, line) = err_of(C1Parser::parse(&nested_braces(257)));
    assert_eq!(kind, ErrorKind::TooDeep);
    assert_eq!(text, "{");
    assert_eq!(line, 2);
    let e = C1Parser::parse(&nested_braces(100_000)).unwrap_err();
    assert_eq!(e.kind, ErrorKind::TooDeep);
    assert_eq!(e.message(), "Nesting too deep found: \"{\" at line 2");
}

#[test]
fn parentheses_beyond_the_bound_are_too_deep() {
    assert!(C1Parser::parse(&nested_parens(256)).is_ok());
    let (kind, text, _) = err_of(C1Parser::parse(&nested_parens(257)));
    assert_eq!(kind, ErrorKind::TooDeep);
    assert_eq!(text, "(");
    assert_eq!(err_of(C1Parser::parse(&nested_parens(100_000))).0, ErrorKind::TooDeep);
}

#[test]
fn if_chains_beyond_the_bound_are_too_deep() {
    let ok = format!("int f(){{ {}x(); }}", "if (a) ".repeat(256));
    assert!(C1Parser::parse(&ok).is_ok());
    let deep = format!("int f(){{ {}x(); }}", "if (a) ".repeat(257));
    let (kind, text, _) = err_of(C1Parser::parse(&deep));
    assert_eq!(kind, ErrorKind::TooDeep);
    assert_eq!(text, "if");
}

#[test]
fn long_assignment_chains_need_no_nesting() {
    let src = format!("int f(){{ {}1; }}", "a = ".repeat(100_000));
    assert!(C1Parser::parse(&src).is_ok());
}

#[test]
fn syntax_error_before_the_bound_is_reported_first() {
    let src = format!("void f(){{ ; {}", "{".repeat(300));
    let (kind, text, _) = err_of(C1Parser::parse(&src));
    assert_eq!(kind, ErrorKind::UnexpectedToken);
    assert_eq!(text, ";");
}
