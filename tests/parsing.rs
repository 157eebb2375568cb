use aphex::ast::{BinaryOp, Expr, ProgramUnit, Span, Token, Value};
use aphex::grammar::{Expected, SyntaxReason};
use aphex::parser::{
    class_parser, expression_parser, function_declaration_parser, function_definition_parser, program_parser,
    raw_expression_parser,
};

/// Splits a source line on spaces into tokens; token `i` spans `i..i+1`.
fn lex(src: &str) -> Vec<(Token, Span)> {
    src.split_whitespace()
        .enumerate()
        .map(|(i, w)| {
            let t = match w {
                "fn" => Token::Fn,
                "class" => Token::Class,
                "var" => Token::Var,
                "return" => Token::Ret,
                "as" => Token::As,
                "if" => Token::If,
                "else" => Token::Else,
                "null" => Token::Null,
                "true" => Token::Bool(true),
                "false" => Token::Bool(false),
                "+" | "-" | "*" | "/" | "==" | "!=" | "=" | "->" => Token::Op(w.to_string()),
                _ if w.len() == 1 && "{}()[]:,;<>".contains(w) => Token::Ctrl(w.chars().next().unwrap()),
                _ if w.chars().next().unwrap().is_ascii_digit() => Token::Num(w.to_string()),
                _ if w.starts_with('"') => Token::Str(w.trim_matches('"').to_string()),
                _ => Token::Ident(w.to_string()),
            };
            (t, Span { start: i, end: i + 1 })
        })
        .collect()
}

fn show(e: &Expr) -> String {
    match e {
        Expr::Error => "<error>".to_string(),
        Expr::Value(Value::Num(n)) => n.clone(),
        Expr::Value(v) => v.to_text(),
        Expr::List(xs) => format!("[{}]", xs.iter().map(|x| show(&x.0)).collect::<Vec<_>>().join(" ")),
        Expr::Local(n) => n.clone(),
        Expr::Var(n, t, v) => format!("(var {} {} {})", n, t, show(&v.0)),
        Expr::Then(a, b) => format!("(then {} {})", show(&a.0), show(&b.0)),
        Expr::Binary(a, op, b) => {
            let o = match op {
                BinaryOp::Add => "+",
                BinaryOp::Sub => "-",
                BinaryOp::Mul => "*",
                BinaryOp::Div => "/",
                BinaryOp::Eq => "==",
                BinaryOp::NotEq => "!=",
            };
            format!("({} {} {})", o, show(&a.0), show(&b.0))
        }
        Expr::Call(f, args) => format!("(call {}{})", show(&f.0), args.iter().map(|x| format!(" {}", show(&x.0))).collect::<String>()),
        Expr::If(c, a, b) => format!("(if {} {} {})", show(&c.0), show(&a.0), show(&b.0)),
        Expr::Ret(v) => format!("(return {})", show(&v.0)),
    }
}

fn expr_of(src: &str) -> (String, Span, usize) {
    let t = lex(src);
    let (e, errs) = raw_expression_parser(&t, t.len());
    let e = e.expect("expression parses");
    (show(&e.0), e.1, errs.len())
}

#[test]
fn multiplication_binds_tighter_than_addition() {
    let (e, span, n) = expr_of("2 + 3 * 4");
    assert_eq!(e, "(+ 2 (* 3 4))");
    assert_eq!(span, Span { start: 0, end: 5 });
    assert_eq!(n, 0);
    assert_eq!(expr_of("2 * 3 + 4").0, "(+ (* 2 3) 4)");
}

#[test]
fn subtraction_is_left_associative() {
    assert_eq!(expr_of("8 - 3 - 2").0, "(- (- 8 3) 2)");
    assert_eq!(expr_of("8 / 4 / 2").0, "(/ (/ 8 4) 2)");
}

#[test]
fn equality_is_loosest_and_parentheses_regroup() {
    assert_eq!(expr_of("1 + 2 == 3 != x").0, "(!= (== (+ 1 2) 3) x)");
    assert_eq!(expr_of("( 2 + 3 ) * 4").0, "(* (+ 2 3) 4)");
}

#[test]
fn calls_bind_tighter_than_any_operator() {
    let (e, span, _) = expr_of("f ( 1 , x ) ( ) * 2");
    assert_eq!(e, "(* (call (call f 1 x)) 2)");
    assert_eq!(span, Span { start: 0, end: 10 });
    assert_eq!(expr_of("g ( 1 , )").0, "(call g 1)");
    assert_eq!(expr_of("[ 1 , 2 + 3 ]").0, "[1 (+ 2 3)]");
}

#[test]
fn malformed_group_is_recovered_as_one_error_node() {
    let t = lex("( 1 + ) + 2");
    let (e, errs) = raw_expression_parser(&t, t.len());
    let e = e.expect("recovered");
    assert_eq!(show(&e.0), "(+ <error> 2)");
    match &e.0 {
        Expr::Binary(a, _, _) => assert_eq!(a.1, Span { start: 0, end: 4 }),
        _ => panic!("not a binary node"),
    }
    assert_eq!(errs.len(), 1);
    assert_eq!(errs[0].span, Span { start: 3, end: 4 });
}

#[test]
fn recovery_tracks_all_three_pairs() {
    let t = lex("( [ 1 + ] ) + 2");
    let (e, errs) = raw_expression_parser(&t, t.len());
    assert_eq!(show(&e.expect("recovered").0), "(+ <error> 2)");
    assert_eq!(errs.len(), 1);
    let t = lex("( 1 + ] ) + 2");
    let (e, errs) = raw_expression_parser(&t, t.len());
    assert!(e.is_none());
    assert_eq!(
        errs[0].reason,
        SyntaxReason::Unclosed { opener: '(', opener_span: Span { start: 0, end: 1 }, found: Some(Token::Ctrl(']')) }
    );
}

#[test]
fn trailing_tokens_are_an_error() {
    let t = lex("1 2");
    let (e, errs) = raw_expression_parser(&t, t.len());
    assert!(e.is_none());
    assert_eq!(errs.len(), 1);
    assert_eq!(
        errs[0].reason,
        SyntaxReason::Unexpected { found: Some(Token::Num("2".to_string())), expected: Expected::End }
    );
}

#[test]
fn missing_operand_reports_end_of_input() {
    let t = lex("1 +");
    let (e, errs) = raw_expression_parser(&t, 7);
    assert!(e.is_none());
    assert_eq!(errs[0].span, Span { start: 7, end: 7 });
    assert_eq!(errs[0].reason, SyntaxReason::Unexpected { found: None, expected: Expected::Expression });
}

#[test]
fn statements_fold_into_a_left_deep_sequence() {
    let t = lex("var x as i32 = 1 ; x ; return x + 1 ;");
    let (e, errs) = expression_parser(&t, t.len());
    let e = e.expect("statements parse");
    assert!(errs.is_empty());
    assert_eq!(show(&e.0), "(then (then (var x i32 1) x) (return (+ x 1)))");
    assert_eq!(e.1, Span { start: 0, end: 14 });
}

#[test]
fn declaration_with_generics_and_parameters() {
    let t = lex("fn pick < T , U > ( a : T , b : i32 ) -> U");
    let ((name, sig), next) = function_declaration_parser(&t, t.len(), 0).expect("declaration parses");
    assert_eq!(name, "pick");
    assert_eq!(sig.return_type, "U");
    assert_eq!(sig.generic_params, vec!["T".to_string(), "U".to_string()]);
    assert_eq!(sig.params, vec![("a".to_string(), "T".to_string()), ("b".to_string(), "i32".to_string())]);
    assert_eq!(next, t.len());
}

#[test]
fn declaration_without_arrow_is_rejected() {
    let t = lex("fn f ( ) i32");
    let e = function_declaration_parser(&t, t.len(), 0).unwrap_err();
    assert_eq!(e.span, Span { start: 4, end: 5 });
    assert_eq!(e.reason, SyntaxReason::Unexpected { found: Some(Token::Ident("i32".to_string())), expected: Expected::Arrow });
}

#[test]
fn function_definition_parses_its_body() {
    let t = lex("fn one ( ) -> i32 { return 1 ; }");
    let mut errs = Vec::new();
    let (f, next) = function_definition_parser(&t, t.len(), 0, &mut errs).expect("function parses");
    assert_eq!(f.name, "one");
    assert_eq!(show(&f.definition.body.0), "(return 1)");
    assert_eq!(next, t.len());
    assert!(errs.is_empty());
}

#[test]
fn recovery_keeps_the_damaged_function() {
    let t = lex("fn f ( ) -> i32 { var x as i32 = ( 1 + ; }");
    let (units, errs) = program_parser(&t, t.len());
    assert!(!errs.is_empty());
    assert_eq!(
        errs[0].reason,
        SyntaxReason::Unclosed {
            opener: '(',
            opener_span: Span { start: 12, end: 13 },
            found: Some(Token::Ctrl(';')),
        }
    );
    assert_eq!(errs[0].span, Span { start: 15, end: 16 });
    assert_eq!(units.len(), 1);
    match &units[0] {
        ProgramUnit::Function(f) => {
            assert_eq!(f.name, "f");
            assert!(matches!(f.definition.body.0, Expr::Error));
            assert_eq!(f.definition.body.1, Span { start: 6, end: 17 });
        }
        _ => panic!("expected a function"),
    }
}

#[test]
fn class_is_flattened_into_marker_and_functions() {
    let t = lex("class Point { fn x ( ) -> i32 { return 1 ; } fn y ( ) -> i32 { return 2 ; } } fn main ( ) -> i32 { return 0 ; }");
    let mut errs = Vec::new();
    let (units, next) = class_parser(&t, t.len(), 0, &mut errs).expect("class parses");
    assert_eq!(units.len(), 3);
    assert!(matches!(&units[0], ProgramUnit::Class(c) if c.name == "Point"));
    assert!(matches!(&units[2], ProgramUnit::Function(f) if f.name == "y"));
    assert_eq!(next, 26);
    let (all, errs) = program_parser(&t, t.len());
    assert!(errs.is_empty());
    assert_eq!(all.len(), 4);
    assert!(matches!(&all[3], ProgramUnit::Function(f) if f.name == "main"));
}

#[test]
fn broken_unit_is_skipped_to_the_next_function() {
    let t = lex("oops fn ( fn ok ( ) -> i32 { return 1 ; }");
    let (units, errs) = program_parser(&t, t.len());
    assert_eq!(errs.len(), 2);
    assert_eq!(errs[0].reason, SyntaxReason::Unexpected { found: Some(Token::Ident("oops".to_string())), expected: Expected::Unit });
    assert_eq!(units.len(), 1);
    assert!(matches!(&units[0], ProgramUnit::Function(f) if f.name == "ok"));
}

#[test]
fn empty_input_gives_no_units() {
    let (units, errs) = program_parser(&Vec::new(), 0);
    assert!(units.is_empty());
    assert!(errs.is_empty());
}

#[test]
fn token_and_value_texts() {
    assert_eq!(Token::Ctrl('(').to_text(), "(");
    assert_eq!(Token::Fn.to_text(), "fn");
    assert_eq!(Token::Op("->".to_string()).to_text(), "->");
    let list = Value::List(vec![Value::Num("1".to_string()), Value::Bool(true), Value::Null]);
    assert_eq!(list.to_text(), "[1, true, null]");
    assert_eq!(Value::Func("f".to_string()).to_text(), "<function: f>");
    let e = Value::Str("hi".to_string()).num(Span { start: 2, end: 4 }).unwrap_err();
    assert_eq!(e.msg, "'hi' is not a number");
    assert_eq!(e.span, Span { start: 2, end: 4 });
    assert_eq!(Value::Num("2.5".to_string()).num(Span { start: 0, end: 1 }).ok(), Some("2.5".to_string()));
}
