use aphex::ast::{Expr, Span, Token, Value};
use aphex::compile::{
    build_signature_table, compile_program, literal_constant, Compiler, Feature, FunctionBuilder, GenErrorKind,
};
use aphex::ir::{ArithOp, Inst, IrType, IrValue};
use aphex::parser::program_parser;

fn lex(src: &str) -> Vec<(Token, Span)> {
    src.split_whitespace()
        .enumerate()
        .map(|(i, w)| {
            let t = match w {
                "fn" => Token::Fn,
                "class" => Token::Class,
                "var" => Token::Var,
                "return" => Token::Ret,
                "as" => Token::As,
                "if" => Token::If,
                "null" => Token::Null,
                "true" => Token::Bool(true),
                "+" | "-" | "*" | "/" | "==" | "!=" | "=" | "->" => Token::Op(w.to_string()),
                _ if w.len() == 1 && "{}()[]:,;<>".contains(w) => Token::Ctrl(w.chars().next().unwrap()),
                _ if w.chars().next().unwrap().is_ascii_digit() => Token::Num(w.to_string()),
                _ => Token::Ident(w.to_string()),
            };
            (t, Span { start: i, end: i + 1 })
        })
        .collect()
}

fn compile(src: &str) -> (aphex::ir::Module, Vec<(String, aphex::compile::GenError)>) {
    let t = lex(src);
    let (units, errs) = program_parser(&t, t.len());
    assert!(errs.is_empty(), "syntax errors: {:?}", errs);
    compile_program(&units)
}

fn c32(v: i64) -> IrValue {
    IrValue::ConstInt { ty: IrType::I32, value: v }
}

#[test]
fn constant_addition_lowers_to_an_integer() {
    let (m, errs) = compile("fn f ( ) -> i32 { return 2 + 3 ; }");
    assert!(errs.is_empty());
    assert_eq!(m.functions.len(), 1);
    let f = &m.functions[0];
    assert_eq!(f.name, "f");
    assert_eq!(f.ret, IrType::I32);
    assert_eq!(f.body, vec![Inst::Ret { value: c32(5) }]);
}

#[test]
fn constant_folding_of_each_operator() {
    let (m, _) = compile("fn f ( ) -> i32 { return 7 - 10 * 2 ; }");
    assert_eq!(m.functions[0].body, vec![Inst::Ret { value: c32(-13) }]);
    let (m, _) = compile("fn g ( ) -> i32 { return 7 / 2 ; }");
    let div = Inst::IntOp { op: ArithOp::Div, ty: IrType::I32, lhs: c32(7), rhs: c32(2) };
    assert_eq!(m.functions[0].body, vec![div, Inst::Ret { value: IrValue::Reg { ty: IrType::I32, id: 0 } }]);
    let (m, _) = compile("fn h ( ) -> i32 { return 2147483647 + 1 ; }");
    assert_eq!(m.functions[0].body[0], Inst::IntOp { op: ArithOp::Add, ty: IrType::I32, lhs: c32(2147483647), rhs: c32(1) });
}

#[test]
fn floating_operand_widens_the_other() {
    let (m, errs) = compile("fn g ( ) -> f32 { var x as f32 = 1 ; return x + 2 ; }");
    assert!(errs.is_empty());
    let f = &m.functions[0];
    assert_eq!(f.slots, vec![IrType::F32]);
    let r = |id| IrValue::Reg { ty: IrType::F32, id };
    assert_eq!(
        f.body,
        vec![
            Inst::IntToFloat { ty: IrType::F32, value: c32(1) },
            Inst::Store { slot: 0, value: r(0) },
            Inst::Load { slot: 0, ty: IrType::F32 },
            Inst::IntToFloat { ty: IrType::F32, value: c32(2) },
            Inst::FloatOp { op: ArithOp::Add, ty: IrType::F32, lhs: r(2), rhs: r(3) },
            Inst::Ret { value: r(4) },
        ]
    );
}

#[test]
fn wider_integer_and_float_promotion() {
    let (m, errs) = compile("fn g ( ) -> f64 { var a as i64 = 3 ; var b as f32 = 1 ; return a * b ; }");
    assert!(errs.is_empty());
    let body = &m.functions[0].body;
    assert!(body.contains(&Inst::IntToFloat { ty: IrType::F32, value: IrValue::Reg { ty: IrType::I64, id: 3 } }));
    assert!(body.contains(&Inst::FloatExtend { ty: IrType::F64, value: IrValue::Reg { ty: IrType::F32, id: 6 } }));
}

#[test]
fn narrowing_is_a_type_mismatch() {
    let (m, errs) = compile("fn g ( ) -> i32 { var x as f32 = 1 ; return x ; }");
    assert!(m.functions.is_empty());
    assert_eq!(errs[0].1.kind, GenErrorKind::TypeMismatch { expected: IrType::I32, found: IrType::F32 });
}

#[test]
fn redeclaration_shadows_the_earlier_binding() {
    let (m, errs) = compile("fn f ( ) -> i32 { var x as i32 = 1 ; var x as i32 = 2 ; return x ; }");
    assert!(errs.is_empty());
    let f = &m.functions[0];
    assert_eq!(f.slots, vec![IrType::I32, IrType::I32]);
    assert_eq!(
        f.body,
        vec![
            Inst::Store { slot: 0, value: c32(1) },
            Inst::Store { slot: 1, value: c32(2) },
            Inst::Load { slot: 1, ty: IrType::I32 },
            Inst::Ret { value: IrValue::Reg { ty: IrType::I32, id: 2 } },
        ]
    );
}

#[test]
fn reference_before_declaration_is_unknown() {
    let (m, errs) = compile("fn f ( ) -> i32 { var y as i32 = x ; var x as i32 = 1 ; return x ; }");
    assert!(m.functions.is_empty());
    assert_eq!(errs.len(), 1);
    assert_eq!(errs[0].0, "f");
    assert_eq!(errs[0].1.kind, GenErrorKind::UnknownVariable("x".to_string()));
    assert_eq!(errs[0].1.span, Span { start: 12, end: 13 });
}

#[test]
fn later_function_signature_is_visible_to_earlier_caller() {
    let (m, errs) = compile("fn f ( ) -> i32 { return g ( ) ; } fn g ( ) -> i32 { return 1 ; }");
    assert_eq!(m.functions.len(), 1);
    assert_eq!(m.functions[0].name, "g");
    assert_eq!(errs.len(), 1);
    assert_eq!(errs[0].0, "f");
    assert_eq!(errs[0].1.kind, GenErrorKind::Unimplemented(Feature::Call));
}

#[test]
fn calls_are_unimplemented_whatever_the_callee() {
    let (_, errs) = compile("fn f ( ) -> i32 { return g ( 1 ) ; } fn g ( ) -> i32 { return 1 ; } fn h ( ) -> i32 { return k ( ) ; }");
    assert_eq!(errs.len(), 2);
    assert_eq!(errs[0].1.kind, GenErrorKind::Unimplemented(Feature::Call));
    assert_eq!(errs[0].1.span, Span { start: 8, end: 12 });
    assert_eq!(errs[1].0, "h");
    assert_eq!(errs[1].1.kind, GenErrorKind::Unimplemented(Feature::Call));
}

#[test]
fn return_yields_the_lowered_value() {
    let sp = Span { start: 0, end: 1 };
    let e = (Expr::Ret(Box::new((Expr::Value(Value::Num("1".to_string())), sp))), sp);
    let table = build_signature_table(&Vec::new());
    let mut fb = FunctionBuilder::new(IrType::F32);
    let r = Compiler::new().compile_expression(&e, &table, &mut fb);
    assert_eq!(r, Ok(c32(1)));
    assert_eq!(
        fb.body,
        vec![
            Inst::IntToFloat { ty: IrType::F32, value: c32(1) },
            Inst::Ret { value: IrValue::Reg { ty: IrType::F32, id: 0 } },
        ]
    );
}

#[test]
fn unsupported_constructs_are_unimplemented() {
    let (_, errs) = compile("fn a ( ) -> i32 { return 1 == 1 ; } fn b ( ) -> i32 { return true ; } fn c ( ) -> i32 { return [ 1 ] ; }");
    assert_eq!(errs[0].1.kind, GenErrorKind::Unimplemented(Feature::Equality));
    assert_eq!(errs[1].1.kind, GenErrorKind::Unimplemented(Feature::Bool));
    assert_eq!(errs[2].1.kind, GenErrorKind::Unimplemented(Feature::List));
}

#[test]
fn unknown_types_are_reported() {
    let (_, errs) = compile("fn a ( ) -> str { return 1 ; } fn b ( p : q ) -> i32 { return 1 ; } fn c ( ) -> i32 { var v as u8 = 1 ; return 1 ; }");
    assert_eq!(errs[0].1.kind, GenErrorKind::UnknownType("str".to_string()));
    assert_eq!(errs[1].1.kind, GenErrorKind::UnknownType("q".to_string()));
    assert_eq!(errs[2].1.kind, GenErrorKind::UnknownType("u8".to_string()));
}

#[test]
fn body_must_end_in_its_only_return() {
    let (m, errs) = compile("fn a ( ) -> i32 { var x as i32 = 1 ; } fn b ( ) -> i32 { return 1 ; return 2 ; } fn c ( p : i64 , q : f64 ) -> i64 { return 1 ; }");
    assert_eq!(errs[0].1.kind, GenErrorKind::MissingReturn);
    assert_eq!(errs[1].1.kind, GenErrorKind::CodeAfterReturn);
    assert_eq!(m.functions.len(), 1);
    assert_eq!(m.functions[0].params, vec![IrType::I64, IrType::F64]);
    assert_eq!(m.functions[0].body, vec![Inst::Ret { value: IrValue::ConstInt { ty: IrType::I64, value: 1 } }]);
}

#[test]
fn error_node_is_rejected_without_panic() {
    let t = lex("fn f ( ) -> i32 { return ( 1 + ) ; }");
    let (units, errs) = program_parser(&t, t.len());
    assert_eq!(errs.len(), 1);
    let (m, gen) = compile_program(&units);
    assert!(m.functions.is_empty());
    assert_eq!(gen[0].1.kind, GenErrorKind::Malformed);
}

#[test]
fn literal_constants_drop_the_fraction_and_wrap() {
    assert_eq!(literal_constant("12.75"), 12);
    assert_eq!(literal_constant("0"), 0);
    assert_eq!(literal_constant("4294967297"), 1);
    assert_eq!(literal_constant("2147483648"), -2147483648);
}

#[test]
fn type_names_and_table() {
    assert_eq!(Compiler::new().to_type("f64"), Some(IrType::F64));
    assert_eq!(Compiler::new().to_type("i64"), Some(IrType::I64));
    assert_eq!(Compiler::new().to_type("bool"), None);
    assert_eq!(Compiler::new().to_type("i32"), Some(IrType::I32));
    let t = lex("class K { fn a ( ) -> i32 { return 1 ; } } fn b ( x : i32 ) -> f32 { return x ; } fn a ( ) -> i64 { return 2 ; }");
    let (units, _) = program_parser(&t, t.len());
    let table = build_signature_table(&units);
    assert_eq!(table.entries.len(), 3);
    let i = table.lookup(&"a".to_string()).unwrap();
    assert_eq!(table.entries[i].1.return_type, "i64");
    assert_eq!(table.lookup(&"K".to_string()), None);
    let fb = FunctionBuilder::new(IrType::I32);
    assert!(fb.body.is_empty());
}
