use toy_compiler::expr::{Expr, NumLiteral, PrimaryExpr};
use toy_compiler::lexer::Lexer;
use toy_compiler::parser::Parser;
use toy_compiler::stmt::Stmt;

fn parse(src: &str) -> Vec<Stmt> {
    let mut text = src.to_string();
    text.push('\0');
    let mut l = Lexer::new(text).unwrap();
    Parser::new(l.lex().unwrap()).parse().unwrap()
}

fn literal_of(s: &Stmt) -> NumLiteral {
    match s {
        Stmt::ExprStmt(Expr::Primary(p)) => match &**p {
            PrimaryExpr::NumLiteral(n, _) => *n,
            other => panic!("unexpected {:?}", other),
        },
        other => panic!("unexpected {:?}", other),
    }
}

#[test]
fn negation_picks_the_signed_type_that_holds_it() {
    assert_eq!(NumLiteral::U8(5).negate(), Ok(NumLiteral::I8(-5)));
    assert_eq!(NumLiteral::U8(128).negate(), Ok(NumLiteral::I8(-128)));
    assert_eq!(NumLiteral::U8(129).negate(), Ok(NumLiteral::I16(-129)));
    assert_eq!(NumLiteral::U16(32768).negate(), Ok(NumLiteral::I16(-32768)));
    assert_eq!(NumLiteral::U16(40000).negate(), Ok(NumLiteral::I32(-40000)));
    assert_eq!(NumLiteral::U32(0x8000_0000).negate(), Ok(NumLiteral::I32(i32::MIN)));
    assert_eq!(NumLiteral::U32(0x8000_0001).negate(), Ok(NumLiteral::I64(-0x8000_0001)));
    assert_eq!(NumLiteral::U64(9_223_372_036_854_775_807).negate(), Ok(NumLiteral::I64(-9_223_372_036_854_775_807)));
}

#[test]
fn negation_past_sixty_four_bits_is_refused() {
    assert_eq!(NumLiteral::U64(9_223_372_036_854_775_808).negate(), Ok(NumLiteral::I64(i64::MIN)));
    assert_eq!(NumLiteral::U64(9_223_372_036_854_775_809).negate(), Err(()));
}

#[test]
fn minus_literals_become_negative_literals() {
    let mut ast = parse("-5; -300;");
    for s in ast.iter_mut() {
        assert!(s.neg_unary_literals().is_ok());
    }
    assert_eq!(literal_of(&ast[0]), NumLiteral::I8(-5));
    assert_eq!(literal_of(&ast[1]), NumLiteral::I16(-300));
}

#[test]
fn literals_inside_other_expressions_are_reached() {
    let mut ast = parse("let x: i8 = a + -1; f(-2, b[-3]);");
    for s in ast.iter_mut() {
        assert!(s.neg_unary_literals().is_ok());
    }
    let text = format!("{:?}", ast);
    assert!(text.contains("I8(-1)"));
    assert!(text.contains("I8(-2)"));
    assert!(text.contains("I8(-3)"));
    assert!(!text.contains("Unary"));
}

#[test]
fn a_second_pass_changes_nothing() {
    let mut ast = parse("x = -7 + (-(8));");
    for s in ast.iter_mut() {
        assert!(s.neg_unary_literals().is_ok());
    }
    let once = format!("{:?}", ast);
    for s in ast.iter_mut() {
        assert!(s.neg_unary_literals().is_ok());
    }
    assert_eq!(format!("{:?}", ast), once);
}

#[test]
fn too_large_negation_reports_the_minus() {
    let mut ast = parse("a = -9223372036854775809;");
    let err = ast[0].neg_unary_literals().unwrap_err();
    assert_eq!(err.data(), "-");
    assert_eq!(err.col, 5);
}

#[test]
fn other_unary_operators_are_left_alone() {
    let mut ast = parse("!5;");
    assert!(ast[0].neg_unary_literals().is_ok());
    assert!(format!("{:?}", ast[0]).contains("Unary"));
}
