use toy_compiler::lexer::Lexer;
use toy_compiler::parser::Parser;
use toy_compiler::stmt::Stmt;

fn parse(src: &str) -> Result<Vec<Stmt>, &'static str> {
    let mut text = src.to_string();
    text.push('\0');
    let mut l = Lexer::new(text).unwrap();
    let lexemes = l.lex().unwrap();
    let mut p = Parser::new(lexemes);
    p.parse()
}

fn shape(src: &str) -> String {
    format!("{:?}", parse(src).unwrap())
        .split("Lexeme")
        .collect::<Vec<_>>()
        .join("L")
}

#[test]
fn parses_variable_declaration_with_value() {
    let ast = parse("let x: u8 = 5;").unwrap();
    assert_eq!(ast.len(), 1);
    match &ast[0] {
        Stmt::VarDeclr(name, _, Some(_)) => assert_eq!(name.data(), "x"),
        other => panic!("unexpected {:?}", other),
    }
}

#[test]
fn parses_array_types() {
    let s = format!("{:?}", parse("let a: [[u8; 2]; 4];").unwrap());
    assert!(s.contains("Array(Array(Basic("));
    assert!(s.contains(", 2), 4)"));
}

#[test]
fn return_takes_no_semicolon() {
    assert_eq!(parse("fn f(a: u8) -> u8 { return a; }").unwrap_err(), "Variable Access Parsing Error");
}

#[test]
fn array_size_must_fit_sixteen_bits() {
    assert_eq!(parse("let a: [u8; 70000];").unwrap_err(), "Array Size Error");
}

#[test]
fn parses_struct_enum_and_function() {
    let ast = parse("struct P { x: u8, y: u16 } enum E { A, B } fn f(a: u8) -> u8 { return a }").unwrap();
    assert_eq!(ast.len(), 3);
    assert!(matches!(ast[0], Stmt::StructDeclr(_, _)));
    assert!(matches!(ast[1], Stmt::EnumDeclr(_, _)));
    assert!(matches!(ast[2], Stmt::FnDeclr(_, _, _, _)));
    if let Stmt::EnumDeclr(_, vs) = &ast[1] {
        assert_eq!(vs.len(), 2);
    }
}

#[test]
fn parses_control_flow() {
    let ast = parse("loop { break } while x { x = 0; } if a == 1 { b; } else { c; }").unwrap();
    assert_eq!(ast.len(), 3);
    assert!(matches!(ast[0], Stmt::LoopStmt(_)));
    assert!(matches!(ast[1], Stmt::WhileStmt(_, _)));
    assert!(matches!(ast[2], Stmt::IfStmt(_, _, Some(_))));
}

#[test]
fn binary_operators_nest_by_precedence() {
    let s = shape("a = b + c == d;");
    let assign = s.find("Assign").unwrap();
    let eq = s.find("Equality").unwrap();
    let term = s.find("Term").unwrap();
    assert!(assign < eq && eq < term);
}

#[test]
fn missing_identifier_after_let() {
    assert_eq!(parse("let 5;").unwrap_err(), "Expected Identifier for Variable Name");
}

#[test]
fn missing_colon_after_variable_name() {
    assert_eq!(parse("let x u8;").unwrap_err(), "Expected Colon after Variable Name");
}

#[test]
fn unclosed_struct_is_refused() {
    assert_eq!(parse("struct S { a: u8").unwrap_err(), "Expected Closing Curly Bracket after Struct Definition");
}

#[test]
fn expression_statement_needs_semicolon() {
    assert_eq!(parse("a = 1 }").unwrap_err(), "Expected Semicolon after Expression Statement");
}

#[test]
fn empty_program_parses_to_nothing() {
    assert_eq!(parse("").unwrap().len(), 0);
}

fn parser_for(src: &str) -> Parser {
    let mut text = src.to_string();
    text.push('\0');
    let mut l = Lexer::new(text).unwrap();
    Parser::new(l.lex().unwrap())
}

#[test]
fn statement_by_statement() {
    let mut p = parser_for("x = 1; y = 2;");
    assert!(matches!(p.parse_stmt().unwrap(), Stmt::ExprStmt(_)));
    assert_eq!(p.current().data(), "y");
    assert!(matches!(p.parse_stmt().unwrap(), Stmt::ExprStmt(_)));
    assert!(p.current().tok.same(&toy_compiler::token::Token::EOF));
}

#[test]
fn expression_and_type_on_their_own() {
    let mut p = parser_for("a << 3 ;");
    let e = p.parse_expr().unwrap();
    assert!(format!("{:?}", e).starts_with("Shift("));
    let mut q = parser_for("[i16; 3]");
    let t = q.parse_type_declr().unwrap();
    assert!(format!("{:?}", t).starts_with("Array(Basic("));
    let mut r = parser_for("5");
    assert_eq!(r.parse_type_declr().unwrap_err(), "Expected Identifier for Type Declaration");
}

#[test]
fn casts_calls_and_enum_variants() {
    let ast = parse("x = y as u16; f(1, a[2]); e = E::A;").unwrap();
    let s = format!("{:?}", ast);
    assert!(s.contains("Cast("));
    assert!(s.contains("FnCall("));
    assert!(s.contains("EnumVariant("));
}

fn first_of(src: &str) -> (String, String) {
    let mut text = src.to_string();
    text.push('\0');
    let mut l = Lexer::new(text).unwrap();
    let lexemes = l.lex().unwrap();
    let first = format!("{:?}", lexemes[0]);
    let mut p = Parser::new(lexemes);
    let e = p.parse_expr().unwrap();
    (format!("{:?}", e.get_first_lexeme()), first)
}

#[test]
fn parsed_expression_starts_at_its_first_token() {
    for src in ["a.b[1] + 2 == c", "-x as u16", "f(1, 2) << 3", "E::V", "&p", "7 = y"] {
        let (got, want) = first_of(src);
        assert_eq!(got, want, "{}", src);
    }
}
