use toy_compiler::lexer::Lexer;
use toy_compiler::parser::Parser;
use toy_compiler::semantics::generate_typed_ast;
use toy_compiler::semantics::semantic_err::SemanticErr;
use toy_compiler::stmt::Stmt;
use toy_compiler::typed_ast::TypedStmt;
use toy_compiler::types::{CustomType, ValueType};

fn parse(src: &str) -> Vec<Stmt> {
    let mut text = src.to_string();
    text.push('\0');
    let mut l = Lexer::new(text).unwrap();
    let lexemes = l.lex().unwrap();
    Parser::new(lexemes).parse().unwrap()
}

fn analyse(src: &str) -> Result<(Vec<TypedStmt>, Vec<CustomType>), SemanticErr> {
    generate_typed_ast(parse(src))
}

fn err_kind(src: &str) -> String {
    let e = analyse(src).unwrap_err();
    let s = format!("{:?}", e);
    s.split('(').next().unwrap().to_string()
}

#[test]
fn declares_and_assigns_a_variable() {
    let (typed, types) = analyse("let x: u8 = 5; x = 7;").unwrap();
    assert_eq!(typed.len(), 2);
    assert!(types.is_empty());
    match &typed[0] {
        TypedStmt::VarDeclr(name, t, Some(_)) => {
            assert_eq!(name, "x");
            assert!(matches!(t, ValueType::U8));
        },
        other => panic!("unexpected {:?}", other),
    }
    assert!(matches!(&typed[1], TypedStmt::ExprStmt(_)));
}

#[test]
fn struct_fields_get_offsets_from_the_head() {
    let (_, types) = analyse("struct P { x: u8, y: u16, z: u8 }").unwrap();
    assert_eq!(types.len(), 1);
    match &types[0] {
        CustomType::CustomStruct(s) => {
            assert_eq!(s.name, "P");
            let offsets: Vec<u16> = s.fields.iter().map(|f| f.2).collect();
            assert_eq!(offsets, vec![0, 1, 3]);
        },
        other => panic!("unexpected {:?}", other),
    }
}

#[test]
fn enums_come_before_structs_and_number_their_variants() {
    let (_, types) = analyse("struct S { e: E } enum E { A, B, C }").unwrap();
    assert_eq!(types.len(), 2);
    match &types[0] {
        CustomType::CustomEnum(e) => {
            assert_eq!(e.name, "E");
            let vs: Vec<(String, u8)> = e.variants.clone();
            assert_eq!(vs, vec![("A".to_string(), 0), ("B".to_string(), 1), ("C".to_string(), 2)]);
        },
        other => panic!("unexpected {:?}", other),
    }
    assert!(matches!(&types[1], CustomType::CustomStruct(_)));
}

#[test]
fn nested_struct_offsets_use_the_inner_size() {
    let (_, types) = analyse("struct A { a: u16, b: u32 } struct B { x: u8, y: A, z: u8 }").unwrap();
    match &types[1] {
        CustomType::CustomStruct(s) => {
            let offsets: Vec<u16> = s.fields.iter().map(|f| f.2).collect();
            assert_eq!(offsets, vec![0, 1, 7]);
        },
        other => panic!("unexpected {:?}", other),
    }
}

#[test]
fn name_used_twice_is_refused() {
    assert_eq!(err_kind("let x: u8; let x: u8;"), "UsedId");
    assert_eq!(err_kind("struct S { a: u8 } struct S { b: u8 }"), "UsedId");
    assert_eq!(err_kind("enum E { A } struct E { a: u8 }"), "UsedId");
}

#[test]
fn unknown_type_is_refused() {
    assert_eq!(err_kind("let x: foo;"), "UnknownType");
    assert_eq!(err_kind("struct S { a: T }"), "UnknownType");
}

#[test]
fn value_of_another_type_is_refused() {
    assert_eq!(err_kind("let x: u16 = 5;"), "WrongType");
}

#[test]
fn undeclared_variable_is_refused() {
    assert_eq!(err_kind("y;"), "UndeclaredVar");
}

#[test]
fn break_and_return_need_a_loop_and_a_function() {
    assert_eq!(err_kind("break"), "CantBreak");
    assert_eq!(err_kind("return 1"), "CantReturn");
    assert!(analyse("loop { break }").is_ok());
    assert!(analyse("fn f(a: u8) -> u8 { return a }").is_ok());
}

#[test]
fn return_value_must_match() {
    assert_eq!(err_kind("fn f(a: u16) -> u8 { return a }"), "WrongType");
}

#[test]
fn struct_holding_itself_is_refused() {
    assert_eq!(err_kind("struct A { b: B } struct B { a: A }"), "RecursiveStruct");
}

#[test]
fn duplicate_variants_and_parameters_are_refused() {
    assert_eq!(err_kind("enum E { A, A }"), "EnumDuplicateVariants");
    assert_eq!(err_kind("fn f(a: u8, a: u8) -> u8 { return a }"), "DuplicateParams");
}

#[test]
fn calls_are_checked_against_the_signature() {
    assert_eq!(err_kind("g(1);"), "UndeclaredFn");
    assert_eq!(err_kind("fn f(a: u8) -> u8 { return a } f(1, 2);"), "FnArityErr");
    assert_eq!(err_kind("fn f(a: u16) -> u8 { return 1 } f(1);"), "WrongType");
    assert!(analyse("fn f(a: u8) -> u8 { return a } f(1);").is_ok());
}

#[test]
fn accesses_are_checked() {
    assert_eq!(err_kind("let x: u8; x.y;"), "NotAStruct");
    assert_eq!(err_kind("let x: u8; x[0];"), "NotAnArray");
    assert_eq!(err_kind("struct P { a: u8 } let p: P; p.b;"), "NoStructField");
    assert_eq!(err_kind("let x: u8; *x;"), "CantDeref");
    assert!(analyse("struct P { a: u8 } let p: P; p.a = 1;").is_ok());
    assert!(analyse("let a: [u8; 3]; a[1] = 2;").is_ok());
}

#[test]
fn operators_are_checked() {
    assert_eq!(err_kind("let x: u8; x << 9;"), "ShiftAmountErr");
    assert!(analyse("let x: u8; x << 8;").is_ok());
    assert_eq!(err_kind("let a: [u8; 2]; -a;"), "CantOp");
    assert_eq!(err_kind("1 = 2;"), "CantOp");
}

#[test]
fn enum_variants_are_checked() {
    assert_eq!(err_kind("enum E { A } E::B;"), "NoEnumVariant");
    assert_eq!(err_kind("struct S { a: u8 } S::A;"), "WrongAccess");
    assert!(analyse("enum E { A } E::A;").is_ok());
}

#[test]
fn blocks_and_loops_type_their_bodies() {
    let (typed, _) = analyse("let x: u8; while x == 1 { x = 2; }").unwrap();
    assert!(matches!(&typed[1], TypedStmt::WhileStmt(_, _)));
}

#[test]
fn shift_amount_must_be_a_byte_literal() {
    let e = analyse("let x: u16; x << 300;").unwrap_err();
    match e {
        SemanticErr::WrongType(should, is, _) => {
            assert!(matches!(should, ValueType::U8));
            assert!(matches!(is, ValueType::U16));
        },
        other => panic!("unexpected {:?}", other),
    }
}

#[test]
fn functions_see_their_parameters_and_can_recurse() {
    assert!(analyse("fn f(n: u8) -> u8 { return f(n) }").is_ok());
    assert_eq!(err_kind("fn f(n: u8) -> u8 { return n } n;"), "UndeclaredVar");
}
