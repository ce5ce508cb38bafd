use toy_compiler::cgen::instruction::{AssemblyCommand, Instruction};
use toy_compiler::cgen::value::{clean_after_two_values, create_two_values, create_value, Value, ValueLocation};
use toy_compiler::cgen::CodeGenerator;
use toy_compiler::expr::{NumLiteral, Variable};
use toy_compiler::token::{Lexeme, Token};
use toy_compiler::typed_ast::{TypedBinaryExpr, TypedExpr, TypedPrimaryExpr, TypedVariable};
use toy_compiler::types::{CustomType, EnumTemplate, StructTemplate, ValueType};

fn lit(n: NumLiteral) -> TypedExpr {
    TypedExpr::Primary(n.get_type(), Box::new(TypedPrimaryExpr::NumLiteral(n)))
}

fn var(name: &str) -> TypedExpr {
    TypedExpr::Primary(
        ValueType::U8,
        Box::new(TypedPrimaryExpr::Variable(TypedVariable::Id(ValueType::U8, name.to_string()))),
    )
}

fn listing(cg: &CodeGenerator) -> Vec<String> {
    cg.output()
        .iter()
        .map(|c| match c {
            AssemblyCommand::Instruction(i) => format!("{:?}", i),
            other => format!("{:?}", other),
        })
        .collect()
}

fn new_cg() -> CodeGenerator {
    CodeGenerator::new(vec![], vec![], vec![])
}

#[test]
fn immediate_byte_is_loaded_with_imr() {
    let mut cg = new_cg();
    let v = Value { expr: lit(NumLiteral::U16(0x1234)), location: ValueLocation::Immediate, value_size: 2 };
    v.ld_nth_byte_to_reg(1, 1, &mut cg);
    assert_eq!(listing(&cg), vec!["Imr(1, 18)"]);
}

#[test]
fn base_pointer_load_splits_the_offset_into_bytes() {
    let mut cg = new_cg();
    let v = Value { expr: var("x"), location: ValueLocation::BpPlus(0x1ff), value_size: 1 };
    v.ld_nth_byte_to_reg(0, 1, &mut cg);
    assert_eq!(listing(&cg), vec!["Ima(0)", "Add(2)", "Amov(6)", "Ima(2)", "Adc(3)", "Amov(7)", "Ld(0)"]);
}

#[test]
fn stack_load_counts_down_from_the_stack_pointer() {
    let mut cg = new_cg();
    let v = Value { expr: var("x"), location: ValueLocation::SpMinus(3), value_size: 1 };
    v.ld_nth_byte_to_reg(1, 2, &mut cg);
    assert_eq!(
        listing(&cg),
        vec!["Imr(1, 5)", "Rmov(4)", "Sub(1)", "Amov(6)", "Imr(1, 0)", "Rmov(5)", "Sbc(1)", "Amov(7)", "Ld(1)"]
    );
}

#[test]
fn cleaning_gives_back_the_stack_of_both_values() {
    let mut cg = new_cg();
    let x = Value { expr: var("x"), location: ValueLocation::SpMinus(2), value_size: 2 };
    let y = Value { expr: var("y"), location: ValueLocation::SpMinus(0x100), value_size: 1 };
    clean_after_two_values(&mut cg, x, y);
    assert_eq!(
        listing(&cg),
        vec!["Imr(0, 2)", "Rmov(4)", "Sub(0)", "Amov(4)", "Imr(0, 1)", "Rmov(5)", "Sbc(0)", "Amov(5)"]
    );
}

#[test]
fn cleaning_without_stack_values_writes_nothing() {
    let mut cg = new_cg();
    let x = Value { expr: lit(NumLiteral::U8(1)), location: ValueLocation::Immediate, value_size: 1 };
    let y = Value { expr: var("y"), location: ValueLocation::BpPlus(4), value_size: 1 };
    clean_after_two_values(&mut cg, x, y);
    assert!(listing(&cg).is_empty());
}

#[test]
fn compile_time_values() {
    let cg = new_cg();
    assert!(lit(NumLiteral::I8(-3)).value_known_at_compile());
    assert!(!var("x").value_known_at_compile());
    let cast = TypedExpr::Cast(ValueType::U32, Box::new(lit(NumLiteral::U8(7))));
    assert!(cast.value_known_at_compile());
    assert_eq!(cast.get_nth_byte(0, &cg), 7);
    assert_eq!(cast.get_nth_byte(2, &cg), 0);
    let e = EnumTemplate { name: "E".to_string(), variants: vec![("A".to_string(), 0), ("B".to_string(), 1)] };
    let variant = TypedPrimaryExpr::EnumVariant(e, ("B".to_string(), 1));
    assert_eq!(variant.get_nth_byte(0, &cg), 1);
    assert_eq!(variant.get_nth_byte(1, &cg), 0);
    assert_eq!(lit(NumLiteral::I16(-256)).get_nth_byte(1, &cg), 255);
}

#[test]
fn first_ids_of_expressions() {
    assert_eq!(var("abc").get_first_id(), "abc");
    let call = TypedExpr::FnCall(ValueType::U8, "f".to_string(), toy_compiler::typed_ast::TypedArgs { items: vec![] });
    assert_eq!(call.get_first_id(), "f");
    let arr = TypedVariable::Array(
        ValueType::U8,
        Box::new(TypedVariable::Id(ValueType::U8, "arr".to_string())),
        lit(NumLiteral::U8(0)),
    );
    assert_eq!(arr.get_first_id(), "arr");
}

#[test]
fn instructions_show_their_registers() {
    assert_eq!(format!("{:?}", Instruction::Imr(1, 2)), "Imr(1, 2)");
}

#[test]
fn literal_is_pushed_byte_by_byte_lowest_first() {
    let mut cg = new_cg();
    lit(NumLiteral::U16(0x1234)).generate_onto_stack(&mut cg);
    let bump = ["Ima(1)", "Add(4)", "Amov(4)", "Ima(0)", "Adc(5)", "Amov(5)"];
    let mut expected = vec!["Imr(0, 52)", "Push(0)"];
    expected.extend_from_slice(&bump);
    expected.extend_from_slice(&["Imr(0, 18)", "Push(0)"]);
    expected.extend_from_slice(&bump);
    assert_eq!(listing(&cg), expected);
}

#[test]
fn enum_variant_pushes_its_number() {
    let mut cg = new_cg();
    let e = EnumTemplate { name: "E".to_string(), variants: vec![("A".to_string(), 0), ("B".to_string(), 1)] };
    let v = TypedExpr::Primary(
        ValueType::CustomEnum(EnumTemplate { name: "E".to_string(), variants: vec![] }),
        Box::new(TypedPrimaryExpr::Grouping(TypedExpr::Primary(
            ValueType::U8,
            Box::new(TypedPrimaryExpr::EnumVariant(e, ("B".to_string(), 1))),
        ))),
    );
    v.generate_onto_stack(&mut cg);
    assert_eq!(listing(&cg), vec!["Imr(0, 1)", "Push(0)", "Ima(1)", "Add(4)", "Amov(4)", "Ima(0)", "Adc(5)", "Amov(5)"]);
}

#[test]
fn variables_get_offsets_in_the_frame() {
    let p = StructTemplate {
        name: "P".to_string(),
        fields: vec![("x".to_string(), ValueType::U8, 0), ("y".to_string(), ValueType::U16, 1)],
    };
    let mut cg = CodeGenerator::new(vec![], vec![CustomType::CustomStruct(p)], vec![]);
    cg.declare_var("a".to_string(), ValueType::U32);
    cg.declare_var("p".to_string(), ValueType::CustomStruct("P".to_string()));
    let (t, off) = cg.get_var("p".to_string());
    assert!(matches!(t, ValueType::CustomStruct(_)));
    assert_eq!(off, 4);
    let id = |s: &str| Variable::Id(Lexeme::new(1, 1, Token::Id(s.to_string())));
    let access = Variable::StructField(Box::new((id("p"), id("y"))));
    let (t, off) = access.eval_offset_from_bp(&cg, None);
    assert!(matches!(t, ValueType::U16));
    assert_eq!(off, 5);
    let (t, off) = id("a").eval_offset_from_bp(&cg, None);
    assert!(matches!(t, ValueType::U32));
    assert_eq!(off, 0);
}

fn sum(t: ValueType, left: TypedExpr, right: TypedExpr) -> TypedExpr {
    TypedExpr::Term(t, Box::new(TypedBinaryExpr { left, operator: "+".to_string(), right }))
}

#[test]
fn one_byte_sum_of_literals_adds_and_pushes() {
    let mut cg = new_cg();
    sum(ValueType::U8, lit(NumLiteral::U8(3)), lit(NumLiteral::U8(4))).generate_onto_stack(&mut cg);
    assert_eq!(
        listing(&cg),
        vec![
            "Imr(0, 3)", "Imr(1, 4)", "Rmov(0)", "Add(1)", "Amov(0)", "Push(0)", "Ima(1)", "Add(4)", "Amov(4)",
            "Ima(0)", "Adc(5)", "Amov(5)",
        ]
    );
}

#[test]
fn two_byte_sum_carries_into_the_high_byte() {
    let mut cg = new_cg();
    let e = TypedExpr::Primary(
        ValueType::U16,
        Box::new(TypedPrimaryExpr::Grouping(sum(
            ValueType::U16,
            lit(NumLiteral::U16(0x01ff)),
            lit(NumLiteral::U16(0x0201)),
        ))),
    );
    e.generate_onto_stack(&mut cg);
    let bump = ["Ima(1)", "Add(4)", "Amov(4)", "Ima(0)", "Adc(5)", "Amov(5)"];
    let mut expected = vec!["Imr(0, 255)", "Imr(1, 1)", "Rmov(0)", "Add(1)", "Amov(0)", "Push(0)"];
    expected.extend_from_slice(&["Zac", "Amov(0)", "Adc(0)", "Amov(0)"]);
    expected.extend_from_slice(&bump);
    expected.push("Push(0)");
    expected.extend_from_slice(&[
        "Imr(0, 1)", "Imr(1, 2)", "Rmov(0)", "Add(1)", "Amov(1)", "Zac", "Amov(0)", "Adc(0)", "Amov(0)", "Rmov(1)",
        "Pop(1)", "Add(1)", "Amov(1)", "Push(1)", "Zac", "Adc(0)", "Amov(0)",
    ]);
    expected.extend_from_slice(&bump);
    expected.push("Push(0)");
    assert_eq!(listing(&cg), expected);
}

#[test]
fn known_operands_become_immediates_without_code() {
    let mut cg = new_cg();
    let (x, y, grown) = create_two_values(&mut cg, &lit(NumLiteral::U8(7)), &lit(NumLiteral::U32(9)));
    assert_eq!(grown, 0);
    assert_eq!(x.location, ValueLocation::Immediate);
    assert_eq!(y.location, ValueLocation::Immediate);
    assert_eq!((x.value_size, y.value_size), (1, 4));
    let v = create_value(&mut cg, &lit(NumLiteral::I16(-2)));
    assert_eq!(v.location, ValueLocation::Immediate);
    assert_eq!(v.value_size, 2);
    assert!(cg.output().is_empty());
}

#[test]
fn sum_operand_is_computed_onto_the_stack_first() {
    let mut cg = new_cg();
    let inner = TypedExpr::Primary(
        ValueType::U8,
        Box::new(TypedPrimaryExpr::Grouping(sum(ValueType::U8, lit(NumLiteral::U8(1)), lit(NumLiteral::U8(2))))),
    );
    sum(ValueType::U8, inner, lit(NumLiteral::U8(3))).generate_onto_stack(&mut cg);
    let bump = ["Ima(1)", "Add(4)", "Amov(4)", "Ima(0)", "Adc(5)", "Amov(5)"];
    let mut expected = vec!["Imr(0, 1)", "Imr(1, 2)", "Rmov(0)", "Add(1)", "Amov(0)", "Push(0)"];
    expected.extend_from_slice(&bump);
    expected.extend_from_slice(&[
        "Imr(0, 1)", "Rmov(4)", "Sub(0)", "Amov(6)", "Imr(0, 0)", "Rmov(5)", "Sbc(0)", "Amov(7)", "Ld(0)",
    ]);
    expected.extend_from_slice(&["Imr(1, 3)", "Rmov(0)", "Add(1)", "Amov(0)", "Push(0)"]);
    expected.extend_from_slice(&bump);
    expected.extend_from_slice(&["Imr(0, 1)", "Rmov(4)", "Sub(0)", "Amov(4)", "Imr(0, 0)", "Rmov(5)", "Sbc(0)", "Amov(5)"]);
    assert_eq!(listing(&cg), expected);
}

#[test]
fn computed_operands_are_stacked_left_below_right() {
    let mut cg = new_cg();
    let s = || sum(ValueType::U16, lit(NumLiteral::U16(1)), lit(NumLiteral::U16(2)));
    let (x, y, grown) = create_two_values(&mut cg, &s(), &s());
    assert_eq!(grown, 4);
    assert_eq!(x.location, ValueLocation::SpMinus(4));
    assert_eq!(y.location, ValueLocation::SpMinus(2));
    assert_eq!((x.value_size, y.value_size), (2, 2));
    assert!(!cg.output().is_empty());
}

#[test]
fn space_given_back_is_the_space_one_stacked_operand_took() {
    let mut cg = new_cg();
    let s = sum(ValueType::U16, lit(NumLiteral::U16(1)), lit(NumLiteral::U16(2)));
    let (x, y, grown) = create_two_values(&mut cg, &s, &lit(NumLiteral::U16(5)));
    assert_eq!(grown, 2);
    let before = listing(&cg).len();
    clean_after_two_values(&mut cg, x, y);
    let out = listing(&cg);
    assert_eq!(
        out[before..].to_vec(),
        vec!["Imr(0, 2)", "Rmov(4)", "Sub(0)", "Amov(4)", "Imr(0, 0)", "Rmov(5)", "Sbc(0)", "Amov(5)"]
    );
}
