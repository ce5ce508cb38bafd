use toy_compiler::expr::NumLiteral;
use toy_compiler::stmt::TypeDeclr;
use toy_compiler::token::{Lexeme, Token};
use toy_compiler::types::{get_custom_struct, CustomType, EnumTemplate, StructTemplate, ValueType};

fn id(s: &str) -> Lexeme {
    Lexeme::new(1, 1, Token::Id(s.to_string()))
}

fn point() -> StructTemplate {
    StructTemplate {
        name: "P".to_string(),
        fields: vec![("x".to_string(), ValueType::U8, 0), ("y".to_string(), ValueType::U16, 1)],
    }
}

fn color() -> EnumTemplate {
    EnumTemplate { name: "C".to_string(), variants: vec![("R".to_string(), 0), ("G".to_string(), 1)] }
}

#[test]
fn literal_types_and_sizes() {
    assert!(matches!(NumLiteral::I32(-1).get_type(), ValueType::I32));
    assert!(matches!(NumLiteral::U64(1).get_type(), ValueType::U64));
    assert_eq!(NumLiteral::U8(1).size(), 1);
    assert_eq!(NumLiteral::I16(1).size(), 2);
    assert_eq!(NumLiteral::U32(1).size(), 4);
    assert_eq!(NumLiteral::I64(1).size(), 8);
}

#[test]
fn literal_bytes_are_twos_complement_and_sign_extended() {
    assert_eq!(NumLiteral::U16(0x1234).get_nth_byte(0), 0x34);
    assert_eq!(NumLiteral::U16(0x1234).get_nth_byte(1), 0x12);
    assert_eq!(NumLiteral::U16(0x1234).get_nth_byte(2), 0);
    assert_eq!(NumLiteral::I16(-2).get_nth_byte(0), 0xfe);
    assert_eq!(NumLiteral::I16(-2).get_nth_byte(1), 0xff);
    assert_eq!(NumLiteral::I8(-1).get_nth_byte(7), 255);
    assert_eq!(NumLiteral::I32(5).get_nth_byte(6), 0);
    assert_eq!(NumLiteral::U64(u64::MAX).get_nth_byte(7), 255);
    assert_eq!(NumLiteral::U64(u64::MAX).get_nth_byte(8), 0);
}

#[test]
fn fields_variants_and_names() {
    let p = point();
    let f = p.get_field("y".to_string()).unwrap();
    assert!(matches!(f.0, ValueType::U16));
    assert_eq!(f.1, 1);
    assert!(p.get_field("z".to_string()).is_none());
    assert_eq!(color().get_variant("G".to_string()), Some(1));
    assert_eq!(color().get_variant("B".to_string()), None);
    assert_eq!(CustomType::CustomStruct(point()).name(), "P");
    assert_eq!(CustomType::CustomEnum(color()).name(), "C");
}

#[test]
fn custom_struct_lookup_skips_enums() {
    let defs = vec![
        CustomType::CustomEnum(EnumTemplate { name: "P".to_string(), variants: vec![] }),
        CustomType::CustomStruct(point()),
    ];
    let s = get_custom_struct("P".to_string(), &defs).unwrap();
    assert_eq!(s.fields.len(), 2);
    assert!(get_custom_struct("Q".to_string(), &defs).is_none());
}

#[test]
fn declarations_denote_types() {
    let defs = vec![CustomType::CustomEnum(color()), CustomType::CustomStruct(point())];
    let arr = TypeDeclr::Array(Box::new(TypeDeclr::Pointer(Box::new(TypeDeclr::Basic(id("i16"))))), 3);
    match ValueType::from_declr(&arr, &defs).unwrap() {
        ValueType::Array(item, 3) => assert!(matches!(*item, ValueType::Pointer(_))),
        other => panic!("unexpected {:?}", other),
    }
    assert!(matches!(ValueType::from_declr(&TypeDeclr::Basic(id("C")), &defs).unwrap(), ValueType::CustomEnum(_)));
    match ValueType::from_declr(&TypeDeclr::Basic(id("P")), &defs).unwrap() {
        ValueType::CustomStruct(n) => assert_eq!(n, "P"),
        other => panic!("unexpected {:?}", other),
    }
    assert!(ValueType::from_declr(&TypeDeclr::Basic(id("Q")), &defs).is_err());
    let being = vec!["Q".to_string()];
    assert!(matches!(
        ValueType::from_declr_new_struct(&TypeDeclr::Basic(id("Q")), &defs, &being).unwrap(),
        ValueType::CustomStruct(_)
    ));
    assert!(ValueType::from_declr_new_struct(&TypeDeclr::Basic(id("R")), &defs, &being).is_err());
}

#[test]
fn sizes_of_types() {
    let defs = vec![CustomType::CustomEnum(color()), CustomType::CustomStruct(point())];
    assert_eq!(ValueType::U32.size(&defs), 4);
    assert_eq!(ValueType::Pointer(Box::new(ValueType::I64)).size(&defs), 2);
    assert_eq!(ValueType::Array(Box::new(ValueType::U16), 10).size(&defs), 20);
    assert_eq!(ValueType::CustomStruct("P".to_string()).size(&defs), 3);
    assert_eq!(ValueType::Array(Box::new(ValueType::CustomStruct("P".to_string())), 4).size(&defs), 12);
    assert_eq!(ValueType::CustomEnum(color()).size(&defs), 1);
    assert_eq!(ValueType::Void.size(&defs), 0);
}

#[test]
fn dereference_and_primitiveness() {
    assert!(matches!(ValueType::Pointer(Box::new(ValueType::U8)).dereference(), Some(ValueType::U8)));
    assert!(ValueType::U8.dereference().is_none());
    assert!(ValueType::Pointer(Box::new(ValueType::U8)).is_primitive_type());
    assert!(ValueType::I8.is_primitive_type());
    assert!(!ValueType::Void.is_primitive_type());
    assert!(!ValueType::Array(Box::new(ValueType::U8), 1).is_primitive_type());
    assert!(!ValueType::CustomStruct("P".to_string()).is_primitive_type());
    assert!(!ValueType::CustomEnum(color()).is_primitive_type());
}

#[test]
fn type_names_of_declarations() {
    let d = TypeDeclr::Pointer(Box::new(TypeDeclr::Array(Box::new(TypeDeclr::Basic(id("P"))), 2)));
    assert_eq!(d.get_id().data(), "P");
    assert!(d.check_resolveable_by_type_name("P".to_string()));
    assert!(!d.check_resolveable_by_type_name("Q".to_string()));
}

#[test]
fn known_types_are_kept_while_structs_are_declared() {
    let defs = vec![CustomType::CustomEnum(color()), CustomType::CustomStruct(point())];
    let being = vec!["P".to_string(), "Q".to_string()];
    for d in [
        TypeDeclr::Pointer(Box::new(TypeDeclr::Basic(id("P")))),
        TypeDeclr::Array(Box::new(TypeDeclr::Basic(id("C"))), 2),
        TypeDeclr::Basic(id("u16")),
    ] {
        let old = format!("{:?}", ValueType::from_declr(&d, &defs).unwrap());
        let new = format!("{:?}", ValueType::from_declr_new_struct(&d, &defs, &being).unwrap());
        assert_eq!(old, new);
    }
}

#[test]
fn nth_byte_is_the_shifted_value() {
    assert_eq!(NumLiteral::U32(0x1234_5678).get_nth_byte(2), ((0x1234_5678i128 >> 16) as u8));
    assert_eq!(NumLiteral::I16(-2).get_nth_byte(1), ((-2i128 >> 8) as u8));
    assert_eq!(NumLiteral::I16(-2).get_nth_byte(5), 255);
    assert_eq!(NumLiteral::U64(u64::MAX).get_nth_byte(7), 255);
}
