use toy_compiler::semantics::{FnTemplate, ScopeStack};
use toy_compiler::token::{Lexeme, Token};
use toy_compiler::types::{CustomType, EnumTemplate, StructTemplate, ValueType};

#[test]
fn declared_variable_is_found_with_its_type() {
    let mut ss = ScopeStack::new();
    assert!(ss.get_var_type_from_name("x".to_string()).is_none());
    ss.declare_var("x".to_string(), ValueType::U16);
    assert!(matches!(ss.get_var_type_from_name("x".to_string()), Some(ValueType::U16)));
    assert!(matches!(ss.get_var_type_from_name("void".to_string()), Some(ValueType::Void)));
}

#[test]
fn inner_declaration_hides_the_outer_one_until_the_scope_ends() {
    let mut ss = ScopeStack::new();
    ss.declare_var("x".to_string(), ValueType::U8);
    ss.enter_scope();
    assert!(ss.all_used_ids().is_empty());
    ss.declare_var("x".to_string(), ValueType::I32);
    assert!(matches!(ss.get_var_type_from_name("x".to_string()), Some(ValueType::I32)));
    ss.leave_scope();
    assert!(matches!(ss.get_var_type_from_name("x".to_string()), Some(ValueType::U8)));
    assert_eq!(ss.all_used_ids(), vec!["x".to_string()]);
}

#[test]
fn loops_and_function_bodies() {
    let mut ss = ScopeStack::new();
    assert!(!ss.check_if_breakable());
    assert!(ss.get_nearest_ret_type().is_none());
    ss.enter_scope();
    ss.enter_returnable(ValueType::U8);
    ss.enter_scope();
    ss.enter_breakable();
    assert!(ss.check_if_breakable());
    assert!(matches!(ss.get_nearest_ret_type(), Some(ValueType::U8)));
    ss.leave_scope();
    assert!(!ss.check_if_breakable());
    assert!(matches!(ss.get_nearest_ret_type(), Some(ValueType::U8)));
}

#[test]
fn types_and_functions_are_declared_globally() {
    let mut ss = ScopeStack::new();
    ss.declare_custom_type(CustomType::CustomEnum(EnumTemplate { name: "E".to_string(), variants: vec![] }));
    ss.declare_custom_type(CustomType::CustomStruct(StructTemplate { name: "S".to_string(), fields: vec![] }));
    ss.declare_fn(FnTemplate { name: "f".to_string(), parameters: vec![ValueType::U8], ret_type: ValueType::Void });
    ss.declare_var("v".to_string(), ValueType::U8);
    assert_eq!(ss.all_used_ids(), vec!["v".to_string(), "E".to_string(), "S".to_string(), "f".to_string()]);
    let f = ss.get_fn_from_name("f".to_string()).unwrap();
    assert_eq!(f.parameters.len(), 1);
    assert!(ss.get_fn_from_name("g".to_string()).is_none());
    let s = ss.get_custom_type_from_name(Lexeme::new(1, 1, Token::Id("S".to_string()))).unwrap();
    assert_eq!(s.name(), "S");
    assert!(ss.get_custom_type_from_name(Lexeme::new(1, 1, Token::Id("T".to_string()))).is_err());
    ss.remove_all_structs();
    assert_eq!(ss.types().len(), 1);
    assert!(ss.get_custom_type_from_name(Lexeme::new(1, 1, Token::Id("S".to_string()))).is_err());
}
