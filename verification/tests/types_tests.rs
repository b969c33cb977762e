use nova_lang::types::{Type, TypeEnvironment};

#[test]
fn test_type_environment() {
    let mut env = TypeEnvironment::new();
    env.insert("x".to_string(), Type::Int);
    assert_eq!(env.get("x"), Some(&Type::Int));
}

#[test]
fn test_function_type() {
    let fn_type = Type::function(vec![Type::Int, Type::Bool], Type::void());
    match fn_type {
        Type::Function { params, return_type } => {
            assert_eq!(params, vec![Type::Int, Type::Bool]);
            assert_eq!(*return_type, Type::Void);
        },
        _ => panic!("Expected function type"),
    }
}

#[test]
fn test_type_environment_missing_name() {
    let env = TypeEnvironment::new();
    assert_eq!(env.get("nope"), None);
}

#[test]
fn test_type_environment_last_binding_wins() {
    let mut env = TypeEnvironment::new();
    env.insert("x".to_string(), Type::Int);
    env.insert("x".to_string(), Type::Bool);
    assert_eq!(env.get("x"), Some(&Type::Bool));
}

#[test]
fn test_type_duplicate() {
    let t = Type::function(vec![Type::Int, Type::String], Type::Bool);
    assert_eq!(t.duplicate(), t);
}
