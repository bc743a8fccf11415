use allelua::errors::{IncompatibleTypeError, TypeCheckError};
use allelua::luatype::{TypeChecker, TypeEnvironment};
use allelua::types::{FunctionType, IfaceType, Type, TypeId, UnionType};

#[test]
fn luatype_type_environment_register_is_idempotent() {
    let mut env = TypeEnvironment::new();
    assert_eq!(env.register(Type::NIL()), TypeId::NIL())
}

#[test]
fn luatype_any_is_assignable_to_any() {
    let mut checker = TypeChecker::new();
    assert!(checker.can_assign(TypeId::ANY(), TypeId::ANY()).is_ok());
}

#[test]
fn luatype_never_is_assignable_to_any() {
    let mut checker = TypeChecker::new();
    assert!(checker.can_assign(TypeId::NEVER(), TypeId::ANY()).is_ok());
}

#[test]
fn luatype_any_is_not_assignable_to_never() {
    let mut checker = TypeChecker::new();
    assert_eq!(
        checker.can_assign(TypeId::ANY(), TypeId::NEVER()),
        Err(TypeCheckError::IncompatibleType(IncompatibleTypeError {
            source_type: TypeId::ANY(),
            target_type: TypeId::NEVER(),
            reasons: Vec::new(),
        }))
    );
}

#[test]
fn luatype_any_is_assignable_to_unknown() {
    let mut checker = TypeChecker::new();
    assert!(checker.can_assign(TypeId::ANY(), TypeId::UNKNOWN()).is_ok());
}

#[test]
fn luatype_unknown_is_assignable_to_any() {
    let mut checker = TypeChecker::new();
    assert!(checker.can_assign(TypeId::UNKNOWN(), TypeId::ANY()).is_ok());
}

#[test]
fn luatype_unknown_is_not_assignable_to_never() {
    let mut checker = TypeChecker::new();
    assert_eq!(
        checker.can_assign(TypeId::UNKNOWN(), TypeId::NEVER()),
        Err(TypeCheckError::IncompatibleType(IncompatibleTypeError {
            source_type: TypeId::UNKNOWN(),
            target_type: TypeId::NEVER(),
            reasons: Vec::new(),
        }))
    );
}

#[test]
fn luatype_primitive_is_assignable_to_itself() {
    let mut checker = TypeChecker::new();

    assert!(checker.can_assign(TypeId::NUMBER(), TypeId::NUMBER()).is_ok())
}

#[test]
fn luatype_function_without_params_and_results_is_assignable_to_itself() {
    let mut checker = TypeChecker::new();
    let function = FunctionType {
        params: vec![],
        results: vec![],
    }
    .into();
    let function_id = checker.register_type(function);

    assert!(checker.can_assign(function_id, function_id).is_ok())
}

#[test]
fn luatype_function_with_same_params_and_returns_is_assignable_to_itself() {
    let mut checker = TypeChecker::new();
    let function = FunctionType {
        params: vec![TypeId::NUMBER()],
        results: vec![TypeId::STRING()],
    }
    .into();
    let function_id = checker.register_type(function);

    assert!(checker.can_assign(function_id, function_id).is_ok())
}

#[test]
fn luatype_function_with_1_number_params_is_assignable_to_function_with_2_number_params() {
    let mut checker = TypeChecker::new();
    let function1: Type = FunctionType {
        params: vec![TypeId::NUMBER()],
        results: vec![],
    }
    .into();
    let function1_id = checker.register_type(function1);

    let function2: Type = FunctionType {
        params: vec![TypeId::NUMBER(), TypeId::NUMBER()],
        results: vec![],
    }
    .into();
    let function2_id = checker.register_type(function2);

    assert!(checker.can_assign(function1_id, function2_id).is_ok())
}

#[test]
fn luatype_function_with_2_number_params_is_not_assignable_to_function_with_1_number_params() {
    let mut checker = TypeChecker::new();
    let function1: Type = FunctionType {
        params: vec![TypeId::NUMBER()],
        results: vec![],
    }
    .into();
    let function1_id = checker.register_type(function1);

    let function2: Type = FunctionType {
        params: vec![TypeId::NUMBER(), TypeId::NUMBER()],
        results: vec![],
    }
    .into();
    let function2_id = checker.register_type(function2);

    assert_eq!(
        checker.can_assign(function2_id, function1_id),
        Err(TypeCheckError::IncompatibleType(IncompatibleTypeError {
            source_type: function2_id,
            target_type: function1_id,
            reasons: vec![TypeCheckError::IncompatibleParameterType {
                nth: 1,
                source: Box::new(TypeCheckError::IncompatibleType(IncompatibleTypeError {
                    source_type: TypeId::NIL(),
                    target_type: TypeId::NUMBER(),
                    reasons: vec![]
                }))
            }]
        }))
    )
}

#[test]
fn luatype_function_with_2_number_returns_is_assignable_to_function_with_1_number_returns() {
    let mut checker = TypeChecker::new();
    let function1: Type = FunctionType {
        params: vec![],
        results: vec![TypeId::NUMBER()],
    }
    .into();
    let function1_id = checker.register_type(function1);

    let function2: Type = FunctionType {
        params: vec![],
        results: vec![TypeId::NUMBER(), TypeId::NUMBER()],
    }
    .into();
    let function2_id = checker.register_type(function2);

    assert!(checker.can_assign(function2_id, function1_id).is_ok(),)
}

#[test]
fn luatype_function_with_1_number_returns_is_not_assignable_to_function_with_2_number_returns() {
    let mut checker = TypeChecker::new();
    let function1: Type = FunctionType {
        params: vec![],
        results: vec![TypeId::NUMBER()],
    }
    .into();
    let function1_id = checker.register_type(function1);

    let function2: Type = FunctionType {
        params: vec![],
        results: vec![TypeId::NUMBER(), TypeId::NUMBER()],
    }
    .into();
    let function2_id = checker.register_type(function2);

    assert_eq!(
        checker.can_assign(function1_id, function2_id),
        Err(TypeCheckError::IncompatibleType(IncompatibleTypeError {
            source_type: function1_id,
            target_type: function2_id,
            reasons: vec![TypeCheckError::IncompatibleReturnType {
                nth: 1,
                source: Box::new(TypeCheckError::IncompatibleType(IncompatibleTypeError {
                    source_type: TypeId::NIL(),
                    target_type: TypeId::NUMBER(),
                    reasons: vec![]
                }))
            }]
        }))
    )
}

#[test]
fn luatype_union_of_literal_is_assignable_to_itself() {
    let mut checker = TypeChecker::new();
    let union_type = UnionType::new(vec![TypeId::NUMBER(), TypeId::STRING()]).into();
    let union_type_id = checker.register_type(union_type);

    assert!(checker.can_assign(union_type_id, union_type_id).is_ok());
}

#[test]
fn luatype_union_of_string_nil_is_not_assignable_to_number() {
    let mut checker = TypeChecker::new();
    let union_type = UnionType::new(vec![TypeId::STRING(), TypeId::NIL()]).into();
    let union_type_id = checker.register_type(union_type);

    assert_eq!(
        checker.can_assign(union_type_id, TypeId::NUMBER()),
        Err(TypeCheckError::IncompatibleType(IncompatibleTypeError {
            source_type: union_type_id,
            target_type: TypeId::NUMBER(),
            reasons: vec![
                TypeCheckError::IncompatibleType(IncompatibleTypeError {
                    source_type: TypeId::STRING(),
                    target_type: TypeId::NUMBER(),
                    reasons: vec![],
                }),
                TypeCheckError::IncompatibleType(IncompatibleTypeError {
                    source_type: TypeId::NIL(),
                    target_type: TypeId::NUMBER(),
                    reasons: vec![],
                }),
            ]
        }))
    );
}

#[test]
fn luatype_iface_is_assignable_to_itself() {
    let mut checker = TypeChecker::new();
    let iface_type = IfaceType::new(vec![
        (
            checker.register_type(Type::string("foo".to_owned())),
            TypeId::NUMBER(),
        ),
        (
            checker.register_type(Type::string("bar".to_owned())),
            TypeId::STRING(),
        ),
        (
            checker.register_type(Type::string("baz".to_owned())),
            TypeId::BOOLEAN(),
        ),
        (
            checker.register_type(Type::string("qux".to_owned())),
            TypeId::NIL(),
        ),
        (
            checker.register_type(Type::string("quz".to_owned())),
            TypeId::ANY(),
        ),
    ])
    .into();
    let iface_type_id = checker.register_type(iface_type);

    assert!(checker.can_assign(iface_type_id, iface_type_id).is_ok())
}

#[test]
fn luatype_iface_is_assignable_to_empty_iface() {
    let mut checker = TypeChecker::new();
    let empty_iface_type = IfaceType::new(vec![]).into();
    let empty_iface_type_id = checker.register_type(empty_iface_type);
    let iface_type = IfaceType::new(vec![
        (
            checker.register_type(Type::string("foo".to_owned())),
            TypeId::NUMBER(),
        ),
        (
            checker.register_type(Type::string("bar".to_owned())),
            TypeId::STRING(),
        ),
        (
            checker.register_type(Type::string("baz".to_owned())),
            TypeId::BOOLEAN(),
        ),
        (
            checker.register_type(Type::string("qux".to_owned())),
            TypeId::NIL(),
        ),
        (
            checker.register_type(Type::string("quz".to_owned())),
            TypeId::ANY(),
        ),
    ])
    .into();
    let iface_type_id = checker.register_type(iface_type);

    assert!(checker
        .can_assign(iface_type_id, empty_iface_type_id)
        .is_ok())
}

#[test]
fn luatype_empty_iface_is_assignable_to_iface_with_field_union_of_number_nil() {
    let mut checker = TypeChecker::new();
    let empty_iface_type = IfaceType::new(vec![]).into();
    let empty_iface_type_id = checker.register_type(empty_iface_type);

    let number_or_nil = UnionType::new(vec![TypeId::NUMBER(), TypeId::NIL()]).into();
    let number_or_nil_id = checker.register_type(number_or_nil);

    let iface_type = IfaceType::new(vec![(
        checker.register_type(Type::string("foo".to_owned())),
        number_or_nil_id,
    )])
    .into();
    let iface_type_id = checker.register_type(iface_type);

    assert!(checker
        .can_assign(empty_iface_type_id, iface_type_id)
        .is_ok())
}

#[test]
fn luatype_empty_iface_is_not_assignable_to_iface_with_field_number() {
    let mut checker = TypeChecker::new();

    let empty_iface_type = IfaceType::new(vec![]).into();
    let empty_iface_type_id = checker.register_type(empty_iface_type);

    let lit_foo_string = Type::string(r#""foo""#.to_string());
    let lit_foo_string_id = checker.register_type(lit_foo_string);

    let iface_type = IfaceType::new(vec![(lit_foo_string_id, TypeId::NUMBER())]).into();
    let iface_type_id = checker.register_type(iface_type);

    assert_eq!(
        checker.can_assign(empty_iface_type_id, iface_type_id),
        Err(TypeCheckError::IncompatibleType(IncompatibleTypeError {
            source_type: empty_iface_type_id,
            target_type: iface_type_id,
            reasons: vec![TypeCheckError::RequiredFieldMissing {
                field_name: lit_foo_string_id,
                field_type: TypeId::NUMBER(),
            }]
        }))
    )
}

#[test]
fn union_of_iface_foo_number_iface_bar_number_is_assignable_to_iface_foo_bar_numbers() {
    let mut checker = TypeChecker::new();

    let lit_foo_string = Type::string(r#""foo""#.to_owned());
    let lit_foo_string_id = checker.register_type(lit_foo_string);
    let lit_bar_string = Type::string(r#""foo""#.to_owned());
    let lit_bar_string_id = checker.register_type(lit_bar_string);

    let iface_foo = IfaceType::new(vec![(lit_foo_string_id, TypeId::NUMBER())]).into();
    let iface_foo_id = checker.register_type(iface_foo);
    let iface_bar = IfaceType::new(vec![(lit_bar_string_id, TypeId::NUMBER())]).into();
    let iface_bar_id = checker.register_type(iface_bar);

    let union_iface_foo_iface_bar = UnionType::new(vec![iface_foo_id, iface_bar_id]).into();
    let union_iface_foo_iface_bar_id = checker.register_type(union_iface_foo_iface_bar);

    let iface_foo_bar = IfaceType::new(vec![
        (lit_foo_string_id, TypeId::NUMBER()),
        (lit_bar_string_id, TypeId::NUMBER()),
    ])
    .into();
    let iface_foo_bar_id = checker.register_type(iface_foo_bar);

    assert!(checker
        .can_assign(union_iface_foo_iface_bar_id, iface_foo_bar_id)
        .is_ok());
}

#[test]
fn luatype_iface_foo_bar_numbers_is_assignable_to_union_of_iface_foo_number_iface_bar_number() {
    let mut checker = TypeChecker::new();

    let lit_foo_string = Type::string(r#""foo""#.to_owned());
    let lit_foo_string_id = checker.register_type(lit_foo_string);
    let lit_bar_string = Type::string(r#""foo""#.to_owned());
    let lit_bar_string_id = checker.register_type(lit_bar_string);

    let iface_foo = IfaceType::new(vec![(lit_foo_string_id, TypeId::NUMBER())]).into();
    let iface_foo_id = checker.register_type(iface_foo);
    let iface_bar = IfaceType::new(vec![(lit_bar_string_id, TypeId::NUMBER())]).into();
    let iface_bar_id = checker.register_type(iface_bar);

    let union_iface_foo_iface_bar = UnionType::new(vec![iface_foo_id, iface_bar_id]).into();
    let union_iface_foo_iface_bar_id = checker.register_type(union_iface_foo_iface_bar);

    let iface_foo_bar = IfaceType::new(vec![
        (lit_foo_string_id, TypeId::NUMBER()),
        (lit_bar_string_id, TypeId::NUMBER()),
    ])
    .into();
    let iface_foo_bar_id = checker.register_type(iface_foo_bar);

    assert!(checker
        .can_assign(iface_foo_bar_id, union_iface_foo_iface_bar_id)
        .is_ok());
}

#[test]
fn luatype_normalize_union_of_number_number_returns_number() {
    let mut checker = TypeChecker::new();
    let union_type: Type = UnionType::new(vec![TypeId::NUMBER(), TypeId::NUMBER()]).into();

    assert_eq!(checker.normalize(&union_type), Some(TypeId::NUMBER()));
}

#[test]
fn luatype_normalize_union_of_number_never_returns_number() {
    let mut checker = TypeChecker::new();
    let union_type: Type = UnionType::new(vec![TypeId::NUMBER(), TypeId::NEVER()]).into();
    assert_eq!(checker.normalize(&union_type), Some(TypeId::NUMBER()));
}

#[test]
fn luatype_normalize_union_of_number_any_returns_any() {
    let mut checker = TypeChecker::new();
    let union_type = UnionType::new(vec![TypeId::NUMBER(), TypeId::ANY()]);
    assert_eq!(
        checker.normalize_then_lookup(&union_type.into()),
        &Type::Any
    );
}

#[test]
fn luatype_normalize_union_of_number_unknown_returns_unknown() {
    let mut checker = TypeChecker::new();
    let union_type = UnionType::new(vec![TypeId::NUMBER(), TypeId::UNKNOWN()]);
    assert_eq!(
        checker.normalize_then_lookup(&union_type.into()),
        &Type::Unknown
    );
}

#[test]
fn luatype_normalize_union_of_any_unknown_returns_any() {
    let mut checker = TypeChecker::new();
    let union_type = UnionType::new(vec![TypeId::ANY(), TypeId::UNKNOWN()]);
    assert_eq!(
        checker.normalize_then_lookup(&union_type.into()),
        &Type::Any
    );
}

#[test]
fn luatype_normalize_union_of_unknown_any_returns_any() {
    let mut checker = TypeChecker::new();
    let union_type = UnionType::new(vec![TypeId::UNKNOWN(), TypeId::ANY()]);
    assert_eq!(
        checker.normalize_then_lookup(&union_type.into()),
        &Type::Any
    );
}

#[test]
fn luatype_normalize_union_of_number_union_of_number_number_returns_number() {
    let mut checker = TypeChecker::new();

    let union_type1: Type = UnionType::new(vec![TypeId::NUMBER(), TypeId::NUMBER()]).into();
    let union_type1_id = checker.register_type(union_type1);
    let union_type2 = UnionType::new(vec![TypeId::NUMBER(), union_type1_id]).into();

    assert_eq!(checker.normalize(&union_type2), Some(TypeId::NUMBER()));
}

#[test]
fn luatype_normalize_union_of_number_union_of_nil_string_returns_union_of_number_nil_string() {
    let mut checker = TypeChecker::new();

    let union_type1: Type = UnionType::new(vec![TypeId::STRING(), TypeId::NIL()]).into();
    let union_type1_id = checker.register_type(union_type1);
    let union_type2 = UnionType::new(vec![TypeId::NUMBER(), union_type1_id]).into();

    let union_type3 = UnionType::new(vec![TypeId::NUMBER(), TypeId::STRING(), TypeId::NIL()]).into();
    assert_eq!(checker.normalize_then_lookup(&union_type2), &union_type3);
}

#[test]
fn luatype_normalize_empty_union_returns_never() {
    let mut checker = TypeChecker::new();

    let union_type1: Type = UnionType::new(vec![]).into();
    assert_eq!(checker.normalize_then_lookup(&union_type1), &Type::Never);
}

#[test]
fn luatype_normalize_union_with_1_type_returns_it() {
    let mut checker = TypeChecker::new();

    let union_type1: Type = UnionType::new(vec![TypeId::NIL()]).into();
    assert_eq!(checker.normalize_then_lookup(&union_type1), &Type::NIL());
}

#[test]
fn luatype_normalize_function_with_arg_union_of_number_any() {
    let mut checker = TypeChecker::new();
    let number_any = UnionType::new(vec![TypeId::NUMBER(), TypeId::ANY()]).into();
    let number_any_id = checker.register_type(number_any);
    let function: Type = FunctionType {
        params: vec![number_any_id],
        results: vec![],
    }
    .into();

    let normalized_function: Type = FunctionType {
        params: vec![TypeId::ANY()],
        results: vec![],
    }
    .into();

    assert_eq!(
        checker.normalize_then_lookup(&function),
        &normalized_function
    );
}

#[test]
fn luatype_normalize_function_with_result_union_of_number_any() {
    let mut checker = TypeChecker::new();
    let number_any = UnionType::new(vec![TypeId::NUMBER(), TypeId::ANY()]).into();
    let number_any_id = checker.register_type(number_any);
    let function: Type = FunctionType {
        params: vec![],
        results: vec![number_any_id],
    }
    .into();

    let normalized_function: Type = FunctionType {
        params: vec![],
        results: vec![TypeId::ANY()],
    }
    .into();

    assert_eq!(
        checker.normalize_then_lookup(&function),
        &normalized_function
    );
}

#[test]
fn luatype_normalize_iface_with_field_union_of_number_any() {
    let mut checker = TypeChecker::new();
    let number_any = UnionType::new(vec![TypeId::NUMBER(), TypeId::ANY()]).into();
    let number_any_id = checker.register_type(number_any);
    let lit_foo_type_id = checker.register_type(Type::string("foo".to_owned()));
    let iface: Type = IfaceType::new(vec![(lit_foo_type_id, number_any_id)]).into();

    let normalized_iface: Type = IfaceType::new(vec![(lit_foo_type_id, TypeId::ANY())]).into();

    assert_eq!(checker.normalize_then_lookup(&iface), &normalized_iface);
}

#[test]
fn normalize_iface_with_field_name_union_of_literal_foo_string_or_string() {
    let mut checker = TypeChecker::new();
    let lit_foo_type_id = checker.register_type(Type::string("foo".to_owned()));
    let literal_foo_string_string =
        UnionType::new(vec![lit_foo_type_id, TypeId::STRING()]).into();
    let literal_foo_string_string_id = checker.register_type(literal_foo_string_string);
    let iface: Type =
        IfaceType::new(vec![(literal_foo_string_string_id, TypeId::NUMBER())]).into();

    let normalized_iface: Type = IfaceType::new(vec![(TypeId::STRING(), TypeId::NUMBER())]).into();

    assert_eq!(checker.normalize_then_lookup(&iface), &normalized_iface);
}

#[test]
fn luatype_literal_is_assignable_to_itself() {
    let mut checker = TypeChecker::new();
    let lit = Type::number_literal(1.0_f64.to_string());
    let lit_id = checker.register_type(lit);

    assert!(checker.can_assign(lit_id, lit_id).is_ok())
}

#[test]
fn luatype_literal_is_assignable_to_primitive_of_same_kind() {
    let mut checker = TypeChecker::new();
    let lit = Type::number_literal(1.0_f64.to_string());
    let lit_id = checker.register_type(lit);

    assert!(checker.can_assign(lit_id, TypeId::NUMBER()).is_ok())
}

#[test]
fn luatype_function_with_number_param_is_assignable_to_function_with_literal_number_param() {
    let mut checker = TypeChecker::new();
    let lit = Type::number_literal(1.0_f64.to_string());
    let lit_id = checker.register_type(lit);

    let function1 = FunctionType {
        params: vec![lit_id],
        results: vec![],
    }
    .into();
    let function1_id = checker.register_type(function1);

    let function2 = FunctionType {
        params: vec![TypeId::NUMBER()],
        results: vec![],
    }
    .into();
    let function2_id = checker.register_type(function2);

    assert!(checker.can_assign(function2_id, function1_id).is_ok())
}

#[test]
fn luatype_function_with_literal_number_param_is_not_assignable_to_function_with_number_param() {
    let mut checker = TypeChecker::new();
    let lit = Type::number_literal(1.0_f64.to_string());
    let lit_id = checker.register_type(lit);

    let function1 = FunctionType {
        params: vec![lit_id],
        results: vec![],
    }
    .into();
    let function1_id = checker.register_type(function1);

    let function2 = FunctionType {
        params: vec![TypeId::NUMBER()],
        results: vec![],
    }
    .into();
    let function2_id = checker.register_type(function2);

    assert_eq!(
        checker.can_assign(function1_id, function2_id),
        Err(TypeCheckError::IncompatibleType(IncompatibleTypeError {
            source_type: function1_id,
            target_type: function2_id,
            reasons: vec![TypeCheckError::IncompatibleParameterType {
                nth: 0,
                source: Box::new(TypeCheckError::IncompatibleType(IncompatibleTypeError {
                    source_type: TypeId::NUMBER(),
                    target_type: lit_id,
                    reasons: vec![]
                }))
            }]
        }))
    )
}

#[test]
fn luatype_function_with_literal_number_return_is_assignable_to_function_with_number_return() {
    let mut checker = TypeChecker::new();
    let lit = Type::number_literal(1.0_f64.to_string());
    let lit_id = checker.register_type(lit);

    let function1: Type = FunctionType {
        params: vec![],
        results: vec![lit_id],
    }
    .into();
    let function1_id = checker.register_type(function1);

    let function2: Type = FunctionType {
        params: vec![],
        results: vec![TypeId::NUMBER()],
    }
    .into();
    let function2_id = checker.register_type(function2);

    assert!(checker.can_assign(function1_id, function2_id).is_ok())
}

#[test]
fn luatype_function_with_number_return_is_not_assignable_to_function_with_literal_number_return() {
    let mut checker = TypeChecker::new();
    let lit = Type::number_literal(1.0_f64.to_string());
    let lit_id = checker.register_type(lit);

    let function1: Type = FunctionType {
        params: vec![],
        results: vec![lit_id],
    }
    .into();
    let function1_id = checker.register_type(function1);

    let function2: Type = FunctionType {
        params: vec![],
        results: vec![TypeId::NUMBER()],
    }
    .into();
    let function2_id = checker.register_type(function2);

    assert_eq!(
        checker.can_assign(function2_id, function1_id),
        Err(TypeCheckError::IncompatibleType(IncompatibleTypeError {
            source_type: function2_id,
            target_type: function1_id,
            reasons: vec![TypeCheckError::IncompatibleReturnType {
                nth: 0,
                source: Box::new(TypeCheckError::IncompatibleType(IncompatibleTypeError {
                    source_type: TypeId::NUMBER(),
                    target_type: lit_id,
                    reasons: vec![]
                }))
            }]
        }))
    )
}

#[test]
fn luatype_normalize_union_of_number_number_literal_returns_number() {
    let mut checker = TypeChecker::new();

    let lit = Type::number_literal(1.0_f64.to_string());
    let lit_id = checker.register_type(lit);
    let union_type = UnionType::new(vec![TypeId::NUMBER(), lit_id]).into();

    assert_eq!(checker.normalize(&union_type), Some(TypeId::NUMBER()));
}

#[test]
fn luatype_normalize_union_of_number_literal_number_returns_number() {
    let mut checker = TypeChecker::new();

    let lit = Type::number_literal(1.0_f64.to_string());
    let lit_id = checker.register_type(lit);
    let union_type = UnionType::new(vec![lit_id, TypeId::NUMBER()]).into();

    assert_eq!(checker.normalize(&union_type), Some(TypeId::NUMBER()));
}
