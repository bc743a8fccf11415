use allelua::checker::TypeChecker;
use allelua::errors::{IncompatibleTypeError, TypeCheckError};
use allelua::types::{FunctionType, Type, TypeId, UnionType};

#[test]
fn checker_any_is_assignable_to_any() {
    let mut checker = TypeChecker::new();
    assert!(checker.can_assign(TypeId::ANY(), TypeId::ANY()).is_ok());
}

#[test]
fn checker_never_is_assignable_to_any() {
    let mut checker = TypeChecker::new();
    assert!(checker.can_assign(TypeId::NEVER(), TypeId::ANY()).is_ok());
}

#[test]
fn checker_any_is_not_assignable_to_never() {
    let mut checker = TypeChecker::new();
    assert_eq!(
        checker.can_assign(TypeId::ANY(), TypeId::NEVER()),
        Err(TypeCheckError::IncompatibleType(IncompatibleTypeError {
            source_type: TypeId::ANY(),
            target_type: TypeId::NEVER(),
            reasons: Vec::new(),
        }))
    );
}

#[test]
fn checker_any_is_assignable_to_unknown() {
    let mut checker = TypeChecker::new();
    assert!(checker.can_assign(TypeId::ANY(), TypeId::UNKNOWN()).is_ok());
}

#[test]
fn checker_unknown_is_assignable_to_any() {
    let mut checker = TypeChecker::new();
    assert!(checker.can_assign(TypeId::UNKNOWN(), TypeId::ANY()).is_ok());
}

#[test]
fn checker_unknown_is_not_assignable_to_never() {
    let mut checker = TypeChecker::new();
    assert_eq!(
        checker.can_assign(TypeId::UNKNOWN(), TypeId::NEVER()),
        Err(TypeCheckError::IncompatibleType(IncompatibleTypeError {
            source_type: TypeId::UNKNOWN(),
            target_type: TypeId::NEVER(),
            reasons: Vec::new(),
        }))
    );
}

#[test]
fn checker_primitive_is_assignable_to_itself() {
    let mut checker = TypeChecker::new();

    assert!(checker.can_assign(TypeId::NUMBER(), TypeId::NUMBER()).is_ok())
}

#[test]
fn checker_function_without_params_and_results_is_assignable_to_itself() {
    let mut checker = TypeChecker::new();
    let function_id = checker.function(vec![], vec![]);

    assert!(checker.can_assign(function_id, function_id).is_ok())
}

#[test]
fn checker_function_with_same_params_and_returns_is_assignable_to_itself() {
    let mut checker = TypeChecker::new();
    let function_id = checker.function(vec![TypeId::NUMBER()], vec![TypeId::STRING()]);

    assert!(checker.can_assign(function_id, function_id).is_ok())
}

#[test]
fn checker_function_with_1_number_params_is_assignable_to_function_with_2_number_params() {
    let mut checker = TypeChecker::new();
    let function1_id = checker.function(vec![TypeId::NUMBER()], vec![]);
    let function2_id = checker.function(vec![TypeId::NUMBER(), TypeId::NUMBER()], vec![]);

    assert!(checker.can_assign(function1_id, function2_id).is_ok())
}

#[test]
fn checker_function_with_2_number_params_is_not_assignable_to_function_with_1_number_params() {
    let mut checker = TypeChecker::new();
    let function1_id = checker.function(vec![TypeId::NUMBER()], vec![]);
    let function2_id = checker.function(vec![TypeId::NUMBER(), TypeId::NUMBER()], vec![]);

    assert_eq!(
        checker.can_assign(function2_id, function1_id),
        Err(TypeCheckError::IncompatibleType(IncompatibleTypeError {
            source_type: function2_id,
            target_type: function1_id,
            reasons: vec![TypeCheckError::IncompatibleParameterType {
                nth: 1,
                source: Box::new(TypeCheckError::IncompatibleType(IncompatibleTypeError {
                    source_type: TypeId::NIL(),
                    target_type: TypeId::NUMBER(),
                    reasons: vec![]
                }))
            }]
        }))
    )
}

#[test]
fn checker_function_with_2_number_returns_is_assignable_to_function_with_1_number_returns() {
    let mut checker = TypeChecker::new();
    let function1_id = checker.function(vec![], vec![TypeId::NUMBER()]);
    let function2_id = checker.function(vec![], vec![TypeId::NUMBER(), TypeId::NUMBER()]);

    assert!(checker.can_assign(function2_id, function1_id).is_ok(),)
}

#[test]
fn checker_function_with_1_number_returns_is_not_assignable_to_function_with_2_number_returns() {
    let mut checker = TypeChecker::new();
    let function1_id = checker.function(vec![], vec![TypeId::NUMBER()]);
    let function2_id = checker.function(vec![], vec![TypeId::NUMBER(), TypeId::NUMBER()]);

    assert_eq!(
        checker.can_assign(function1_id, function2_id),
        Err(TypeCheckError::IncompatibleType(IncompatibleTypeError {
            source_type: function1_id,
            target_type: function2_id,
            reasons: vec![TypeCheckError::IncompatibleReturnType {
                nth: 1,
                source: Box::new(TypeCheckError::IncompatibleType(IncompatibleTypeError {
                    source_type: TypeId::NIL(),
                    target_type: TypeId::NUMBER(),
                    reasons: vec![]
                }))
            }]
        }))
    )
}

#[test]
fn checker_union_of_literal_is_assignable_to_itself() {
    let mut checker = TypeChecker::new();
    let union_type_id = checker.union(vec![TypeId::NUMBER(), TypeId::STRING()]);

    assert!(checker.can_assign(union_type_id, union_type_id).is_ok());
}

#[test]
fn checker_union_of_string_nil_is_not_assignable_to_number() {
    let mut checker = TypeChecker::new();
    let union_type_id = checker.union(vec![TypeId::STRING(), TypeId::NIL()]);

    assert_eq!(
        checker.can_assign(union_type_id, TypeId::NUMBER()),
        Err(TypeCheckError::IncompatibleType(IncompatibleTypeError {
            source_type: union_type_id,
            target_type: TypeId::NUMBER(),
            reasons: vec![
                TypeCheckError::IncompatibleType(IncompatibleTypeError {
                    source_type: TypeId::STRING(),
                    target_type: TypeId::NUMBER(),
                    reasons: vec![],
                }),
                TypeCheckError::IncompatibleType(IncompatibleTypeError {
                    source_type: TypeId::NIL(),
                    target_type: TypeId::NUMBER(),
                    reasons: vec![],
                }),
            ]
        }))
    );
}

#[test]
fn checker_iface_is_assignable_to_itself() {
    let mut checker = TypeChecker::new();
    let (foo_id, bar_id, baz_id, qux_id, quz_id) = (
        checker.string(r#""foo""#.to_string()),
        checker.string(r#""bar""#.to_string()),
        checker.string(r#""baz""#.to_string()),
        checker.string(r#""qux""#.to_string()),
        checker.string(r#""quz""#.to_string()),
    );
    let iface_type_id = checker.iface(vec![
        (foo_id, TypeId::NUMBER()),
        (bar_id, TypeId::STRING()),
        (baz_id, TypeId::BOOLEAN()),
        (qux_id, TypeId::NIL()),
        (quz_id, TypeId::ANY()),
    ]);

    assert!(checker.can_assign(iface_type_id, iface_type_id).is_ok())
}

#[test]
fn checker_iface_is_assignable_to_empty_iface() {
    let mut checker = TypeChecker::new();
    let empty_iface_type_id = checker.iface(vec![]).to_owned();

    let (foo_id, bar_id, baz_id, qux_id, quz_id) = (
        checker.string(r#""foo""#.to_string()),
        checker.string(r#""bar""#.to_string()),
        checker.string(r#""baz""#.to_string()),
        checker.string(r#""qux""#.to_string()),
        checker.string(r#""quz""#.to_string()),
    );
    let iface_type_id = checker.iface(vec![
        (foo_id, TypeId::NUMBER()),
        (bar_id, TypeId::STRING()),
        (baz_id, TypeId::BOOLEAN()),
        (qux_id, TypeId::NIL()),
        (quz_id, TypeId::ANY()),
    ]);

    assert!(checker
        .can_assign(iface_type_id, empty_iface_type_id)
        .is_ok())
}

#[test]
fn checker_empty_iface_is_assignable_to_iface_with_field_union_of_number_nil() {
    let mut checker = TypeChecker::new();
    let empty_iface_type_id = checker.iface(vec![]).to_owned();
    let number_or_nil_id = checker.union(vec![TypeId::NUMBER(), TypeId::NIL()]);
    let foo_id = checker.string(r#""foo""#.to_owned());

    let iface_type_id = checker.iface(vec![(foo_id, number_or_nil_id)]);

    assert!(checker
        .can_assign(empty_iface_type_id, iface_type_id)
        .is_ok())
}

#[test]
fn checker_empty_iface_is_not_assignable_to_iface_with_field_number() {
    let mut checker = TypeChecker::new();
    let empty_iface_type_id = checker.iface(vec![]);
    let lit_foo_string_id = checker.string(r#""foo""#.to_string());
    let iface_type_id = checker.iface(vec![(lit_foo_string_id, TypeId::NUMBER())]);

    assert_eq!(
        checker.can_assign(empty_iface_type_id, iface_type_id),
        Err(TypeCheckError::IncompatibleType(IncompatibleTypeError {
            source_type: empty_iface_type_id,
            target_type: iface_type_id,
            reasons: vec![TypeCheckError::RequiredFieldMissing {
                field_name: lit_foo_string_id,
                field_type: TypeId::NUMBER(),
            }]
        }))
    )
}

#[test]
fn union_of_iface_foo_number_iface_bar_number_is_not_assignable_to_iface_foo_bar_numbers() {
    let mut checker = TypeChecker::new();

    let lit_foo_string_id = checker.string(r#""foo""#.to_owned());
    let lit_bar_string_id = checker.string(r#""bar""#.to_owned());

    let iface_foo_id = checker.iface(vec![(lit_foo_string_id, TypeId::NUMBER())]);
    let iface_bar_id = checker.iface(vec![(lit_bar_string_id, TypeId::NUMBER())]);

    let union_iface_foo_iface_bar_id = checker.union(vec![iface_foo_id, iface_bar_id]);

    let iface_foo_bar_id = checker.iface(vec![
        (lit_foo_string_id, TypeId::NUMBER()),
        (lit_bar_string_id, TypeId::NUMBER()),
    ]);

    assert_eq!(
        checker.can_assign(union_iface_foo_iface_bar_id, iface_foo_bar_id),
        Err(TypeCheckError::IncompatibleType(IncompatibleTypeError {
            source_type: union_iface_foo_iface_bar_id,
            target_type: iface_foo_bar_id,
            reasons: vec![
                TypeCheckError::RequiredFieldMissing {
                    field_name: lit_foo_string_id,
                    field_type: TypeId::NUMBER()
                },
                TypeCheckError::RequiredFieldMissing {
                    field_name: lit_bar_string_id,
                    field_type: TypeId::NUMBER()
                },
            ],
        }))
    );
}

#[test]
fn checker_iface_foo_bar_numbers_is_assignable_to_union_of_iface_foo_number_iface_bar_number() {
    let mut checker = TypeChecker::new();

    let lit_foo_string_id = checker.string(r#""foo""#.to_owned());
    let lit_bar_string_id = checker.string(r#""bar""#.to_owned());

    let iface_foo_id = checker.iface(vec![(lit_foo_string_id, TypeId::NUMBER())]);
    let iface_bar_id = checker.iface(vec![(lit_bar_string_id, TypeId::NUMBER())]);

    let union_iface_foo_iface_bar_id = checker.union(vec![iface_foo_id, iface_bar_id]);

    let iface_foo_bar_id = checker.iface(vec![
        (lit_foo_string_id, TypeId::NUMBER()),
        (lit_bar_string_id, TypeId::NUMBER()),
    ]);

    assert!(checker
        .can_assign(iface_foo_bar_id, union_iface_foo_iface_bar_id)
        .is_ok());
}

#[test]
fn checker_normalize_union_of_number_number_returns_number() {
    let mut checker = TypeChecker::new();
    let union_type = checker
        .union_then_lookup(vec![TypeId::NUMBER(), TypeId::NUMBER()])
        .to_owned();

    assert_eq!(checker.normalize(&union_type), Some(TypeId::NUMBER()));
}

#[test]
fn checker_normalize_union_of_number_never_returns_number() {
    let mut checker = TypeChecker::new();
    let union_type = checker
        .union_then_lookup(vec![TypeId::NUMBER(), TypeId::NEVER()])
        .to_owned();
    assert_eq!(checker.normalize(&union_type), Some(TypeId::NUMBER()));
}

#[test]
fn checker_normalize_union_of_number_any_returns_any() {
    let mut checker = TypeChecker::new();
    let union_type = checker
        .union_then_lookup(vec![TypeId::NUMBER(), TypeId::ANY()])
        .to_owned();
    assert_eq!(checker.normalize_then_lookup(&union_type), &Type::Any);
}

#[test]
fn checker_normalize_union_of_number_unknown_returns_unknown() {
    let mut checker = TypeChecker::new();
    let union_type = checker
        .union_then_lookup(vec![TypeId::NUMBER(), TypeId::UNKNOWN()])
        .to_owned();
    assert_eq!(checker.normalize_then_lookup(&union_type), &Type::Unknown);
}

#[test]
fn checker_normalize_union_of_any_unknown_returns_any() {
    let mut checker = TypeChecker::new();
    let union_type = checker
        .union_then_lookup(vec![TypeId::ANY(), TypeId::UNKNOWN()])
        .to_owned();
    assert_eq!(checker.normalize_then_lookup(&union_type), &Type::Any);
}

#[test]
fn checker_normalize_union_of_unknown_any_returns_any() {
    let mut checker = TypeChecker::new();
    let union_type = checker
        .union_then_lookup(vec![TypeId::UNKNOWN(), TypeId::ANY()])
        .to_owned();
    assert_eq!(checker.normalize_then_lookup(&union_type), &Type::Any);
}

#[test]
fn checker_normalize_union_of_number_union_of_number_number_returns_number() {
    let mut checker = TypeChecker::new();

    let union_type1 = checker
        .union_then_lookup(vec![TypeId::NUMBER(), TypeId::NUMBER()])
        .to_owned();
    let union_type1_id = checker.lookup_type_id(&union_type1).unwrap();
    let union_type2 = checker
        .union_then_lookup(vec![TypeId::NUMBER(), union_type1_id])
        .to_owned();

    assert_eq!(checker.normalize(&union_type2), Some(TypeId::NUMBER()));
}

#[test]
fn checker_normalize_union_of_number_union_of_nil_string_returns_union_of_number_nil_string() {
    let mut checker = TypeChecker::new();

    let union_type1 = checker
        .union_then_lookup(vec![TypeId::STRING(), TypeId::NIL()])
        .to_owned();
    let union_type1_id = checker.lookup_type_id(&union_type1).unwrap();
    let union_type2 = checker
        .union_then_lookup(vec![TypeId::NUMBER(), union_type1_id])
        .to_owned();

    let union_type3 = checker
        .union_then_lookup(vec![TypeId::NUMBER(), TypeId::STRING(), TypeId::NIL()])
        .to_owned();
    assert_eq!(checker.normalize_then_lookup(&union_type2), &union_type3);
}

#[test]
fn checker_normalize_empty_union_returns_never() {
    let mut checker = TypeChecker::new();

    let union_type1 = checker.union_then_lookup(vec![]).to_owned();
    assert_eq!(checker.normalize_then_lookup(&union_type1), &Type::Never);
}

#[test]
fn checker_normalize_union_with_1_type_returns_it() {
    let mut checker = TypeChecker::new();

    let union_type1 = checker.union_then_lookup(vec![TypeId::NIL()]).to_owned();
    assert_eq!(checker.normalize_then_lookup(&union_type1), &Type::NIL());
}

#[test]
fn checker_normalize_function_with_arg_union_of_number_any() {
    let mut checker = TypeChecker::new();
    let number_any_id = checker.union(vec![TypeId::NUMBER(), TypeId::ANY()]);
    let function: Type = FunctionType {
        params: vec![number_any_id],
        results: vec![],
    }
    .into();

    let normalized_function: Type = FunctionType {
        params: vec![TypeId::ANY()],
        results: vec![],
    }
    .into();

    assert_eq!(
        checker.normalize_then_lookup(&function),
        &normalized_function
    );
}

#[test]
fn checker_normalize_function_with_result_union_of_number_any() {
    let mut checker = TypeChecker::new();
    let number_any_id = checker.union(vec![TypeId::NUMBER(), TypeId::ANY()]);
    let function: Type = FunctionType {
        params: vec![],
        results: vec![number_any_id],
    }
    .into();

    let normalized_function: Type = FunctionType {
        params: vec![],
        results: vec![TypeId::ANY()],
    }
    .into();

    assert_eq!(
        checker.normalize_then_lookup(&function),
        &normalized_function
    );
}

#[test]
fn checker_normalize_iface_with_field_union_of_number_any() {
    let mut checker = TypeChecker::new();
    let number_any_id = checker.union(vec![TypeId::NUMBER(), TypeId::ANY()]);
    let lit_foo_id = checker.string(r#""foo""#.to_owned());
    let iface = checker
        .iface_then_lookup(vec![(lit_foo_id, number_any_id)])
        .to_owned();

    let normalized_iface = checker
        .iface_then_lookup(vec![(lit_foo_id, TypeId::ANY())])
        .to_owned();

    assert_eq!(checker.normalize_then_lookup(&iface), &normalized_iface);
}

#[test]
fn checker_literal_is_assignable_to_itself() {
    let mut checker = TypeChecker::new();
    let lit_id = checker.number_literal(1.0_f64.to_string());

    assert!(checker.can_assign(lit_id, lit_id).is_ok())
}

#[test]
fn checker_literal_is_assignable_to_primitive_of_same_kind() {
    let mut checker = TypeChecker::new();
    let lit_id = checker.number_literal(1.0_f64.to_string());

    assert!(checker.can_assign(lit_id, TypeId::NUMBER()).is_ok())
}

#[test]
fn checker_function_with_number_param_is_assignable_to_function_with_literal_number_param() {
    let mut checker = TypeChecker::new();
    let lit_id = checker.number_literal(1.0_f64.to_string());
    let function1_id = checker.function(vec![lit_id], vec![]);
    let function2_id = checker.function(vec![TypeId::NUMBER()], vec![]);

    assert!(checker.can_assign(function2_id, function1_id).is_ok())
}

#[test]
fn checker_function_with_literal_number_param_is_not_assignable_to_function_with_number_param() {
    let mut checker = TypeChecker::new();
    let lit_id = checker.number_literal(1.0_f64.to_string());

    let function1_id = checker.function(vec![lit_id], vec![]);
    let function2_id = checker.function(vec![TypeId::NUMBER()], vec![]);

    assert_eq!(
        checker.can_assign(function1_id, function2_id),
        Err(TypeCheckError::IncompatibleType(IncompatibleTypeError {
            source_type: function1_id,
            target_type: function2_id,
            reasons: vec![TypeCheckError::IncompatibleParameterType {
                nth: 0,
                source: Box::new(TypeCheckError::IncompatibleType(IncompatibleTypeError {
                    source_type: TypeId::NUMBER(),
                    target_type: lit_id,
                    reasons: vec![]
                }))
            }]
        }))
    )
}

#[test]
fn checker_function_with_literal_number_return_is_assignable_to_function_with_number_return() {
    let mut checker = TypeChecker::new();
    let lit_id = checker.number_literal(1.0_f64.to_string());
    let function1_id = checker.function(vec![], vec![lit_id]);
    let function2_id = checker.function(vec![], vec![TypeId::NUMBER()]);

    assert!(checker.can_assign(function1_id, function2_id).is_ok())
}

#[test]
fn checker_function_with_number_return_is_not_assignable_to_function_with_literal_number_return() {
    let mut checker = TypeChecker::new();
    let lit_id = checker.number_literal(1.0_f64.to_string());
    let function1_id = checker.function(vec![], vec![lit_id]);
    let function2_id = checker.function(vec![], vec![TypeId::NUMBER()]);

    assert_eq!(
        checker.can_assign(function2_id, function1_id),
        Err(TypeCheckError::IncompatibleType(IncompatibleTypeError {
            source_type: function2_id,
            target_type: function1_id,
            reasons: vec![TypeCheckError::IncompatibleReturnType {
                nth: 0,
                source: Box::new(TypeCheckError::IncompatibleType(IncompatibleTypeError {
                    source_type: TypeId::NUMBER(),
                    target_type: lit_id,
                    reasons: vec![]
                }))
            }]
        }))
    )
}

#[test]
fn checker_normalize_union_of_number_number_literal_returns_number() {
    let mut checker = TypeChecker::new();

    let lit_id = checker.number_literal(1.0_f64.to_string());
    let union_type = checker
        .union_then_lookup(vec![TypeId::NUMBER(), lit_id])
        .to_owned();

    assert_eq!(checker.normalize(&union_type), Some(TypeId::NUMBER()));
}

#[test]
fn checker_normalize_union_of_number_literal_number_returns_number() {
    let mut checker = TypeChecker::new();

    let lit_id = checker.number_literal(1.0_f64.to_string());
    let union_type = checker
        .union_then_lookup(vec![lit_id, TypeId::NUMBER()])
        .to_owned();

    assert_eq!(checker.normalize(&union_type), Some(TypeId::NUMBER()));
}

#[test]
fn checker_every_type_is_assignable_to_empty_iface() {
    let mut checker = TypeChecker::new();
    let empty = checker.iface(vec![]);
    let f = checker.function(vec![TypeId::NUMBER()], vec![TypeId::STRING()]);
    let u = checker.union(vec![TypeId::NIL(), TypeId::BOOLEAN()]);
    for s in [TypeId::NUMBER(), TypeId::NIL(), TypeId::STRING(), TypeId::UNKNOWN(), f, u] {
        assert!(checker.can_assign(s, empty).is_ok());
    }
}

#[test]
fn checker_union_is_assignable_only_if_all_members_are() {
    let mut checker = TypeChecker::new();
    let u = checker.union(vec![TypeId::STRING(), TypeId::NUMBER()]);
    assert_eq!(
        checker.can_assign(u, TypeId::NUMBER()),
        Err(TypeCheckError::IncompatibleType(IncompatibleTypeError {
            source_type: u,
            target_type: TypeId::NUMBER(),
            reasons: vec![TypeCheckError::IncompatibleType(IncompatibleTypeError {
                source_type: TypeId::STRING(),
                target_type: TypeId::NUMBER(),
                reasons: vec![],
            })],
        }))
    );
    assert_eq!(checker.can_assign(u, u), Ok(()));
    let t = checker.boolean(true);
    let f = checker.boolean(false);
    let bools = checker.union(vec![t, f]);
    assert_eq!(checker.can_assign(bools, TypeId::BOOLEAN()), Ok(()));
}

#[test]
fn checker_normalized_union_is_stable() {
    let mut checker = TypeChecker::new();
    let lit = checker.number_literal("1".to_string());
    let u: Type = UnionType::new(vec![lit, TypeId::NUMBER(), TypeId::NIL(), TypeId::NUMBER()]).into();
    let r = checker.normalize(&u).unwrap();
    let v = checker.lookup_type(r).unwrap().clone();
    assert_eq!(v, UnionType::new(vec![TypeId::NUMBER(), TypeId::NIL()]).into());
    assert_eq!(checker.normalize(&v), Some(r));
}
