use allelua::errors::{IncompatibleTypeError, TypeCheckError};
use allelua::luatype::TypeChecker;
use allelua::types::{FunctionType, IfaceType, Type, TypeId};

#[test]
fn invalid_type_id_message() {
    assert_eq!(
        TypeCheckError::InvalidTypeId(TypeId(9)).to_string(),
        "Invalid type id TypeId(9), this is likely a bug, please report it at https://github.com/negrel/allelua/issues"
    );
}

#[test]
fn signature_messages() {
    assert_eq!(
        TypeCheckError::TargetSignatureTooFewParams { expected: 2, got: 1 }.to_string(),
        "Target signature provides too few parameters. Expected 2 or more, but got 1."
    );
    assert_eq!(
        TypeCheckError::SourceSignatureTooFewResults { expected: 3, got: 0 }.to_string(),
        "Source signature provides too few results. Expected 3 or more, but got 0."
    );
}

#[test]
fn nested_reasons_are_indented() {
    let mut checker = TypeChecker::new();
    let f1 = checker.register_type(FunctionType { params: vec![TypeId::NUMBER()], results: vec![] }.into());
    let f2 = checker.register_type(
        FunctionType { params: vec![TypeId::NUMBER(), TypeId::NUMBER()], results: vec![] }.into(),
    );
    let err = checker.can_assign(f2, f1).unwrap_err();
    assert_eq!(
        err.to_string(),
        "Type \"TypeId(8)\" is not assignable to type \"TypeId(7)\".\n  Type of parameters 1 are incompatible.\n    Type \"nil\" is not assignable to type \"number\"."
    );
}

#[test]
fn field_messages() {
    let missing = TypeCheckError::RequiredFieldMissing { field_name: TypeId(7), field_type: TypeId::NUMBER() };
    assert_eq!(missing.to_string(), "Mandatory field TypeId(7) of type \"number\" is missing");
    let field = TypeCheckError::IncompatibleFieldType {
        field_name: "\"foo\"".to_string(),
        source: Box::new(TypeCheckError::IncompatibleType(IncompatibleTypeError {
            source_type: TypeId::STRING(),
            target_type: TypeId::NUMBER(),
            reasons: vec![],
        })),
    };
    assert_eq!(
        field.to_string(),
        "Type of fields \"\\\"foo\\\"\" are incompatible.\n  Type \"string\" is not assignable to type \"number\"."
    );
}

#[test]
fn incompatible_field_type_reason_names_the_field() {
    let mut checker = TypeChecker::new();
    let foo = checker.register_type(Type::string("foo".to_owned()));
    let source = checker.register_type(IfaceType::new(vec![(foo, TypeId::STRING())]).into());
    let target = checker.register_type(IfaceType::new(vec![(foo, TypeId::NUMBER())]).into());
    assert_eq!(
        checker.can_assign(source, target),
        Err(TypeCheckError::IncompatibleType(IncompatibleTypeError {
            source_type: source,
            target_type: target,
            reasons: vec![TypeCheckError::IncompatibleFieldType {
                field_name: "\"foo\"".to_string(),
                source: Box::new(TypeCheckError::IncompatibleType(IncompatibleTypeError {
                    source_type: TypeId::STRING(),
                    target_type: TypeId::NUMBER(),
                    reasons: vec![],
                })),
            }],
        }))
    );
}

#[test]
fn field_error_text_indents_the_inner_message() {
    assert_eq!(
        allelua::errors::field_error_text("\"foo\"", "a\nb"),
        "Type of fields \"foo\" are incompatible.\n  a\n  b"
    );
}
