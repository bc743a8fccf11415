use allelua::env::TypeEnvironment as Env;
use allelua::luatype::{TypeChecker, TypeEnvironment};
use allelua::types::{FunctionType, IfaceType, Type, TypeId, UnionType};

#[test]
fn fmt_expands_nested_types() {
    let mut checker = TypeChecker::new();
    let union_id = checker.register_type(UnionType::new(vec![TypeId::NUMBER(), TypeId::STRING()]).into());
    let function: Type = FunctionType { params: vec![union_id], results: vec![TypeId::NIL()] }.into();
    let function_id = checker.register_type(function.clone());
    assert_eq!(checker.fmt(&function), "(number | string) -> (nil)");
    let foo_id = checker.register_type(Type::string("foo".to_owned()));
    let iface: Type = IfaceType::new(vec![(foo_id, function_id)]).into();
    assert_eq!(checker.fmt(&iface), r#"{ "foo": (number | string) -> (nil); }"#);
}

#[test]
fn replace_type_ids_removes_unknown_ids() {
    let env = TypeEnvironment::new();
    assert_eq!(env.replace_type_ids("a TypeId(5) b TypeId(99) c"), "a number b  c");
    assert_eq!(env.replace_type_ids("TypeId(+4)"), "boolean");
    assert_eq!(env.replace_type_ids("TypeId(3"), "3");
    assert_eq!(env.replace_type_ids("no ids"), "no ids");
}

#[test]
fn env_fmt_drops_hash_after_known_ids() {
    let env = Env::new();
    assert_eq!(env.fmt("TypeId(5)#x", true), "numberx");
    assert_eq!(env.fmt("TypeId(42)#x", false), "#x");
    assert_eq!(env.fmt("TypeId(7)", false), "(string) -> ()");
}

#[test]
fn empty_union_text() {
    let checker = TypeChecker::new();
    let union: Type = UnionType::new(vec![]).into();
    assert_eq!(checker.fmt(&union), "<empty union>");
}

#[test]
fn replace_type_ids_keeps_text_without_ids() {
    let env = TypeEnvironment::new();
    assert_eq!(env.replace_type_ids("plain text (TypeId) #"), "plain text (TypeId) #");
    let mut checker = TypeChecker::new();
    let id = checker.register_type(UnionType::new(vec![TypeId::NUMBER(), TypeId::NIL()]).into());
    assert_eq!(
        checker.environment().replace_type_ids(&format!("<{:?}>", id)),
        "<number | nil>"
    );
}
