use allelua::env::TypeEnvironment;
use allelua::types::{FunctionType, IfaceType, PrimitiveKind, Type, TypeId, UnionType};

#[test]
fn env_type_environment_register_is_idempotent() {
    let mut env = TypeEnvironment::new();
    assert_eq!(env.register(Type::NIL()), TypeId::NIL())
}

#[test]
fn literal_bool() {
    let mut env = TypeEnvironment::new();
    let true_id = env.boolean(true);
    let false_id = env.boolean(false);

    assert!(true_id != false_id);
    assert_eq!(
        env.lookup(true_id),
        Some(&Type::Literal {
            value: "true".to_owned(),
            kind: PrimitiveKind::Boolean
        })
    );
    assert_eq!(
        env.lookup(false_id),
        Some(&Type::Literal {
            value: "false".to_owned(),
            kind: PrimitiveKind::Boolean
        })
    )
}

#[test]
fn literal_string() {
    let mut env = TypeEnvironment::new();
    let foo_id = env.string(r#""FOO BAR BAZ""#.to_owned());

    assert_eq!(
        env.lookup(foo_id),
        Some(&Type::Literal {
            value: r#""FOO BAR BAZ""#.to_owned(),
            kind: PrimitiveKind::String
        })
    )
}

#[test]
fn union_with_single_type_returns_it() {
    let mut env = TypeEnvironment::new();

    let true_id = env.boolean(true);
    let union_id = env.union(vec![true_id]);

    assert_eq!(true_id, union_id);
}

#[test]
fn union() {
    let mut env = TypeEnvironment::new();

    let true_id = env.boolean(true);
    let false_id = env.boolean(false);
    let union_id = env.union(vec![true_id, false_id]);

    assert_eq!(
        env.lookup(union_id),
        Some(
            &UnionType {
                types: vec![true_id, false_id]
            }
            .into()
        )
    )
}

#[test]
fn iface() {
    let mut env = TypeEnvironment::new();

    let foo_id = env.string(r#""foo""#.to_owned());

    let iface_id = env.iface(vec![(foo_id, TypeId::STRING())]);

    assert_eq!(
        env.lookup(iface_id),
        Some(
            &IfaceType::new(vec![(foo_id, TypeId::STRING())]).into()
        )
    )
}

#[test]
fn literal_number() {
    let mut env = TypeEnvironment::new();
    let num_id = env.number_literal(0.05_f64.to_string());

    assert_eq!(
        env.lookup(num_id),
        Some(&Type::Literal {
            value: r#"0.05"#.to_owned(),
            kind: PrimitiveKind::Number
        })
    )
}

#[test]
fn function() {
    let mut env = TypeEnvironment::new();

    let hundred_id = env.number_literal(100.0_f64.to_string());
    let hundred_one_id = env.number_literal(101.0_f64.to_string());

    let fun_id = env.function(vec![hundred_id], vec![hundred_one_id]);

    assert_eq!(
        env.lookup(fun_id),
        Some(&Type::Function(FunctionType {
            params: vec![hundred_id],
            results: vec![hundred_one_id]
        }))
    )
}

#[test]
fn env_grandchild_numbers_after_all_ancestors() {
    let mut c1 = TypeEnvironment::new().child_env();
    let b = c1.boolean(true);
    let mut c2 = c1.child_env();
    let id = c2.boolean(false);
    assert!(id != b && id != TypeId::ANY());
    assert_eq!(c2.lookup(TypeId::ANY()), Some(&Type::Any));
    assert_eq!(c2.lookup(b), Some(&Type::boolean(true)));
    assert_eq!(c2.lookup(id), Some(&Type::boolean(false)));
    assert_eq!(c2.reverse_lookup(&Type::boolean(false)), Some(id));
    assert_eq!(c2.register(Type::NIL()), TypeId::NIL());
}

#[test]
fn env_next_id_is_the_next_registered_id() {
    let mut env = TypeEnvironment::new();
    let n = env.next_id();
    assert!(env.lookup(n).is_none());
    assert_eq!(env.boolean(true), n);
    assert_eq!(env.next_id(), TypeId(n.0 + 1));
}

#[test]
fn env_union_flattens_the_last_registered_union() {
    let mut env = TypeEnvironment::new();
    let t = env.boolean(true);
    let f = env.boolean(false);
    let u = env.union(vec![t, f]);
    let v = env.union(vec![u, TypeId::NIL()]);
    assert_eq!(env.lookup(v), Some(&Type::Union(UnionType::new(vec![t, f, TypeId::NIL()]))));
}

#[test]
fn env_string_literals_must_be_quoted() {
    assert!(TypeEnvironment::is_quoted(r#""FOO BAR BAZ""#));
    assert!(TypeEnvironment::is_quoted(r#""""#));
    assert!(!TypeEnvironment::is_quoted("foo"));
    assert!(!TypeEnvironment::is_quoted("\""));
    assert!(!TypeEnvironment::is_quoted(r#""foo"#));
    assert!(!TypeEnvironment::is_quoted(""));
}

#[test]
fn env_function_may_refer_to_itself() {
    let mut env = TypeEnvironment::new();
    let n = env.next_id();
    let f = env.function(vec![n], vec![n]);
    assert_eq!(f, n);
    assert_eq!(
        env.lookup(f),
        Some(&Type::Function(FunctionType { params: vec![n], results: vec![n] }))
    );
    let m = env.next_id();
    let u = env.union(vec![TypeId::NIL(), m]);
    assert_eq!(u, m);
    assert_eq!(env.lookup(u), Some(&Type::Union(UnionType::new(vec![TypeId::NIL(), m]))));
}
