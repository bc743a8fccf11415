use allelua::scope::{Position, Scope, ScopeManager, Variable};
use allelua::types::TypeId;

fn var(name: &str, type_id: TypeId) -> Variable {
    let start = Position { bytes: 0, line: 1, character: 1 };
    let end = Position { bytes: 3, line: 1, character: 4 };
    Variable { definition: start..end, identifier: name.to_string(), type_id }
}

#[test]
fn local_variable_is_found_in_current_scope() {
    let mut scopes = ScopeManager::default();
    scopes.push_scope();
    assert!(scopes.set_local(var("x", TypeId::NUMBER())).is_none());
    assert_eq!(scopes.get_variable("x").map(|v| v.type_id), Some(TypeId::NUMBER()));
    assert!(scopes.get_variable("y").is_none());
}

#[test]
fn inner_scope_shadows_outer_scope() {
    let mut scopes = ScopeManager::default();
    scopes.push_scope();
    scopes.set_local(var("x", TypeId::NUMBER()));
    scopes.push_scope();
    scopes.set_local(var("x", TypeId::STRING()));
    assert_eq!(scopes.depth(), 2);
    assert_eq!(scopes.get_variable("x").map(|v| v.type_id), Some(TypeId::STRING()));
    let popped = scopes.pop_scope();
    assert_eq!(popped.get("x").map(|v| v.type_id), Some(TypeId::STRING()));
    assert_eq!(scopes.get_variable("x").map(|v| v.type_id), Some(TypeId::NUMBER()));
}

#[test]
fn setting_a_variable_again_returns_the_previous_one() {
    let mut scope = Scope::default();
    assert!(scope.set(var("x", TypeId::NUMBER())).is_none());
    let previous = scope.set(var("x", TypeId::BOOLEAN()));
    assert_eq!(previous.map(|v| v.type_id), Some(TypeId::NUMBER()));
    assert_eq!(scope.get("x").map(|v| v.type_id), Some(TypeId::BOOLEAN()));
}

#[test]
fn global_variable_is_set_in_root_scope() {
    let mut scopes = ScopeManager::default();
    scopes.push_scope();
    scopes.push_scope();
    scopes.set_global(var("g", TypeId::NIL()));
    scopes.pop_scope();
    assert_eq!(scopes.get_variable("g").map(|v| v.type_id), Some(TypeId::NIL()));
}

#[test]
fn popping_the_last_scope_leaves_a_fresh_one() {
    let mut scopes = ScopeManager::default();
    scopes.push_scope();
    scopes.set_local(var("x", TypeId::NUMBER()));
    let popped = scopes.pop_scope();
    assert_eq!(popped.get("x").map(|v| v.type_id), Some(TypeId::NUMBER()));
    assert_eq!(scopes.depth(), 1);
    assert!(scopes.get_variable("x").is_none());
}
