use std::path::PathBuf;

use allelua::doc::{Module, ModuleError};

#[test]
fn module_text_that_is_lua_parses() {
    let module = Module::new(PathBuf::from("main.lua"));
    assert!(module.parse_text("local x = 1\nreturn x").is_ok());
    assert!(module.parse_text("").is_ok());
}

#[test]
fn module_text_that_is_not_lua_reports_parse_errors() {
    let module = Module::new(PathBuf::from("main.lua"));
    match module.parse_text("local x = ") {
        Err(ModuleError::Parse(errors)) => assert!(!errors.is_empty()),
        other => panic!("expected parse errors, got {other:?}"),
    }
}
