//! Lua documentation: modules and their type checker.
use vstd::prelude::*;

use crate::env::root_types;
use crate::luatype::TypeChecker;
use crate::types::TypeModel;

verus! {

/// File system path of a module.
#[verifier::external_type_specification]
#[verifier::external_body]
pub struct ExPathBuf(std::path::PathBuf);

/// Syntax tree of a Lua chunk, as the Lua parser builds it.
#[verifier::external_type_specification]
#[verifier::external_body]
pub struct ExAst(full_moon::ast::Ast);

/// Error reported by the Lua parser.
#[verifier::external_type_specification]
#[verifier::external_body]
pub struct ExLuaError(full_moon::Error);

/// Whether the Lua parser accepts `text` as a Lua chunk.
pub uninterp spec fn lua_source_parses(text: Seq<char>) -> bool;

/// Parses `text` with `full_moon::parse`. Whether it succeeds depends on the
/// text alone (the Lua versions the parser understands are fixed when it is
/// built); when it fails, it reports at least one error. The syntax tree and
/// the errors themselves are not described here.
#[verifier::external_body]
fn parse_lua(text: &str) -> (r: Result<full_moon::ast::Ast, Vec<full_moon::Error>>)
    ensures
        r is Ok <==> lua_source_parses(text@),
        r matches Err(errors) ==> errors@.len() > 0,
{
    full_moon::parse(text)
}

/// ModuleError enumerates the reasons why a module cannot be parsed.
#[derive(Debug)]
pub enum ModuleError {
    /// The module's file could not be read; the message says why.
    Io(String),
    /// The module's text is not valid Lua.
    Parse(Vec<full_moon::Error>),
}

impl From<Vec<full_moon::Error>> for ModuleError {
    fn from(value: Vec<full_moon::Error>) -> (r: ModuleError) {
        ModuleError::Parse(value)
    }
}

impl vstd::std_specs::convert::FromSpecImpl<Vec<full_moon::Error>> for ModuleError {
    open spec fn obeys_from_spec() -> bool {
        true
    }

    open spec fn from_spec(v: Vec<full_moon::Error>) -> ModuleError {
        ModuleError::Parse(v)
    }
}

/// ModuleIdentifier define a unique lua module identifier.
/// An URL is used for user defined modules while stdlib uses short names such
/// as "sync" or "time".
#[derive(Debug)]
pub enum ModuleIdentifier {
    StdLib(String),
    Url(String),
}

/// Module define a Lua module.
#[derive(Debug)]
pub struct Module {
    pub path: std::path::PathBuf,
    pub type_checker: TypeChecker,
}

impl Module {
    /// Creates the module at `path` with a new type checker.
    pub fn new(path: std::path::PathBuf) -> (r: Module)
        ensures
            r.path == path,
            r.type_checker.wf(),
            r.type_checker.tys() == root_types().take(7),
    {
        Module { path, type_checker: TypeChecker::new() }
    }

    /// Parses `text`, the content of the module's file: its syntax tree, or
    /// the parser's errors.
    pub fn parse_text(&self, text: &str) -> (r: Result<full_moon::ast::Ast, ModuleError>)
        ensures
            r is Ok <==> lua_source_parses(text@),
            r matches Err(e) ==> (e matches ModuleError::Parse(errors) && errors@.len() > 0),
    {
        match parse_lua(text) {
            Ok(ast) => Ok(ast),
            Err(errors) => Err(ModuleError::from(errors)),
        }
    }
}

/// LuaDoc walks a Lua syntax tree to gather its documentation.
#[derive(Debug)]
pub struct LuaDoc {}

/// Parser define a luadoc type parser.
#[derive(Debug)]
pub struct Parser {}

} // verus!
