//! Terminal events of the `term` module.
use vstd::prelude::*;

use crate::text::append_lit;

verus! {

/// Text pasted in the terminal.
#[derive(Debug)]
pub struct LuaPasteEvent(String);

impl From<String> for LuaPasteEvent {
    fn from(value: String) -> (r: LuaPasteEvent) {
        LuaPasteEvent(value)
    }
}

impl vstd::std_specs::convert::FromSpecImpl<String> for LuaPasteEvent {
    open spec fn obeys_from_spec() -> bool {
        true
    }

    closed spec fn from_spec(v: String) -> LuaPasteEvent {
        LuaPasteEvent(v)
    }
}

impl LuaPasteEvent {
    /// Pasted text.
    pub closed spec fn content_of(&self) -> Seq<char> {
        self.0@
    }

    /// Creates the event of pasting `content`.
    pub fn new(content: String) -> (r: LuaPasteEvent)
        ensures
            r.content_of() == content@,
    {
        LuaPasteEvent(content)
    }

    /// Pasted text.
    pub fn content(&self) -> (r: &String)
        ensures
            r@ == self.content_of(),
    {
        &self.0
    }

    /// Name of the event's type in Lua.
    pub fn lua_type() -> (r: &'static str)
        ensures
            r@ == "term.PasteEvent"@,
    {
        "term.PasteEvent"
    }
}

/// New size of the terminal: columns and rows.
#[derive(Debug)]
pub struct LuaEventResize(u16, u16);

impl From<(u16, u16)> for LuaEventResize {
    fn from(value: (u16, u16)) -> (r: LuaEventResize) {
        LuaEventResize(value.0, value.1)
    }
}

impl vstd::std_specs::convert::FromSpecImpl<(u16, u16)> for LuaEventResize {
    open spec fn obeys_from_spec() -> bool {
        true
    }

    closed spec fn from_spec(v: (u16, u16)) -> LuaEventResize {
        LuaEventResize(v.0, v.1)
    }
}

impl LuaEventResize {
    /// Creates the event of resizing the terminal to `columns` by `rows`.
    pub fn new(columns: u16, rows: u16) -> (r: LuaEventResize)
        ensures
            r.columns() == columns,
            r.rows() == rows,
    {
        LuaEventResize(columns, rows)
    }

    /// Number of columns.
    #[verifier::when_used_as_spec(spec_columns)]
    pub fn columns(&self) -> (r: u16)
        ensures
            r == self.spec_columns(),
    {
        self.0
    }

    /// Number of columns.
    pub closed spec fn spec_columns(&self) -> u16 {
        self.0
    }

    /// Number of rows.
    #[verifier::when_used_as_spec(spec_rows)]
    pub fn rows(&self) -> (r: u16)
        ensures
            r == self.spec_rows(),
    {
        self.1
    }

    /// Number of rows.
    pub closed spec fn spec_rows(&self) -> u16 {
        self.1
    }

    /// Name of the event's type in Lua.
    pub fn lua_type() -> (r: &'static str)
        ensures
            r@ == "term.ResizeEvent"@,
    {
        "term.ResizeEvent"
    }
}

/// The terminal gained the focus.
#[derive(Debug)]
pub struct LuaFocusGainedEvent;

impl LuaFocusGainedEvent {
    /// Name of the event's type in Lua.
    pub fn lua_type() -> (r: &'static str)
        ensures
            r@ == "term.FocusGainedEvent"@,
    {
        "term.FocusGainedEvent"
    }
}

/// The terminal lost the focus.
#[derive(Debug)]
pub struct LuaFocusLostEvent;

impl LuaFocusLostEvent {
    /// Name of the event's type in Lua.
    pub fn lua_type() -> (r: &'static str)
        ensures
            r@ == "term.FocusLostEvent"@,
    {
        "term.FocusLostEvent"
    }
}

/// Why reading a line from the terminal failed.
#[derive(Debug, Clone, Copy, PartialEq, Eq, Structural)]
pub enum ReadlineErrorKind {
    /// An I/O error.
    Io,
    /// End of input (Ctrl-D).
    Eof,
    /// The user interrupted the reading (Ctrl-C).
    Interrupted,
    /// The terminal was resized.
    WindowResized,
    /// Any other error.
    Uncategorized,
}

/// Name of a read-line error kind in Lua.
pub open spec fn readline_kind_name(k: ReadlineErrorKind) -> Seq<char> {
    match k {
        ReadlineErrorKind::Io => "io"@,
        ReadlineErrorKind::Eof => "eof"@,
        ReadlineErrorKind::Interrupted => "interrupted"@,
        ReadlineErrorKind::WindowResized => "window_resized"@,
        ReadlineErrorKind::Uncategorized => "uncategorized"@,
    }
}

impl ReadlineErrorKind {
    /// Name of the kind in Lua.
    pub fn kind(&self) -> (r: &'static str)
        ensures
            r@ == readline_kind_name(*self),
    {
        match self {
            ReadlineErrorKind::Io => "io",
            ReadlineErrorKind::Eof => "eof",
            ReadlineErrorKind::Interrupted => "interrupted",
            ReadlineErrorKind::WindowResized => "window_resized",
            ReadlineErrorKind::Uncategorized => "uncategorized",
        }
    }

    /// Name of the error's type in Lua.
    pub fn lua_type() -> (r: &'static str)
        ensures
            r@ == "term.ReadlineError"@,
    {
        "term.ReadlineError"
    }

    /// Message of the error: `term.ReadLineError(kind=<kind>)`.
    pub fn to_string(&self) -> (r: String)
        ensures
            r@ == "term.ReadLineError(kind="@ + readline_kind_name(*self) + ")"@,
    {
        let mut out = String::new();
        append_lit(&mut out, "term.ReadLineError(kind=");
        append_lit(&mut out, self.kind());
        append_lit(&mut out, ")");
        out
    }
}

/// Prompt shown when reading a line: the given one, or `"> "`.
pub fn prompt_or_default(prompt: Option<String>) -> (r: String)
    ensures
        r@ == (match prompt {
            Some(p) => p@,
            None => "> "@,
        }),
{
    match prompt {
        Some(p) => p,
        None => String::from_str("> "),
    }
}

} // verus!
