//! Keys, mouse buttons and colors of the `term` module, and the names Lua
//! programs see for them.
use vstd::prelude::*;

use crate::text::{append_decimal, append_lit, decimal};
use crate::types::{debug_quote, debug_quoted};

verus! {

/// Media keys.
#[derive(Debug, Clone, Copy, PartialEq, Eq, Structural)]
pub enum MediaKeyCode {
    Play,
    Pause,
    PlayPause,
    Reverse,
    Stop,
    FastForward,
    Rewind,
    TrackNext,
    TrackPrevious,
    Record,
    LowerVolume,
    RaiseVolume,
    MuteVolume,
}

/// Name of a media key.
pub open spec fn media_text(m: MediaKeyCode) -> Seq<char> {
    match m {
        MediaKeyCode::Play => "play"@,
        MediaKeyCode::Pause => "pause"@,
        MediaKeyCode::PlayPause => "play_pause"@,
        MediaKeyCode::Reverse => "reverse"@,
        MediaKeyCode::Stop => "stop"@,
        MediaKeyCode::FastForward => "fast_forward"@,
        MediaKeyCode::Rewind => "rewind"@,
        MediaKeyCode::TrackNext => "next_track"@,
        MediaKeyCode::TrackPrevious => "previous_track"@,
        MediaKeyCode::Record => "record"@,
        MediaKeyCode::LowerVolume => "lower_volume"@,
        MediaKeyCode::RaiseVolume => "raise_volume"@,
        MediaKeyCode::MuteVolume => "mute_volume"@,
    }
}

impl MediaKeyCode {
    /// Name of the key ([media_text]).
    pub fn name(&self) -> (r: &'static str)
        ensures
            r@ == media_text(*self),
    {
        match self {
            MediaKeyCode::Play => "play",
            MediaKeyCode::Pause => "pause",
            MediaKeyCode::PlayPause => "play_pause",
            MediaKeyCode::Reverse => "reverse",
            MediaKeyCode::Stop => "stop",
            MediaKeyCode::FastForward => "fast_forward",
            MediaKeyCode::Rewind => "rewind",
            MediaKeyCode::TrackNext => "next_track",
            MediaKeyCode::TrackPrevious => "previous_track",
            MediaKeyCode::Record => "record",
            MediaKeyCode::LowerVolume => "lower_volume",
            MediaKeyCode::RaiseVolume => "raise_volume",
            MediaKeyCode::MuteVolume => "mute_volume",
        }
    }
}

/// Modifier keys.
#[derive(Debug, Clone, Copy, PartialEq, Eq, Structural)]
pub enum ModifierKeyCode {
    LeftShift,
    LeftControl,
    LeftAlt,
    LeftSuper,
    LeftHyper,
    LeftMeta,
    RightShift,
    RightControl,
    RightAlt,
    RightSuper,
    RightHyper,
    RightMeta,
    IsoLevel3Shift,
    IsoLevel5Shift,
}

/// Name of a modifier key.
pub open spec fn modifier_key_text(m: ModifierKeyCode) -> Seq<char> {
    match m {
        ModifierKeyCode::LeftShift => "left_shift"@,
        ModifierKeyCode::LeftHyper => "left_hyper"@,
        ModifierKeyCode::LeftMeta => "left_meta"@,
        ModifierKeyCode::RightShift => "right_shift"@,
        ModifierKeyCode::RightHyper => "right_hyper"@,
        ModifierKeyCode::RightMeta => "right_meta"@,
        ModifierKeyCode::IsoLevel3Shift => "iso_level_3_shift"@,
        ModifierKeyCode::IsoLevel5Shift => "iso_level_5_shift"@,
        ModifierKeyCode::LeftControl => "left_ctrl"@,
        ModifierKeyCode::LeftAlt => "left_alt"@,
        ModifierKeyCode::LeftSuper => "left_suprt"@,
        ModifierKeyCode::RightControl => "right_ctrl"@,
        ModifierKeyCode::RightAlt => "right_alt"@,
        ModifierKeyCode::RightSuper => "right_super"@,
    }
}

impl ModifierKeyCode {
    /// Name of the key ([modifier_key_text]).
    pub fn name(&self) -> (r: &'static str)
        ensures
            r@ == modifier_key_text(*self),
    {
        match self {
            ModifierKeyCode::LeftShift => "left_shift",
            ModifierKeyCode::LeftHyper => "left_hyper",
            ModifierKeyCode::LeftMeta => "left_meta",
            ModifierKeyCode::RightShift => "right_shift",
            ModifierKeyCode::RightHyper => "right_hyper",
            ModifierKeyCode::RightMeta => "right_meta",
            ModifierKeyCode::IsoLevel3Shift => "iso_level_3_shift",
            ModifierKeyCode::IsoLevel5Shift => "iso_level_5_shift",
            ModifierKeyCode::LeftControl => "left_ctrl",
            ModifierKeyCode::LeftAlt => "left_alt",
            ModifierKeyCode::LeftSuper => "left_suprt",
            ModifierKeyCode::RightControl => "right_ctrl",
            ModifierKeyCode::RightAlt => "right_alt",
            ModifierKeyCode::RightSuper => "right_super",
        }
    }
}

/// Keys of a keyboard event.
#[derive(Debug, Clone, Copy, PartialEq, Eq, Structural)]
pub enum KeyCode {
    Backspace,
    Enter,
    Left,
    Right,
    Up,
    Down,
    Home,
    End,
    PageUp,
    PageDown,
    Tab,
    BackTab,
    Delete,
    Insert,
    F(u8),
    Char(char),
    Null,
    Esc,
    CapsLock,
    ScrollLock,
    NumLock,
    PrintScreen,
    Pause,
    Menu,
    KeypadBegin,
    Media(MediaKeyCode),
    Modifier(ModifierKeyCode),
}

/// Name of a key: function keys `F1`..., characters themselves, media keys
/// by their names.
pub open spec fn key_text(k: KeyCode) -> Seq<char> {
    match k {
        KeyCode::Backspace => "Backspace"@,
        KeyCode::Enter => "Enter"@,
        KeyCode::Left => "Left"@,
        KeyCode::Right => "Right"@,
        KeyCode::Up => "Up"@,
        KeyCode::Down => "Down"@,
        KeyCode::Home => "Home"@,
        KeyCode::End => "End"@,
        KeyCode::PageUp => "PageUp"@,
        KeyCode::PageDown => "PageDown"@,
        KeyCode::Tab => "Tab"@,
        KeyCode::BackTab => "BackTab"@,
        KeyCode::Delete => "Delete"@,
        KeyCode::Insert => "Insert"@,
        KeyCode::F(n) => "F"@ + decimal(n as nat),
        KeyCode::Char(c) => seq![c],
        KeyCode::Null => "Null"@,
        KeyCode::Esc => "Esc"@,
        KeyCode::CapsLock => "CapsLock"@,
        KeyCode::ScrollLock => "ScrollLock"@,
        KeyCode::NumLock => "NumLock"@,
        KeyCode::PrintScreen => "PrintScreen"@,
        KeyCode::Pause => "Pause"@,
        KeyCode::Menu => "Menu"@,
        KeyCode::KeypadBegin => "KeypadBegin"@,
        KeyCode::Media(m) => media_text(m),
        KeyCode::Modifier(_) => "Modifier"@,
    }
}

/// Text of a character, as `char::to_string` in std writes it: the string
/// of that one character.
#[verifier::external_body]
fn char_string(c: char) -> (r: String)
    ensures
        r@ == seq![c],
{
    c.to_string()
}

/// Name of a fixed key.
fn fixed_key_name(k: KeyCode) -> (r: &'static str)
    requires
        !(k is F),
        !(k is Char),
        !(k is Media),
    ensures
        r@ == key_text(k),
{
    match k {
        KeyCode::Backspace => "Backspace",
        KeyCode::Enter => "Enter",
        KeyCode::Left => "Left",
        KeyCode::Right => "Right",
        KeyCode::Up => "Up",
        KeyCode::Down => "Down",
        KeyCode::Home => "Home",
        KeyCode::End => "End",
        KeyCode::PageUp => "PageUp",
        KeyCode::PageDown => "PageDown",
        KeyCode::Tab => "Tab",
        KeyCode::BackTab => "BackTab",
        KeyCode::Delete => "Delete",
        KeyCode::Insert => "Insert",
        KeyCode::Null => "Null",
        KeyCode::Esc => "Esc",
        KeyCode::CapsLock => "CapsLock",
        KeyCode::ScrollLock => "ScrollLock",
        KeyCode::NumLock => "NumLock",
        KeyCode::PrintScreen => "PrintScreen",
        KeyCode::Pause => "Pause",
        KeyCode::Menu => "Menu",
        KeyCode::KeypadBegin => "KeypadBegin",
        _ => "Modifier",
    }
}

/// A key as Lua programs see it.
#[derive(Debug)]
pub struct LuaKeyCode(pub KeyCode);

impl LuaKeyCode {
    /// Standard name of the key ([key_text]).
    pub fn to_string(&self) -> (r: String)
        ensures
            r@ == key_text(self.0),
    {
        match self.0 {
            KeyCode::F(n) => {
                proof {
                    reveal_strlit("F");
                }
                let mut out = String::new();
                append_lit(&mut out, "F");
                append_decimal(&mut out, n as u128);
                out
            },
            KeyCode::Char(c) => char_string(c),
            KeyCode::Media(m) => {
                let mut out = String::new();
                append_lit(&mut out, m.name());
                out
            },
            k => {
                let mut out = String::new();
                append_lit(&mut out, fixed_key_name(k));
                out
            },
        }
    }
}

/// Modifiers held during an event.
#[derive(Debug, Clone, Copy, PartialEq, Eq, Structural)]
pub struct KeyModifiers {
    pub shift: bool,
    pub control: bool,
    pub alt: bool,
    pub super_key: bool,
    pub hyper: bool,
    pub meta: bool,
}

/// `name` when `held`, nothing otherwise.
pub open spec fn text_if(held: bool, name: Seq<char>) -> Seq<char> {
    if held {
        name
    } else {
        seq![]
    }
}

/// Names of the held modifiers, in the order shift, ctrl, alt, super,
/// hyper, meta, written one after the other.
pub open spec fn modifiers_text(m: KeyModifiers) -> Seq<char> {
    text_if(m.shift, "shift"@) + text_if(m.control, "ctrl"@) + text_if(m.alt, "alt"@) + text_if(
        m.super_key,
        "super"@,
    ) + text_if(m.hyper, "hyper"@) + text_if(m.meta, "meta"@)
}

/// Appends `name` to `out` when `held`.
fn append_if(out: &mut String, held: bool, name: &str)
    ensures
        final(out)@ == old(out)@ + text_if(held, name@),
{
    if held {
        append_lit(out, name);
    } else {
        assert(old(out)@ + text_if(held, name@) =~= old(out)@);
    }
}

/// Held modifiers as Lua programs see them.
#[derive(Debug)]
pub struct LuaKeyModifiers(pub KeyModifiers);

impl LuaKeyModifiers {
    /// Standard text of the modifiers ([modifiers_text]).
    pub fn to_string(&self) -> (r: String)
        ensures
            r@ == modifiers_text(self.0),
    {
        let m = self.0;
        let mut out = String::new();
        append_if(&mut out, m.shift, "shift");
        append_if(&mut out, m.control, "ctrl");
        append_if(&mut out, m.alt, "alt");
        append_if(&mut out, m.super_key, "super");
        append_if(&mut out, m.hyper, "hyper");
        append_if(&mut out, m.meta, "meta");
        assert(out@ =~= modifiers_text(m));
        out
    }
}

/// Kinds of keyboard events.
#[derive(Debug, Clone, Copy, PartialEq, Eq, Structural)]
pub enum KeyEventKind {
    Press,
    Repeat,
    Release,
}

/// Name of a kind of keyboard event.
pub open spec fn key_event_kind_text(k: KeyEventKind) -> Seq<char> {
    match k {
        KeyEventKind::Press => "press"@,
        KeyEventKind::Repeat => "repeat"@,
        KeyEventKind::Release => "release"@,
    }
}

impl KeyEventKind {
    /// Name of the kind ([key_event_kind_text]).
    pub fn name(&self) -> (r: &'static str)
        ensures
            r@ == key_event_kind_text(*self),
    {
        match self {
            KeyEventKind::Press => "press",
            KeyEventKind::Repeat => "repeat",
            KeyEventKind::Release => "release",
        }
    }
}

/// State flags of a keyboard event.
#[derive(Debug, Clone, Copy, PartialEq, Eq, Structural)]
pub struct KeyEventState {
    pub keypad: bool,
    pub caps_lock: bool,
    pub num_lock: bool,
}

/// Mouse buttons.
#[derive(Debug, Clone, Copy, PartialEq, Eq, Structural)]
pub enum MouseButton {
    Left,
    Right,
    Middle,
}

/// Name of a mouse button.
pub open spec fn mouse_button_text(b: MouseButton) -> Seq<char> {
    match b {
        MouseButton::Left => "left"@,
        MouseButton::Right => "right"@,
        MouseButton::Middle => "middle"@,
    }
}

impl MouseButton {
    /// Name of the button ([mouse_button_text]).
    pub fn name(&self) -> (r: &'static str)
        ensures
            r@ == mouse_button_text(*self),
    {
        match self {
            MouseButton::Left => "left",
            MouseButton::Right => "right",
            MouseButton::Middle => "middle",
        }
    }
}

/// Kinds of mouse events.
#[derive(Debug, Clone, Copy, PartialEq, Eq, Structural)]
pub enum MouseEventKind {
    Down(MouseButton),
    Up(MouseButton),
    Drag(MouseButton),
    Moved,
    ScrollDown,
    ScrollUp,
    ScrollLeft,
    ScrollRight,
}

/// Name of a kind of mouse event.
pub open spec fn mouse_event_kind_text(k: MouseEventKind) -> Seq<char> {
    match k {
        MouseEventKind::Down(_) => "down"@,
        MouseEventKind::Up(_) => "up"@,
        MouseEventKind::Drag(_) => "drag"@,
        MouseEventKind::Moved => "moved"@,
        MouseEventKind::ScrollDown => "scroll_down"@,
        MouseEventKind::ScrollUp => "scroll_up"@,
        MouseEventKind::ScrollLeft => "scroll_left"@,
        MouseEventKind::ScrollRight => "scroll_right"@,
    }
}

impl MouseEventKind {
    /// Name of the kind ([mouse_event_kind_text]).
    pub fn name(&self) -> (r: &'static str)
        ensures
            r@ == mouse_event_kind_text(*self),
    {
        match self {
            MouseEventKind::Down(_) => "down",
            MouseEventKind::Up(_) => "up",
            MouseEventKind::Drag(_) => "drag",
            MouseEventKind::Moved => "moved",
            MouseEventKind::ScrollDown => "scroll_down",
            MouseEventKind::ScrollUp => "scroll_up",
            MouseEventKind::ScrollLeft => "scroll_left",
            MouseEventKind::ScrollRight => "scroll_right",
        }
    }

    /// Button pressed, released or dragged, if the event is about one.
    pub fn button(&self) -> (r: Option<MouseButton>)
        ensures
            r == (match *self {
                MouseEventKind::Down(b) => Some(b),
                MouseEventKind::Up(b) => Some(b),
                MouseEventKind::Drag(b) => Some(b),
                _ => None,
            }),
    {
        match self {
            MouseEventKind::Down(b) => Some(*b),
            MouseEventKind::Up(b) => Some(*b),
            MouseEventKind::Drag(b) => Some(*b),
            _ => None,
        }
    }
}

/// Terminal colors.
#[derive(Debug, Clone, Copy, PartialEq, Eq, Structural)]
pub enum Color {
    Reset,
    Black,
    DarkGrey,
    Red,
    DarkRed,
    Green,
    DarkGreen,
    Yellow,
    DarkYellow,
    Blue,
    DarkBlue,
    Magenta,
    DarkMagenta,
    Cyan,
    DarkCyan,
    White,
    Grey,
    Rgb { r: u8, g: u8, b: u8 },
    AnsiValue(u8),
}

/// Color named `name`, if it is one of the named colors.
pub open spec fn color_named(name: Seq<char>) -> Option<Color> {
    if name == "reset"@ {
        Some(Color::Reset)
    } else if name == "black"@ {
        Some(Color::Black)
    } else if name == "dark_grey"@ {
        Some(Color::DarkGrey)
    } else if name == "red"@ {
        Some(Color::Red)
    } else if name == "dark_red"@ {
        Some(Color::DarkRed)
    } else if name == "green"@ {
        Some(Color::Green)
    } else if name == "dark_green"@ {
        Some(Color::DarkGreen)
    } else if name == "yellow"@ {
        Some(Color::Yellow)
    } else if name == "dark_yellow"@ {
        Some(Color::DarkYellow)
    } else if name == "blue"@ {
        Some(Color::Blue)
    } else if name == "dark_blue"@ {
        Some(Color::DarkBlue)
    } else if name == "magenta"@ {
        Some(Color::Magenta)
    } else if name == "dark_magenta"@ {
        Some(Color::DarkMagenta)
    } else if name == "cyan"@ {
        Some(Color::Cyan)
    } else if name == "dark_cyan"@ {
        Some(Color::DarkCyan)
    } else if name == "white"@ {
        Some(Color::White)
    } else if name == "grey"@ {
        Some(Color::Grey)
    } else {
        None
    }
}

/// A terminal color as Lua programs give it.
#[derive(Debug)]
pub struct LuaColor(pub Color);

impl LuaColor {
    /// Color of the number `rgb` written `0xRRGGBB`; higher bits are
    /// ignored.
    pub fn from_rgb(rgb: u32) -> (r: LuaColor)
        ensures
            r.0 == (Color::Rgb {
                r: ((rgb / 0x10000) % 0x100) as u8,
                g: ((rgb / 0x100) % 0x100) as u8,
                b: (rgb % 0x100) as u8,
            }),
    {
        let r = (rgb >> 16 & 0xFF) as u8;
        let g = (rgb >> 8 & 0xFF) as u8;
        let b = (rgb & 0xFF) as u8;
        assert(rgb >> 16 & 0xFF == (rgb / 0x10000) % 0x100) by (bit_vector);
        assert(rgb >> 8 & 0xFF == (rgb / 0x100) % 0x100) by (bit_vector);
        assert(rgb & 0xFF == rgb % 0x100) by (bit_vector);
        LuaColor(Color::Rgb { r, g, b })
    }

    /// Color named `name` ([color_named]); otherwise the error message: the
    /// quoted name and ` is not a valid hex color`.
    pub fn from_name(name: &String) -> (r: Result<LuaColor, String>)
        ensures
            match color_named(name@) {
                Some(c) => r matches Ok(lc) && lc.0 == c,
                None => r matches Err(msg) && msg@ == debug_quoted(name@)
                    + " is not a valid hex color"@,
            },
    {
        let names: [&str; 17] = [
            "reset",
            "black",
            "dark_grey",
            "red",
            "dark_red",
            "green",
            "dark_green",
            "yellow",
            "dark_yellow",
            "blue",
            "dark_blue",
            "magenta",
            "dark_magenta",
            "cyan",
            "dark_cyan",
            "white",
            "grey",
        ];
        let colors: [Color; 17] = [
            Color::Reset,
            Color::Black,
            Color::DarkGrey,
            Color::Red,
            Color::DarkRed,
            Color::Green,
            Color::DarkGreen,
            Color::Yellow,
            Color::DarkYellow,
            Color::Blue,
            Color::DarkBlue,
            Color::Magenta,
            Color::DarkMagenta,
            Color::Cyan,
            Color::DarkCyan,
            Color::White,
            Color::Grey,
        ];
        let mut i: usize = 0;
        while i < 17
            invariant
                i <= 17,
                names@ == seq![
                    "reset", "black", "dark_grey", "red", "dark_red", "green", "dark_green",
                    "yellow", "dark_yellow", "blue", "dark_blue", "magenta", "dark_magenta",
                    "cyan", "dark_cyan", "white", "grey",
                ],
                colors@ == seq![
                    Color::Reset, Color::Black, Color::DarkGrey, Color::Red, Color::DarkRed,
                    Color::Green, Color::DarkGreen, Color::Yellow, Color::DarkYellow,
                    Color::Blue, Color::DarkBlue, Color::Magenta, Color::DarkMagenta,
                    Color::Cyan, Color::DarkCyan, Color::White, Color::Grey,
                ],
                forall|j: int| 0 <= j < i ==> name@ != (#[trigger] names@[j])@,
            decreases 17 - i,
        {
            let candidate = names[i].to_owned();
            if name.eq(&candidate) {
                return Ok(LuaColor(colors[i]));
            }
            i += 1;
        }
        Err(invalid_color_message(debug_quote(name)))
    }
}

/// Message refusing a color name whose quoted form is `quoted`.
pub fn invalid_color_message(quoted: String) -> (r: String)
    ensures
        r@ == quoted@ + " is not a valid hex color"@,
{
    let mut msg = quoted;
    append_lit(&mut msg, " is not a valid hex color");
    msg
}

/// Name of a named color in Lua: the color's name in snake case
/// (`DarkRed` is `dark_red`); RGB and ANSI colors have none.
pub open spec fn color_lua_name(c: Color) -> Option<Seq<char>> {
    match c {
        Color::Reset => Some("reset"@),
        Color::Black => Some("black"@),
        Color::DarkGrey => Some("dark_grey"@),
        Color::Red => Some("red"@),
        Color::DarkRed => Some("dark_red"@),
        Color::Green => Some("green"@),
        Color::DarkGreen => Some("dark_green"@),
        Color::Yellow => Some("yellow"@),
        Color::DarkYellow => Some("dark_yellow"@),
        Color::Blue => Some("blue"@),
        Color::DarkBlue => Some("dark_blue"@),
        Color::Magenta => Some("magenta"@),
        Color::DarkMagenta => Some("dark_magenta"@),
        Color::Cyan => Some("cyan"@),
        Color::DarkCyan => Some("dark_cyan"@),
        Color::White => Some("white"@),
        Color::Grey => Some("grey"@),
        Color::Rgb { .. } => None,
        Color::AnsiValue(_) => None,
    }
}

/// A name gives a color exactly when it is that color's snake-case name:
/// each of the named colors is found under its own name and under no
/// other, and distinct names give distinct colors.
pub proof fn law_color_names(name: Seq<char>, other: Seq<char>, c: Color)
    ensures
        color_named(name) == Some(c) <==> color_lua_name(c) == Some(name),
        color_named(name) is Some && color_named(name) == color_named(other) ==> name == other,
{
    reveal_strlit("reset");
    reveal_strlit("black");
    reveal_strlit("dark_grey");
    reveal_strlit("red");
    reveal_strlit("dark_red");
    reveal_strlit("green");
    reveal_strlit("dark_green");
    reveal_strlit("yellow");
    reveal_strlit("dark_yellow");
    reveal_strlit("blue");
    reveal_strlit("dark_blue");
    reveal_strlit("magenta");
    reveal_strlit("dark_magenta");
    reveal_strlit("cyan");
    reveal_strlit("dark_cyan");
    reveal_strlit("white");
    reveal_strlit("grey");
    match c {
        Color::Reset => {
            assert(color_named("reset"@) == Some(Color::Reset));
        },
        Color::Black => {
            assert("black"@[0] != "reset"@[0]);
            assert(color_named("black"@) == Some(Color::Black));
        },
        Color::DarkGrey => {
            assert("dark_grey"@.len() != "reset"@.len());
            assert("dark_grey"@.len() != "black"@.len());
            assert(color_named("dark_grey"@) == Some(Color::DarkGrey));
        },
        Color::Red => {
            assert("red"@.len() != "reset"@.len());
            assert("red"@.len() != "black"@.len());
            assert("red"@.len() != "dark_grey"@.len());
            assert(color_named("red"@) == Some(Color::Red));
        },
        Color::DarkRed => {
            assert("dark_red"@.len() != "reset"@.len());
            assert("dark_red"@.len() != "black"@.len());
            assert("dark_red"@.len() != "dark_grey"@.len());
            assert("dark_red"@.len() != "red"@.len());
            assert(color_named("dark_red"@) == Some(Color::DarkRed));
        },
        Color::Green => {
            assert("green"@[0] != "reset"@[0]);
            assert("green"@[0] != "black"@[0]);
            assert("green"@.len() != "dark_grey"@.len());
            assert("green"@.len() != "red"@.len());
            assert("green"@.len() != "dark_red"@.len());
            assert(color_named("green"@) == Some(Color::Green));
        },
        Color::DarkGreen => {
            assert("dark_green"@.len() != "reset"@.len());
            assert("dark_green"@.len() != "black"@.len());
            assert("dark_green"@.len() != "dark_grey"@.len());
            assert("dark_green"@.len() != "red"@.len());
            assert("dark_green"@.len() != "dark_red"@.len());
            assert("dark_green"@.len() != "green"@.len());
            assert(color_named("dark_green"@) == Some(Color::DarkGreen));
        },
        Color::Yellow => {
            assert("yellow"@.len() != "reset"@.len());
            assert("yellow"@.len() != "black"@.len());
            assert("yellow"@.len() != "dark_grey"@.len());
            assert("yellow"@.len() != "red"@.len());
            assert("yellow"@.len() != "dark_red"@.len());
            assert("yellow"@.len() != "green"@.len());
            assert("yellow"@.len() != "dark_green"@.len());
            assert(color_named("yellow"@) == Some(Color::Yellow));
        },
        Color::DarkYellow => {
            assert("dark_yellow"@.len() != "reset"@.len());
            assert("dark_yellow"@.len() != "black"@.len());
            assert("dark_yellow"@.len() != "dark_grey"@.len());
            assert("dark_yellow"@.len() != "red"@.len());
            assert("dark_yellow"@.len() != "dark_red"@.len());
            assert("dark_yellow"@.len() != "green"@.len());
            assert("dark_yellow"@.len() != "dark_green"@.len());
            assert("dark_yellow"@.len() != "yellow"@.len());
            assert(color_named("dark_yellow"@) == Some(Color::DarkYellow));
        },
        Color::Blue => {
            assert("blue"@.len() != "reset"@.len());
            assert("blue"@.len() != "black"@.len());
            assert("blue"@.len() != "dark_grey"@.len());
            assert("blue"@.len() != "red"@.len());
            assert("blue"@.len() != "dark_red"@.len());
            assert("blue"@.len() != "green"@.len());
            assert("blue"@.len() != "dark_green"@.len());
            assert("blue"@.len() != "yellow"@.len());
            assert("blue"@.len() != "dark_yellow"@.len());
            assert(color_named("blue"@) == Some(Color::Blue));
        },
        Color::DarkBlue => {
            assert("dark_blue"@.len() != "reset"@.len());
            assert("dark_blue"@.len() != "black"@.len());
            assert("dark_blue"@[5] != "dark_grey"@[5]);
            assert("dark_blue"@.len() != "red"@.len());
            assert("dark_blue"@.len() != "dark_red"@.len());
            assert("dark_blue"@.len() != "green"@.len());
            assert("dark_blue"@.len() != "dark_green"@.len());
            assert("dark_blue"@.len() != "yellow"@.len());
            assert("dark_blue"@.len() != "dark_yellow"@.len());
            assert("dark_blue"@.len() != "blue"@.len());
            assert(color_named("dark_blue"@) == Some(Color::DarkBlue));
        },
        Color::Magenta => {
            assert("magenta"@.len() != "reset"@.len());
            assert("magenta"@.len() != "black"@.len());
            assert("magenta"@.len() != "dark_grey"@.len());
            assert("magenta"@.len() != "red"@.len());
            assert("magenta"@.len() != "dark_red"@.len());
            assert("magenta"@.len() != "green"@.len());
            assert("magenta"@.len() != "dark_green"@.len());
            assert("magenta"@.len() != "yellow"@.len());
            assert("magenta"@.len() != "dark_yellow"@.len());
            assert("magenta"@.len() != "blue"@.len());
            assert("magenta"@.len() != "dark_blue"@.len());
            assert(color_named("magenta"@) == Some(Color::Magenta));
        },
        Color::DarkMagenta => {
            assert("dark_magenta"@.len() != "reset"@.len());
            assert("dark_magenta"@.len() != "black"@.len());
            assert("dark_magenta"@.len() != "dark_grey"@.len());
            assert("dark_magenta"@.len() != "red"@.len());
            assert("dark_magenta"@.len() != "dark_red"@.len());
            assert("dark_magenta"@.len() != "green"@.len());
            assert("dark_magenta"@.len() != "dark_green"@.len());
            assert("dark_magenta"@.len() != "yellow"@.len());
            assert("dark_magenta"@.len() != "dark_yellow"@.len());
            assert("dark_magenta"@.len() != "blue"@.len());
            assert("dark_magenta"@.len() != "dark_blue"@.len());
            assert("dark_magenta"@.len() != "magenta"@.len());
            assert(color_named("dark_magenta"@) == Some(Color::DarkMagenta));
        },
        Color::Cyan => {
            assert("cyan"@.len() != "reset"@.len());
            assert("cyan"@.len() != "black"@.len());
            assert("cyan"@.len() != "dark_grey"@.len());
            assert("cyan"@.len() != "red"@.len());
            assert("cyan"@.len() != "dark_red"@.len());
            assert("cyan"@.len() != "green"@.len());
            assert("cyan"@.len() != "dark_green"@.len());
            assert("cyan"@.len() != "yellow"@.len());
            assert("cyan"@.len() != "dark_yellow"@.len());
            assert("cyan"@[0] != "blue"@[0]);
            assert("cyan"@.len() != "dark_blue"@.len());
            assert("cyan"@.len() != "magenta"@.len());
            assert("cyan"@.len() != "dark_magenta"@.len());
            assert(color_named("cyan"@) == Some(Color::Cyan));
        },
        Color::DarkCyan => {
            assert("dark_cyan"@.len() != "reset"@.len());
            assert("dark_cyan"@.len() != "black"@.len());
            assert("dark_cyan"@[5] != "dark_grey"@[5]);
            assert("dark_cyan"@.len() != "red"@.len());
            assert("dark_cyan"@.len() != "dark_red"@.len());
            assert("dark_cyan"@.len() != "green"@.len());
            assert("dark_cyan"@.len() != "dark_green"@.len());
            assert("dark_cyan"@.len() != "yellow"@.len());
            assert("dark_cyan"@.len() != "dark_yellow"@.len());
            assert("dark_cyan"@.len() != "blue"@.len());
            assert("dark_cyan"@[5] != "dark_blue"@[5]);
            assert("dark_cyan"@.len() != "magenta"@.len());
            assert("dark_cyan"@.len() != "dark_magenta"@.len());
            assert("dark_cyan"@.len() != "cyan"@.len());
            assert(color_named("dark_cyan"@) == Some(Color::DarkCyan));
        },
        Color::White => {
            assert("white"@[0] != "reset"@[0]);
            assert("white"@[0] != "black"@[0]);
            assert("white"@.len() != "dark_grey"@.len());
            assert("white"@.len() != "red"@.len());
            assert("white"@.len() != "dark_red"@.len());
            assert("white"@[0] != "green"@[0]);
            assert("white"@.len() != "dark_green"@.len());
            assert("white"@.len() != "yellow"@.len());
            assert("white"@.len() != "dark_yellow"@.len());
            assert("white"@.len() != "blue"@.len());
            assert("white"@.len() != "dark_blue"@.len());
            assert("white"@.len() != "magenta"@.len());
            assert("white"@.len() != "dark_magenta"@.len());
            assert("white"@.len() != "cyan"@.len());
            assert("white"@.len() != "dark_cyan"@.len());
            assert(color_named("white"@) == Some(Color::White));
        },
        Color::Grey => {
            assert("grey"@.len() != "reset"@.len());
            assert("grey"@.len() != "black"@.len());
            assert("grey"@.len() != "dark_grey"@.len());
            assert("grey"@.len() != "red"@.len());
            assert("grey"@.len() != "dark_red"@.len());
            assert("grey"@.len() != "green"@.len());
            assert("grey"@.len() != "dark_green"@.len());
            assert("grey"@.len() != "yellow"@.len());
            assert("grey"@.len() != "dark_yellow"@.len());
            assert("grey"@[0] != "blue"@[0]);
            assert("grey"@.len() != "dark_blue"@.len());
            assert("grey"@.len() != "magenta"@.len());
            assert("grey"@.len() != "dark_magenta"@.len());
            assert("grey"@[0] != "cyan"@[0]);
            assert("grey"@.len() != "dark_cyan"@.len());
            assert("grey"@.len() != "white"@.len());
            assert(color_named("grey"@) == Some(Color::Grey));
        },
        _ => {},
    }
}

} // verus!
