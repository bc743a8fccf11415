//! Terminal commands queued by `term.Queue`: which command each method of
//! the queue emits, with its defaults and its 1-based positions.
use vstd::prelude::*;

use crate::keys::Color;

verus! {

/// Part of the screen that a clear command erases.
#[derive(Debug, Clone, Copy, PartialEq, Eq, Structural)]
pub enum ClearType {
    All,
    Purge,
    FromCursorDown,
    FromCursorUp,
    CurrentLine,
    UntilNewLine,
}

/// Shape of the cursor.
#[derive(Debug, Clone, Copy, PartialEq, Eq, Structural)]
pub enum CursorStyle {
    DefaultUserShape,
    BlinkingBlock,
    SteadyBlock,
    BlinkingUnderScore,
    SteadyUnderScore,
    BlinkingBar,
    SteadyBar,
}

/// Text attribute set by a style command.
#[derive(Debug, Clone, Copy, PartialEq, Eq, Structural)]
pub enum Attribute {
    Reset,
    Bold,
    Dim,
    Italic,
    Underlined,
    SlowBlink,
    RapidBlink,
    Reverse,
    Hidden,
    NoBold,
    NormalIntensity,
    NoItalic,
    NoUnderline,
    NoBlink,
    NoReverse,
    NoHidden,
}

/// Keyboard enhancement flags pushed to the terminal.
#[derive(Debug, Clone, Copy, PartialEq, Eq, Structural)]
pub struct EnhancementFlags {
    pub disambiguate_escape_codes: bool,
    pub report_event_types: bool,
    pub report_alternate_keys: bool,
    pub report_all_keys_as_escape_codes: bool,
}

impl EnhancementFlags {
    /// Flags read from a table of optional booleans: a flag is set exactly
    /// when its entry is `true`.
    pub fn from_options(
        report_event_kind: Option<bool>,
        disambiguate_escape_codes: Option<bool>,
        report_alternate_keys: Option<bool>,
        report_all_keys_as_escape_codes: Option<bool>,
    ) -> (flags: Self)
        ensures
            flags.report_event_types == (report_event_kind == Some(true)),
            flags.disambiguate_escape_codes == (disambiguate_escape_codes == Some(true)),
            flags.report_alternate_keys == (report_alternate_keys == Some(true)),
            flags.report_all_keys_as_escape_codes == (report_all_keys_as_escape_codes == Some(
                true,
            )),
    {
        EnhancementFlags {
            disambiguate_escape_codes: is_true(disambiguate_escape_codes),
            report_event_types: is_true(report_event_kind),
            report_alternate_keys: is_true(report_alternate_keys),
            report_all_keys_as_escape_codes: is_true(report_all_keys_as_escape_codes),
        }
    }
}

/// A command written to the terminal.
#[derive(Debug, Clone, PartialEq, Eq)]
pub enum TermCommand {
    BeginSynchronizedUpdate,
    EndSynchronizedUpdate,
    EnableLineWrap,
    DisableLineWrap,
    EnterAlternateScreen,
    LeaveAlternateScreen,
    ScrollDown(u16),
    ScrollUp(u16),
    SetSize(u16, u16),
    SetTitle(String),
    Clear(ClearType),
    MoveTo(u16, u16),
    MoveDown(u16),
    MoveLeft(u16),
    MoveRight(u16),
    MoveToNextLine(u16),
    MoveToPreviousLine(u16),
    MoveToRow(u16),
    MoveToColumn(u16),
    SavePosition,
    RestorePosition,
    SetCursorStyle(CursorStyle),
    EnableBlinking,
    DisableBlinking,
    Show,
    Hide,
    SetForegroundColor(Color),
    SetBackgroundColor(Color),
    SetAttribute(Attribute),
    PushKeyboardEnhancementFlags(EnhancementFlags),
    PopKeyboardEnhancementFlags,
    Print(String),
}

/// A call of a method of `term.Queue` that queues one command, with its
/// arguments as the script passed them.
#[derive(Debug, Clone, PartialEq, Eq)]
pub enum QueueCall {
    BeginSync,
    EndSync,
    LineWrap(Option<bool>),
    AltScreen,
    MainScreen,
    ScrollDown(Option<u16>),
    ScrollUp(Option<u16>),
    Size(u16, u16),
    Title(String),
    Purge,
    Clear,
    ClearLine,
    ClearUntilNewLine,
    ClearCursorUp,
    ClearCursorDown,
    CursorTo(u16, u16),
    CursorDown(Option<u16>),
    CursorLeft(Option<u16>),
    CursorRight(Option<u16>),
    /// `cursor_up(n)`, which moves the cursor `n` columns to the right, as
    /// the runtime's queue has always done.
    CursorUp(Option<u16>),
    CursorNextLine(Option<u16>),
    CursorPrevLine(Option<u16>),
    CursorRow(Option<u16>),
    CursorCol(Option<u16>),
    CursorSavePosition,
    CursorRestorePosition,
    CursorDefault,
    CursorBar(Option<bool>),
    CursorBlock(Option<bool>),
    CursorUnderscore(Option<bool>),
    CursorBlinking(Option<bool>),
    CursorVisible(Option<bool>),
    Foreground(Color),
    Background(Color),
    Reset,
    Bold(Option<bool>),
    Dim(Option<bool>),
    Italic(Option<bool>),
    Underline(Option<bool>),
    SlowBlink(Option<bool>),
    RapidBlink(Option<bool>),
    Reverse(Option<bool>),
    Hidden(Option<bool>),
    PushKeyboardEnhancement(EnhancementFlags),
    PopKeyboardEnhancement,
    Write(String),
}

/// A count argument: one when omitted.
pub open spec fn count_or_one(n: Option<u16>) -> u16 {
    match n {
        Some(v) => v,
        None => 1,
    }
}

/// Zero-based position of a 1-based one; position 0 stays 0.
pub open spec fn zero_based(n: u16) -> u16 {
    if n == 0 {
        0
    } else {
        (n - 1) as u16
    }
}

/// An on/off switch that is on unless it is explicitly `false`.
pub open spec fn on_unless_false(b: Option<bool>) -> bool {
    b != Some(false)
}

/// Attribute `on` when the switch is on, `off` otherwise.
pub open spec fn switch(b: Option<bool>, on: Attribute, off: Attribute) -> Attribute {
    if on_unless_false(b) {
        on
    } else {
        off
    }
}

/// Cursor style `blinking` when asked to blink, `steady` otherwise.
pub open spec fn blink_style(b: Option<bool>, blinking: CursorStyle, steady: CursorStyle) -> CursorStyle {
    if b == Some(true) {
        blinking
    } else {
        steady
    }
}

/// The command that a call of a queue's method emits.
pub open spec fn command_of(call: QueueCall) -> TermCommand {
    match call {
        QueueCall::BeginSync => TermCommand::BeginSynchronizedUpdate,
        QueueCall::EndSync => TermCommand::EndSynchronizedUpdate,
        QueueCall::LineWrap(b) => if on_unless_false(b) {
            TermCommand::EnableLineWrap
        } else {
            TermCommand::DisableLineWrap
        },
        QueueCall::AltScreen => TermCommand::EnterAlternateScreen,
        QueueCall::MainScreen => TermCommand::LeaveAlternateScreen,
        QueueCall::ScrollDown(n) => TermCommand::ScrollDown(count_or_one(n)),
        QueueCall::ScrollUp(n) => TermCommand::ScrollUp(count_or_one(n)),
        QueueCall::Size(cols, rows) => TermCommand::SetSize(cols, rows),
        QueueCall::Title(t) => TermCommand::SetTitle(t),
        QueueCall::Purge => TermCommand::Clear(ClearType::Purge),
        QueueCall::Clear => TermCommand::Clear(ClearType::All),
        QueueCall::ClearLine => TermCommand::Clear(ClearType::CurrentLine),
        QueueCall::ClearUntilNewLine => TermCommand::Clear(ClearType::UntilNewLine),
        QueueCall::ClearCursorUp => TermCommand::Clear(ClearType::FromCursorUp),
        QueueCall::ClearCursorDown => TermCommand::Clear(ClearType::FromCursorDown),
        QueueCall::CursorTo(col, row) => TermCommand::MoveTo(zero_based(col), zero_based(row)),
        QueueCall::CursorDown(n) => TermCommand::MoveDown(count_or_one(n)),
        QueueCall::CursorLeft(n) => TermCommand::MoveLeft(count_or_one(n)),
        QueueCall::CursorRight(n) => TermCommand::MoveRight(count_or_one(n)),
        // `cursor_up` moves the cursor right.
        QueueCall::CursorUp(n) => TermCommand::MoveRight(count_or_one(n)),
        QueueCall::CursorNextLine(n) => TermCommand::MoveToNextLine(count_or_one(n)),
        QueueCall::CursorPrevLine(n) => TermCommand::MoveToPreviousLine(count_or_one(n)),
        QueueCall::CursorRow(n) => TermCommand::MoveToRow(zero_based(count_or_one(n))),
        QueueCall::CursorCol(n) => TermCommand::MoveToColumn(zero_based(count_or_one(n))),
        QueueCall::CursorSavePosition => TermCommand::SavePosition,
        QueueCall::CursorRestorePosition => TermCommand::RestorePosition,
        QueueCall::CursorDefault => TermCommand::SetCursorStyle(CursorStyle::DefaultUserShape),
        QueueCall::CursorBar(b) => TermCommand::SetCursorStyle(
            blink_style(b, CursorStyle::BlinkingBar, CursorStyle::SteadyBar),
        ),
        QueueCall::CursorBlock(b) => TermCommand::SetCursorStyle(
            blink_style(b, CursorStyle::BlinkingBlock, CursorStyle::SteadyBlock),
        ),
        QueueCall::CursorUnderscore(b) => TermCommand::SetCursorStyle(
            blink_style(b, CursorStyle::BlinkingUnderScore, CursorStyle::SteadyUnderScore),
        ),
        QueueCall::CursorBlinking(b) => if on_unless_false(b) {
            TermCommand::EnableBlinking
        } else {
            TermCommand::DisableBlinking
        },
        QueueCall::CursorVisible(b) => if on_unless_false(b) {
            TermCommand::Show
        } else {
            TermCommand::Hide
        },
        QueueCall::Foreground(c) => TermCommand::SetForegroundColor(c),
        QueueCall::Background(c) => TermCommand::SetBackgroundColor(c),
        QueueCall::Reset => TermCommand::SetAttribute(Attribute::Reset),
        QueueCall::Bold(b) => TermCommand::SetAttribute(switch(b, Attribute::Bold, Attribute::NoBold)),
        QueueCall::Dim(b) => TermCommand::SetAttribute(
            switch(b, Attribute::Dim, Attribute::NormalIntensity),
        ),
        QueueCall::Italic(b) => TermCommand::SetAttribute(
            switch(b, Attribute::Italic, Attribute::NoItalic),
        ),
        QueueCall::Underline(b) => TermCommand::SetAttribute(
            switch(b, Attribute::Underlined, Attribute::NoUnderline),
        ),
        QueueCall::SlowBlink(b) => TermCommand::SetAttribute(
            switch(b, Attribute::SlowBlink, Attribute::NoBlink),
        ),
        QueueCall::RapidBlink(b) => TermCommand::SetAttribute(
            switch(b, Attribute::RapidBlink, Attribute::NoBlink),
        ),
        QueueCall::Reverse(b) => TermCommand::SetAttribute(
            switch(b, Attribute::Reverse, Attribute::NoReverse),
        ),
        QueueCall::Hidden(b) => TermCommand::SetAttribute(
            switch(b, Attribute::Hidden, Attribute::NoHidden),
        ),
        QueueCall::PushKeyboardEnhancement(f) => TermCommand::PushKeyboardEnhancementFlags(f),
        QueueCall::PopKeyboardEnhancement => TermCommand::PopKeyboardEnhancementFlags,
        QueueCall::Write(text) => TermCommand::Print(text),
    }
}

fn is_true(b: Option<bool>) -> (r: bool)
    ensures
        r == (b == Some(true)),
{
    match b {
        Some(v) => v,
        None => false,
    }
}

fn on(b: Option<bool>) -> (r: bool)
    ensures
        r == on_unless_false(b),
{
    match b {
        Some(v) => v,
        None => true,
    }
}

fn count(n: Option<u16>) -> (r: u16)
    ensures
        r == count_or_one(n),
{
    match n {
        Some(v) => v,
        None => 1,
    }
}

fn zero_based_of(n: u16) -> (r: u16)
    ensures
        r == zero_based(n),
{
    if n == 0 {
        0
    } else {
        n - 1
    }
}

fn attribute(b: Option<bool>, on_attr: Attribute, off_attr: Attribute) -> (r: Attribute)
    ensures
        r == switch(b, on_attr, off_attr),
{
    if on(b) {
        on_attr
    } else {
        off_attr
    }
}

fn style(b: Option<bool>, blinking: CursorStyle, steady: CursorStyle) -> (r: CursorStyle)
    ensures
        r == blink_style(b, blinking, steady),
{
    if is_true(b) {
        blinking
    } else {
        steady
    }
}

impl QueueCall {
    /// The command that this call queues.
    pub fn command(self) -> (c: TermCommand)
        ensures
            c == command_of(self),
    {
        match self {
            QueueCall::BeginSync => TermCommand::BeginSynchronizedUpdate,
            QueueCall::EndSync => TermCommand::EndSynchronizedUpdate,
            QueueCall::LineWrap(b) => if on(b) {
                TermCommand::EnableLineWrap
            } else {
                TermCommand::DisableLineWrap
            },
            QueueCall::AltScreen => TermCommand::EnterAlternateScreen,
            QueueCall::MainScreen => TermCommand::LeaveAlternateScreen,
            QueueCall::ScrollDown(n) => TermCommand::ScrollDown(count(n)),
            QueueCall::ScrollUp(n) => TermCommand::ScrollUp(count(n)),
            QueueCall::Size(cols, rows) => TermCommand::SetSize(cols, rows),
            QueueCall::Title(t) => TermCommand::SetTitle(t),
            QueueCall::Purge => TermCommand::Clear(ClearType::Purge),
            QueueCall::Clear => TermCommand::Clear(ClearType::All),
            QueueCall::ClearLine => TermCommand::Clear(ClearType::CurrentLine),
            QueueCall::ClearUntilNewLine => TermCommand::Clear(ClearType::UntilNewLine),
            QueueCall::ClearCursorUp => TermCommand::Clear(ClearType::FromCursorUp),
            QueueCall::ClearCursorDown => TermCommand::Clear(ClearType::FromCursorDown),
            QueueCall::CursorTo(col, row) => TermCommand::MoveTo(
                zero_based_of(col),
                zero_based_of(row),
            ),
            QueueCall::CursorDown(n) => TermCommand::MoveDown(count(n)),
            QueueCall::CursorLeft(n) => TermCommand::MoveLeft(count(n)),
            QueueCall::CursorRight(n) => TermCommand::MoveRight(count(n)),
            QueueCall::CursorUp(n) => TermCommand::MoveRight(count(n)),
            QueueCall::CursorNextLine(n) => TermCommand::MoveToNextLine(count(n)),
            QueueCall::CursorPrevLine(n) => TermCommand::MoveToPreviousLine(count(n)),
            QueueCall::CursorRow(n) => TermCommand::MoveToRow(zero_based_of(count(n))),
            QueueCall::CursorCol(n) => TermCommand::MoveToColumn(zero_based_of(count(n))),
            QueueCall::CursorSavePosition => TermCommand::SavePosition,
            QueueCall::CursorRestorePosition => TermCommand::RestorePosition,
            QueueCall::CursorDefault => TermCommand::SetCursorStyle(CursorStyle::DefaultUserShape),
            QueueCall::CursorBar(b) => TermCommand::SetCursorStyle(
                style(b, CursorStyle::BlinkingBar, CursorStyle::SteadyBar),
            ),
            QueueCall::CursorBlock(b) => TermCommand::SetCursorStyle(
                style(b, CursorStyle::BlinkingBlock, CursorStyle::SteadyBlock),
            ),
            QueueCall::CursorUnderscore(b) => TermCommand::SetCursorStyle(
                style(b, CursorStyle::BlinkingUnderScore, CursorStyle::SteadyUnderScore),
            ),
            QueueCall::CursorBlinking(b) => if on(b) {
                TermCommand::EnableBlinking
            } else {
                TermCommand::DisableBlinking
            },
            QueueCall::CursorVisible(b) => if on(b) {
                TermCommand::Show
            } else {
                TermCommand::Hide
            },
            QueueCall::Foreground(c) => TermCommand::SetForegroundColor(c),
            QueueCall::Background(c) => TermCommand::SetBackgroundColor(c),
            QueueCall::Reset => TermCommand::SetAttribute(Attribute::Reset),
            QueueCall::Bold(b) => TermCommand::SetAttribute(
                attribute(b, Attribute::Bold, Attribute::NoBold),
            ),
            QueueCall::Dim(b) => TermCommand::SetAttribute(
                attribute(b, Attribute::Dim, Attribute::NormalIntensity),
            ),
            QueueCall::Italic(b) => TermCommand::SetAttribute(
                attribute(b, Attribute::Italic, Attribute::NoItalic),
            ),
            QueueCall::Underline(b) => TermCommand::SetAttribute(
                attribute(b, Attribute::Underlined, Attribute::NoUnderline),
            ),
            QueueCall::SlowBlink(b) => TermCommand::SetAttribute(
                attribute(b, Attribute::SlowBlink, Attribute::NoBlink),
            ),
            QueueCall::RapidBlink(b) => TermCommand::SetAttribute(
                attribute(b, Attribute::RapidBlink, Attribute::NoBlink),
            ),
            QueueCall::Reverse(b) => TermCommand::SetAttribute(
                attribute(b, Attribute::Reverse, Attribute::NoReverse),
            ),
            QueueCall::Hidden(b) => TermCommand::SetAttribute(
                attribute(b, Attribute::Hidden, Attribute::NoHidden),
            ),
            QueueCall::PushKeyboardEnhancement(f) => TermCommand::PushKeyboardEnhancementFlags(f),
            QueueCall::PopKeyboardEnhancement => TermCommand::PopKeyboardEnhancementFlags,
            QueueCall::Write(text) => TermCommand::Print(text),
        }
    }
}

/// Cursor position as Lua programs see it: 1-based column and row, from the
/// terminal's 0-based ones.
pub fn one_based_position(col: u16, row: u16) -> (r: (u16, u16))
    requires
        col < u16::MAX,
        row < u16::MAX,
    ensures
        r == ((col + 1) as u16, (row + 1) as u16),
{
    (col + 1, row + 1)
}

/// How a command moves the cursor: columns to the right and rows down
/// (negative for left and up), for the commands that move it relative to
/// where it is.
pub open spec fn cursor_motion(c: TermCommand) -> Option<(int, int)> {
    match c {
        TermCommand::MoveLeft(n) => Some((-(n as int), 0)),
        TermCommand::MoveRight(n) => Some((n as int, 0)),
        TermCommand::MoveDown(n) => Some((0, n as int)),
        _ => None,
    }
}

/// How a command scrolls the screen: lines up (positive) or down (negative).
pub open spec fn scroll_motion(c: TermCommand) -> Option<int> {
    match c {
        TermCommand::ScrollUp(n) => Some(n as int),
        TermCommand::ScrollDown(n) => Some(-(n as int)),
        _ => None,
    }
}

/// The relative cursor moves and scrolls of a queue go the way their names
/// say, by the count given (one when it is left out): `cursor_left(n)` moves
/// `n` columns left, `cursor_right(n)` `n` columns right, `cursor_down(n)`
/// `n` rows down, `scroll_up(n)` and `scroll_down(n)` scroll `n` lines up
/// and down. `cursor_up(n)` moves `n` columns right, as the runtime's queue
/// has always done.
pub proof fn law_cursor_moves_follow_their_names(n: Option<u16>)
    ensures
        ({
            let k: int = match n {
                Some(v) => v as int,
                None => 1,
            };
            &&& cursor_motion(command_of(QueueCall::CursorLeft(n))) == Some((-k, 0int))
            &&& cursor_motion(command_of(QueueCall::CursorRight(n))) == Some((k, 0int))
            &&& cursor_motion(command_of(QueueCall::CursorDown(n))) == Some((0int, k))
            &&& cursor_motion(command_of(QueueCall::CursorUp(n))) == Some((k, 0int))
            &&& scroll_motion(command_of(QueueCall::ScrollUp(n))) == Some(k)
            &&& scroll_motion(command_of(QueueCall::ScrollDown(n))) == Some(-k)
        }),
{
}

/// Absolute positions are 1-based for scripts and 0-based for the terminal:
/// `cursor_to(col, row)` goes to column `col - 1` and row `row - 1` (0 for
/// 0), and `cursor_row(n)` and `cursor_col(n)` to row and column `n - 1`
/// (the first when left out).
pub proof fn law_cursor_positions_are_one_based(col: u16, row: u16, n: Option<u16>)
    ensures
        command_of(QueueCall::CursorTo(col, row)) == TermCommand::MoveTo(
            (if col > 0 { col - 1 } else { 0 }) as u16,
            (if row > 0 { row - 1 } else { 0 }) as u16,
        ),
        ({
            let k: int = match n {
                Some(v) => v as int,
                None => 1,
            };
            &&& command_of(QueueCall::CursorRow(n)) == TermCommand::MoveToRow(
                (if k > 0 { k - 1 } else { 0 }) as u16,
            )
            &&& command_of(QueueCall::CursorCol(n)) == TermCommand::MoveToColumn(
                (if k > 0 { k - 1 } else { 0 }) as u16,
            )
        }),
{
}

/// The switches of a queue are on unless they are given `false`: line
/// wrapping, cursor blinking and visibility, and each text attribute, which
/// an explicit `false` turns off with its own "no" attribute. A cursor shape
/// blinks only when it is given `true`.
pub proof fn law_switches_are_on_unless_false(b: Option<bool>)
    ensures
        command_of(QueueCall::LineWrap(b)) == (if b == Some(false) {
            TermCommand::DisableLineWrap
        } else {
            TermCommand::EnableLineWrap
        }),
        command_of(QueueCall::CursorBlinking(b)) == (if b == Some(false) {
            TermCommand::DisableBlinking
        } else {
            TermCommand::EnableBlinking
        }),
        command_of(QueueCall::CursorVisible(b)) == (if b == Some(false) {
            TermCommand::Hide
        } else {
            TermCommand::Show
        }),
        command_of(QueueCall::Bold(b)) == TermCommand::SetAttribute(
            if b == Some(false) {
                Attribute::NoBold
            } else {
                Attribute::Bold
            },
        ),
        command_of(QueueCall::Dim(b)) == TermCommand::SetAttribute(
            if b == Some(false) {
                Attribute::NormalIntensity
            } else {
                Attribute::Dim
            },
        ),
        command_of(QueueCall::Italic(b)) == TermCommand::SetAttribute(
            if b == Some(false) {
                Attribute::NoItalic
            } else {
                Attribute::Italic
            },
        ),
        command_of(QueueCall::Underline(b)) == TermCommand::SetAttribute(
            if b == Some(false) {
                Attribute::NoUnderline
            } else {
                Attribute::Underlined
            },
        ),
        command_of(QueueCall::SlowBlink(b)) == TermCommand::SetAttribute(
            if b == Some(false) {
                Attribute::NoBlink
            } else {
                Attribute::SlowBlink
            },
        ),
        command_of(QueueCall::RapidBlink(b)) == TermCommand::SetAttribute(
            if b == Some(false) {
                Attribute::NoBlink
            } else {
                Attribute::RapidBlink
            },
        ),
        command_of(QueueCall::Reverse(b)) == TermCommand::SetAttribute(
            if b == Some(false) {
                Attribute::NoReverse
            } else {
                Attribute::Reverse
            },
        ),
        command_of(QueueCall::Hidden(b)) == TermCommand::SetAttribute(
            if b == Some(false) {
                Attribute::NoHidden
            } else {
                Attribute::Hidden
            },
        ),
        command_of(QueueCall::CursorBar(b)) == TermCommand::SetCursorStyle(
            if b == Some(true) {
                CursorStyle::BlinkingBar
            } else {
                CursorStyle::SteadyBar
            },
        ),
        command_of(QueueCall::CursorBlock(b)) == TermCommand::SetCursorStyle(
            if b == Some(true) {
                CursorStyle::BlinkingBlock
            } else {
                CursorStyle::SteadyBlock
            },
        ),
        command_of(QueueCall::CursorUnderscore(b)) == TermCommand::SetCursorStyle(
            if b == Some(true) {
                CursorStyle::BlinkingUnderScore
            } else {
                CursorStyle::SteadyUnderScore
            },
        ),
{
}

} // verus!
