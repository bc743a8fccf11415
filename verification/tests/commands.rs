use allelua::commands::{Attribute, ClearType, CursorStyle, EnhancementFlags, QueueCall, TermCommand};
use allelua::keys::Color;

#[test]
fn queue_counts_default_to_one() {
    assert_eq!(QueueCall::ScrollDown(None).command(), TermCommand::ScrollDown(1));
    assert_eq!(QueueCall::ScrollUp(Some(4)).command(), TermCommand::ScrollUp(4));
    assert_eq!(QueueCall::CursorDown(None).command(), TermCommand::MoveDown(1));
    assert_eq!(QueueCall::CursorNextLine(Some(3)).command(), TermCommand::MoveToNextLine(3));
}

#[test]
fn queue_positions_are_one_based() {
    assert_eq!(QueueCall::CursorTo(1, 1).command(), TermCommand::MoveTo(0, 0));
    assert_eq!(QueueCall::CursorTo(10, 5).command(), TermCommand::MoveTo(9, 4));
    assert_eq!(QueueCall::CursorTo(0, 0).command(), TermCommand::MoveTo(0, 0));
    assert_eq!(QueueCall::CursorRow(None).command(), TermCommand::MoveToRow(0));
    assert_eq!(QueueCall::CursorCol(Some(7)).command(), TermCommand::MoveToColumn(6));
}

#[test]
fn queue_cursor_up_moves_right() {
    assert_eq!(QueueCall::CursorUp(Some(2)).command(), TermCommand::MoveRight(2));
}

#[test]
fn queue_switches_are_on_unless_false() {
    assert_eq!(QueueCall::LineWrap(None).command(), TermCommand::EnableLineWrap);
    assert_eq!(QueueCall::LineWrap(Some(false)).command(), TermCommand::DisableLineWrap);
    assert_eq!(QueueCall::CursorVisible(Some(false)).command(), TermCommand::Hide);
    assert_eq!(QueueCall::CursorBlinking(Some(true)).command(), TermCommand::EnableBlinking);
    assert_eq!(QueueCall::Bold(None).command(), TermCommand::SetAttribute(Attribute::Bold));
    assert_eq!(QueueCall::Dim(Some(false)).command(), TermCommand::SetAttribute(Attribute::NormalIntensity));
    assert_eq!(QueueCall::RapidBlink(Some(false)).command(), TermCommand::SetAttribute(Attribute::NoBlink));
}

#[test]
fn queue_cursor_shapes_blink_only_when_asked() {
    assert_eq!(
        QueueCall::CursorBar(None).command(),
        TermCommand::SetCursorStyle(CursorStyle::SteadyBar)
    );
    assert_eq!(
        QueueCall::CursorBlock(Some(true)).command(),
        TermCommand::SetCursorStyle(CursorStyle::BlinkingBlock)
    );
    assert_eq!(
        QueueCall::CursorUnderscore(Some(false)).command(),
        TermCommand::SetCursorStyle(CursorStyle::SteadyUnderScore)
    );
}

#[test]
fn queue_passes_values_through() {
    assert_eq!(QueueCall::Clear.command(), TermCommand::Clear(ClearType::All));
    assert_eq!(QueueCall::Purge.command(), TermCommand::Clear(ClearType::Purge));
    assert_eq!(QueueCall::Title("hi".to_string()).command(), TermCommand::SetTitle("hi".to_string()));
    assert_eq!(QueueCall::Write("x".to_string()).command(), TermCommand::Print("x".to_string()));
    assert_eq!(QueueCall::Size(80, 24).command(), TermCommand::SetSize(80, 24));
    assert_eq!(
        QueueCall::Foreground(Color::Red).command(),
        TermCommand::SetForegroundColor(Color::Red)
    );
}

#[test]
fn keyboard_flags_are_set_only_by_true() {
    let f = EnhancementFlags::from_options(Some(true), None, Some(false), Some(true));
    assert!(f.report_event_types);
    assert!(!f.disambiguate_escape_codes);
    assert!(!f.report_alternate_keys);
    assert!(f.report_all_keys_as_escape_codes);
    assert_eq!(
        QueueCall::PushKeyboardEnhancement(f).command(),
        TermCommand::PushKeyboardEnhancementFlags(f)
    );
}

#[test]
fn cursor_position_is_one_based() {
    assert_eq!(allelua::commands::one_based_position(0, 0), (1, 1));
    assert_eq!(allelua::commands::one_based_position(9, 4), (10, 5));
}
