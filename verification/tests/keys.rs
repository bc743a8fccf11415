use allelua::keys::{
    Color, KeyCode, KeyEventKind, KeyModifiers, LuaColor, LuaKeyCode, LuaKeyModifiers, MediaKeyCode,
    ModifierKeyCode, MouseButton, MouseEventKind,
};

#[test]
fn key_names() {
    assert_eq!(LuaKeyCode(KeyCode::F(12)).to_string(), "F12");
    assert_eq!(LuaKeyCode(KeyCode::Char('é')).to_string(), "é");
    assert_eq!(LuaKeyCode(KeyCode::Media(MediaKeyCode::TrackNext)).to_string(), "next_track");
    assert_eq!(LuaKeyCode(KeyCode::Modifier(ModifierKeyCode::LeftAlt)).to_string(), "Modifier");
    assert_eq!(LuaKeyCode(KeyCode::PageUp).to_string(), "PageUp");
    assert_eq!(ModifierKeyCode::LeftSuper.name(), "left_suprt");
    assert_eq!(KeyEventKind::Release.name(), "release");
}

#[test]
fn modifier_names_are_written_one_after_the_other() {
    let m = KeyModifiers { shift: true, control: true, alt: false, super_key: false, hyper: false, meta: true };
    assert_eq!(LuaKeyModifiers(m).to_string(), "shiftctrlmeta");
    let none = KeyModifiers { shift: false, control: false, alt: false, super_key: false, hyper: false, meta: false };
    assert_eq!(LuaKeyModifiers(none).to_string(), "");
}

#[test]
fn mouse_names() {
    assert_eq!(MouseEventKind::Drag(MouseButton::Middle).name(), "drag");
    assert_eq!(MouseEventKind::Drag(MouseButton::Middle).button(), Some(MouseButton::Middle));
    assert_eq!(MouseEventKind::ScrollLeft.button(), None);
    assert_eq!(MouseButton::Right.name(), "right");
}

#[test]
fn colors_from_rgb_and_names() {
    assert_eq!(LuaColor::from_rgb(0x12_34_56).0, Color::Rgb { r: 0x12, g: 0x34, b: 0x56 });
    assert_eq!(LuaColor::from_rgb(0xff_00_00_ff).0, Color::Rgb { r: 0, g: 0, b: 0xff });
    assert_eq!(LuaColor::from_name(&"dark_cyan".to_string()).unwrap().0, Color::DarkCyan);
    assert_eq!(
        LuaColor::from_name(&"pink".to_string()).unwrap_err(),
        "\"pink\" is not a valid hex color"
    );
}

#[test]
fn invalid_color_message_follows_the_quoted_name() {
    assert_eq!(
        allelua::keys::invalid_color_message("\"purple\"".to_string()),
        "\"purple\" is not a valid hex color"
    );
    match LuaColor::from_name(&"purple".to_string()) {
        Err(msg) => assert_eq!(msg, "\"purple\" is not a valid hex color"),
        Ok(_) => panic!("purple is not a named color"),
    }
}
