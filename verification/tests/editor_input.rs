use aperture_kill::editor::EditorTool;
use aperture_kill::editor_keys::{
    erase_char, key_char, type_char, EditorKeyAction, EditorKeyState, PanDirection,
};
use aperture_kill::kinds::Key;

fn idle() -> EditorKeyState {
    EditorKeyState { text_editing: false, rotate_ui: false }
}

#[test]
fn keys_type_their_characters() {
    assert_eq!(key_char(Key::KeyQ, false), Some('Q'));
    assert_eq!(key_char(Key::KeyQ, true), Some('Q'));
    assert_eq!(key_char(Key::Digit2, true), Some('@'));
    assert_eq!(key_char(Key::Digit2, false), Some('2'));
    assert_eq!(key_char(Key::Quote, true), Some('"'));
    assert_eq!(key_char(Key::Backslash, false), Some('\\'));
    assert_eq!(key_char(Key::Space, true), Some(' '));
    assert_eq!(key_char(Key::Enter, false), None);
}

#[test]
fn typing_replaces_the_placeholder_and_erasing_keeps_a_space() {
    let mut t = "TEXT".to_string();
    type_char(&mut t, 'H');
    assert_eq!(t, "H");
    type_char(&mut t, 'I');
    assert_eq!(t, "HI");
    erase_char(&mut t);
    assert_eq!(t, "H");
    erase_char(&mut t);
    assert_eq!(t, " ");
    erase_char(&mut t);
    assert_eq!(t, " ");
    let mut e = String::new();
    erase_char(&mut e);
    assert_eq!(e, " ");
}

#[test]
fn control_shortcuts_come_first() {
    let mut s = idle();
    assert_eq!(s.handle_key(Key::KeyZ, true, true, false, false), EditorKeyAction::Undo);
    assert_eq!(s.handle_key(Key::KeyA, true, true, false, false), EditorKeyAction::SelectAll);
    assert_eq!(
        s.handle_key(Key::KeyA, true, false, false, false),
        EditorKeyAction::Pan(PanDirection::Left, true)
    );
    assert_eq!(
        s.handle_key(Key::KeyA, false, false, false, false),
        EditorKeyAction::Pan(PanDirection::Left, false)
    );
}

#[test]
fn text_editing_takes_the_keys() {
    let mut s = idle();
    assert_eq!(s.handle_key(Key::Enter, true, false, false, true), EditorKeyAction::Nothing);
    assert!(s.text_editing);
    assert_eq!(s.handle_key(Key::KeyW, true, false, true, true), EditorKeyAction::TypeChar('W'));
    assert_eq!(s.handle_key(Key::Backspace, true, false, false, true), EditorKeyAction::EraseChar);
    assert_eq!(s.handle_key(Key::F5, true, false, false, true), EditorKeyAction::Nothing);
    assert_eq!(s.handle_key(Key::KeyW, false, false, false, true), EditorKeyAction::Nothing);
    assert_eq!(s.handle_key(Key::Enter, true, false, false, true), EditorKeyAction::Nothing);
    assert!(!s.text_editing);
}

#[test]
fn losing_the_selected_text_ends_editing() {
    let mut s = EditorKeyState { text_editing: true, rotate_ui: false };
    assert_eq!(s.handle_key(Key::Digit3, true, false, false, false), EditorKeyAction::CreateObject(EditorTool::Hazard));
    assert!(!s.text_editing);
}

#[test]
fn single_key_commands() {
    let mut s = idle();
    assert_eq!(s.handle_key(Key::Digit1, true, false, false, false), EditorKeyAction::CreateBlock(EditorTool::Portalable));
    assert_eq!(s.handle_key(Key::Digit0, true, false, false, false), EditorKeyAction::CreateObject(EditorTool::LevelEnd));
    assert_eq!(s.handle_key(Key::Delete, true, false, false, false), EditorKeyAction::DeleteSelected);
    assert_eq!(s.handle_key(Key::KeyJ, true, false, false, false), EditorKeyAction::AdjustWorldPortal(0, 0, -1));
    assert_eq!(s.handle_key(Key::PageDown, true, false, false, false), EditorKeyAction::AdjustLayer(-1));
    assert_eq!(s.handle_key(Key::F5, true, false, false, false), EditorKeyAction::Save);
    assert_eq!(s.handle_key(Key::KeyR, true, false, false, false), EditorKeyAction::Nothing);
    assert!(s.rotate_ui);
    assert_eq!(s.handle_key(Key::Enter, true, false, false, false), EditorKeyAction::Nothing);
    assert!(!s.text_editing);
    assert_eq!(s.handle_key(Key::F5, false, false, false, false), EditorKeyAction::Nothing);
}
