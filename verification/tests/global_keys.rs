use aperture_kill::input::Input;
use aperture_kill::kinds::{GameKey, Key};
use aperture_kill::menus::{AppMode, GlobalKeyEffect, KeyTarget, MenuScreen, MenuState};

fn effect(
    handled: bool,
    reset_zoom: bool,
    release_gameplay: bool,
    toggle_debug: bool,
    close_resolution_list: bool,
) -> GlobalKeyEffect {
    GlobalKeyEffect { handled, reset_zoom, release_gameplay, toggle_debug, close_resolution_list }
}

fn in_mode(mode: AppMode) -> MenuState {
    let mut s = MenuState::new();
    s.mode = mode;
    s
}

#[test]
fn releases_are_not_global_keys() {
    let mut s = in_mode(AppMode::Playing);
    assert_eq!(s.handle_global_key(Key::Escape, false, false), effect(false, false, false, false, false));
    assert_eq!(s.mode, AppMode::Playing);
    assert_eq!(s.handle_global_key(Key::KeyA, true, false), effect(false, false, false, false, false));
}

#[test]
fn f1_toggles_the_level_menu() {
    let mut s = in_mode(AppMode::Playing);
    assert_eq!(s.handle_global_key(Key::F1, true, false), effect(true, false, true, false, false));
    assert_eq!(s.mode, AppMode::LevelMenu);
    assert_eq!(s.handle_global_key(Key::F1, true, false), effect(true, false, false, false, false));
    assert_eq!(s.mode, AppMode::Playing);
    let mut e = in_mode(AppMode::Editor);
    assert_eq!(e.toggle_level_menu(), effect(true, true, true, false, false));
    assert_eq!(e.mode, AppMode::LevelMenu);
    let mut o = in_mode(AppMode::Options);
    o.options_return_to_pause = true;
    o.toggle_level_menu();
    assert_eq!(o.mode, AppMode::Playing);
    assert!(!o.options_return_to_pause);
}

#[test]
fn f3_toggles_the_editor() {
    let mut s = in_mode(AppMode::Playing);
    assert_eq!(s.handle_global_key(Key::F3, true, false), effect(true, false, true, false, false));
    assert_eq!(s.mode, AppMode::Editor);
    assert_eq!(s.toggle_editor(), effect(true, true, false, false, false));
    assert_eq!(s.mode, AppMode::Playing);
}

#[test]
fn f7_toggles_debug() {
    let mut s = in_mode(AppMode::Pause);
    assert_eq!(s.handle_global_key(Key::F7, true, false), effect(true, false, false, true, false));
    assert_eq!(s.mode, AppMode::Pause);
}

#[test]
fn escape_backs_out_one_step() {
    let mut s = in_mode(AppMode::Options);
    s.binding_capture = Some(GameKey::Dash);
    s.handle_global_key(Key::Escape, true, true);
    assert_eq!(s.binding_capture, None);
    assert_eq!(s.mode, AppMode::Options);
    assert_eq!(s.handle_global_key(Key::Escape, true, true), effect(true, false, false, false, true));
    assert_eq!(s.mode, AppMode::Options);
    s.handle_global_key(Key::Escape, true, false);
    assert_eq!(s.mode, AppMode::LevelMenu);

    let mut c = in_mode(AppMode::Changelog);
    c.handle_global_key(Key::Escape, true, false);
    assert_eq!(c.mode, AppMode::LevelMenu);

    let mut m = in_mode(AppMode::LevelMenu);
    m.menu_screen = MenuScreen::Chapter;
    m.handle_global_key(Key::Escape, true, false);
    assert_eq!(m.menu_screen, MenuScreen::Difficulty);
    assert_eq!(m.mode, AppMode::LevelMenu);

    let mut p = in_mode(AppMode::Pause);
    p.handle_global_key(Key::Escape, true, false);
    assert_eq!(p.mode, AppMode::Playing);

    let mut e = in_mode(AppMode::Editor);
    assert_eq!(e.handle_global_key(Key::Escape, true, false), effect(true, true, true, false, false));
    assert_eq!(e.mode, AppMode::Playing);

    let mut g = in_mode(AppMode::Playing);
    g.pause_cursor = 3;
    g.pause_keyboard_focus = true;
    g.handle_global_key(Key::Escape, true, false);
    assert_eq!(g.mode, AppMode::Pause);
    assert_eq!(g.pause_cursor, 0);
    assert!(!g.pause_keyboard_focus);
}

#[test]
fn keys_go_to_the_active_mode() {
    assert_eq!(in_mode(AppMode::Playing).key_target(false), KeyTarget::Game);
    assert_eq!(in_mode(AppMode::LevelMenu).key_target(true), KeyTarget::Menu);
    assert_eq!(in_mode(AppMode::LevelMenu).key_target(false), KeyTarget::Nothing);
    assert_eq!(in_mode(AppMode::Changelog).key_target(true), KeyTarget::Changelog);
    assert_eq!(in_mode(AppMode::Options).key_target(true), KeyTarget::Options);
    assert_eq!(in_mode(AppMode::Editor).key_target(false), KeyTarget::Editor);
    assert_eq!(in_mode(AppMode::Pause).key_target(true), KeyTarget::Nothing);
    let mut o = in_mode(AppMode::Options);
    assert!(!o.captures_key(true));
    o.binding_capture = Some(GameKey::Jump);
    assert!(o.captures_key(true));
    assert!(!o.captures_key(false));
}

#[test]
fn game_keys_reach_their_buttons() {
    let mut input = Input::new();
    input.handle_game_key(Key::Digit1, true, Some(GameKey::Jump));
    assert!(input.weapon_1.down);
    assert!(!input.key_down(GameKey::Jump));
    input.handle_game_key(Key::KeyR, true, None);
    assert!(input.respawn.down);
    input.handle_game_key(Key::Space, true, Some(GameKey::Jump));
    assert!(input.key_down(GameKey::Jump));
    input.handle_game_key(Key::KeyQ, true, None);
    input.handle_game_key(Key::Space, false, Some(GameKey::Jump));
    assert!(!input.key_down(GameKey::Jump));
}
