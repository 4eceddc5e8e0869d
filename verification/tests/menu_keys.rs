use aperture_kill::difficulty::Difficulty;
use aperture_kill::kinds::{GameKey, Key};
use aperture_kill::menus::{
    displayed_progress_index, displayed_progress_label, menu_level_count, AppMode, MenuEffect,
    MenuScreen, MenuState, OptionsEffect, PauseAction,
};
use aperture_kill::progression::{custom_level_indices, CUSTOM_LEVELS_CHAPTER_INDEX};

fn levels() -> Vec<String> {
    vec!["Test Chamber".to_string()]
}

#[test]
fn menu_keyboard_selection_stays_in_bounds() {
    let mut app = MenuState::new();
    app.handle_menu_key(Key::ArrowUp, &levels());
    assert_eq!(app.main_menu_cursor, 0);
    app.handle_menu_key(Key::ArrowDown, &levels());
    assert!(app.main_menu_cursor < 4);
}

#[test]
fn options_escape_clears_binding_before_leaving_menu() {
    let mut app = MenuState::new();
    app.mode = AppMode::Options;
    app.binding_capture = Some(GameKey::Jump);
    assert_eq!(app.handle_options_key(Key::Escape, true), OptionsEffect::Nothing);
    assert!(app.binding_capture.is_none());
    assert!(matches!(app.mode, AppMode::Options));
    assert_eq!(app.handle_options_key(Key::Escape, true), OptionsEffect::Closed);
    assert!(matches!(app.mode, AppMode::LevelMenu));
}

#[test]
fn changelog_confirm_returns_to_level_menu() {
    let mut app = MenuState::new();
    app.mode = AppMode::Changelog;
    app.handle_changelog_key(Key::Enter);
    assert!(matches!(app.mode, AppMode::LevelMenu));
}

#[test]
fn pause_resume_returns_to_playing() {
    let mut app = MenuState::new();
    app.mode = AppMode::Playing;
    app.open_pause_menu();
    assert!(matches!(app.mode, AppMode::Pause));
    assert!(!app.pause_keyboard_focus);
    app.resume_from_pause();
    assert!(matches!(app.mode, AppMode::Playing));
}

#[test]
fn pause_keyboard_focus_starts_after_navigation() {
    let mut app = MenuState::new();
    app.open_pause_menu();
    app.handle_pause_key(Key::ArrowDown, None);
    assert!(app.pause_keyboard_focus);
    assert_eq!(app.pause_cursor, 0);
}

#[test]
fn pause_options_return_to_pause() {
    let mut app = MenuState::new();
    app.mode = AppMode::Pause;
    app.options_return_to_pause = true;
    app.mode = AppMode::Options;
    app.close_options();
    assert!(matches!(app.mode, AppMode::Pause));
}

#[test]
fn custom_levels_chapter_opens_layer_screen() {
    let mut app = MenuState::new();
    app.menu_screen = MenuScreen::Chapter;
    app.chapter_cursor = CUSTOM_LEVELS_CHAPTER_INDEX;
    app.handle_menu_key(Key::Enter, &levels());
    assert_eq!(app.menu_screen, MenuScreen::Layer);
    assert_eq!(
        menu_level_count(app.chapter_cursor, &levels()),
        custom_level_indices(&levels()).len() + 1
    );
}

#[test]
fn pause_menu_navigation_and_actions() {
    let mut app = MenuState::new();
    app.open_pause_menu();
    assert_eq!(app.handle_pause_key(Key::Enter, None), None);
    app.handle_pause_key(Key::KeyW, None);
    assert_eq!(app.pause_cursor, 4);
    app.handle_pause_key(Key::ArrowUp, None);
    assert_eq!(app.pause_cursor, 3);
    assert_eq!(app.handle_pause_key(Key::Space, None), Some(PauseAction::Options));
    assert!(app.options_return_to_pause);
    assert_eq!(app.mode, AppMode::Options);
    app.open_pause_menu();
    assert_eq!(app.handle_pause_key(Key::Enter, Some(1)), Some(PauseAction::RestartFromCheckpoint));
    assert_eq!(app.mode, AppMode::Playing);
    app.open_pause_menu();
    assert_eq!(app.click_pause_action(4), Some(PauseAction::LevelMenu));
    assert_eq!((app.mode, app.pause_cursor, app.pause_keyboard_focus), (AppMode::LevelMenu, 4, false));
    assert!(!app.options_return_to_pause);
}

#[test]
fn level_menu_walk_opens_a_level() {
    let names = vec!["My Level".to_string(), "0-1 INTO THE FIRE".to_string(), "0-2 THE MEATGRINDER".to_string()];
    let mut app = MenuState::new();
    assert_eq!(app.handle_menu_key(Key::Enter, &names), MenuEffect::Nothing);
    assert_eq!(app.menu_screen, MenuScreen::Difficulty);
    app.handle_menu_key(Key::ArrowDown, &names);
    app.handle_menu_key(Key::ArrowDown, &names);
    app.handle_menu_key(Key::ArrowDown, &names);
    assert_eq!(app.difficulty_cursor, 5);
    app.handle_menu_key(Key::Enter, &names);
    assert_eq!(app.menu_screen, MenuScreen::Difficulty, "the last difficulty cannot be chosen");
    app.handle_menu_key(Key::ArrowUp, &names);
    app.handle_menu_key(Key::Enter, &names);
    assert_eq!(app.selected_difficulty, Difficulty::Brutal);
    assert_eq!(app.menu_screen, MenuScreen::Chapter);
    app.handle_menu_key(Key::Enter, &names);
    assert_eq!(app.menu_screen, MenuScreen::Layer);
    app.handle_menu_key(Key::ArrowRight, &names);
    assert_eq!(app.handle_menu_key(Key::Enter, &names), MenuEffect::OpenLevel);
    assert_eq!(app.current_level, 2);
    app.handle_menu_key(Key::ArrowDown, &names);
    assert_eq!(app.level_cursor, 4);
    app.handle_menu_key(Key::ArrowDown, &names);
    assert_eq!(app.level_cursor, 4);
    assert_eq!(app.handle_menu_key(Key::Enter, &names), MenuEffect::Nothing);
    app.handle_menu_key(Key::Escape, &names);
    assert_eq!(app.menu_screen, MenuScreen::Chapter);
    app.chapter_cursor = CUSTOM_LEVELS_CHAPTER_INDEX;
    app.handle_menu_key(Key::Enter, &names);
    assert_eq!(app.handle_menu_key(Key::Enter, &names), MenuEffect::CreateCustomLevel);
    app.handle_menu_key(Key::KeyD, &names);
    assert_eq!(app.handle_menu_key(Key::Enter, &names), MenuEffect::OpenLevel);
    assert_eq!(app.current_level, 0);
}

#[test]
fn empty_chapters_stay_on_the_chapter_screen_and_cursors_are_clamped() {
    let names = levels();
    let mut app = MenuState::new();
    app.menu_screen = MenuScreen::Chapter;
    app.chapter_cursor = 5;
    app.level_cursor = 7;
    app.handle_menu_key(Key::Enter, &names);
    assert_eq!(app.menu_screen, MenuScreen::Chapter);
    assert_eq!((app.chapter_cursor, app.level_cursor), (5, 0));
    app.main_menu_cursor = 99;
    app.chapter_cursor = 99;
    app.handle_menu_key(Key::Other, &names);
    assert_eq!((app.main_menu_cursor, app.chapter_cursor), (3, 8));
}

#[test]
fn rebinding_waits_for_a_bindable_key() {
    let mut app = MenuState::new();
    app.mode = AppMode::Options;
    app.binding_capture = Some(GameKey::Dash);
    assert_eq!(app.handle_options_key(Key::F5, false), OptionsEffect::Nothing);
    assert_eq!(app.binding_capture, Some(GameKey::Dash));
    assert_eq!(app.handle_options_key(Key::KeyQ, true), OptionsEffect::Bind(GameKey::Dash));
    assert_eq!(app.binding_capture, None);
    assert_eq!(app.mode, AppMode::Options);
}

#[test]
fn progress_shown_per_difficulty() {
    let names = vec!["0-1 A".to_string(), "Mine".to_string(), "0-3 C".to_string()];
    assert_eq!(displayed_progress_index(&[0, 2, 1, 0, 0, 0], 0, 3), 2);
    assert_eq!(displayed_progress_index(&[0, 2, 1, 0, 0, 0], 2, 3), 1);
    assert_eq!(displayed_progress_index(&[9, 9], 0, 3), 2);
    assert_eq!(displayed_progress_index(&[1], 5, 3), 0);
    assert_eq!(displayed_progress_index(&[1], 1, 0), 0);
    assert_eq!(displayed_progress_label(&names, &[0, 2, 1, 0, 0, 0], 0), "0-3");
    assert_eq!(displayed_progress_label(&names, &[0, 1, 1, 0, 0, 0], 0), "0-1");
    assert_eq!(displayed_progress_label(&[], &[0], 0), "0-1");
}

#[test]
fn completing_a_level_records_progress_and_opens_the_level_list() {
    let mut app = MenuState::new();
    app.mode = AppMode::Playing;
    app.current_level = 4;
    let mut progress = vec![0, 0, 2, 0, 0, 0];
    app.complete_current_level(&mut progress);
    assert_eq!(progress, vec![0, 0, 4, 0, 0, 0]);
    assert_eq!(app.mode, AppMode::LevelMenu);
    assert_eq!(app.menu_screen, MenuScreen::Layer);
    app.current_level = 1;
    app.complete_current_level(&mut progress);
    assert_eq!(progress, vec![0, 0, 4, 0, 0, 0]);
}
