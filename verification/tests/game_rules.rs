use aperture_kill::difficulty::{Difficulty, DIFFICULTY_COUNT};
use aperture_kill::editor::{
    common_resolutions, editor_palette_real_tools, editor_palette_slot_count, offset_u16,
    offset_u16_min, remove_indices, selection_object_key, selection_sort_key, EditorCategory,
    EditorMode, EditorSelection, EditorTool, SelectionBuckets,
};
use aperture_kill::input::{ButtonState, Input};
use aperture_kill::kinds::{Color, GameKey};
use aperture_kill::level::LevelObjectKind;
use aperture_kill::progression::{
    chapter, chapter_level, chapter_level_count, custom_level_indices, find_level_by_code,
    is_custom_chapter, level_code, next_custom_level_name, CHAPTER_COUNT, CUSTOM_LEVELS_CHAPTER_INDEX,
};

fn names(v: &[&str]) -> Vec<String> {
    v.iter().map(|s| s.to_string()).collect()
}

#[test]
fn difficulties_number_in_menu_order() {
    for i in 0..DIFFICULTY_COUNT {
        let d = Difficulty::from_index(i).expect("difficulty");
        assert_eq!(d.index(), i);
    }
    assert_eq!(Difficulty::from_index(DIFFICULTY_COUNT), None);
    assert_eq!(Difficulty::Standard.index(), 2);
}

#[test]
fn difficulty_texts() {
    assert_eq!(Difficulty::Harmless.label(), "HARMLESS");
    assert_eq!(Difficulty::UltrakillMustDie.label(), "ULTRAKILL MUST DIE");
    assert_eq!(Difficulty::Lenient.category(), "ACCESSIBLE");
    assert_eq!(Difficulty::Violent.category(), "HARD");
    assert_eq!(Difficulty::Brutal.category(), "VERY HARD");
    assert_eq!(Difficulty::Standard.description(), "BASELINE COMBAT RULES.");
    assert!(Difficulty::Brutal.available());
    assert!(!Difficulty::UltrakillMustDie.available());
}

#[test]
fn chapters_and_levels() {
    let first = chapter(0).expect("prelude");
    assert_eq!(first.label, "PRELUDE");
    assert_eq!(first.layers.len(), 1);
    assert_eq!(chapter(CHAPTER_COUNT - 1).expect("custom").label, "CUSTOM LEVELS");
    assert!(chapter(CHAPTER_COUNT).is_none());
    assert_eq!(chapter_level_count(0), 5);
    assert_eq!(chapter_level_count(1), 10);
    assert_eq!(chapter_level_count(4), 0);
    assert_eq!(chapter_level_count(99), 0);
    let l = chapter_level(0, 0).expect("0-1");
    assert_eq!(l.code, "0-1");
    assert_eq!(l.title, "INTO THE FIRE");
    let l = chapter_level(1, 4).expect("second layer");
    assert_eq!(l.code, "2-1");
    assert_eq!(chapter_level(2, 9).expect("last").code, "6-2");
    assert!(chapter_level(2, 10).is_none());
    assert!(chapter_level(99, 0).is_none());
    assert!(is_custom_chapter(CUSTOM_LEVELS_CHAPTER_INDEX));
    assert!(!is_custom_chapter(0));
}

#[test]
fn level_codes() {
    assert_eq!(level_code("4-2 GOD DAMN THE SUN").as_deref(), Some("4-2"));
    assert_eq!(level_code("  10-12").as_deref(), Some("10-12"));
    assert_eq!(level_code("4-2-1 X"), None);
    assert_eq!(level_code("4- X"), None);
    assert_eq!(level_code("-2 X"), None);
    assert_eq!(level_code("a-2 X"), None);
    assert_eq!(level_code("My Level"), None);
    assert_eq!(level_code(""), None);
}

#[test]
fn levels_found_by_code() {
    let list = names(&["My Level", "0-1 INTO THE FIRE", "0-2 THE MEATGRINDER", "0-1 AGAIN"]);
    assert_eq!(find_level_by_code(&list, "0-1"), Some(1));
    assert_eq!(find_level_by_code(&list, "0-2"), Some(2));
    assert_eq!(find_level_by_code(&list, "0-3"), None);
    assert_eq!(custom_level_indices(&list), vec![0]);
    let list = names(&["A", "1-1 B", "C"]);
    assert_eq!(custom_level_indices(&list), vec![0, 2]);
}

#[test]
fn a_press_fires_once() {
    let mut b = ButtonState::default();
    b.set_down(true);
    b.update();
    assert!(b.pressed && !b.released);
    b.update();
    assert!(!b.pressed && b.down);
    b.release();
    b.update();
    assert!(b.released && !b.pressed);
    b.update();
    assert!(!b.released);
}

#[test]
fn consumed_presses_are_forgotten() {
    let mut b = ButtonState::default();
    b.set_down(true);
    b.update();
    b.consume_press();
    assert!(!b.pressed && b.down && b.was_down);
}

#[test]
fn input_tracks_keys_and_movement() {
    let mut input = Input::new();
    input.set_key(GameKey::Left, true);
    input.update();
    assert_eq!(input.move_x, -1);
    input.set_key(GameKey::Right, true);
    input.update();
    assert_eq!(input.move_x, 0);
    input.set_key(GameKey::Left, false);
    input.update();
    assert_eq!(input.move_x, 1);
    input.set_key(GameKey::Jump, true);
    input.set_primary_fire(true);
    input.update();
    assert!(input.key_pressed(GameKey::Jump));
    assert!(input.key_down(GameKey::Jump));
    assert!(input.primary_fire_pressed());
    assert!(input.primary_fire_down());
    input.consume_presses();
    assert!(!input.key_pressed(GameKey::Jump));
    assert!(input.key_down(GameKey::Jump));
    input.set_alt_fire(true);
    input.update();
    assert!(input.alt_fire_down());
    input.release_gameplay();
    input.update();
    assert!(!input.key_down(GameKey::Jump));
    assert!(!input.key_down(GameKey::Right));
    assert!(input.alt_fire_released());
}

#[test]
fn weapon_and_respawn_presses() {
    let mut input = Input::new();
    input.set_weapon_1(true);
    input.set_respawn(true);
    input.update();
    assert!(input.weapon_1_pressed());
    assert!(input.respawn_pressed());
    input.update();
    assert!(!input.weapon_1_pressed());
    assert!(!input.respawn_pressed());
}

#[test]
fn portal_colours() {
    assert_eq!(Color::blue(), Color::rgb(54, 139, 255));
    assert_eq!(Color::orange(), Color::rgb(255, 151, 42));
}

#[test]
fn each_tool_lives_in_its_category() {
    for i in 0..5 {
        let c = EditorCategory::from_index(i).expect("category");
        assert_eq!(c.index(), i);
        let tools = c.tools();
        let numbers: Vec<usize> = tools.iter().map(|t| t.index()).collect();
        assert_eq!(numbers, editor_palette_real_tools(i));
        for t in tools {
            assert_eq!(t.category(), c);
            assert!(c.contains_tool(t));
        }
    }
    assert_eq!(EditorCategory::from_index(5), None);
    assert_eq!(EditorTool::from_index(1), Some(EditorTool::Portalable));
    assert_eq!(EditorTool::from_index(0), None);
    assert!(EditorTool::Portalable.portalable());
    assert!(!EditorTool::Solid.portalable());
    assert_eq!(EditorMode::from_index(2), Some(EditorMode::Delete));
    assert!(!EditorCategory::Deco.contains_tool(EditorTool::Solid));
}

#[test]
fn palette_slots() {
    assert_eq!(editor_palette_real_tools(1), vec![4, 5, 6, 7]);
    assert_eq!(editor_palette_real_tools(4), Vec::<usize>::new());
    assert_eq!(editor_palette_slot_count(1), 7);
    assert_eq!(editor_palette_slot_count(2), 5);
}

#[test]
fn selections_sort_and_bucket_by_kind() {
    assert_eq!(selection_sort_key(&EditorSelection::Hazard(4)), (2, 4));
    assert_eq!(selection_object_key(EditorSelection::WorldPortal(1)), (LevelObjectKind::WorldPortal, 1));
    let selected = [
        EditorSelection::Solid(3),
        EditorSelection::Door(0),
        EditorSelection::Solid(1),
        EditorSelection::Text(2),
    ];
    let b = SelectionBuckets::from_selected(&selected);
    assert_eq!(b.solids, vec![3, 1]);
    assert_eq!(b.doors, vec![0]);
    assert_eq!(b.texts, vec![2]);
    assert!(b.hazards.is_empty() && b.enemies.is_empty() && b.world_portals.is_empty());
}

#[test]
fn offsets_saturate() {
    assert_eq!(offset_u16(5, -10), 0);
    assert_eq!(offset_u16(5, 3), 8);
    assert_eq!(offset_u16(65530, 100), 65535);
    assert_eq!(offset_u16(100, i16::MIN), 0);
    assert_eq!(offset_u16_min(5, -10, 1), 1);
    assert_eq!(offset_u16_min(5, 2, 1), 7);
}

#[test]
fn removing_indices_keeps_order_and_ignores_repeats() {
    let mut items = vec!['a', 'b', 'c', 'd', 'e'];
    remove_indices(&mut items, vec![3, 0, 3]);
    assert_eq!(items, vec!['b', 'c', 'e']);
    let mut items = vec![1, 2];
    remove_indices(&mut items, Vec::new());
    assert_eq!(items, vec![1, 2]);
}

#[test]
fn resolutions_that_fit() {
    let r = common_resolutions(1024, 768);
    let pairs: Vec<(u32, u32)> = r.iter().map(|r| (r.width, r.height)).collect();
    assert_eq!(pairs, vec![(1024, 768), (960, 540), (800, 600), (640, 480), (320, 240), (320, 200)]);
    assert!(common_resolutions(100, 100).is_empty());
}

#[test]
fn new_custom_levels_take_the_first_free_name() {
    assert_eq!(next_custom_level_name(&[]), "CUSTOM LEVEL 1");
    let names = vec![
        "CUSTOM LEVEL 1".to_string(),
        "Test Chamber".to_string(),
        "CUSTOM LEVEL 3".to_string(),
    ];
    assert_eq!(next_custom_level_name(&names), "CUSTOM LEVEL 2");
    let names = vec!["CUSTOM LEVEL 2".to_string()];
    assert_eq!(next_custom_level_name(&names), "CUSTOM LEVEL 1");
}
