use aperture_kill::editor::{
    adjusted_enemy_spawn, adjusted_object_meta, adjusted_world_portal_ids, adjusted_spawn_trigger, saturating_add_i16,
    unselected_layer_step, EditorSelection, EditorSelectionKind,
};
use aperture_kill::level::{LevelTriggerKind, ObjectMeta};
use aperture_kill::selection::{index_of, kind_of, LevelObjectCounts, SelectionState};

fn counts() -> LevelObjectCounts {
    LevelObjectCounts {
        solids: 3,
        doors: 1,
        hazards: 0,
        checkpoints: 0,
        enemies: 2,
        triggers: 1,
        texts: 0,
        world_portals: 1,
    }
}

#[test]
fn primary_selection_is_the_most_recent() {
    let mut s = SelectionState::new();
    assert_eq!(s.primary_selected(), None);
    assert_eq!(s.primary_selection_kind(), EditorSelectionKind::Empty);
    assert_eq!(s.primary_door_index(), None);
    s.add_selection(EditorSelection::Solid(2));
    s.add_selection(EditorSelection::Door(0));
    assert_eq!(s.selection_count(), 2);
    assert_eq!(s.primary_selection_kind(), EditorSelectionKind::Door);
    assert_eq!(s.primary_door_index(), Some(0));
    assert_eq!(s.primary_enemy_index(), None);
    s.add_selection(EditorSelection::Enemy(1));
    assert_eq!(s.primary_enemy_index(), Some(1));
    s.add_selection(EditorSelection::Trigger(4));
    assert_eq!(s.primary_trigger_index(), Some(4));
    s.add_selection(EditorSelection::WorldPortal(7));
    assert_eq!(s.primary_world_portal_index(), Some(7));
    assert_eq!(s.primary_selection_kind(), EditorSelectionKind::WorldPortal);
}

#[test]
fn add_selection_keeps_one_copy() {
    let mut s = SelectionState::new();
    s.add_selection(EditorSelection::Solid(1));
    s.add_selection(EditorSelection::Solid(1));
    assert_eq!(s.selected, vec![EditorSelection::Solid(1)]);
    assert!(s.is_selected(EditorSelection::Solid(1)));
    assert!(!s.is_selected(EditorSelection::Door(1)));
}

#[test]
fn toggle_selection_removes_or_appends() {
    let mut s = SelectionState::new();
    s.toggle_selection(EditorSelection::Text(0));
    s.toggle_selection(EditorSelection::Solid(5));
    assert_eq!(s.selected, vec![EditorSelection::Text(0), EditorSelection::Solid(5)]);
    s.toggle_selection(EditorSelection::Text(0));
    assert_eq!(s.selected, vec![EditorSelection::Solid(5)]);
    s.set_single_selection(EditorSelection::Hazard(3));
    assert_eq!(s.selected, vec![EditorSelection::Hazard(3)]);
    s.clear_selection();
    assert_eq!(s.selection_count(), 0);
}

#[test]
fn normalize_drops_stale_and_sorts_by_kind_then_index() {
    let mut s = SelectionState::new();
    s.selected = vec![
        EditorSelection::Enemy(1),
        EditorSelection::Solid(2),
        EditorSelection::Solid(7),
        EditorSelection::Door(0),
        EditorSelection::Solid(0),
        EditorSelection::Hazard(0),
        EditorSelection::Enemy(1),
        EditorSelection::WorldPortal(0),
        EditorSelection::Text(0),
    ];
    let valid = s.valid_selected(counts());
    assert_eq!(
        valid,
        vec![
            EditorSelection::Solid(0),
            EditorSelection::Solid(2),
            EditorSelection::Door(0),
            EditorSelection::Enemy(1),
            EditorSelection::WorldPortal(0),
        ]
    );
    s.normalize_selection(counts());
    assert_eq!(s.selected, valid);
    s.normalize_selection(counts());
    assert_eq!(s.selected, valid);
}

#[test]
fn selected_indices_are_sorted_and_unique_per_kind() {
    let mut s = SelectionState::new();
    s.selected = vec![
        EditorSelection::Solid(4),
        EditorSelection::Door(9),
        EditorSelection::Solid(1),
        EditorSelection::Solid(4),
    ];
    assert_eq!(s.selected_indices(EditorSelectionKind::Solid), vec![1, 4]);
    assert_eq!(s.selected_indices(EditorSelectionKind::Door), vec![9]);
    assert!(s.selected_indices(EditorSelectionKind::Text).is_empty());
    assert!(s.selected_indices(EditorSelectionKind::Empty).is_empty());
}

#[test]
fn selection_kind_and_index() {
    assert_eq!(kind_of(Some(EditorSelection::Checkpoint(2))), EditorSelectionKind::Checkpoint);
    assert_eq!(kind_of(None), EditorSelectionKind::Empty);
    assert_eq!(index_of(EditorSelection::Trigger(3), EditorSelectionKind::Trigger), Some(3));
    assert_eq!(index_of(EditorSelection::Trigger(3), EditorSelectionKind::Solid), None);
}

#[test]
fn object_meta_steps_saturate() {
    let m = adjusted_object_meta(ObjectMeta { group_id: 2, editor_layer: 5 }, -3, 2);
    assert_eq!(m, ObjectMeta { group_id: 0, editor_layer: 7 });
    let m = adjusted_object_meta(ObjectMeta { group_id: 65535, editor_layer: 32767 }, 1, 1);
    assert_eq!(m, ObjectMeta { group_id: 65535, editor_layer: 32767 });
    assert_eq!(saturating_add_i16(-32768, -1), -32768);
    assert_eq!(saturating_add_i16(-5, 3), -2);
}

#[test]
fn layer_step_without_selection() {
    assert_eq!(unselected_layer_step(3, 0, -1), Some(2));
    assert_eq!(unselected_layer_step(3, 1, -1), None);
    assert_eq!(unselected_layer_step(3, 0, 0), None);
}

#[test]
fn enemy_spawn_steps_stay_at_least_one() {
    assert_eq!(adjusted_enemy_spawn(1, 0, -1, 0), (1, 1));
    assert_eq!(adjusted_enemy_spawn(4, 2, 3, -5), (7, 1));
    assert_eq!(adjusted_enemy_spawn(4, 0, 0, 2), (4, 3));
    assert_eq!(
        adjusted_spawn_trigger(LevelTriggerKind::EnemySpawn { enemy_id: 2 }, -5),
        Some(LevelTriggerKind::EnemySpawn { enemy_id: 1 })
    );
    assert_eq!(
        adjusted_spawn_trigger(LevelTriggerKind::EnemySpawn { enemy_id: 2 }, 4),
        Some(LevelTriggerKind::EnemySpawn { enemy_id: 6 })
    );
    assert_eq!(adjusted_spawn_trigger(LevelTriggerKind::LevelEnd, 1), None);
}

#[test]
fn world_portal_id_steps() {
    assert_eq!(adjusted_world_portal_ids(3, 0, 5, -4, -1, -10), (0, 0, -5));
    assert_eq!(adjusted_world_portal_ids(65534, 7, 32760, 5, 2, 20), (65535, 9, 32767));
}
