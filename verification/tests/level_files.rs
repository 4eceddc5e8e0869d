use aperture_kill::chunk::WorldChunk;
use aperture_kill::error::LevelPackageError;
use aperture_kill::keyed::parse_key_values;
use aperture_kill::level::{
    field_meta, object_meta_lossy, prune_metadata, push_inline_meta, LevelObjectKind,
    LevelObjectMeta, LevelTriggerKind, ObjectMeta,
};
use aperture_kill::runtime::locate_world_portal;
use aperture_kill::side_files::{format_groups, format_layers, format_triggers};

fn entry(kind: LevelObjectKind, index: usize, group_id: u16, editor_layer: i16) -> LevelObjectMeta {
    LevelObjectMeta { kind, index, meta: ObjectMeta { group_id, editor_layer } }
}

#[test]
fn layers_file_lists_each_used_layer_once_in_order() {
    let metadata = vec![
        entry(LevelObjectKind::Solid, 0, 3, 2),
        entry(LevelObjectKind::Door, 0, 0, -1),
        entry(LevelObjectKind::Solid, 1, 3, 2),
    ];
    assert_eq!(
        format_layers(&metadata),
        "view_layer 0 name=\"Back\"\nview_layer 1 name=\"Gameplay\"\nview_layer 2 name=\"Front\"\n\
         editor_layer -1 name=\"Layer -1\"\neditor_layer 0 name=\"Layer 0\"\neditor_layer 2 name=\"Layer 2\"\n"
    );
    assert_eq!(
        format_layers(&[]),
        "view_layer 0 name=\"Back\"\nview_layer 1 name=\"Gameplay\"\nview_layer 2 name=\"Front\"\n\
         editor_layer 0 name=\"Layer 0\"\n"
    );
}

#[test]
fn groups_file_skips_group_zero() {
    let metadata = vec![
        entry(LevelObjectKind::Solid, 0, 9, 0),
        entry(LevelObjectKind::Enemy, 0, 0, 1),
        entry(LevelObjectKind::Hazard, 2, 4, 0),
        entry(LevelObjectKind::Text, 0, 9, 0),
    ];
    assert_eq!(
        format_groups(&metadata),
        "group 4 name=\"Group 4\" reset=checkpoint\ngroup 9 name=\"Group 9\" reset=checkpoint\n"
    );
    assert_eq!(format_groups(&[]), "");
}

#[test]
fn triggers_file_numbers_triggers_in_order() {
    let kinds = [LevelTriggerKind::LevelStart, LevelTriggerKind::EnemySpawn { enemy_id: 3 }];
    assert_eq!(
        format_triggers(&kinds),
        "trigger trigger_id=0 kind=checkpoint source_chunk=0 target_group=0 activation_policy=once payload_offset=0\n\
         trigger trigger_id=1 kind=spawn source_chunk=0 target_group=0 activation_policy=once payload_offset=0\n"
    );
    assert!(format_triggers(&[LevelTriggerKind::LevelEnd]).contains("kind=level_end"));
}

#[test]
fn first_recorded_metadata_wins_on_lookup() {
    let metadata = vec![
        entry(LevelObjectKind::Solid, 0, 1, 0),
        entry(LevelObjectKind::Solid, 0, 2, 0),
    ];
    assert_eq!(object_meta_lossy(&metadata, LevelObjectKind::Solid, 0).group_id, 1);
    assert_eq!(object_meta_lossy(&metadata, LevelObjectKind::Door, 0), ObjectMeta::none());
}

#[test]
fn pruning_drops_defaults_and_keeps_the_last_value_per_object() {
    let metadata = vec![
        entry(LevelObjectKind::Solid, 0, 1, 0),
        entry(LevelObjectKind::Door, 0, 0, 0),
        entry(LevelObjectKind::Hazard, 1, 0, 3),
        entry(LevelObjectKind::Solid, 0, 2, 5),
    ];
    let pruned = prune_metadata(metadata);
    assert_eq!(
        pruned,
        vec![entry(LevelObjectKind::Solid, 0, 2, 5), entry(LevelObjectKind::Hazard, 1, 0, 3)]
    );
    assert_eq!(object_meta_lossy(&pruned, LevelObjectKind::Solid, 0).editor_layer, 5);
}

#[test]
fn inline_metadata_fields() {
    let f = parse_key_values("x=1 obj_id=12 layer=-3");
    assert_eq!(field_meta(&f), Some(ObjectMeta { group_id: 12, editor_layer: -3 }));
    let f = parse_key_values("object_id=7");
    assert_eq!(field_meta(&f), Some(ObjectMeta { group_id: 7, editor_layer: 0 }));
    let f = parse_key_values("obj_id=0 layer=0");
    assert_eq!(field_meta(&f), None);
    let f = parse_key_values("obj_id=70000 layer=x");
    assert_eq!(field_meta(&f), None);
    let mut metadata = Vec::new();
    push_inline_meta(&parse_key_values("obj_id=4"), LevelObjectKind::Enemy, 2, &mut metadata);
    push_inline_meta(&parse_key_values("w=3"), LevelObjectKind::Enemy, 3, &mut metadata);
    assert_eq!(metadata, vec![entry(LevelObjectKind::Enemy, 2, 4, 0)]);
}

fn portal_chunk(id: u32, portal_ids: &[u16]) -> WorldChunk {
    let mut chunk = WorldChunk::default();
    chunk.chunk_id = id;
    for &p in portal_ids {
        let w = &mut chunk.world_portals;
        w.meta.push(0);
        w.x.push(0);
        w.y.push(0);
        w.normal_x.push(0);
        w.normal_y.push(0);
        w.tangent_x.push(0);
        w.tangent_y.push(0);
        w.width.push(0);
        w.portal_id.push(p);
        w.receiver_id.push(0);
        w.priority.push(0);
        w.scale.push(0);
        w.flags.push(0);
        w.seamless_depth.push(0);
        w.seamless_angle.push(0);
        w.editor_layer.push(0);
    }
    chunk
}

#[test]
fn world_portals_are_found_in_their_source_chunk() {
    let chunks = vec![portal_chunk(3, &[1]), portal_chunk(5, &[2, 9, 9]), portal_chunk(5, &[4])];
    assert_eq!(locate_world_portal(&chunks, 9, 5).unwrap(), (1, 1));
    assert_eq!(locate_world_portal(&chunks, 1, 3).unwrap(), (0, 0));
    match locate_world_portal(&chunks, 4, 5) {
        Err(LevelPackageError::InvalidData(m)) => {
            assert_eq!(m, "world portal 4 not found in source chunk 5")
        }
        other => panic!("{other:?}"),
    }
    match locate_world_portal(&chunks, 1, 8) {
        Err(LevelPackageError::InvalidData(m)) => {
            assert_eq!(m, "world portal 1 references missing source chunk 8")
        }
        other => panic!("{other:?}"),
    }
}
