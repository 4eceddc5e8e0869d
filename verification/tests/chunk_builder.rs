use aperture_kill::binio::{decode_chunk, encode_chunk};
use aperture_kill::chunk::{
    local_from_quantized, push_loaded_meta, rect_record, trigger_runtime_kind, ChunkBuilder, PortalRecord,
};
use aperture_kill::error::LevelPackageError;
use aperture_kill::level::{LevelObjectKind, LevelObjectMeta, LevelTriggerKind, ObjectMeta};

fn meta(group_id: u16, editor_layer: i16) -> ObjectMeta {
    ObjectMeta { group_id, editor_layer }
}

#[test]
fn rect_record_packs_meta_and_keeps_geometry() {
    let r = rect_record(true, meta(3, 5), [-7, 9], [100, 200], -45).unwrap();
    // portalable bit, view layer 1 in bits 3-5, group 3 in bits 6-15
    assert_eq!(r.meta, 1 + 8 + 64 * 3);
    assert_eq!((r.x, r.y, r.w, r.h, r.rotation, r.editor_layer), (-7, 9, 100, 200, -45, 5));
    let plain = rect_record(false, meta(0, 0), [0, 0], [1, 1], 0).unwrap();
    assert_eq!(plain.meta, 8);
}

#[test]
fn rect_record_rejects_unpackable_meta() {
    assert!(matches!(
        rect_record(true, meta(1024, 0), [0, 0], [1, 1], 0),
        Err(LevelPackageError::InvalidData(_))
    ));
    assert!(matches!(
        rect_record(true, meta(1, -1), [0, 0], [1, 1], 0),
        Err(LevelPackageError::InvalidData(_))
    ));
    assert!(matches!(
        rect_record(true, meta(1, 1024), [0, 0], [1, 1], 0),
        Err(LevelPackageError::InvalidData(_))
    ));
}

#[test]
fn builder_starts_at_key_origin_with_no_bounds() {
    let b = ChunkBuilder::new((0, -1));
    assert_eq!(b.origin_q, [16384, -16384]);
    assert_eq!(b.bounds, None);
    let chunk = b.finish(9);
    assert_eq!(chunk.chunk_id, 9);
    assert_eq!(chunk.bounds_local, [0, 0, 0, 0]);
    assert!(chunk.static_rects.x.is_empty());
}

#[test]
fn builder_pushes_rects_and_widens_bounds() {
    let mut b = ChunkBuilder::new((1, 2));
    let solid = rect_record(true, meta(2, 0), [10, 20], [30, 40], 0).unwrap();
    b.push_solid(solid, [-5, 0, 25, 40]);
    let hazard = rect_record(false, meta(0, 1), [1, 2], [3, 4], 7).unwrap();
    b.push_hazard(hazard, [-10, 5, 0, 60]);
    let checkpoint = rect_record(false, meta(0, 0), [4, 4], [8, 8], 0).unwrap();
    b.push_checkpoint(checkpoint, [0, 0, 8, 8]);
    assert_eq!(b.bounds, Some([-10, 0, 25, 60]));
    let chunk = b.finish(4);
    assert_eq!(chunk.origin_q, [32768 + 16384, 65536 + 16384]);
    assert_eq!(chunk.bounds_local, [-10, 0, 25, 60]);
    assert_eq!(chunk.static_rects.x, vec![10]);
    assert_eq!(chunk.static_rects.meta, vec![1 + 8 + 128]);
    assert_eq!(chunk.hazard_rects.rotation, vec![7]);
    assert_eq!(chunk.hazard_rects.editor_layer, vec![1]);
    assert_eq!(chunk.checkpoints.w, vec![8]);
}

#[test]
fn builder_pushes_doors_and_triggers() {
    let mut b = ChunkBuilder::new((0, 0));
    let r = rect_record(false, meta(0, 0), [0, 0], [10, 10], 0).unwrap();
    b.push_door(r, [0, 0, 10, 10], 120, 300, true);
    b.push_door(r, [0, 0, 10, 10], 0, 50, false);
    b.push_trigger(r, [0, 0, 10, 10], LevelTriggerKind::LevelStart);
    b.push_trigger(r, [0, 0, 10, 10], LevelTriggerKind::LevelEnd);
    b.push_trigger(r, [0, 0, 10, 10], LevelTriggerKind::EnemySpawn { enemy_id: 0 });
    b.push_trigger(r, [0, 0, 10, 10], LevelTriggerKind::EnemySpawn { enemy_id: 6 });
    let chunk = b.finish(0);
    assert_eq!(chunk.doors.radius, vec![120, 0]);
    assert_eq!(chunk.doors.speed, vec![300, 50]);
    assert_eq!(chunk.doors.automatic, vec![1, 0]);
    assert_eq!(chunk.triggers.kind, vec![0, 1, 2, 2]);
    assert_eq!(chunk.triggers.enemy_id, vec![0, 0, 1, 6]);
}

#[test]
fn builder_pushes_points_and_portals() {
    let mut b = ChunkBuilder::new((0, 0));
    b.push_enemy(meta(4, 2), [3, -3], 0, 11, 2).unwrap();
    b.push_text(meta(0, 0), [1, 1], "HELLO".to_string()).unwrap();
    let portal = PortalRecord {
        normal_x: 0,
        normal_y: -32767,
        tangent_x: 32767,
        tangent_y: 0,
        width: 640,
        portal_id: 5,
        receiver_id: 6,
        priority: -1,
        scale: 1000,
        scale_objects: true,
        seamless: false,
        seamless_depth: 0,
        seamless_angle: 0,
        seamless_rely_on_walls: true,
    };
    b.push_world_portal(meta(0, 3), [7, 8], portal).unwrap();
    assert!(matches!(
        b.push_enemy(meta(2000, 0), [0, 0], 0, 1, 0),
        Err(LevelPackageError::InvalidData(_))
    ));
    assert!(matches!(
        b.push_text(meta(0, -2), [0, 0], "X".to_string()),
        Err(LevelPackageError::InvalidData(_))
    ));
    assert!(matches!(
        b.push_world_portal(meta(5000, 0), [0, 0], portal),
        Err(LevelPackageError::InvalidData(_))
    ));
    let chunk = b.finish(1);
    assert_eq!(chunk.enemy_spawns.meta, vec![8 + 64 * 4]);
    assert_eq!(chunk.enemy_spawns.spawn_id, vec![11]);
    assert_eq!(chunk.enemy_spawns.spawn_wave, vec![2]);
    assert_eq!(chunk.enemy_spawns.editor_layer, vec![2]);
    assert_eq!(chunk.text_points.text, vec!["HELLO".to_string()]);
    assert_eq!(chunk.world_portals.portal_id, vec![5]);
    assert_eq!(chunk.world_portals.flags, vec![1 + 4]);
    assert_eq!(chunk.world_portals.editor_layer, vec![3]);
    let view = chunk.soa_view();
    assert_eq!(view.world_portals.receiver_id, vec![6]);
    assert_eq!(view.text_points.x, vec![1]);
    let decoded = decode_chunk(&encode_chunk(&chunk)).unwrap();
    assert_eq!(decoded, chunk);
}

#[test]
fn trigger_kinds_have_runtime_codes() {
    assert_eq!(trigger_runtime_kind(LevelTriggerKind::LevelStart), 0);
    assert_eq!(trigger_runtime_kind(LevelTriggerKind::LevelEnd), 1);
    assert_eq!(trigger_runtime_kind(LevelTriggerKind::EnemySpawn { enemy_id: 9 }), 2);
}

#[test]
fn loaded_meta_skips_defaults() {
    let mut metadata: Vec<LevelObjectMeta> = Vec::new();
    push_loaded_meta(&mut metadata, LevelObjectKind::Door, 0, 0, 0);
    assert!(metadata.is_empty());
    push_loaded_meta(&mut metadata, LevelObjectKind::Door, 2, 0, 4);
    push_loaded_meta(&mut metadata, LevelObjectKind::Text, 1, 7, 0);
    assert_eq!(
        metadata,
        vec![
            LevelObjectMeta { kind: LevelObjectKind::Door, index: 2, meta: meta(0, 4) },
            LevelObjectMeta { kind: LevelObjectKind::Text, index: 1, meta: meta(7, 0) },
        ]
    );
}

#[test]
fn local_points_must_fit_i16() {
    assert_eq!(local_from_quantized([16384, 16384], [16384 + 32767, 16384 - 32768]).unwrap(), [32767, -32768]);
    match local_from_quantized([0, 0], [32768, 70000]) {
        Err(LevelPackageError::CoordinateOutOfRange { name, storage }) => {
            assert_eq!(name, "x");
            assert_eq!(storage, "chunk-local i16");
        }
        other => panic!("{other:?}"),
    }
    match local_from_quantized([0, 0], [5, -40000]) {
        Err(LevelPackageError::CoordinateOutOfRange { name, .. }) => assert_eq!(name, "y"),
        other => panic!("{other:?}"),
    }
}
