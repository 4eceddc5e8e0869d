use aperture_kill::level::{LevelObjectKind, LevelObjectMeta, LevelTriggerKind, ObjectMeta};
use aperture_kill::level_file::{
    eq_ignore_case, format_debug_level, format_level, format_portals, format_source_level, level_file_name, parse_kind, parse_level_text, DoorRow, EnemyRow, LevelDoc,
    Point, Rect, SolidRow, TextRow, TriggerRow, WorldPortalRow,
};

fn s(v: &str) -> String {
    v.to_string()
}

fn texts(v: &[&str]) -> Vec<String> {
    v.iter().map(|t| t.to_string()).collect()
}

fn rect(x: &str, y: &str, w: &str, h: &str) -> Rect<String> {
    Rect { x: s(x), y: s(y), w: s(w), h: s(h) }
}

fn empty_doc(name: &str) -> LevelDoc {
    LevelDoc {
        name: s(name),
        spawn: Some(Point { x: s("0"), y: s("0") }),
        solids: Vec::new(),
        doors: Vec::new(),
        hazards: Vec::new(),
        checkpoints: Vec::new(),
        enemies: Vec::new(),
        triggers: Vec::new(),
        texts: Vec::new(),
        world_portals: Vec::new(),
        metadata: Vec::new(),
    }
}

/// Every value of the documents below reads as a finite number, and all but the zeros and
/// the negative ones as a number above zero.
fn finite() -> Vec<String> {
    texts(&["0", "1", "2", "10", "20", "30", "40", "50", "60", "120", "80", "-1", "16", "0.5", "3"])
}

fn positive() -> Vec<String> {
    texts(&["1", "2", "10", "20", "30", "40", "50", "60", "120", "80", "16", "0.5", "3"])
}

#[test]
fn keyed_level_round_trips_metadata_and_escaped_text() {
    let mut doc = empty_doc("Meta Test Chamber");
    doc.spawn = Some(Point { x: s("10"), y: s("20") });
    doc.solids.push(SolidRow { rect: rect("1", "2", "30", "40"), portalable: true, rotation: Some(s("0")) });
    doc.texts.push(TextRow { pos: Point { x: s("50"), y: s("60") }, value: s("a=b\nquoted \"text\"") });
    doc.metadata = vec![
        LevelObjectMeta { kind: LevelObjectKind::Solid, index: 0, meta: ObjectMeta { group_id: 7, editor_layer: -2 } },
        LevelObjectMeta { kind: LevelObjectKind::Text, index: 0, meta: ObjectMeta { group_id: 12, editor_layer: 3 } },
    ];
    let text = format_level(&doc);
    let parsed = parse_level_text(&text, "ignored", &finite(), &positive()).expect("parse keyed level");
    assert_eq!(parsed.name, "Meta Test Chamber");
    assert_eq!(parsed.spawn, Some(Point { x: s("10"), y: s("20") }));
    assert_eq!(parsed.texts[0].value, "a=b\nquoted \"text\"");
    assert!(parsed.metadata.contains(&LevelObjectMeta {
        kind: LevelObjectKind::Solid,
        index: 0,
        meta: ObjectMeta { group_id: 7, editor_layer: -2 },
    }));
    assert!(parsed.metadata.contains(&LevelObjectMeta {
        kind: LevelObjectKind::Text,
        index: 0,
        meta: ObjectMeta { group_id: 12, editor_layer: 3 },
    }));
    assert_eq!(parsed, doc);
}

#[test]
fn enemy_save_uses_spawn_position_not_runtime_position() {
    let mut doc = empty_doc("Enemy Spawn Position");
    doc.enemies.push(EnemyRow { spawn: Point { x: s("120"), y: s("80") }, spawn_id: 2, spawn_wave: 1 });
    let text = format_level(&doc);
    assert!(text.contains("spawn_x=120"));
    assert!(!text.contains("spawn_x=480"));
    let parsed = parse_level_text(&text, "x", &finite(), &positive()).expect("parse saved level");
    assert_eq!(parsed.enemies[0].spawn, Point { x: s("120"), y: s("80") });
    assert_eq!(parsed.enemies[0].spawn_id, 2);
    assert_eq!(parsed.enemies[0].spawn_wave, 1);
}

#[test]
fn legacy_level_without_v3_header_is_rejected() {
    let r = parse_level_text(
        "name Legacy\nplayer 10 20\ntext 1 2 switch=a value\nsolid 0 0 16 16 true\n",
        "legacy",
        &finite(),
        &positive(),
    );
    assert_eq!(r, Err(s("missing portals_level header")));
}

#[test]
fn saved_text_is_exact() {
    let mut doc = empty_doc("Lab");
    doc.solids.push(SolidRow { rect: rect("1", "2", "3", "16"), portalable: false, rotation: Some(s("0.5")) });
    doc.triggers.push(TriggerRow { rect: rect("0", "0", "16", "16"), kind: LevelTriggerKind::EnemySpawn { enemy_id: 3 } });
    doc.metadata.push(LevelObjectMeta {
        kind: LevelObjectKind::Trigger,
        index: 0,
        meta: ObjectMeta { group_id: 4, editor_layer: 0 },
    });
    assert_eq!(
        format_level(&doc),
        "portals_level version=3\n\
         level name=\"Lab\" spawn_x=0 spawn_y=0\n\
         solid x=1 y=2 w=3 h=16 portalable=false rotation=0.5 obj_id=0 layer=0\n\
         trigger kind=enemy_spawn x=0 y=0 w=16 h=16 enemy_id=3 obj_id=4 layer=0\n"
    );
}

#[test]
fn header_errors() {
    let f = finite();
    let p = positive();
    assert_eq!(parse_level_text("# only a comment\n\n", "a", &f, &p), Err(s("empty level file")));
    assert_eq!(
        parse_level_text("portals_level version=2\n", "a", &f, &p),
        Err(s("unsupported level format version Some(2)"))
    );
    assert_eq!(
        parse_level_text("portals_level\n", "a", &f, &p),
        Err(s("unsupported level format version None"))
    );
    assert_eq!(
        parse_level_text("portals_level version=3\nsolid 0 0 16 16\n", "a", &f, &p),
        Err(s("non-keyed row in v3 level: solid"))
    );
}

#[test]
fn rows_with_bad_values_are_skipped_and_defaults_apply() {
    let source = "portals_level version=3\n\
                  solid x=0 y=0 w=0 h=16 obj_id=5\n\
                  solid x=1 y=1 w=16 h=16 rotation=nan obj_id=6\n\
                  door x=0 y=0 w=16 h=16 radius=-1 speed=3\n\
                  enemy kind=FILTH spawn_x=1 spawn_y=2 spawn_wave=2\n\
                  enemy kind=other spawn_x=1 spawn_y=2\n\
                  trigger kind=enemy_spawn x=0 y=0 w=1 h=1 enemy_id=0\n\
                  trigger kind=unknown x=0 y=0 w=1 h=1 obj_id=9\n\
                  text x=0 y=0 value=\"\"\n\
                  text x=0 y=0 text=hello\n\
                  world_portal x=0 y=0 normal_x=1 normal_y=0 id=5 priority=-3\n\
                  meta kind=door index=0 obj_id=2\n\
                  unknown a=b\n";
    let doc = parse_level_text(source, "my_level", &finite(), &positive()).expect("parse");
    assert_eq!(doc.name, "my level");
    assert_eq!(doc.spawn, None);
    assert_eq!(doc.solids.len(), 1);
    assert_eq!(doc.solids[0].rotation, None);
    assert!(doc.solids[0].portalable);
    assert_eq!(doc.doors[0].radius, None);
    assert_eq!(doc.doors[0].speed, Some(s("3")));
    assert!(doc.doors[0].automatic);
    assert_eq!(doc.enemies.len(), 1);
    assert_eq!((doc.enemies[0].spawn_id, doc.enemies[0].spawn_wave), (1, 2));
    assert_eq!(doc.triggers.len(), 1);
    assert_eq!(doc.triggers[0].kind, LevelTriggerKind::EnemySpawn { enemy_id: 1 });
    assert_eq!(doc.texts.len(), 1);
    assert_eq!(doc.texts[0].value, "hello");
    let portal: &WorldPortalRow<String> = &doc.world_portals[0];
    assert_eq!((portal.portal_id, portal.receiver_id, portal.priority), (5, 5, -3));
    assert_eq!(portal.tangent, None);
    assert_eq!(portal.width, None);
    assert_eq!(
        doc.metadata,
        vec![
            LevelObjectMeta { kind: LevelObjectKind::Solid, index: 0, meta: ObjectMeta { group_id: 6, editor_layer: 0 } },
            LevelObjectMeta { kind: LevelObjectKind::Door, index: 0, meta: ObjectMeta { group_id: 2, editor_layer: 0 } },
        ]
    );
}

#[test]
fn object_kind_words_and_names() {
    assert_eq!(parse_kind("world_portal"), Some(LevelObjectKind::WorldPortal));
    assert_eq!(parse_kind("Solid"), None);
    assert!(eq_ignore_case("FiLtH", "filth"));
    assert!(!eq_ignore_case("filthy", "filth"));
    assert_eq!(level_file_name("My Level #2"), "my_level__2.lvl");
}

#[test]
fn package_source_copy_is_exact() {
    let mut doc = empty_doc("Lab");
    doc.solids.push(SolidRow { rect: rect("1", "2", "3", "16"), portalable: false, rotation: Some(s("0.5")) });
    doc.triggers.push(TriggerRow { rect: rect("0", "0", "16", "16"), kind: LevelTriggerKind::EnemySpawn { enemy_id: 3 } });
    doc.metadata.push(LevelObjectMeta {
        kind: LevelObjectKind::Trigger,
        index: 0,
        meta: ObjectMeta { group_id: 4, editor_layer: -1 },
    });
    let source = format_source_level(&doc);
    assert_eq!(
        source,
        "portals_world version=4\n\
         level name=\"Lab\" spawn_x=0 spawn_y=0\n\
         solid x=1 y=2 w=3 h=16 portalable=false surface=normal group_id=0 view_layer=1 editor_layer=0 rotation=0.5\n\
         trigger kind=enemy_spawn x=0 y=0 w=16 h=16 enemy_id=3 group_id=4 editor_layer=-1\n"
    );
    let debug = format_debug_level(&doc);
    assert_eq!(debug, format!("# generated debug dump; gameplay uses world.index and .wchunk files\n{source}"));
}

#[test]
fn portal_list_is_exact() {
    let mut doc = empty_doc("Lab");
    doc.world_portals.push(WorldPortalRow {
        pos: Point { x: s("1"), y: s("2") },
        normal: Point { x: s("1"), y: s("0") },
        tangent: Some(Point { x: s("0"), y: s("1") }),
        width: Some(s("64")),
        portal_id: 5,
        receiver_id: 6,
        priority: 0,
        scale: Some(s("1")),
        scale_objects: false,
        seamless: true,
        seamless_depth: Some(s("256")),
        seamless_angle: Some(s("180")),
        seamless_rely_on_walls: false,
    });
    assert_eq!(
        format_portals(&doc),
        "world_portal id=5 receiver=6 render=true lighting=true physics=true width=64 x=1 y=2 normal=1,0\n"
    );
    assert_eq!(format_portals(&empty_doc("x")), "");
}

#[test]
fn unset_values_are_written_as_their_defaults() {
    let mut doc = empty_doc("Defaults");
    doc.spawn = None;
    doc.solids.push(SolidRow { rect: rect("1", "2", "3", "16"), portalable: true, rotation: None });
    doc.doors.push(DoorRow {
        rect: rect("0", "0", "16", "16"),
        radius: None,
        rotation: None,
        speed: None,
        automatic: true,
    });
    doc.world_portals.push(WorldPortalRow {
        pos: Point { x: s("1"), y: s("2") },
        normal: Point { x: s("0"), y: s("1") },
        tangent: Some(Point { x: s("-1"), y: s("0") }),
        width: Some(s("80")),
        portal_id: 1,
        receiver_id: 1,
        priority: 0,
        scale: None,
        scale_objects: false,
        seamless: false,
        seamless_depth: None,
        seamless_angle: None,
        seamless_rely_on_walls: false,
    });
    let text = format_level(&doc);
    assert!(text.contains("level name=\"Defaults\" spawn_x=110 spawn_y=480\n"));
    assert!(text.contains("solid x=1 y=2 w=3 h=16 portalable=true rotation=0 "));
    assert!(text.contains("door x=0 y=0 w=16 h=16 radius=112 rotation=0 speed=3.6 automatic=true "));
    assert!(text.contains(" scale=1 "));
    assert!(text.contains(" seamless_depth=256 seamless_angle=180 "));
    let source = format_source_level(&doc);
    assert!(source.contains("radius=112 speed=3.6"));
}

#[test]
fn custom_template_has_start_end_and_floor() {
    let spec = LevelDoc::custom_template("CUSTOM LEVEL 1".to_string());

    assert_eq!(spec.name, "CUSTOM LEVEL 1");
    assert!(!spec.solids.is_empty());
    assert!(spec.triggers.iter().any(|trigger| trigger.kind == LevelTriggerKind::LevelStart));
    assert!(spec.triggers.iter().any(|trigger| trigger.kind == LevelTriggerKind::LevelEnd));
}

#[test]
fn custom_template_and_fallback_exact() {
    let t = LevelDoc::custom_template(s("New"));
    assert_eq!(t.spawn, Some(Point { x: s("128"), y: s("320") }));
    assert_eq!(t.solids, vec![SolidRow { rect: rect("64", "400", "960", "32"), portalable: false, rotation: None }]);
    assert_eq!(t.triggers[0], TriggerRow { rect: rect("104", "280", "48", "80"), kind: LevelTriggerKind::LevelStart });
    assert_eq!(t.triggers[1], TriggerRow { rect: rect("920", "320", "48", "80"), kind: LevelTriggerKind::LevelEnd });
    let f = LevelDoc::fallback();
    assert_eq!(f.name, "Test Chamber");
    assert_eq!(f.spawn, Some(Point { x: s("110"), y: s("480") }));
    assert_eq!(f.solids.len(), 9);
    assert_eq!(f.solids[8], SolidRow { rect: rect("610", "160", "32", "160"), portalable: true, rotation: None });
    assert!(f.triggers.is_empty());
}
