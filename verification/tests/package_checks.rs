use aperture_kill::binio::encode_chunk;
use aperture_kill::chunk::{pack_surface_meta, WorldChunk};
use aperture_kill::error::LevelPackageError;
use aperture_kill::level::{LevelObjectKind, ObjectMeta};
use aperture_kill::manifest::{format_manifest, parse_manifest, LevelManifest};
use aperture_kill::package::{
    check_chunk_entry, check_index, check_manifest_entry, chunk_entry, chunk_path,
    package_manifest, sha256_hex, validate_package_path, CHUNK_SIZE_UNITS, COORD_SCALE,
};
use aperture_kill::runtime::{ChunkResidentSet, GroupIndex, ObjectHandle, TriggerIndex};
use aperture_kill::text_format::{TriggerAnchor, WorldIndex};

fn s(v: &str) -> String {
    v.to_string()
}

#[test]
fn sha256_in_lower_case_hex() {
    assert_eq!(sha256_hex(b"abc"), "ba7816bf8f01cfea414140de5dae2223b00361a396177a9cb410ff61f20015ad");
    assert_eq!(sha256_hex(b""), "e3b0c44298fc1c149afbf4c8996fb92427ae41e4649b934ca495991b7852b855");
}

#[test]
fn package_paths_stay_inside() {
    for ok in ["world.index", "world.chunks/0000.wchunk", "a/./b", "a//b", ".hidden", "a/...", "a/"] {
        assert!(validate_package_path(ok).is_ok(), "{ok}");
    }
    for bad in ["", "/etc/passwd", "\\x", "a\\b", "c:x", "./a", ".", "a/../b", "..", "a/.."] {
        match validate_package_path(bad) {
            Err(LevelPackageError::InvalidPackagePath { path }) => assert_eq!(path, bad),
            other => panic!("{bad}: {other:?}"),
        }
    }
}

#[test]
fn chunk_paths_pad_to_four_digits() {
    assert_eq!(chunk_path(0), "world.chunks/0000.wchunk");
    assert_eq!(chunk_path(42), "world.chunks/0042.wchunk");
    assert_eq!(chunk_path(12345), "world.chunks/12345.wchunk");
}

fn manifest() -> LevelManifest {
    package_manifest("V4 \"Test\"")
}

#[test]
fn manifest_reads_back() {
    let m = manifest();
    assert_eq!(m.id, "author.level.v4.test");
    let text = format_manifest(&m);
    assert!(text.starts_with("[package]\nschema = 4\nid = \"author.level.v4.test\"\n"));
    let parsed = parse_manifest(&text).expect("parse manifest");
    assert_eq!(parsed.id, m.id);
    assert_eq!(parsed.title, "V4 \"Test\"");
    assert_eq!(parsed.author, "Author");
    assert_eq!(parsed.entry, "world.index");
    assert_eq!(parsed.chunk_size_units, CHUNK_SIZE_UNITS);
    assert_eq!(parsed.coord_scale, COORD_SCALE);
}

#[test]
fn manifest_errors() {
    let text = format_manifest(&manifest());
    match parse_manifest(&text.replace("schema = 4", "schema = 3")) {
        Err(LevelPackageError::UnsupportedSchema { schema }) => assert_eq!(schema, 3),
        other => panic!("{other:?}"),
    }
    match parse_manifest(&text.replace("schema = 4", "schema = 300")) {
        Err(LevelPackageError::InvalidData(m)) => assert_eq!(m, "unsupported manifest schema 300"),
        other => panic!("{other:?}"),
    }
    match parse_manifest(&text.replace("encoding = \"typed_bitpacked_soa\"", "encoding = \"json\"")) {
        Err(LevelPackageError::UnsupportedEncoding { encoding }) => assert_eq!(encoding, "json"),
        other => panic!("{other:?}"),
    }
    match parse_manifest(&text.replace("author = \"Author\"\n", "")) {
        Err(LevelPackageError::InvalidData(m)) => assert_eq!(m, "manifest missing package.author"),
        other => panic!("{other:?}"),
    }
    match parse_manifest(&text.replace("coord_scale = 16", "coord_scale = \"16\"")) {
        Err(LevelPackageError::InvalidData(m)) => assert_eq!(m, "manifest world.coord_scale must be an integer"),
        other => panic!("{other:?}"),
    }
    match parse_manifest(&text.replace("coord_scale = 16", "coord_scale = 4294967296")) {
        Err(LevelPackageError::InvalidData(m)) => assert_eq!(m, "manifest world.coord_scale does not fit i32"),
        other => panic!("{other:?}"),
    }
    match parse_manifest("[package\n") {
        Err(LevelPackageError::InvalidData(m)) => assert!(m.starts_with("invalid manifest.toml: ")),
        other => panic!("{other:?}"),
    }
}

fn index_with(schema: u8, coord_scale: i32) -> WorldIndex {
    WorldIndex {
        schema,
        coord_scale,
        chunk_size_units: 2048,
        level_name: s("L"),
        spawn: [s("0"), s("0")],
        chunks: Vec::new(),
        triggers: Vec::new(),
        checkpoints: Vec::new(),
        portals: Vec::new(),
    }
}

#[test]
fn manifest_and_index_must_agree() {
    let m = manifest();
    assert!(check_manifest_entry(&m).is_ok());
    let mut other = manifest();
    other.entry = s("other.index");
    assert!(matches!(check_manifest_entry(&other), Err(LevelPackageError::UnsupportedEntry { entry }) if entry == "other.index"));
    assert!(check_index(&m, &index_with(4, 16)).is_ok());
    assert!(matches!(check_index(&m, &index_with(5, 16)), Err(LevelPackageError::UnsupportedSchema { schema: 5 })));
    assert!(matches!(check_index(&m, &index_with(4, 8)), Err(LevelPackageError::InvalidData(_))));
}

fn grouped_chunk(id: u32) -> WorldChunk {
    let mut chunk = WorldChunk::default();
    chunk.chunk_id = id;
    chunk.origin_q = [16384, 16384];
    let solid = pack_surface_meta(true, ObjectMeta { group_id: 7, editor_layer: 2 }).unwrap();
    chunk.static_rects.meta.push(solid);
    chunk.static_rects.x.push(0);
    chunk.static_rects.y.push(0);
    chunk.static_rects.w.push(16);
    chunk.static_rects.h.push(16);
    chunk.static_rects.rotation.push(0);
    chunk.static_rects.editor_layer.push(2);
    let hazard = pack_surface_meta(false, ObjectMeta { group_id: 0, editor_layer: 0 }).unwrap();
    chunk.hazard_rects.meta.push(hazard);
    chunk.hazard_rects.x.push(1);
    chunk.hazard_rects.y.push(1);
    chunk.hazard_rects.w.push(16);
    chunk.hazard_rects.h.push(16);
    chunk.hazard_rects.rotation.push(0);
    chunk.hazard_rects.editor_layer.push(0);
    let portal = pack_surface_meta(false, ObjectMeta { group_id: 8, editor_layer: 1 }).unwrap();
    let p = &mut chunk.world_portals;
    p.meta.push(portal);
    p.x.push(5);
    p.y.push(6);
    p.normal_x.push(32767);
    p.normal_y.push(0);
    p.tangent_x.push(0);
    p.tangent_y.push(32767);
    p.width.push(1536);
    p.portal_id.push(20);
    p.receiver_id.push(21);
    p.priority.push(2);
    p.scale.push(256);
    p.flags.push(2);
    p.seamless_depth.push(0);
    p.seamless_angle.push(0);
    p.editor_layer.push(1);
    chunk
}

#[test]
fn written_chunk_passes_the_reader_checks() {
    let chunk = grouped_chunk(3);
    let (entry, bytes) = chunk_entry(&chunk, [s("0"), s("0"), s("1"), s("1")]);
    assert_eq!(entry.path, "world.chunks/0003.wchunk");
    assert_eq!(bytes, encode_chunk(&chunk));
    assert_eq!(check_chunk_entry(&entry, &bytes).expect("checks"), chunk);

    let mut wrong = entry.clone();
    wrong.bytes += 1;
    assert!(matches!(check_chunk_entry(&wrong, &bytes), Err(LevelPackageError::ChunkSizeMismatch { chunk_id: 3 })));
    let mut wrong = entry.clone();
    wrong.sha256 = s("00");
    assert!(matches!(check_chunk_entry(&wrong, &bytes), Err(LevelPackageError::ChunkChecksumMismatch { chunk_id: 3 })));
    let mut wrong = entry.clone();
    wrong.id = 4;
    assert!(matches!(check_chunk_entry(&wrong, &bytes), Err(LevelPackageError::ChunkHeaderMismatch { chunk_id: 4 })));
    let mut wrong = entry.clone();
    wrong.counts.doors = 1;
    assert!(matches!(check_chunk_entry(&wrong, &bytes), Err(LevelPackageError::ChunkCountsMismatch { chunk_id: 3 })));
}

#[test]
fn group_index_skips_zero_group_and_keeps_object_handles() {
    let chunks = vec![grouped_chunk(0)];
    let group_index = GroupIndex::from_chunks(&chunks);

    assert!(!group_index.contains_group(0));

    let solid_handles = group_index.handles(7);
    assert_eq!(solid_handles.len(), 1);
    assert_eq!(solid_handles[0].kind, LevelObjectKind::Solid);
    assert_eq!(solid_handles[0].index, 0);

    let portal_handles = group_index.handles(8);
    assert_eq!(portal_handles.len(), 1);
    assert_eq!(portal_handles[0].kind, LevelObjectKind::WorldPortal);
}

#[test]
fn group_index_keeps_chunk_order() {
    let chunks = vec![grouped_chunk(4), grouped_chunk(9)];
    let group_index = GroupIndex::from_chunks(&chunks);
    assert_eq!(
        group_index.handles(7),
        &[
            ObjectHandle { chunk_id: 4, kind: LevelObjectKind::Solid, index: 0 },
            ObjectHandle { chunk_id: 9, kind: LevelObjectKind::Solid, index: 0 },
        ]
    );
    assert!(group_index.handles(3).is_empty());
    assert!(!group_index.contains_group(3));
}

fn trigger_world_index() -> WorldIndex {
    let mut index = index_with(4, 16);
    index.triggers = vec![
        TriggerAnchor { trigger_id: 0, source_chunk: 0, target_group: 0, kind: 0 },
        TriggerAnchor { trigger_id: 1, source_chunk: 0, target_group: 0, kind: 2 },
    ];
    index
}

#[test]
fn trigger_index_uses_world_index_target_groups() {
    let mut index = trigger_world_index();
    index.triggers[1].target_group = 11;

    let trigger_index = TriggerIndex::from_world_index(&index).expect("build trigger index");
    let spawn_triggers = trigger_index.for_target_group(11);

    assert_eq!(spawn_triggers.len(), 1);
    assert_eq!(spawn_triggers[0].trigger_id, 1);
    assert_eq!(spawn_triggers[0].kind, 2);
    assert_eq!(spawn_triggers[0].target_group, 11);
    assert_eq!(trigger_index.for_target_group(3).len(), 0);
    assert_eq!(trigger_index.for_target_group(0).len(), 0);
}

#[test]
fn duplicate_trigger_ids_are_refused() {
    let mut index = trigger_world_index();
    index.triggers.push(TriggerAnchor { trigger_id: 1, source_chunk: 2, target_group: 0, kind: 1 });
    match TriggerIndex::from_world_index(&index) {
        Err(LevelPackageError::InvalidData(m)) => assert_eq!(m, "duplicate trigger_id 1 in world.index"),
        other => panic!("{other:?}"),
    }
}

#[test]
fn resident_chunks_are_a_sorted_union() {
    let set = ChunkResidentSet::union(&[5, 1, 3, 1], &[4, 3, 9]);
    assert_eq!(set.chunks, vec![1, 3, 4, 5, 9]);
    assert!(ChunkResidentSet::union(&[], &[]).chunks.is_empty());
}
