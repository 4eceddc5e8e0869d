use aperture_kill::chunk::ChunkObjectCounts;
use aperture_kill::error::LevelPackageError;
use aperture_kill::manifest::format_manifest;
use aperture_kill::package::{package_manifest, read_package_index, read_package_manifest};
use aperture_kill::text_format::{
    format_trigger_kind, format_world_index, join_texts, parse_i32_pair, parse_trigger_kind,
    parse_world_index, read_content_lines, split_char, CheckpointAnchor, TriggerAnchor,
    WorldChunkEntry, WorldIndex, WorldPortalAnchor,
};

fn s(v: &str) -> String {
    v.to_string()
}

fn sample_index() -> WorldIndex {
    WorldIndex {
        schema: 4,
        coord_scale: 16,
        chunk_size_units: 2048,
        level_name: s("V4 \"Test\"\nLevel"),
        spawn: [s("128"), s("320.5")],
        chunks: vec![
            WorldChunkEntry {
                id: 0,
                origin_q: [16384, 16384],
                bbox_units: [s("64"), s("160"), s("864"), s("440")],
                path: s("world.chunks/0000.wchunk"),
                bytes: 512,
                sha256: s("ab12"),
                counts: ChunkObjectCounts { static_rects: 1, world_portals: 2, ..ChunkObjectCounts::default() },
            },
            WorldChunkEntry {
                id: 1,
                origin_q: [-16384, 49152],
                bbox_units: [s("-1024"), s("2048"), s("-1000.25"), s("2100")],
                path: s("world.chunks/0001.wchunk"),
                bytes: 0,
                sha256: s("cd34"),
                counts: ChunkObjectCounts::default(),
            },
        ],
        triggers: vec![
            TriggerAnchor { trigger_id: 0, source_chunk: 0, target_group: 0, kind: 0 },
            TriggerAnchor { trigger_id: 1, source_chunk: 1, target_group: 11, kind: 2 },
            TriggerAnchor { trigger_id: 2, source_chunk: 0, target_group: 0, kind: 9 },
        ],
        checkpoints: vec![CheckpointAnchor { index: 0, anchor: [s("184"), s("360")], chunk_id: 1 }],
        portals: vec![WorldPortalAnchor {
            portal_id: 20,
            source_chunk: 0,
            receiver_id: 21,
            render: true,
            lighting: false,
            physics: true,
        }],
    }
}

fn finite() -> Vec<String> {
    ["128", "320.5", "64", "160", "864", "440", "-1024", "2048", "-1000.25", "2100", "184", "360"]
        .iter()
        .map(|t| t.to_string())
        .collect()
}

fn assert_same(a: &WorldIndex, b: &WorldIndex) {
    assert_eq!(a.schema, b.schema);
    assert_eq!(a.coord_scale, b.coord_scale);
    assert_eq!(a.chunk_size_units, b.chunk_size_units);
    assert_eq!(a.level_name, b.level_name);
    assert_eq!(a.spawn, b.spawn);
    assert_eq!(a.chunks.len(), b.chunks.len());
    for (x, y) in a.chunks.iter().zip(&b.chunks) {
        assert_eq!(x.id, y.id);
        assert_eq!(x.origin_q, y.origin_q);
        assert_eq!(x.bbox_units, y.bbox_units);
        assert_eq!(x.path, y.path);
        assert_eq!(x.bytes, y.bytes);
        assert_eq!(x.sha256, y.sha256);
        assert_eq!(x.counts, y.counts);
    }
    assert_eq!(a.triggers, b.triggers);
    assert_eq!(a.checkpoints.len(), b.checkpoints.len());
    for (x, y) in a.checkpoints.iter().zip(&b.checkpoints) {
        assert_eq!(x.index, y.index);
        assert_eq!(x.anchor, y.anchor);
        assert_eq!(x.chunk_id, y.chunk_id);
    }
    assert_eq!(a.portals, b.portals);
}

#[test]
fn written_index_reads_back() {
    let index = sample_index();
    let text = format_world_index(&index);
    let parsed = parse_world_index(&text, &finite()).expect("parse");
    assert_same(&parsed, &index);
}

#[test]
fn written_index_text_is_exact() {
    let text = format_world_index(&sample_index());
    let lines: Vec<&str> = text.lines().collect();
    assert_eq!(lines[0], "portals_world_index version=4 endian=little coord_scale=16 chunk_size_units=2048 encoding=typed_bitpacked_soa");
    assert_eq!(lines[1], "level name=\"V4 \\\"Test\\\"\\nLevel\" spawn_x=128 spawn_y=320.5");
    assert_eq!(lines[2], "chunk id=0 origin_q=16384,16384 bbox_units=64,160,864,440 path=\"world.chunks/0000.wchunk\" bytes=512 sha256=ab12 static_rects=1 hazard_rects=0 doors=0 checkpoints=0 triggers=0 enemy_spawns=0 text_points=0 world_portals=2");
    assert_eq!(lines[4], "checkpoint index=0 anchor=184,360 restart_chunks=1");
    assert_eq!(lines[5], "trigger trigger_id=0 kind=checkpoint source_chunk=0 target_group=0 activation_policy=once payload_offset=0");
    assert_eq!(lines[6], "trigger trigger_id=1 kind=spawn source_chunk=1 target_group=11 activation_policy=once payload_offset=0");
    assert_eq!(lines[7], "trigger trigger_id=2 kind=9 source_chunk=0 target_group=0 activation_policy=once payload_offset=0");
    assert_eq!(lines[8], "portal id=20 kind=world source_chunk=0 receiver=21 render=true lighting=false physics=true");
    assert!(text.ends_with('\n'));
}

fn invalid_message(r: Result<WorldIndex, LevelPackageError>) -> String {
    match r {
        Err(LevelPackageError::InvalidData(m)) => m,
        other => panic!("expected invalid data, got {other:?}"),
    }
}

#[test]
fn index_errors_name_the_problem() {
    let fin = finite();
    assert_eq!(invalid_message(parse_world_index("", &fin)), "empty world.index");
    assert_eq!(invalid_message(parse_world_index("# only a comment\n\n", &fin)), "empty world.index");
    assert_eq!(invalid_message(parse_world_index("portals_index version=4", &fin)), "missing portals_world_index header");
    assert_eq!(invalid_message(parse_world_index("portals_world_index coord_scale=16", &fin)), "world.index missing version");
    assert_eq!(invalid_message(parse_world_index("portals_world_index version=4 coord_scale=16 chunk_size_units=2048", &fin)), "world.index must use typed_bitpacked_soa encoding");
    let header = "portals_world_index version=4 coord_scale=16 chunk_size_units=2048 encoding=typed_bitpacked_soa\n";
    assert_eq!(invalid_message(parse_world_index(header, &fin)), "world.index contains no chunks");
    let chunk = "chunk id=0 origin_q=1,2 bbox_units=64,160,864,440 path=p bytes=1 sha256=x\n";
    assert!(parse_world_index(&format!("{header}{chunk}"), &fin).is_ok());
    let unlisted = "chunk id=0 origin_q=1,2 bbox_units=64,160,864,nan path=p bytes=1 sha256=x\n";
    assert_eq!(invalid_message(parse_world_index(&format!("{header}{unlisted}"), &fin)), "invalid f32 quad");
    let bad_pair = "chunk id=0 origin_q=1,2,3 bbox_units=64,160,864,440 path=p bytes=1 sha256=x\n";
    assert_eq!(invalid_message(parse_world_index(&format!("{header}{bad_pair}"), &fin)), "invalid i32 pair length");
    let no_path = "chunk id=0 origin_q=1,2 bbox_units=64,160,864,440 bytes=1 sha256=x\n";
    assert_eq!(invalid_message(parse_world_index(&format!("{header}{no_path}"), &fin)), "world.index chunk missing path");
    let trigger = "trigger trigger_id=1 source_chunk=0 kind=wobble\n";
    assert_eq!(invalid_message(parse_world_index(&format!("{header}{chunk}{trigger}"), &fin)), "world.index trigger missing kind");
    let target = "trigger id=1 source_chunk=0 kind=spawn target_group=x\n";
    assert_eq!(invalid_message(parse_world_index(&format!("{header}{chunk}{target}"), &fin)), "world.index trigger invalid target_group");
    let anchor = "checkpoint index=0 anchor=1 restart_chunks=0\n";
    assert_eq!(invalid_message(parse_world_index(&format!("{header}{chunk}{anchor}"), &fin)), "invalid f32 pair");
}

#[test]
fn loose_lines_are_skipped_or_defaulted() {
    let fin = finite();
    let text = "  # comment\nportals_world_index version=4 coord_scale=16 chunk_size_units=2048 encoding=typed_bitpacked_soa\r\n\
        level spawn_x=128 spawn_y=nan\n\
        chunk id=7 origin_q=-1,2 bbox_units=64,160,864,440 path=p bytes=9 sha256=x doors=x\n\
        checkpoint index=1 anchor=184,360\n\
        portal id=3 source_chunk=7 receiver=4 render=yes\n\
        portal id=5 receiver=1\n\
        unknown a=b\n\
        lonely\n";
    let index = parse_world_index(text, &fin).expect("parse");
    assert_eq!(index.level_name, "Level");
    assert_eq!(index.spawn, [s("0"), s("0")]);
    assert_eq!(index.chunks[0].id, 7);
    assert_eq!(index.chunks[0].origin_q, [-1, 2]);
    assert_eq!(index.chunks[0].counts.doors, 0);
    assert!(index.checkpoints.is_empty());
    assert_eq!(index.portals, vec![WorldPortalAnchor { portal_id: 3, source_chunk: 7, receiver_id: 4, render: true, lighting: false, physics: true }]);
}

#[test]
fn trigger_kind_words() {
    for (word, kind) in [("0", 0), ("level_start", 0), ("checkpoint", 0), ("1", 1), ("level_end", 1), ("2", 2), ("enemy_spawn", 2), ("spawn", 2), ("200", 200)] {
        assert_eq!(parse_trigger_kind(word), Some(kind));
    }
    assert_eq!(parse_trigger_kind("256"), None);
    assert_eq!(parse_trigger_kind("door"), None);
    for kind in 0..=255u8 {
        assert_eq!(parse_trigger_kind(&format_trigger_kind(kind)), Some(kind));
    }
}

#[test]
fn comma_lists() {
    assert_eq!(parse_i32_pair("-5,7").ok(), Some([-5, 7]));
    assert!(parse_i32_pair("5").is_err());
    assert!(parse_i32_pair("a,7").is_err());
    assert_eq!(split_char("a,,b", ','), vec![s("a"), s(""), s("b")]);
    assert_eq!(split_char("", ','), vec![s("")]);
    assert_eq!(join_texts(&[s("1"), s("2"), s("3")]), "1,2,3");
}

#[test]
fn content_lines_drop_blanks_and_comments() {
    assert_eq!(read_content_lines(" a \n\n#c\n  b\r\n"), vec![s("a"), s("b")]);
}

#[test]
fn package_headers_are_read_and_checked() {
    let manifest = package_manifest("Lab");
    let text = format_manifest(&manifest);
    let read = read_package_manifest(&text).expect("manifest");
    assert_eq!(read.entry, "world.index");
    let moved = text.replace("entry = \"world.index\"", "entry = \"other.index\"");
    assert!(matches!(
        read_package_manifest(&moved),
        Err(LevelPackageError::UnsupportedEntry { entry }) if entry == "other.index"
    ));
    let index_text = format_world_index(&sample_index());
    let index = read_package_index(&read, &index_text, &finite()).expect("index");
    assert_same(&index, &sample_index());
    let mut other = sample_index();
    other.coord_scale = 8;
    assert!(matches!(
        read_package_index(&read, &format_world_index(&other), &finite()),
        Err(LevelPackageError::InvalidData(m)) if m == "manifest and world.index coordinate settings disagree"
    ));
    other.schema = 3;
    assert!(matches!(
        read_package_index(&read, &format_world_index(&other), &finite()),
        Err(LevelPackageError::UnsupportedSchema { schema: 3 })
    ));
    assert!(matches!(read_package_index(&read, "", &finite()), Err(LevelPackageError::InvalidData(m)) if m == "empty world.index"));
}
