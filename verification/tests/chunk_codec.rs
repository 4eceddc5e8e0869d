use aperture_kill::binio::{decode_chunk, encode_chunk, CHUNK_MAGIC};
use aperture_kill::chunk::{
    group_id_from_surface_meta, pack_surface_meta, unpack_surface_meta, ChunkObjectCounts,
    WorldChunk,
};
use aperture_kill::error::LevelPackageError;
use aperture_kill::level::ObjectMeta;

fn sample_chunk() -> WorldChunk {
    let mut chunk = WorldChunk::default();
    chunk.chunk_id = 3;
    chunk.origin_q = [16384, -49152];
    chunk.bounds_local = [-100, -50, 400, 300];
    let meta = pack_surface_meta(true, ObjectMeta { group_id: 7, editor_layer: 2 }).unwrap();
    chunk.static_rects.meta.push(meta);
    chunk.static_rects.x.push(-12);
    chunk.static_rects.y.push(34);
    chunk.static_rects.w.push(4096);
    chunk.static_rects.h.push(512);
    chunk.static_rects.rotation.push(-300);
    chunk.static_rects.editor_layer.push(2);
    chunk.text_points.meta.push(0);
    chunk.text_points.x.push(5);
    chunk.text_points.y.push(6);
    chunk.text_points.editor_layer.push(0);
    chunk.text_points.text.push("HELLO \"V4\"".to_string());
    chunk
}

#[test]
fn encoded_chunk_starts_with_magic_and_decodes_back() {
    let chunk = sample_chunk();
    let bytes = encode_chunk(&chunk);
    assert_eq!(&bytes[..8], &CHUNK_MAGIC[..]);
    let decoded = decode_chunk(&bytes).expect("decode");
    assert_eq!(decoded, chunk);
    assert_eq!(decoded.static_rects, chunk.static_rects);
    assert_eq!(decoded.text_points.text[0], "HELLO \"V4\"");
}

#[test]
fn empty_chunk_round_trips() {
    let chunk = WorldChunk::default();
    let bytes = encode_chunk(&chunk);
    assert_eq!(decode_chunk(&bytes).expect("decode"), chunk);
}

#[test]
fn counts_follow_block_lengths() {
    let chunk = sample_chunk();
    assert_eq!(
        chunk.counts(),
        ChunkObjectCounts {
            static_rects: 1,
            text_points: 1,
            ..ChunkObjectCounts::default()
        }
    );
}

#[test]
fn decode_rejects_bad_magic() {
    let mut bytes = encode_chunk(&sample_chunk());
    bytes[0] = b'X';
    assert!(matches!(decode_chunk(&bytes), Err(LevelPackageError::InvalidData(_))));
}

#[test]
fn decode_rejects_trailing_bytes() {
    let mut bytes = encode_chunk(&sample_chunk());
    bytes.push(0);
    assert!(matches!(decode_chunk(&bytes), Err(LevelPackageError::InvalidData(_))));
}

#[test]
fn decode_rejects_truncated_image() {
    let bytes = encode_chunk(&sample_chunk());
    assert!(decode_chunk(&bytes[..bytes.len() - 1]).is_err());
    assert!(decode_chunk(&[]).is_err());
}

#[test]
fn surface_meta_packs_and_unpacks() {
    let packed = pack_surface_meta(true, ObjectMeta { group_id: 1023, editor_layer: 5 }).unwrap();
    let unpacked = unpack_surface_meta(packed);
    assert!(unpacked.portalable);
    assert_eq!(unpacked.view_layer, 1);
    assert_eq!(unpacked.group_id, 1023);
    assert_eq!(group_id_from_surface_meta(packed), 1023);
    let plain = pack_surface_meta(false, ObjectMeta { group_id: 0, editor_layer: 0 }).unwrap();
    assert_eq!(plain, 8);
}

#[test]
fn surface_meta_rejects_large_group_and_bad_layer() {
    assert!(matches!(
        pack_surface_meta(false, ObjectMeta { group_id: 1024, editor_layer: 0 }),
        Err(LevelPackageError::InvalidData(_))
    ));
    assert!(matches!(
        pack_surface_meta(false, ObjectMeta { group_id: 1, editor_layer: -1 }),
        Err(LevelPackageError::InvalidData(_))
    ));
}

#[test]
fn decode_rejects_unknown_block_tag_and_bad_text() {
    let bytes = encode_chunk(&sample_chunk());
    assert!(bytes[30] >= 1 && bytes[30] <= 8);
    let mut bad_tag = bytes.clone();
    bad_tag[30] = 9;
    assert!(matches!(decode_chunk(&bad_tag), Err(LevelPackageError::InvalidData(_))));
    let mut bad_text = bytes.clone();
    let at = bad_text.windows(4).position(|w| w == b"HELL").expect("text bytes");
    bad_text[at] = 0xFF;
    assert!(matches!(decode_chunk(&bad_text), Err(LevelPackageError::InvalidData(_))));
    assert!(decode_chunk(&bytes[..29]).is_err());
}
