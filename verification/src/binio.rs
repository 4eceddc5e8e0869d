//! Little-endian binary encoding of world chunks (`.wchunk` files).
use vstd::prelude::*;
use vstd::utf8::*;

use crate::chunk::{
    DoorSoABlock, DoorSoAModel, EnemySpawnSoABlock, EnemySpawnSoAModel, RectSoABlock, RectSoAModel,
    TextPointSoABlock, TextPointSoAModel, TriggerSoABlock, TriggerSoAModel, WorldChunk,
    WorldChunkModel, WorldPortalSoABlock, WorldPortalSoAModel, strings_view,
};
use crate::decimal::format_u64;
use crate::error::{LevelPackageError, PackageResult, invalid_data, invalid_data_string};
use crate::strutil::concat;

verus! {

pub const BLOCK_STATIC_RECTS: u8 = 1;
pub const BLOCK_HAZARD_RECTS: u8 = 2;
pub const BLOCK_DOORS: u8 = 3;
pub const BLOCK_CHECKPOINTS: u8 = 4;
pub const BLOCK_TRIGGERS: u8 = 5;
pub const BLOCK_ENEMY_SPAWNS: u8 = 6;
pub const BLOCK_TEXT_POINTS: u8 = 7;
pub const BLOCK_WORLD_PORTALS: u8 = 8;

/// The eight bytes `WCHUNK4\0` that open every chunk file.
pub const CHUNK_MAGIC: [u8; 8] = [87, 67, 72, 85, 78, 75, 52, 0];

pub open spec fn chunk_magic() -> Seq<u8> {
    seq![87u8, 67u8, 72u8, 85u8, 78u8, 75u8, 52u8, 0u8]
}

// ---------------------------------------------------------------------------
// Encoding of single values.

/// Two little-endian bytes of a value in `0..65536`.
pub open spec fn le2(v: int) -> Seq<u8> {
    seq![(v % 256) as u8, (v / 256) as u8]
}

/// Four little-endian bytes of a value in `0..2^32`.
pub open spec fn le4(v: int) -> Seq<u8> {
    seq![(v % 256) as u8, ((v / 256) % 256) as u8, ((v / 65536) % 256) as u8, (v / 16777216) as u8]
}

/// Two's complement bit pattern of an `i16`, as a number.
pub open spec fn i16_bits(v: i16) -> int {
    if v < 0 { v + 65536 } else { v as int }
}

/// Two's complement bit pattern of an `i32`, as a number.
pub open spec fn i32_bits(v: i32) -> int {
    if v < 0 { v + 4294967296 } else { v as int }
}

pub open spec fn enc_u16(v: u16) -> Seq<u8> {
    le2(v as int)
}

pub open spec fn enc_i16(v: i16) -> Seq<u8> {
    le2(i16_bits(v))
}

pub open spec fn enc_u32(v: u32) -> Seq<u8> {
    le4(v as int)
}

pub open spec fn enc_i32(v: i32) -> Seq<u8> {
    le4(i32_bits(v))
}

pub open spec fn enc_u16s(vs: Seq<u16>) -> Seq<u8>
    decreases vs.len(),
{
    if vs.len() == 0 {
        Seq::empty()
    } else {
        enc_u16s(vs.drop_last()) + enc_u16(vs.last())
    }
}

pub open spec fn enc_i16s(vs: Seq<i16>) -> Seq<u8>
    decreases vs.len(),
{
    if vs.len() == 0 {
        Seq::empty()
    } else {
        enc_i16s(vs.drop_last()) + enc_i16(vs.last())
    }
}

/// A string: its UTF-8 byte length as `u32` (truncated, as the writer does), then the bytes.
pub open spec fn enc_string(s: Seq<char>) -> Seq<u8> {
    enc_u32(encode_utf8(s).len() as u32) + encode_utf8(s)
}

pub open spec fn enc_strings(ss: Seq<Seq<char>>) -> Seq<u8>
    decreases ss.len(),
{
    if ss.len() == 0 {
        Seq::empty()
    } else {
        enc_strings(ss.drop_last()) + enc_string(ss.last())
    }
}

// ---------------------------------------------------------------------------
// Encoding of blocks and chunks.

pub open spec fn enc_rect_payload(b: RectSoAModel) -> Seq<u8> {
    enc_u16s(b.meta) + enc_i16s(b.x) + enc_i16s(b.y) + enc_u16s(b.w) + enc_u16s(b.h) + enc_i16s(
        b.rotation,
    ) + enc_i16s(b.editor_layer)
}

pub open spec fn enc_rect_block(tag: u8, b: RectSoAModel) -> Seq<u8> {
    seq![tag] + enc_u32(b.x.len() as u32) + enc_rect_payload(b)
}

pub open spec fn enc_door_block(b: DoorSoAModel) -> Seq<u8> {
    seq![BLOCK_DOORS] + enc_u32(b.rects.x.len() as u32) + enc_rect_payload(b.rects) + enc_u16s(
        b.radius,
    ) + enc_u16s(b.speed) + b.automatic
}

pub open spec fn enc_trigger_block(b: TriggerSoAModel) -> Seq<u8> {
    seq![BLOCK_TRIGGERS] + enc_u32(b.rects.x.len() as u32) + enc_rect_payload(b.rects) + b.kind
        + enc_u16s(b.enemy_id)
}

pub open spec fn enc_enemy_spawn_block(b: EnemySpawnSoAModel) -> Seq<u8> {
    seq![BLOCK_ENEMY_SPAWNS] + enc_u32(b.x.len() as u32) + enc_u16s(b.meta) + enc_i16s(b.x)
        + enc_i16s(b.y) + b.kind + enc_u16s(b.spawn_id) + enc_u16s(b.spawn_wave) + enc_i16s(
        b.editor_layer,
    )
}

pub open spec fn enc_text_point_block(b: TextPointSoAModel) -> Seq<u8> {
    seq![BLOCK_TEXT_POINTS] + enc_u32(b.x.len() as u32) + enc_u16s(b.meta) + enc_i16s(b.x)
        + enc_i16s(b.y) + enc_i16s(b.editor_layer) + enc_strings(b.text)
}

/// The geometry arrays of a world-portal block, through `tangent_y`.
pub open spec fn enc_portal_geometry(b: WorldPortalSoAModel) -> Seq<u8> {
    enc_u16s(b.meta) + enc_i16s(b.x) + enc_i16s(b.y) + enc_i16s(b.normal_x) + enc_i16s(b.normal_y)
        + enc_i16s(b.tangent_x) + enc_i16s(b.tangent_y)
}

/// The link and rendering arrays of a world-portal block, from `width` on.
pub open spec fn enc_portal_links(b: WorldPortalSoAModel) -> Seq<u8> {
    enc_u16s(b.width) + enc_u16s(b.portal_id) + enc_u16s(b.receiver_id) + enc_i16s(b.priority)
        + enc_u16s(b.scale) + b.flags + enc_u16s(b.seamless_depth) + enc_u16s(b.seamless_angle)
        + enc_i16s(b.editor_layer)
}

pub open spec fn enc_world_portal_block(b: WorldPortalSoAModel) -> Seq<u8> {
    seq![BLOCK_WORLD_PORTALS] + enc_u32(b.x.len() as u32) + enc_portal_geometry(b)
        + enc_portal_links(b)
}

/// The header of a chunk: magic, id, origin, local bounds and the block count 8.
pub open spec fn enc_chunk_header(c: WorldChunkModel) -> Seq<u8> {
    chunk_magic() + enc_u32(c.chunk_id) + enc_i32(c.origin_x) + enc_i32(c.origin_y) + enc_i16s(
        c.bounds_local,
    ) + enc_u16(8)
}

/// The complete byte image of a chunk as `encode_chunk` writes it.
pub open spec fn enc_chunk(c: WorldChunkModel) -> Seq<u8> {
    enc_chunk_header(c) + enc_rect_block(BLOCK_STATIC_RECTS, c.static_rects) + enc_rect_block(
        BLOCK_HAZARD_RECTS,
        c.hazard_rects,
    ) + enc_door_block(c.doors) + enc_rect_block(BLOCK_CHECKPOINTS, c.checkpoints)
        + enc_trigger_block(c.triggers) + enc_enemy_spawn_block(c.enemy_spawns)
        + enc_text_point_block(c.text_points) + enc_world_portal_block(c.world_portals)
}

// ---------------------------------------------------------------------------
// Writer.

/// Growable byte buffer with little-endian writers.
pub struct BinWriter {
    pub bytes: Vec<u8>,
}

impl BinWriter {
    pub fn new() -> (w: Self)
        ensures
            w.bytes@ == Seq::<u8>::empty(),
    {
        BinWriter { bytes: Vec::new() }
    }

    pub fn u8(&mut self, value: u8)
        ensures
            final(self).bytes@ == old(self).bytes@.push(value),
    {
        self.bytes.push(value);
    }

    fn push_le2(&mut self, bits: u16)
        ensures
            final(self).bytes@ == old(self).bytes@ + le2(bits as int),
    {
        self.bytes.push((bits % 256) as u8);
        self.bytes.push((bits / 256) as u8);
        assert(self.bytes@ =~= old(self).bytes@ + le2(bits as int));
    }

    fn push_le4(&mut self, bits: u32)
        ensures
            final(self).bytes@ == old(self).bytes@ + le4(bits as int),
    {
        self.bytes.push((bits % 256) as u8);
        self.bytes.push(((bits / 256) % 256) as u8);
        self.bytes.push(((bits / 65536) % 256) as u8);
        self.bytes.push((bits / 16777216) as u8);
        assert(self.bytes@ =~= old(self).bytes@ + le4(bits as int));
    }

    pub fn u16(&mut self, value: u16)
        ensures
            final(self).bytes@ == old(self).bytes@ + enc_u16(value),
    {
        self.push_le2(value);
    }

    pub fn i16(&mut self, value: i16)
        ensures
            final(self).bytes@ == old(self).bytes@ + enc_i16(value),
    {
        let bits: u16 = if value < 0 {
            (value as i32 + 65536) as u16
        } else {
            value as u16
        };
        self.push_le2(bits);
    }

    pub fn u32(&mut self, value: u32)
        ensures
            final(self).bytes@ == old(self).bytes@ + enc_u32(value),
    {
        self.push_le4(value);
    }

    pub fn i32(&mut self, value: i32)
        ensures
            final(self).bytes@ == old(self).bytes@ + enc_i32(value),
    {
        let bits: u32 = if value < 0 {
            (value as i64 + 4294967296) as u32
        } else {
            value as u32
        };
        self.push_le4(bits);
    }

    pub fn u8_slice(&mut self, values: &[u8])
        ensures
            final(self).bytes@ == old(self).bytes@ + values@,
    {
        let n = values.len();
        let mut i: usize = 0;
        while i < n
            invariant
                n == values@.len(),
                i <= n,
                self.bytes@ == old(self).bytes@ + values@.take(i as int),
            decreases n - i,
        {
            self.bytes.push(values[i]);
            i = i + 1;
            assert(values@.take(i as int) =~= values@.take(i - 1).push(values@[i - 1]));
        }
        assert(values@.take(n as int) =~= values@);
    }

    pub fn u16_slice(&mut self, values: &[u16])
        ensures
            final(self).bytes@ == old(self).bytes@ + enc_u16s(values@),
    {
        let n = values.len();
        let mut i: usize = 0;
        while i < n
            invariant
                n == values@.len(),
                i <= n,
                self.bytes@ == old(self).bytes@ + enc_u16s(values@.take(i as int)),
            decreases n - i,
        {
            self.u16(values[i]);
            i = i + 1;
            assert(values@.take(i as int).drop_last() =~= values@.take(i - 1));
        }
        assert(values@.take(n as int) =~= values@);
    }

    pub fn i16_slice(&mut self, values: &[i16])
        ensures
            final(self).bytes@ == old(self).bytes@ + enc_i16s(values@),
    {
        let n = values.len();
        let mut i: usize = 0;
        while i < n
            invariant
                n == values@.len(),
                i <= n,
                self.bytes@ == old(self).bytes@ + enc_i16s(values@.take(i as int)),
            decreases n - i,
        {
            self.i16(values[i]);
            i = i + 1;
            assert(values@.take(i as int).drop_last() =~= values@.take(i - 1));
        }
        assert(values@.take(n as int) =~= values@);
    }

    /// Length-prefixed UTF-8 string; the length is written as `u32`.
    pub fn string(&mut self, value: &str)
        ensures
            final(self).bytes@ == old(self).bytes@ + enc_string(value@),
    {
        let bytes = value.as_bytes();
        #[verifier::truncate]
        let len = bytes.len() as u32;
        self.u32(len);
        self.u8_slice(bytes);
    }
}

// ---------------------------------------------------------------------------
// Block writers.

fn write_rect_payload(writer: &mut BinWriter, block: &RectSoABlock)
    ensures
        final(writer).bytes@ == old(writer).bytes@ + enc_rect_payload(block@),
{
    writer.u16_slice(block.meta.as_slice());
    writer.i16_slice(block.x.as_slice());
    writer.i16_slice(block.y.as_slice());
    writer.u16_slice(block.w.as_slice());
    writer.u16_slice(block.h.as_slice());
    writer.i16_slice(block.rotation.as_slice());
    writer.i16_slice(block.editor_layer.as_slice());
    assert(writer.bytes@ =~= old(writer).bytes@ + enc_rect_payload(block@));
}

fn write_rect_block(writer: &mut BinWriter, tag: u8, block: &RectSoABlock)
    ensures
        final(writer).bytes@ == old(writer).bytes@ + enc_rect_block(tag, block@),
{
    writer.u8(tag);
    #[verifier::truncate]
    let count = block.len() as u32;
    writer.u32(count);
    write_rect_payload(writer, block);
    assert(writer.bytes@ =~= old(writer).bytes@ + enc_rect_block(tag, block@));
}

fn write_door_block(writer: &mut BinWriter, block: &DoorSoABlock)
    ensures
        final(writer).bytes@ == old(writer).bytes@ + enc_door_block(block@),
{
    writer.u8(BLOCK_DOORS);
    #[verifier::truncate]
    let count = block.len() as u32;
    writer.u32(count);
    write_rect_payload(writer, &block.rects);
    writer.u16_slice(block.radius.as_slice());
    writer.u16_slice(block.speed.as_slice());
    writer.u8_slice(block.automatic.as_slice());
    assert(writer.bytes@ =~= old(writer).bytes@ + enc_door_block(block@));
}

fn write_trigger_block(writer: &mut BinWriter, block: &TriggerSoABlock)
    ensures
        final(writer).bytes@ == old(writer).bytes@ + enc_trigger_block(block@),
{
    writer.u8(BLOCK_TRIGGERS);
    #[verifier::truncate]
    let count = block.len() as u32;
    writer.u32(count);
    write_rect_payload(writer, &block.rects);
    writer.u8_slice(block.kind.as_slice());
    writer.u16_slice(block.enemy_id.as_slice());
    assert(writer.bytes@ =~= old(writer).bytes@ + enc_trigger_block(block@));
}

fn write_enemy_spawn_block(writer: &mut BinWriter, block: &EnemySpawnSoABlock)
    ensures
        final(writer).bytes@ == old(writer).bytes@ + enc_enemy_spawn_block(block@),
{
    writer.u8(BLOCK_ENEMY_SPAWNS);
    #[verifier::truncate]
    let count = block.x.len() as u32;
    writer.u32(count);
    writer.u16_slice(block.meta.as_slice());
    writer.i16_slice(block.x.as_slice());
    writer.i16_slice(block.y.as_slice());
    writer.u8_slice(block.kind.as_slice());
    writer.u16_slice(block.spawn_id.as_slice());
    writer.u16_slice(block.spawn_wave.as_slice());
    writer.i16_slice(block.editor_layer.as_slice());
    assert(writer.bytes@ =~= old(writer).bytes@ + enc_enemy_spawn_block(block@));
}

fn write_text_point_block(writer: &mut BinWriter, block: &TextPointSoABlock)
    ensures
        final(writer).bytes@ == old(writer).bytes@ + enc_text_point_block(block@),
{
    writer.u8(BLOCK_TEXT_POINTS);
    #[verifier::truncate]
    let count = block.x.len() as u32;
    writer.u32(count);
    writer.u16_slice(block.meta.as_slice());
    writer.i16_slice(block.x.as_slice());
    writer.i16_slice(block.y.as_slice());
    writer.i16_slice(block.editor_layer.as_slice());
    let ghost before = writer.bytes@;
    let n = block.text.len();
    let mut i: usize = 0;
    while i < n
        invariant
            n == block.text@.len(),
            i <= n,
            writer.bytes@ == before + enc_strings(strings_view(block.text@).take(i as int)),
        decreases n - i,
    {
        writer.string(block.text[i].as_str());
        i = i + 1;
        assert(strings_view(block.text@).take(i as int).drop_last() =~= strings_view(
            block.text@,
        ).take(i - 1));
    }
    assert(strings_view(block.text@).take(n as int) =~= strings_view(block.text@));
    assert(writer.bytes@ =~= old(writer).bytes@ + enc_text_point_block(block@));
}

fn write_world_portal_block(writer: &mut BinWriter, block: &WorldPortalSoABlock)
    ensures
        final(writer).bytes@ == old(writer).bytes@ + enc_world_portal_block(block@),
{
    writer.u8(BLOCK_WORLD_PORTALS);
    #[verifier::truncate]
    let count = block.x.len() as u32;
    writer.u32(count);
    let ghost head = writer.bytes@;
    writer.u16_slice(block.meta.as_slice());
    writer.i16_slice(block.x.as_slice());
    writer.i16_slice(block.y.as_slice());
    writer.i16_slice(block.normal_x.as_slice());
    writer.i16_slice(block.normal_y.as_slice());
    writer.i16_slice(block.tangent_x.as_slice());
    writer.i16_slice(block.tangent_y.as_slice());
    assert(writer.bytes@ =~= head + enc_portal_geometry(block@));
    let ghost mid = writer.bytes@;
    writer.u16_slice(block.width.as_slice());
    writer.u16_slice(block.portal_id.as_slice());
    writer.u16_slice(block.receiver_id.as_slice());
    writer.i16_slice(block.priority.as_slice());
    writer.u16_slice(block.scale.as_slice());
    writer.u8_slice(block.flags.as_slice());
    writer.u16_slice(block.seamless_depth.as_slice());
    writer.u16_slice(block.seamless_angle.as_slice());
    writer.i16_slice(block.editor_layer.as_slice());
    assert(writer.bytes@ =~= mid + enc_portal_links(block@));
    assert(writer.bytes@ =~= old(writer).bytes@ + enc_world_portal_block(block@));
}

/// Serializes a chunk: header, then the eight blocks in tag order.
pub fn encode_chunk(chunk: &WorldChunk) -> (res: Vec<u8>)
    ensures
        res@ == enc_chunk(chunk@),
{
    let mut writer = BinWriter::new();
    writer.u8_slice(&CHUNK_MAGIC);
    writer.u32(chunk.chunk_id);
    writer.i32(chunk.origin_q[0]);
    writer.i32(chunk.origin_q[1]);
    writer.i16_slice(&chunk.bounds_local);
    writer.u16(8);
    write_rect_block(&mut writer, BLOCK_STATIC_RECTS, &chunk.static_rects);
    write_rect_block(&mut writer, BLOCK_HAZARD_RECTS, &chunk.hazard_rects);
    write_door_block(&mut writer, &chunk.doors);
    write_rect_block(&mut writer, BLOCK_CHECKPOINTS, &chunk.checkpoints);
    write_trigger_block(&mut writer, &chunk.triggers);
    write_enemy_spawn_block(&mut writer, &chunk.enemy_spawns);
    write_text_point_block(&mut writer, &chunk.text_points);
    write_world_portal_block(&mut writer, &chunk.world_portals);
    assert(CHUNK_MAGIC@ =~= chunk_magic());
    assert(writer.bytes@ =~= enc_chunk(chunk@));
    writer.bytes
}

// ---------------------------------------------------------------------------
// Decoding, as a parser over the byte sequence: each step takes an offset and
// gives back the value read and the offset after it, or `None` when the bytes run out
// or do not form a valid value.

pub open spec fn dec_bytes(s: Seq<u8>, off: int, n: int) -> Option<(Seq<u8>, int)> {
    if 0 <= off && 0 <= n && off + n <= s.len() {
        Some((s.subrange(off, off + n), off + n))
    } else {
        None
    }
}

pub open spec fn dec_u8(s: Seq<u8>, off: int) -> Option<(u8, int)> {
    if 0 <= off && off + 1 <= s.len() {
        Some((s[off], off + 1))
    } else {
        None
    }
}

/// Little-endian value of two bytes.
pub open spec fn from_le2(b0: u8, b1: u8) -> int {
    b0 + 256 * b1
}

/// Little-endian value of four bytes.
pub open spec fn from_le4(b0: u8, b1: u8, b2: u8, b3: u8) -> int {
    b0 + 256 * b1 + 65536 * b2 + 16777216 * b3
}

pub open spec fn dec_u16(s: Seq<u8>, off: int) -> Option<(u16, int)> {
    if 0 <= off && off + 2 <= s.len() {
        Some((from_le2(s[off], s[off + 1]) as u16, off + 2))
    } else {
        None
    }
}

/// The `i16` with the given two's complement bit pattern.
pub open spec fn i16_of_bits(bits: int) -> i16 {
    (if bits >= 32768 { bits - 65536 } else { bits }) as i16
}

/// The `i32` with the given two's complement bit pattern.
pub open spec fn i32_of_bits(bits: int) -> i32 {
    (if bits >= 2147483648 { bits - 4294967296 } else { bits }) as i32
}

pub open spec fn dec_i16(s: Seq<u8>, off: int) -> Option<(i16, int)> {
    if 0 <= off && off + 2 <= s.len() {
        Some((i16_of_bits(from_le2(s[off], s[off + 1])), off + 2))
    } else {
        None
    }
}

pub open spec fn dec_u32(s: Seq<u8>, off: int) -> Option<(u32, int)> {
    if 0 <= off && off + 4 <= s.len() {
        Some((from_le4(s[off], s[off + 1], s[off + 2], s[off + 3]) as u32, off + 4))
    } else {
        None
    }
}

pub open spec fn dec_i32(s: Seq<u8>, off: int) -> Option<(i32, int)> {
    if 0 <= off && off + 4 <= s.len() {
        Some((i32_of_bits(from_le4(s[off], s[off + 1], s[off + 2], s[off + 3])), off + 4))
    } else {
        None
    }
}

pub open spec fn dec_u16s(s: Seq<u8>, off: int, n: nat) -> Option<(Seq<u16>, int)>
    decreases n,
{
    if n == 0 {
        Some((Seq::empty(), off))
    } else {
        match dec_u16s(s, off, (n - 1) as nat) {
            Some((vs, o)) => match dec_u16(s, o) {
                Some((v, o2)) => Some((vs.push(v), o2)),
                None => None,
            },
            None => None,
        }
    }
}

pub open spec fn dec_i16s(s: Seq<u8>, off: int, n: nat) -> Option<(Seq<i16>, int)>
    decreases n,
{
    if n == 0 {
        Some((Seq::empty(), off))
    } else {
        match dec_i16s(s, off, (n - 1) as nat) {
            Some((vs, o)) => match dec_i16(s, o) {
                Some((v, o2)) => Some((vs.push(v), o2)),
                None => None,
            },
            None => None,
        }
    }
}

/// A length-prefixed string; the bytes must be valid UTF-8.
pub open spec fn dec_string(s: Seq<u8>, off: int) -> Option<(Seq<char>, int)> {
    match dec_u32(s, off) {
        Some((len, o)) => match dec_bytes(s, o, len as int) {
            Some((b, o2)) => if valid_utf8(b) {
                Some((decode_utf8(b), o2))
            } else {
                None
            },
            None => None,
        },
        None => None,
    }
}

pub open spec fn dec_strings(s: Seq<u8>, off: int, n: nat) -> Option<(Seq<Seq<char>>, int)>
    decreases n,
{
    if n == 0 {
        Some((Seq::empty(), off))
    } else {
        match dec_strings(s, off, (n - 1) as nat) {
            Some((vs, o)) => match dec_string(s, o) {
                Some((v, o2)) => Some((vs.push(v), o2)),
                None => None,
            },
            None => None,
        }
    }
}

pub open spec fn dec_rect_payload(s: Seq<u8>, off: int, n: nat) -> Option<(RectSoAModel, int)> {
    match dec_u16s(s, off, n) {
        None => None,
        Some((meta, o1)) => match dec_i16s(s, o1, n) {
            None => None,
            Some((x, o2)) => match dec_i16s(s, o2, n) {
                None => None,
                Some((y, o3)) => match dec_u16s(s, o3, n) {
                    None => None,
                    Some((w, o4)) => match dec_u16s(s, o4, n) {
                        None => None,
                        Some((h, o5)) => match dec_i16s(s, o5, n) {
                            None => None,
                            Some((rotation, o6)) => match dec_i16s(s, o6, n) {
                                None => None,
                                Some((editor_layer, o7)) => Some(
                                    (
                                        RectSoAModel { meta, x, y, w, h, rotation, editor_layer },
                                        o7,
                                    ),
                                ),
                            },
                        },
                    },
                },
            },
        },
    }
}

/// Count then payload of a rectangle block (the tag is already read).
pub open spec fn dec_rect_block(s: Seq<u8>, off: int) -> Option<(RectSoAModel, int)> {
    match dec_u32(s, off) {
        None => None,
        Some((count, o)) => dec_rect_payload(s, o, count as nat),
    }
}

pub open spec fn dec_door_block(s: Seq<u8>, off: int) -> Option<(DoorSoAModel, int)> {
    match dec_u32(s, off) {
        None => None,
        Some((count, o)) => match dec_rect_payload(s, o, count as nat) {
            None => None,
            Some((rects, o1)) => match dec_u16s(s, o1, count as nat) {
                None => None,
                Some((radius, o2)) => match dec_u16s(s, o2, count as nat) {
                    None => None,
                    Some((speed, o3)) => match dec_bytes(s, o3, count as int) {
                        None => None,
                        Some((automatic, o4)) => Some(
                            (DoorSoAModel { rects, radius, speed, automatic }, o4),
                        ),
                    },
                },
            },
        },
    }
}

pub open spec fn dec_trigger_block(s: Seq<u8>, off: int) -> Option<(TriggerSoAModel, int)> {
    match dec_u32(s, off) {
        None => None,
        Some((count, o)) => match dec_rect_payload(s, o, count as nat) {
            None => None,
            Some((rects, o1)) => match dec_bytes(s, o1, count as int) {
                None => None,
                Some((kind, o2)) => match dec_u16s(s, o2, count as nat) {
                    None => None,
                    Some((enemy_id, o3)) => Some((TriggerSoAModel { rects, kind, enemy_id }, o3)),
                },
            },
        },
    }
}

pub open spec fn dec_enemy_spawn_block(s: Seq<u8>, off: int) -> Option<(EnemySpawnSoAModel, int)> {
    match dec_u32(s, off) {
        None => None,
        Some((count, o)) => {
            let n = count as nat;
            match dec_u16s(s, o, n) {
                None => None,
                Some((meta, o1)) => match dec_i16s(s, o1, n) {
                    None => None,
                    Some((x, o2)) => match dec_i16s(s, o2, n) {
                        None => None,
                        Some((y, o3)) => match dec_bytes(s, o3, n as int) {
                            None => None,
                            Some((kind, o4)) => match dec_u16s(s, o4, n) {
                                None => None,
                                Some((spawn_id, o5)) => match dec_u16s(s, o5, n) {
                                    None => None,
                                    Some((spawn_wave, o6)) => match dec_i16s(s, o6, n) {
                                        None => None,
                                        Some((editor_layer, o7)) => Some(
                                            (
                                                EnemySpawnSoAModel {
                                                    meta,
                                                    x,
                                                    y,
                                                    kind,
                                                    spawn_id,
                                                    spawn_wave,
                                                    editor_layer,
                                                },
                                                o7,
                                            ),
                                        ),
                                    },
                                },
                            },
                        },
                    },
                },
            }
        },
    }
}

pub open spec fn dec_text_point_block(s: Seq<u8>, off: int) -> Option<(TextPointSoAModel, int)> {
    match dec_u32(s, off) {
        None => None,
        Some((count, o)) => {
            let n = count as nat;
            match dec_u16s(s, o, n) {
                None => None,
                Some((meta, o1)) => match dec_i16s(s, o1, n) {
                    None => None,
                    Some((x, o2)) => match dec_i16s(s, o2, n) {
                        None => None,
                        Some((y, o3)) => match dec_i16s(s, o3, n) {
                            None => None,
                            Some((editor_layer, o4)) => match dec_strings(s, o4, n) {
                                None => None,
                                Some((text, o5)) => Some(
                                    (TextPointSoAModel { meta, x, y, editor_layer, text }, o5),
                                ),
                            },
                        },
                    },
                },
            }
        },
    }
}

/// The first nine arrays of a world-portal block (through `scale`).
pub open spec fn dec_portal_geometry(s: Seq<u8>, off: int, n: nat) -> Option<
    (Seq<u16>, Seq<i16>, Seq<i16>, Seq<i16>, Seq<i16>, Seq<i16>, Seq<i16>, int),
> {
    match dec_u16s(s, off, n) {
        None => None,
        Some((meta, o1)) => match dec_i16s(s, o1, n) {
            None => None,
            Some((x, o2)) => match dec_i16s(s, o2, n) {
                None => None,
                Some((y, o3)) => match dec_i16s(s, o3, n) {
                    None => None,
                    Some((normal_x, o4)) => match dec_i16s(s, o4, n) {
                        None => None,
                        Some((normal_y, o5)) => match dec_i16s(s, o5, n) {
                            None => None,
                            Some((tangent_x, o6)) => match dec_i16s(s, o6, n) {
                                None => None,
                                Some((tangent_y, o7)) => Some(
                                    (meta, x, y, normal_x, normal_y, tangent_x, tangent_y, o7),
                                ),
                            },
                        },
                    },
                },
            },
        },
    }
}

/// The remaining arrays of a world-portal block.
pub open spec fn dec_portal_links(s: Seq<u8>, off: int, n: nat) -> Option<
    (Seq<u16>, Seq<u16>, Seq<u16>, Seq<i16>, Seq<u16>, Seq<u8>, Seq<u16>, Seq<u16>, Seq<i16>, int),
> {
    match dec_u16s(s, off, n) {
        None => None,
        Some((width, o1)) => match dec_u16s(s, o1, n) {
            None => None,
            Some((portal_id, o2)) => match dec_u16s(s, o2, n) {
                None => None,
                Some((receiver_id, o3)) => match dec_i16s(s, o3, n) {
                    None => None,
                    Some((priority, o4)) => match dec_u16s(s, o4, n) {
                        None => None,
                        Some((scale, o5)) => match dec_bytes(s, o5, n as int) {
                            None => None,
                            Some((flags, o6)) => match dec_u16s(s, o6, n) {
                                None => None,
                                Some((seamless_depth, o7)) => match dec_u16s(s, o7, n) {
                                    None => None,
                                    Some((seamless_angle, o8)) => match dec_i16s(s, o8, n) {
                                        None => None,
                                        Some((editor_layer, o9)) => Some(
                                            (
                                                width,
                                                portal_id,
                                                receiver_id,
                                                priority,
                                                scale,
                                                flags,
                                                seamless_depth,
                                                seamless_angle,
                                                editor_layer,
                                                o9,
                                            ),
                                        ),
                                    },
                                },
                            },
                        },
                    },
                },
            },
        },
    }
}

pub open spec fn dec_world_portal_block(s: Seq<u8>, off: int) -> Option<(WorldPortalSoAModel, int)> {
    match dec_u32(s, off) {
        None => None,
        Some((count, o)) => match dec_portal_geometry(s, o, count as nat) {
            None => None,
            Some((meta, x, y, normal_x, normal_y, tangent_x, tangent_y, o1)) => match dec_portal_links(
                s,
                o1,
                count as nat,
            ) {
                None => None,
                Some(
                    (
                        width,
                        portal_id,
                        receiver_id,
                        priority,
                        scale,
                        flags,
                        seamless_depth,
                        seamless_angle,
                        editor_layer,
                        o2,
                    ),
                ) => Some(
                    (
                        WorldPortalSoAModel {
                            meta,
                            x,
                            y,
                            normal_x,
                            normal_y,
                            tangent_x,
                            tangent_y,
                            width,
                            portal_id,
                            receiver_id,
                            priority,
                            scale,
                            flags,
                            seamless_depth,
                            seamless_angle,
                            editor_layer,
                        },
                        o2,
                    ),
                ),
            },
        },
    }
}

/// One tagged block; a later block of a tag replaces an earlier one.
pub open spec fn dec_block(s: Seq<u8>, off: int, c: WorldChunkModel) -> Option<(WorldChunkModel, int)> {
    match dec_u8(s, off) {
        None => None,
        Some((tag, o)) => if tag == BLOCK_STATIC_RECTS {
            match dec_rect_block(s, o) {
                None => None,
                Some((b, o2)) => Some((WorldChunkModel { static_rects: b, ..c }, o2)),
            }
        } else if tag == BLOCK_HAZARD_RECTS {
            match dec_rect_block(s, o) {
                None => None,
                Some((b, o2)) => Some((WorldChunkModel { hazard_rects: b, ..c }, o2)),
            }
        } else if tag == BLOCK_DOORS {
            match dec_door_block(s, o) {
                None => None,
                Some((b, o2)) => Some((WorldChunkModel { doors: b, ..c }, o2)),
            }
        } else if tag == BLOCK_CHECKPOINTS {
            match dec_rect_block(s, o) {
                None => None,
                Some((b, o2)) => Some((WorldChunkModel { checkpoints: b, ..c }, o2)),
            }
        } else if tag == BLOCK_TRIGGERS {
            match dec_trigger_block(s, o) {
                None => None,
                Some((b, o2)) => Some((WorldChunkModel { triggers: b, ..c }, o2)),
            }
        } else if tag == BLOCK_ENEMY_SPAWNS {
            match dec_enemy_spawn_block(s, o) {
                None => None,
                Some((b, o2)) => Some((WorldChunkModel { enemy_spawns: b, ..c }, o2)),
            }
        } else if tag == BLOCK_TEXT_POINTS {
            match dec_text_point_block(s, o) {
                None => None,
                Some((b, o2)) => Some((WorldChunkModel { text_points: b, ..c }, o2)),
            }
        } else if tag == BLOCK_WORLD_PORTALS {
            match dec_world_portal_block(s, o) {
                None => None,
                Some((b, o2)) => Some((WorldChunkModel { world_portals: b, ..c }, o2)),
            }
        } else {
            None
        },
    }
}

pub open spec fn dec_blocks(s: Seq<u8>, off: int, n: nat, c: WorldChunkModel) -> Option<
    (WorldChunkModel, int),
>
    decreases n,
{
    if n == 0 {
        Some((c, off))
    } else {
        match dec_blocks(s, off, (n - 1) as nat, c) {
            None => None,
            Some((c2, o)) => dec_block(s, o, c2),
        }
    }
}

pub open spec fn empty_rects() -> RectSoAModel {
    RectSoAModel {
        meta: Seq::empty(),
        x: Seq::empty(),
        y: Seq::empty(),
        w: Seq::empty(),
        h: Seq::empty(),
        rotation: Seq::empty(),
        editor_layer: Seq::empty(),
    }
}

/// A chunk with the given header and no objects.
pub open spec fn empty_chunk_model(chunk_id: u32, ox: i32, oy: i32, bounds: Seq<i16>) -> WorldChunkModel {
    WorldChunkModel {
        chunk_id,
        origin_x: ox,
        origin_y: oy,
        bounds_local: bounds,
        static_rects: empty_rects(),
        hazard_rects: empty_rects(),
        doors: DoorSoAModel {
            rects: empty_rects(),
            radius: Seq::empty(),
            speed: Seq::empty(),
            automatic: Seq::empty(),
        },
        checkpoints: empty_rects(),
        triggers: TriggerSoAModel { rects: empty_rects(), kind: Seq::empty(), enemy_id: Seq::empty() },
        enemy_spawns: EnemySpawnSoAModel {
            meta: Seq::empty(),
            x: Seq::empty(),
            y: Seq::empty(),
            kind: Seq::empty(),
            spawn_id: Seq::empty(),
            spawn_wave: Seq::empty(),
            editor_layer: Seq::empty(),
        },
        text_points: TextPointSoAModel {
            meta: Seq::empty(),
            x: Seq::empty(),
            y: Seq::empty(),
            editor_layer: Seq::empty(),
            text: Seq::empty(),
        },
        world_portals: WorldPortalSoAModel {
            meta: Seq::empty(),
            x: Seq::empty(),
            y: Seq::empty(),
            normal_x: Seq::empty(),
            normal_y: Seq::empty(),
            tangent_x: Seq::empty(),
            tangent_y: Seq::empty(),
            width: Seq::empty(),
            portal_id: Seq::empty(),
            receiver_id: Seq::empty(),
            priority: Seq::empty(),
            scale: Seq::empty(),
            flags: Seq::empty(),
            seamless_depth: Seq::empty(),
            seamless_angle: Seq::empty(),
            editor_layer: Seq::empty(),
        },
    }
}

/// The header fields and the offset where the blocks begin.
pub open spec fn dec_chunk_header(s: Seq<u8>) -> Option<(WorldChunkModel, u16, int)> {
    match dec_bytes(s, 0, 8) {
        None => None,
        Some((magic, o0)) => if magic != chunk_magic() {
            None
        } else {
            match dec_u32(s, o0) {
                None => None,
                Some((chunk_id, o1)) => match dec_i32(s, o1) {
                    None => None,
                    Some((ox, o2)) => match dec_i32(s, o2) {
                        None => None,
                        Some((oy, o3)) => match dec_i16s(s, o3, 4) {
                            None => None,
                            Some((bounds, o4)) => match dec_u16(s, o4) {
                                None => None,
                                Some((count, o5)) => Some(
                                    (empty_chunk_model(chunk_id, ox, oy, bounds), count, o5),
                                ),
                            },
                        },
                    },
                },
            }
        },
    }
}

/// What `decode_chunk` gives for a byte sequence: the decoded chunk, or `None` when the
/// bytes are not a complete chunk image (bad magic, truncated data, unknown block tag,
/// invalid UTF-8 text, or bytes left over after the last block).
pub open spec fn spec_decode_chunk(s: Seq<u8>) -> Option<WorldChunkModel> {
    match dec_chunk_header(s) {
        None => None,
        Some((c, count, o)) => match dec_blocks(s, o, count as nat, c) {
            None => None,
            Some((c2, end)) => if end == s.len() {
                Some(c2)
            } else {
                None
            },
        },
    }
}

// ---------------------------------------------------------------------------
// Failure of a repeated read is final: reading more items cannot succeed.

proof fn lemma_u16s_fail(s: Seq<u8>, off: int, m: nat, n: nat)
    requires
        m <= n,
        dec_u16s(s, off, m) is None,
    ensures
        dec_u16s(s, off, n) is None,
    decreases n - m,
{
    if m < n {
        lemma_u16s_fail(s, off, m, (n - 1) as nat);
    }
}

proof fn lemma_i16s_fail(s: Seq<u8>, off: int, m: nat, n: nat)
    requires
        m <= n,
        dec_i16s(s, off, m) is None,
    ensures
        dec_i16s(s, off, n) is None,
    decreases n - m,
{
    if m < n {
        lemma_i16s_fail(s, off, m, (n - 1) as nat);
    }
}

proof fn lemma_strings_fail(s: Seq<u8>, off: int, m: nat, n: nat)
    requires
        m <= n,
        dec_strings(s, off, m) is None,
    ensures
        dec_strings(s, off, n) is None,
    decreases n - m,
{
    if m < n {
        lemma_strings_fail(s, off, m, (n - 1) as nat);
    }
}

proof fn lemma_blocks_fail(s: Seq<u8>, off: int, m: nat, n: nat, c: WorldChunkModel)
    requires
        m <= n,
        dec_blocks(s, off, m, c) is None,
    ensures
        dec_blocks(s, off, n, c) is None,
    decreases n - m,
{
    if m < n {
        lemma_blocks_fail(s, off, m, (n - 1) as nat, c);
    }
}

// ---------------------------------------------------------------------------
// Reader.

/// Cursor over a byte slice with little-endian readers.
pub struct BinReader<'a> {
    pub bytes: &'a [u8],
    pub offset: usize,
}

/// `res` and the new reader position agree with the spec step `step` taken at the old
/// position: the value and position it gives on success, an error when it gives `None`.
pub open spec fn read_agrees<T, U>(
    step: Option<(T, int)>,
    res: PackageResult<U>,
    value_of: spec_fn(U) -> T,
    new_offset: int,
) -> bool {
    match step {
        Some((v, o)) => res is Ok && value_of(res->Ok_0) == v && new_offset == o,
        None => res matches Err(LevelPackageError::InvalidData(_)),
    }
}

impl<'a> BinReader<'a> {
    pub fn new(bytes: &'a [u8]) -> (r: Self)
        ensures
            r.bytes@ == bytes@,
            r.offset == 0,
    {
        BinReader { bytes, offset: 0 }
    }

    pub fn is_finished(&self) -> (b: bool)
        ensures
            b == (self.offset == self.bytes@.len()),
    {
        self.offset == self.bytes.len()
    }

    pub fn bytes(&mut self, len: usize) -> (res: PackageResult<&'a [u8]>)
        requires
            old(self).offset <= old(self).bytes@.len(),
        ensures
            final(self).bytes@ == old(self).bytes@,
            final(self).offset <= final(self).bytes@.len(),
            res is Err ==> final(self).offset == old(self).offset,
            read_agrees(
                dec_bytes(old(self).bytes@, old(self).offset as int, len as int),
                res,
                |r: &'a [u8]| r@,
                final(self).offset as int,
            ),
    {
        let total = self.bytes.len();
        let end = match self.offset.checked_add(len) {
            Some(end) => end,
            None => {
                return Err(invalid_data("binary read overflow"));
            },
        };
        if end > total {
            return Err(invalid_data("unexpected end of binary data"));
        }
        let slice = vstd::slice::slice_subrange(self.bytes, self.offset, end);
        self.offset = end;
        Ok(slice)
    }

    pub fn u8(&mut self) -> (res: PackageResult<u8>)
        requires
            old(self).offset <= old(self).bytes@.len(),
        ensures
            final(self).bytes@ == old(self).bytes@,
            final(self).offset <= final(self).bytes@.len(),
            res is Err ==> final(self).offset == old(self).offset,
            read_agrees(
                dec_u8(old(self).bytes@, old(self).offset as int),
                res,
                |v: u8| v,
                final(self).offset as int,
            ),
    {
        let b = self.bytes(1)?;
        Ok(b[0])
    }

    pub fn u16(&mut self) -> (res: PackageResult<u16>)
        requires
            old(self).offset <= old(self).bytes@.len(),
        ensures
            final(self).bytes@ == old(self).bytes@,
            final(self).offset <= final(self).bytes@.len(),
            res is Err ==> final(self).offset == old(self).offset,
            read_agrees(
                dec_u16(old(self).bytes@, old(self).offset as int),
                res,
                |v: u16| v,
                final(self).offset as int,
            ),
    {
        let b = self.bytes(2)?;
        Ok((b[0] as u32 + 256 * (b[1] as u32)) as u16)
    }

    pub fn i16(&mut self) -> (res: PackageResult<i16>)
        requires
            old(self).offset <= old(self).bytes@.len(),
        ensures
            final(self).bytes@ == old(self).bytes@,
            final(self).offset <= final(self).bytes@.len(),
            res is Err ==> final(self).offset == old(self).offset,
            read_agrees(
                dec_i16(old(self).bytes@, old(self).offset as int),
                res,
                |v: i16| v,
                final(self).offset as int,
            ),
    {
        let b = self.bytes(2)?;
        let bits: i32 = b[0] as i32 + 256 * (b[1] as i32);
        if bits >= 32768 {
            Ok((bits - 65536) as i16)
        } else {
            Ok(bits as i16)
        }
    }

    pub fn u32(&mut self) -> (res: PackageResult<u32>)
        requires
            old(self).offset <= old(self).bytes@.len(),
        ensures
            final(self).bytes@ == old(self).bytes@,
            final(self).offset <= final(self).bytes@.len(),
            res is Err ==> final(self).offset == old(self).offset,
            read_agrees(
                dec_u32(old(self).bytes@, old(self).offset as int),
                res,
                |v: u32| v,
                final(self).offset as int,
            ),
    {
        let b = self.bytes(4)?;
        Ok((b[0] as u64 + 256 * (b[1] as u64) + 65536 * (b[2] as u64) + 16777216 * (
        b[3] as u64)) as u32)
    }

    pub fn i32(&mut self) -> (res: PackageResult<i32>)
        requires
            old(self).offset <= old(self).bytes@.len(),
        ensures
            final(self).bytes@ == old(self).bytes@,
            final(self).offset <= final(self).bytes@.len(),
            res is Err ==> final(self).offset == old(self).offset,
            read_agrees(
                dec_i32(old(self).bytes@, old(self).offset as int),
                res,
                |v: i32| v,
                final(self).offset as int,
            ),
    {
        let b = self.bytes(4)?;
        let bits: i64 = b[0] as i64 + 256 * (b[1] as i64) + 65536 * (b[2] as i64) + 16777216 * (
        b[3] as i64);
        if bits >= 2147483648 {
            Ok((bits - 4294967296) as i32)
        } else {
            Ok(bits as i32)
        }
    }

    /// A length-prefixed UTF-8 string.
    pub fn string(&mut self) -> (res: PackageResult<String>)
        requires
            old(self).offset <= old(self).bytes@.len(),
        ensures
            final(self).bytes@ == old(self).bytes@,
            final(self).offset <= final(self).bytes@.len(),
            read_agrees(
                dec_string(old(self).bytes@, old(self).offset as int),
                res,
                |v: String| v@,
                final(self).offset as int,
            ),
    {
        let len = self.u32()? as usize;
        let bytes = self.bytes(len)?;
        match string_from_utf8(bytes) {
            Some(s) => Ok(s),
            None => Err(invalid_data("invalid utf-8 string in chunk")),
        }
    }

    pub fn u8_vec(&mut self, count: usize) -> (res: PackageResult<Vec<u8>>)
        requires
            old(self).offset <= old(self).bytes@.len(),
        ensures
            final(self).bytes@ == old(self).bytes@,
            final(self).offset <= final(self).bytes@.len(),
            read_agrees(
                dec_bytes(old(self).bytes@, old(self).offset as int, count as int),
                res,
                |v: Vec<u8>| v@,
                final(self).offset as int,
            ),
    {
        let b = self.bytes(count)?;
        Ok(vstd::slice::slice_to_vec(b))
    }

    pub fn u16_vec(&mut self, count: usize) -> (res: PackageResult<Vec<u16>>)
        requires
            old(self).offset <= old(self).bytes@.len(),
        ensures
            final(self).bytes@ == old(self).bytes@,
            final(self).offset <= final(self).bytes@.len(),
            read_agrees(
                dec_u16s(old(self).bytes@, old(self).offset as int, count as nat),
                res,
                |v: Vec<u16>| v@,
                final(self).offset as int,
            ),
    {
        let ghost s = self.bytes@;
        let ghost start = self.offset as int;
        let mut out: Vec<u16> = Vec::new();
        let mut i: usize = 0;
        while i < count
            invariant
                self.bytes@ == s,
                s == old(self).bytes@,
                start == old(self).offset as int,
                self.offset <= self.bytes@.len(),
                i <= count,
                dec_u16s(s, start, i as nat) == Some((out@, self.offset as int)),
            decreases count - i,
        {
            let r = self.u16();
            match r {
                Ok(v) => {
                    out.push(v);
                },
                Err(e) => {
                    proof {
                        lemma_u16s_fail(s, start, (i + 1) as nat, count as nat);
                    }
                    return Err(e);
                },
            }
            i = i + 1;
        }
        Ok(out)
    }

    pub fn i16_vec(&mut self, count: usize) -> (res: PackageResult<Vec<i16>>)
        requires
            old(self).offset <= old(self).bytes@.len(),
        ensures
            final(self).bytes@ == old(self).bytes@,
            final(self).offset <= final(self).bytes@.len(),
            read_agrees(
                dec_i16s(old(self).bytes@, old(self).offset as int, count as nat),
                res,
                |v: Vec<i16>| v@,
                final(self).offset as int,
            ),
    {
        let ghost s = self.bytes@;
        let ghost start = self.offset as int;
        let mut out: Vec<i16> = Vec::new();
        let mut i: usize = 0;
        while i < count
            invariant
                self.bytes@ == s,
                s == old(self).bytes@,
                start == old(self).offset as int,
                self.offset <= self.bytes@.len(),
                i <= count,
                dec_i16s(s, start, i as nat) == Some((out@, self.offset as int)),
            decreases count - i,
        {
            let r = self.i16();
            match r {
                Ok(v) => {
                    out.push(v);
                },
                Err(e) => {
                    proof {
                        lemma_i16s_fail(s, start, (i + 1) as nat, count as nat);
                    }
                    return Err(e);
                },
            }
            i = i + 1;
        }
        Ok(out)
    }

    pub fn string_vec(&mut self, count: usize) -> (res: PackageResult<Vec<String>>)
        requires
            old(self).offset <= old(self).bytes@.len(),
        ensures
            final(self).bytes@ == old(self).bytes@,
            final(self).offset <= final(self).bytes@.len(),
            read_agrees(
                dec_strings(old(self).bytes@, old(self).offset as int, count as nat),
                res,
                |v: Vec<String>| strings_view(v@),
                final(self).offset as int,
            ),
    {
        let ghost s = self.bytes@;
        let ghost start = self.offset as int;
        let mut out: Vec<String> = Vec::new();
        let mut i: usize = 0;
        while i < count
            invariant
                self.bytes@ == s,
                s == old(self).bytes@,
                start == old(self).offset as int,
                self.offset <= self.bytes@.len(),
                i <= count,
                dec_strings(s, start, i as nat) == Some((strings_view(out@), self.offset as int)),
            decreases count - i,
        {
            let r = self.string();
            match r {
                Ok(v) => {
                    let ghost before = out@;
                    out.push(v);
                    assert(strings_view(out@) =~= strings_view(before).push(v@));
                },
                Err(e) => {
                    proof {
                        lemma_strings_fail(s, start, (i + 1) as nat, count as nat);
                    }
                    return Err(e);
                },
            }
            i = i + 1;
        }
        Ok(out)
    }
}

/// `String::from_utf8` on a copy of the bytes: the string when they are valid UTF-8.
#[verifier::external_body]
fn string_from_utf8(bytes: &[u8]) -> (res: Option<String>)
    ensures
        res is Some <==> valid_utf8(bytes@),
        res matches Some(s) ==> s@ == decode_utf8(bytes@),
{
    String::from_utf8(bytes.to_vec()).ok()
}

// ---------------------------------------------------------------------------
// Block readers.

fn read_rect_payload(reader: &mut BinReader, count: usize) -> (res: PackageResult<RectSoABlock>)
    requires
        old(reader).offset <= old(reader).bytes@.len(),
    ensures
        final(reader).bytes@ == old(reader).bytes@,
        final(reader).offset <= final(reader).bytes@.len(),
        read_agrees(
            dec_rect_payload(old(reader).bytes@, old(reader).offset as int, count as nat),
            res,
            |b: RectSoABlock| b@,
            final(reader).offset as int,
        ),
{
    let meta = reader.u16_vec(count)?;
    let x = reader.i16_vec(count)?;
    let y = reader.i16_vec(count)?;
    let w = reader.u16_vec(count)?;
    let h = reader.u16_vec(count)?;
    let rotation = reader.i16_vec(count)?;
    let editor_layer = reader.i16_vec(count)?;
    Ok(RectSoABlock { meta, x, y, w, h, rotation, editor_layer })
}

fn read_rect_block(reader: &mut BinReader) -> (res: PackageResult<RectSoABlock>)
    requires
        old(reader).offset <= old(reader).bytes@.len(),
    ensures
        final(reader).bytes@ == old(reader).bytes@,
        final(reader).offset <= final(reader).bytes@.len(),
        read_agrees(
            dec_rect_block(old(reader).bytes@, old(reader).offset as int),
            res,
            |b: RectSoABlock| b@,
            final(reader).offset as int,
        ),
{
    let count = reader.u32()? as usize;
    read_rect_payload(reader, count)
}

fn read_door_block(reader: &mut BinReader) -> (res: PackageResult<DoorSoABlock>)
    requires
        old(reader).offset <= old(reader).bytes@.len(),
    ensures
        final(reader).bytes@ == old(reader).bytes@,
        final(reader).offset <= final(reader).bytes@.len(),
        read_agrees(
            dec_door_block(old(reader).bytes@, old(reader).offset as int),
            res,
            |b: DoorSoABlock| b@,
            final(reader).offset as int,
        ),
{
    let count = reader.u32()? as usize;
    let rects = read_rect_payload(reader, count)?;
    let radius = reader.u16_vec(count)?;
    let speed = reader.u16_vec(count)?;
    let automatic = reader.u8_vec(count)?;
    Ok(DoorSoABlock { rects, radius, speed, automatic })
}

fn read_trigger_block(reader: &mut BinReader) -> (res: PackageResult<TriggerSoABlock>)
    requires
        old(reader).offset <= old(reader).bytes@.len(),
    ensures
        final(reader).bytes@ == old(reader).bytes@,
        final(reader).offset <= final(reader).bytes@.len(),
        read_agrees(
            dec_trigger_block(old(reader).bytes@, old(reader).offset as int),
            res,
            |b: TriggerSoABlock| b@,
            final(reader).offset as int,
        ),
{
    let count = reader.u32()? as usize;
    let rects = read_rect_payload(reader, count)?;
    let kind = reader.u8_vec(count)?;
    let enemy_id = reader.u16_vec(count)?;
    Ok(TriggerSoABlock { rects, kind, enemy_id })
}

fn read_enemy_spawn_block(reader: &mut BinReader) -> (res: PackageResult<EnemySpawnSoABlock>)
    requires
        old(reader).offset <= old(reader).bytes@.len(),
    ensures
        final(reader).bytes@ == old(reader).bytes@,
        final(reader).offset <= final(reader).bytes@.len(),
        read_agrees(
            dec_enemy_spawn_block(old(reader).bytes@, old(reader).offset as int),
            res,
            |b: EnemySpawnSoABlock| b@,
            final(reader).offset as int,
        ),
{
    let count = reader.u32()? as usize;
    let meta = reader.u16_vec(count)?;
    let x = reader.i16_vec(count)?;
    let y = reader.i16_vec(count)?;
    let kind = reader.u8_vec(count)?;
    let spawn_id = reader.u16_vec(count)?;
    let spawn_wave = reader.u16_vec(count)?;
    let editor_layer = reader.i16_vec(count)?;
    Ok(EnemySpawnSoABlock { meta, x, y, kind, spawn_id, spawn_wave, editor_layer })
}

fn read_text_point_block(reader: &mut BinReader) -> (res: PackageResult<TextPointSoABlock>)
    requires
        old(reader).offset <= old(reader).bytes@.len(),
    ensures
        final(reader).bytes@ == old(reader).bytes@,
        final(reader).offset <= final(reader).bytes@.len(),
        read_agrees(
            dec_text_point_block(old(reader).bytes@, old(reader).offset as int),
            res,
            |b: TextPointSoABlock| b@,
            final(reader).offset as int,
        ),
{
    let count = reader.u32()? as usize;
    let meta = reader.u16_vec(count)?;
    let x = reader.i16_vec(count)?;
    let y = reader.i16_vec(count)?;
    let editor_layer = reader.i16_vec(count)?;
    let text = reader.string_vec(count)?;
    Ok(TextPointSoABlock { meta, x, y, editor_layer, text })
}

fn read_world_portal_block(reader: &mut BinReader) -> (res: PackageResult<WorldPortalSoABlock>)
    requires
        old(reader).offset <= old(reader).bytes@.len(),
    ensures
        final(reader).bytes@ == old(reader).bytes@,
        final(reader).offset <= final(reader).bytes@.len(),
        read_agrees(
            dec_world_portal_block(old(reader).bytes@, old(reader).offset as int),
            res,
            |b: WorldPortalSoABlock| b@,
            final(reader).offset as int,
        ),
{
    let count = reader.u32()? as usize;
    let meta = reader.u16_vec(count)?;
    let x = reader.i16_vec(count)?;
    let y = reader.i16_vec(count)?;
    let normal_x = reader.i16_vec(count)?;
    let normal_y = reader.i16_vec(count)?;
    let tangent_x = reader.i16_vec(count)?;
    let tangent_y = reader.i16_vec(count)?;
    let width = reader.u16_vec(count)?;
    let portal_id = reader.u16_vec(count)?;
    let receiver_id = reader.u16_vec(count)?;
    let priority = reader.i16_vec(count)?;
    let scale = reader.u16_vec(count)?;
    let flags = reader.u8_vec(count)?;
    let seamless_depth = reader.u16_vec(count)?;
    let seamless_angle = reader.u16_vec(count)?;
    let editor_layer = reader.i16_vec(count)?;
    Ok(
        WorldPortalSoABlock {
            meta,
            x,
            y,
            normal_x,
            normal_y,
            tangent_x,
            tangent_y,
            width,
            portal_id,
            receiver_id,
            priority,
            scale,
            flags,
            seamless_depth,
            seamless_angle,
            editor_layer,
        },
    )
}

fn empty_rect_block() -> (b: RectSoABlock)
    ensures
        b@ == empty_rects(),
{
    RectSoABlock {
        meta: Vec::new(),
        x: Vec::new(),
        y: Vec::new(),
        w: Vec::new(),
        h: Vec::new(),
        rotation: Vec::new(),
        editor_layer: Vec::new(),
    }
}

/// A chunk with the given header and no objects.
pub fn empty_world_chunk(chunk_id: u32, origin_q: [i32; 2], bounds_local: [i16; 4]) -> (c: WorldChunk)
    ensures
        c@ == empty_chunk_model(chunk_id, origin_q[0], origin_q[1], bounds_local@),
{
    let c = WorldChunk {
        chunk_id,
        origin_q,
        bounds_local,
        static_rects: empty_rect_block(),
        hazard_rects: empty_rect_block(),
        doors: DoorSoABlock {
            rects: empty_rect_block(),
            radius: Vec::new(),
            speed: Vec::new(),
            automatic: Vec::new(),
        },
        checkpoints: empty_rect_block(),
        triggers: TriggerSoABlock { rects: empty_rect_block(), kind: Vec::new(), enemy_id: Vec::new() },
        enemy_spawns: EnemySpawnSoABlock {
            meta: Vec::new(),
            x: Vec::new(),
            y: Vec::new(),
            kind: Vec::new(),
            spawn_id: Vec::new(),
            spawn_wave: Vec::new(),
            editor_layer: Vec::new(),
        },
        text_points: TextPointSoABlock {
            meta: Vec::new(),
            x: Vec::new(),
            y: Vec::new(),
            editor_layer: Vec::new(),
            text: Vec::new(),
        },
        world_portals: WorldPortalSoABlock {
            meta: Vec::new(),
            x: Vec::new(),
            y: Vec::new(),
            normal_x: Vec::new(),
            normal_y: Vec::new(),
            tangent_x: Vec::new(),
            tangent_y: Vec::new(),
            width: Vec::new(),
            portal_id: Vec::new(),
            receiver_id: Vec::new(),
            priority: Vec::new(),
            scale: Vec::new(),
            flags: Vec::new(),
            seamless_depth: Vec::new(),
            seamless_angle: Vec::new(),
            editor_layer: Vec::new(),
        },
    };
    assert(c.text_points@.text =~= Seq::<Seq<char>>::empty());
    assert(c@ =~= empty_chunk_model(chunk_id, origin_q[0], origin_q[1], bounds_local@));
    c
}

fn is_chunk_magic(magic: &[u8]) -> (res: bool)
    ensures
        res == (magic@ == chunk_magic()),
{
    if magic.len() != 8 {
        return false;
    }
    let ok = magic[0] == 87 && magic[1] == 67 && magic[2] == 72 && magic[3] == 85 && magic[4] == 78
        && magic[5] == 75 && magic[6] == 52 && magic[7] == 0;
    if ok {
        assert(magic@ =~= chunk_magic());
    } else {
        assert(magic@ != chunk_magic()) by {
            if magic@ == chunk_magic() {
                assert(magic@[0] == chunk_magic()[0]);
            }
        }
    }
    ok
}

fn read_block(reader: &mut BinReader, chunk: &mut WorldChunk) -> (res: PackageResult<()>)
    requires
        old(reader).offset <= old(reader).bytes@.len(),
    ensures
        final(reader).bytes@ == old(reader).bytes@,
        final(reader).offset <= final(reader).bytes@.len(),
        match dec_block(old(reader).bytes@, old(reader).offset as int, old(chunk)@) {
            Some((c, o)) => res is Ok && final(chunk)@ == c && final(reader).offset == o,
            None => res matches Err(LevelPackageError::InvalidData(_)),
        },
{
    let tag = reader.u8()?;
    if tag == BLOCK_STATIC_RECTS {
        chunk.static_rects = read_rect_block(reader)?;
    } else if tag == BLOCK_HAZARD_RECTS {
        chunk.hazard_rects = read_rect_block(reader)?;
    } else if tag == BLOCK_DOORS {
        chunk.doors = read_door_block(reader)?;
    } else if tag == BLOCK_CHECKPOINTS {
        chunk.checkpoints = read_rect_block(reader)?;
    } else if tag == BLOCK_TRIGGERS {
        chunk.triggers = read_trigger_block(reader)?;
    } else if tag == BLOCK_ENEMY_SPAWNS {
        chunk.enemy_spawns = read_enemy_spawn_block(reader)?;
    } else if tag == BLOCK_TEXT_POINTS {
        chunk.text_points = read_text_point_block(reader)?;
    } else if tag == BLOCK_WORLD_PORTALS {
        chunk.world_portals = read_world_portal_block(reader)?;
    } else {
        let tag_text = format_u64(tag as u64);
        return Err(invalid_data_string(concat("unknown .wchunk block tag ", tag_text.as_str())));
    }
    Ok(())
}

fn read_chunk_header(reader: &mut BinReader) -> (res: PackageResult<(WorldChunk, u16)>)
    requires
        old(reader).offset == 0,
    ensures
        final(reader).bytes@ == old(reader).bytes@,
        final(reader).offset <= final(reader).bytes@.len(),
        match dec_chunk_header(old(reader).bytes@) {
            Some((c, n, o)) => res matches Ok(r) && r.0@ == c && r.1 == n && final(reader).offset == o,
            None => res matches Err(LevelPackageError::InvalidData(_)),
        },
{
    let ghost s = reader.bytes@;
    proof {
        reveal_with_fuel(dec_i16s, 5);
    }
    let magic = reader.bytes(8)?;
    if !is_chunk_magic(magic) {
        return Err(invalid_data("invalid .wchunk magic"));
    }
    let chunk_id = reader.u32()?;
    let ox = reader.i32()?;
    let oy = reader.i32()?;
    let ghost o3 = reader.offset as int;
    let b0 = reader.i16()?;
    let b1 = reader.i16()?;
    let b2 = reader.i16()?;
    let b3 = reader.i16()?;
    assert(dec_i16s(s, o3, 1) == Some((seq![b0], o3 + 2)));
    assert(dec_i16s(s, o3, 2) == Some((seq![b0, b1], o3 + 4)));
    assert(dec_i16s(s, o3, 3) == Some((seq![b0, b1, b2], o3 + 6)));
    assert(dec_i16s(s, o3, 4) == Some((seq![b0, b1, b2, b3], o3 + 8)));
    let block_count = reader.u16()?;
    let chunk = empty_world_chunk(chunk_id, [ox, oy], [b0, b1, b2, b3]);
    assert([b0, b1, b2, b3]@ =~= seq![b0, b1, b2, b3]);
    Ok((chunk, block_count))
}

/// Reads one chunk image. It succeeds exactly when the bytes form a complete chunk
/// (see `spec_decode_chunk`), and gives back the chunk they describe.
pub fn decode_chunk(bytes: &[u8]) -> (res: PackageResult<WorldChunk>)
    ensures
        match spec_decode_chunk(bytes@) {
            Some(c) => res matches Ok(r) && r@ == c,
            None => res matches Err(LevelPackageError::InvalidData(_)),
        },
        res matches Ok(r) ==> chunk_wf(r@),
{
    proof {
        lemma_decoded_chunk_wf(bytes@);
    }
    let ghost s = bytes@;
    let mut reader = BinReader::new(bytes);
    let (mut chunk, block_count) = read_chunk_header(&mut reader)?;
    let ghost start = reader.offset as int;
    let ghost c0 = chunk@;
    let mut i: u16 = 0;
    while i < block_count
        invariant
            reader.bytes@ == s,
            s == bytes@,
            reader.offset <= reader.bytes@.len(),
            i <= block_count,
            dec_chunk_header(s) == Some((c0, block_count, start)),
            dec_blocks(s, start, i as nat, c0) == Some((chunk@, reader.offset as int)),
        decreases block_count - i,
    {
        match read_block(&mut reader, &mut chunk) {
            Ok(()) => {},
            Err(e) => {
                proof {
                    lemma_blocks_fail(s, start, (i + 1) as nat, block_count as nat, c0);
                }
                return Err(e);
            },
        }
        i = i + 1;
    }
    if !reader.is_finished() {
        return Err(invalid_data("trailing bytes after .wchunk blocks"));
    }
    Ok(chunk)
}

// ---------------------------------------------------------------------------
// Well-formed chunks, and the round-trip law.

/// All arrays of a rectangle block have the length of `x`, and that length fits the `u32`
/// count field.
pub open spec fn rect_wf(b: RectSoAModel) -> bool {
    let n = b.x.len();
    &&& n <= u32::MAX
    &&& b.meta.len() == n
    &&& b.y.len() == n
    &&& b.w.len() == n
    &&& b.h.len() == n
    &&& b.rotation.len() == n
    &&& b.editor_layer.len() == n
}

pub open spec fn door_wf(b: DoorSoAModel) -> bool {
    let n = b.rects.x.len();
    &&& rect_wf(b.rects)
    &&& b.radius.len() == n
    &&& b.speed.len() == n
    &&& b.automatic.len() == n
}

pub open spec fn trigger_wf(b: TriggerSoAModel) -> bool {
    let n = b.rects.x.len();
    &&& rect_wf(b.rects)
    &&& b.kind.len() == n
    &&& b.enemy_id.len() == n
}

pub open spec fn enemy_spawn_wf(b: EnemySpawnSoAModel) -> bool {
    let n = b.x.len();
    &&& n <= u32::MAX
    &&& b.meta.len() == n
    &&& b.y.len() == n
    &&& b.kind.len() == n
    &&& b.spawn_id.len() == n
    &&& b.spawn_wave.len() == n
    &&& b.editor_layer.len() == n
}

/// Each text fits the `u32` length field once encoded as UTF-8.
pub open spec fn texts_fit(ts: Seq<Seq<char>>) -> bool {
    forall|i: int| 0 <= i < ts.len() ==> #[trigger] encode_utf8(ts[i]).len() <= u32::MAX
}

pub open spec fn text_point_wf(b: TextPointSoAModel) -> bool {
    let n = b.x.len();
    &&& n <= u32::MAX
    &&& b.meta.len() == n
    &&& b.y.len() == n
    &&& b.editor_layer.len() == n
    &&& b.text.len() == n
    &&& texts_fit(b.text)
}

pub open spec fn world_portal_wf(b: WorldPortalSoAModel) -> bool {
    let n = b.x.len();
    &&& n <= u32::MAX
    &&& b.meta.len() == n
    &&& b.y.len() == n
    &&& b.normal_x.len() == n
    &&& b.normal_y.len() == n
    &&& b.tangent_x.len() == n
    &&& b.tangent_y.len() == n
    &&& b.width.len() == n
    &&& b.portal_id.len() == n
    &&& b.receiver_id.len() == n
    &&& b.priority.len() == n
    &&& b.scale.len() == n
    &&& b.flags.len() == n
    &&& b.seamless_depth.len() == n
    &&& b.seamless_angle.len() == n
    &&& b.editor_layer.len() == n
}

/// A chunk whose every block is well formed: the arrays of a block agree in length, and
/// counts and text lengths fit their `u32` fields.
pub open spec fn chunk_wf(c: WorldChunkModel) -> bool {
    &&& c.bounds_local.len() == 4
    &&& rect_wf(c.static_rects)
    &&& rect_wf(c.hazard_rects)
    &&& door_wf(c.doors)
    &&& rect_wf(c.checkpoints)
    &&& trigger_wf(c.triggers)
    &&& enemy_spawn_wf(c.enemy_spawns)
    &&& text_point_wf(c.text_points)
    &&& world_portal_wf(c.world_portals)
}

// ---------------------------------------------------------------------------
// Decoded chunks are well formed.

broadcast proof fn lemma_u16s_shape(s: Seq<u8>, off: int, n: nat)
    ensures
        #[trigger] dec_u16s(s, off, n) matches Some((v, o)) ==> v.len() == n && o == off + 2 * n
            && (o == off || o <= s.len()),
    decreases n,
{
    if n > 0 {
        lemma_u16s_shape(s, off, (n - 1) as nat);
    }
}

broadcast proof fn lemma_i16s_shape(s: Seq<u8>, off: int, n: nat)
    ensures
        #[trigger] dec_i16s(s, off, n) matches Some((v, o)) ==> v.len() == n && o == off + 2 * n
            && (o == off || o <= s.len()),
    decreases n,
{
    if n > 0 {
        lemma_i16s_shape(s, off, (n - 1) as nat);
    }
}

broadcast proof fn lemma_strings_shape(s: Seq<u8>, off: int, n: nat)
    ensures
        #[trigger] dec_strings(s, off, n) matches Some((v, o)) ==> v.len() == n && texts_fit(v)
            && o >= off + 4 * n && (o == off || o <= s.len()),
    decreases n,
{
    if n > 0 {
        lemma_strings_shape(s, off, (n - 1) as nat);
        if let Some((vs, o)) = dec_strings(s, off, (n - 1) as nat) {
            if let Some((len, o1)) = dec_u32(s, o) {
                if let Some((b, o2)) = dec_bytes(s, o1, len as int) {
                    if valid_utf8(b) {
                        decode_utf8_encode_utf8(b);
                        let v = vs.push(decode_utf8(b));
                        assert forall|i: int| 0 <= i < v.len() implies #[trigger] encode_utf8(v[i]).len()
                            <= u32::MAX by {
                            if i < vs.len() {
                                assert(v[i] == vs[i]);
                            }
                        }
                    }
                }
            }
        }
    }
}

proof fn lemma_dec_block_wf(s: Seq<u8>, off: int, c: WorldChunkModel)
    requires
        chunk_wf(c),
    ensures
        dec_block(s, off, c) matches Some((c2, _)) ==> chunk_wf(c2),
{
    broadcast use lemma_u16s_shape, lemma_i16s_shape, lemma_strings_shape;

}

proof fn lemma_dec_blocks_wf(s: Seq<u8>, off: int, n: nat, c: WorldChunkModel)
    requires
        chunk_wf(c),
    ensures
        dec_blocks(s, off, n, c) matches Some((c2, _)) ==> chunk_wf(c2),
    decreases n,
{
    if n > 0 {
        lemma_dec_blocks_wf(s, off, (n - 1) as nat, c);
        if let Some((c1, o)) = dec_blocks(s, off, (n - 1) as nat, c) {
            lemma_dec_block_wf(s, o, c1);
        }
    }
}

/// Every chunk that `decode_chunk` accepts is well formed: the arrays of each block have
/// the block's length, and counts and texts fit their `u32` fields.
pub proof fn lemma_decoded_chunk_wf(s: Seq<u8>)
    ensures
        spec_decode_chunk(s) matches Some(c) ==> chunk_wf(c),
{
    broadcast use lemma_i16s_shape;

    if let Some((c, count, o)) = dec_chunk_header(s) {
        assert(texts_fit(Seq::<Seq<char>>::empty()));
        assert(chunk_wf(c));
        lemma_dec_blocks_wf(s, o, count as nat, c);
    }
}

/// `decode_chunk` refuses fewer bytes than a chunk header (30), bytes that do not start
/// with the chunk magic, and a block whose tag is not one of the eight block kinds.
pub proof fn lemma_decode_rejects(s: Seq<u8>, off: int, c: WorldChunkModel)
    ensures
        s.len() < 30 ==> spec_decode_chunk(s) is None,
        s.len() >= 8 && s.subrange(0, 8) != chunk_magic() ==> spec_decode_chunk(s) is None,
        0 <= off < s.len() && !(1 <= s[off] <= 8) ==> dec_block(s, off, c) is None,
{
    broadcast use lemma_i16s_shape;

}

/// The fewest bytes one record of a block with tag `tag` takes (a text record at least its
/// empty string's length field).
pub open spec fn block_record_bytes(tag: u8) -> int {
    if tag == BLOCK_DOORS {
        19
    } else if tag == BLOCK_TRIGGERS {
        17
    } else if tag == BLOCK_ENEMY_SPAWNS {
        13
    } else if tag == BLOCK_TEXT_POINTS {
        12
    } else if tag == BLOCK_WORLD_PORTALS {
        31
    } else {
        14
    }
}

/// How one block fails: no byte left for its tag, a tag that names no block kind, or fewer
/// bytes left after its count than its records need.
pub proof fn lemma_block_rejects(s: Seq<u8>, off: int, c: WorldChunkModel)
    requires
        0 <= off,
    ensures
        off >= s.len() ==> dec_block(s, off, c) is None,
        off < s.len() && !(1 <= s[off] <= 8) ==> dec_block(s, off, c) is None,
        off < s.len() && 1 <= s[off] <= 8 && (dec_u32(s, off + 1) matches Some((n, o1)) && o1
            + block_record_bytes(s[off]) * n > s.len()) ==> dec_block(s, off, c) is None,
{
    broadcast use lemma_u16s_shape, lemma_i16s_shape, lemma_strings_shape;

}

/// A string whose bytes are not valid UTF-8 does not decode.
pub proof fn lemma_string_rejects(s: Seq<u8>, off: int)
    ensures
        (dec_u32(s, off) matches Some((len, o)) && o + len <= s.len() && !valid_utf8(
            s.subrange(o, o + len),
        )) ==> dec_string(s, off) is None,
{
}

/// A text block fails when one of its strings fails.
pub proof fn lemma_strings_reject(s: Seq<u8>, off: int, m: nat, n: nat)
    requires
        m < n,
        dec_strings(s, off, m) matches Some((_, o)) && dec_string(s, o) is None,
    ensures
        dec_strings(s, off, n) is None,
{
    lemma_strings_fail(s, off, m + 1, n);
}

/// The chunk fails when one of its blocks fails, and when bytes are left after the last
/// block.
pub proof fn lemma_chunk_rejects(s: Seq<u8>, j: nat)
    ensures
        (dec_chunk_header(s) matches Some((c, count, o)) && j < count && (dec_blocks(s, o, j, c) matches Some(
            (c2, o2),
        ) && dec_block(s, o2, c2) is None)) ==> spec_decode_chunk(s) is None,
        (dec_chunk_header(s) matches Some((c, count, o)) && (dec_blocks(s, o, count as nat, c) matches Some(
            (c2, end),
        ) && end != s.len())) ==> spec_decode_chunk(s) is None,
{
    if let Some((c, count, o)) = dec_chunk_header(s) {
        if j < count {
            if let Some((c2, o2)) = dec_blocks(s, o, j, c) {
                if dec_block(s, o2, c2) is None {
                    assert(dec_blocks(s, o, j + 1, c) is None);
                    lemma_blocks_fail(s, o, j + 1, count as nat, c);
                }
            }
        }
    }
}

/// `t` occurs in `s` at offset `off`.
pub open spec fn at(s: Seq<u8>, off: int, t: Seq<u8>) -> bool {
    &&& 0 <= off
    &&& off + t.len() <= s.len()
    &&& s.subrange(off, off + t.len()) == t
}

proof fn lemma_at_split(s: Seq<u8>, off: int, a: Seq<u8>, b: Seq<u8>)
    requires
        at(s, off, a + b),
    ensures
        at(s, off, a),
        at(s, off + a.len(), b),
{
    let ab = a + b;
    assert(s.subrange(off, off + ab.len()) == ab);
    assert(s.subrange(off, off + a.len()) =~= ab.subrange(0, a.len() as int));
    assert(ab.subrange(0, a.len() as int) =~= a);
    assert(s.subrange(off + a.len(), off + a.len() + b.len()) =~= ab.subrange(
        a.len() as int,
        ab.len() as int,
    ));
    assert(ab.subrange(a.len() as int, ab.len() as int) =~= b);
}

proof fn lemma_dec_u16(s: Seq<u8>, off: int, v: u16)
    requires
        at(s, off, enc_u16(v)),
    ensures
        dec_u16(s, off) == Some((v, off + 2)),
{
    assert(s[off] == enc_u16(v)[0]);
    assert(s[off + 1] == enc_u16(v)[1]);
}

proof fn lemma_dec_i16(s: Seq<u8>, off: int, v: i16)
    requires
        at(s, off, enc_i16(v)),
    ensures
        dec_i16(s, off) == Some((v, off + 2)),
{
    assert(s[off] == enc_i16(v)[0]);
    assert(s[off + 1] == enc_i16(v)[1]);
}

proof fn lemma_le4(v: int)
    requires
        0 <= v < 4294967296,
    ensures
        from_le4(le4(v)[0], le4(v)[1], le4(v)[2], le4(v)[3]) == v,
{
    let b1 = (v / 256) % 256;
    let b2 = (v / 65536) % 256;
    let b3 = v / 16777216;
    assert(v / 65536 == (v / 256) / 256) by (nonlinear_arith)
        requires
            0 <= v,
    ;
    assert(v / 16777216 == (v / 65536) / 256) by (nonlinear_arith)
        requires
            0 <= v,
    ;
}

proof fn lemma_dec_u32(s: Seq<u8>, off: int, v: u32)
    requires
        at(s, off, enc_u32(v)),
    ensures
        dec_u32(s, off) == Some((v, off + 4)),
{
    assert(s[off] == enc_u32(v)[0]);
    assert(s[off + 1] == enc_u32(v)[1]);
    assert(s[off + 2] == enc_u32(v)[2]);
    assert(s[off + 3] == enc_u32(v)[3]);
    lemma_le4(v as int);
}

proof fn lemma_dec_i32(s: Seq<u8>, off: int, v: i32)
    requires
        at(s, off, enc_i32(v)),
    ensures
        dec_i32(s, off) == Some((v, off + 4)),
{
    assert(s[off] == enc_i32(v)[0]);
    assert(s[off + 1] == enc_i32(v)[1]);
    assert(s[off + 2] == enc_i32(v)[2]);
    assert(s[off + 3] == enc_i32(v)[3]);
    lemma_le4(i32_bits(v));
}

proof fn lemma_dec_bytes(s: Seq<u8>, off: int, t: Seq<u8>)
    requires
        at(s, off, t),
    ensures
        dec_bytes(s, off, t.len() as int) == Some((t, off + t.len())),
{
}

proof fn lemma_dec_u16s(s: Seq<u8>, off: int, vs: Seq<u16>)
    requires
        at(s, off, enc_u16s(vs)),
    ensures
        enc_u16s(vs).len() == 2 * vs.len(),
        dec_u16s(s, off, vs.len()) == Some((vs, off + 2 * vs.len())),
    decreases vs.len(),
{
    if vs.len() > 0 {
        let init = vs.drop_last();
        lemma_at_split(s, off, enc_u16s(init), enc_u16(vs.last()));
        lemma_dec_u16s(s, off, init);
        lemma_dec_u16(s, off + 2 * init.len(), vs.last());
        assert(init.push(vs.last()) =~= vs);
    }
}

proof fn lemma_dec_i16s(s: Seq<u8>, off: int, vs: Seq<i16>)
    requires
        at(s, off, enc_i16s(vs)),
    ensures
        enc_i16s(vs).len() == 2 * vs.len(),
        dec_i16s(s, off, vs.len()) == Some((vs, off + 2 * vs.len())),
    decreases vs.len(),
{
    if vs.len() > 0 {
        let init = vs.drop_last();
        lemma_at_split(s, off, enc_i16s(init), enc_i16(vs.last()));
        lemma_dec_i16s(s, off, init);
        lemma_dec_i16(s, off + 2 * init.len(), vs.last());
        assert(init.push(vs.last()) =~= vs);
    }
}

proof fn lemma_dec_string(s: Seq<u8>, off: int, t: Seq<char>)
    requires
        at(s, off, enc_string(t)),
        encode_utf8(t).len() <= u32::MAX,
    ensures
        dec_string(s, off) == Some((t, off + enc_string(t).len())),
{
    let b = encode_utf8(t);
    lemma_at_split(s, off, enc_u32(b.len() as u32), b);
    lemma_dec_u32(s, off, b.len() as u32);
    lemma_dec_bytes(s, off + 4, b);
    encode_utf8_valid_utf8(t);
    encode_utf8_decode_utf8(t);
}

proof fn lemma_dec_strings(s: Seq<u8>, off: int, ts: Seq<Seq<char>>)
    requires
        at(s, off, enc_strings(ts)),
        texts_fit(ts),
    ensures
        dec_strings(s, off, ts.len()) == Some((ts, off + enc_strings(ts).len())),
    decreases ts.len(),
{
    if ts.len() > 0 {
        let init = ts.drop_last();
        lemma_at_split(s, off, enc_strings(init), enc_string(ts.last()));
        assert(texts_fit(init)) by {
            assert forall|i: int| 0 <= i < init.len() implies #[trigger] encode_utf8(init[i]).len()
                <= u32::MAX by {
                assert(init[i] == ts[i]);
            }
        }
        lemma_dec_strings(s, off, init);
        assert(encode_utf8(ts[ts.len() - 1]).len() <= u32::MAX);
        lemma_dec_string(s, off + enc_strings(init).len(), ts.last());
        assert(init.push(ts.last()) =~= ts);
    }
}

proof fn lemma_dec_rect_payload(s: Seq<u8>, off: int, b: RectSoAModel)
    requires
        at(s, off, enc_rect_payload(b)),
        rect_wf(b),
    ensures
        dec_rect_payload(s, off, b.x.len()) == Some((b, off + enc_rect_payload(b).len())),
{
    let p1 = enc_u16s(b.meta);
    let p2 = enc_i16s(b.x);
    let p3 = enc_i16s(b.y);
    let p4 = enc_u16s(b.w);
    let p5 = enc_u16s(b.h);
    let p6 = enc_i16s(b.rotation);
    let p7 = enc_i16s(b.editor_layer);
    lemma_at_split(s, off, p1 + p2 + p3 + p4 + p5 + p6, p7);
    lemma_at_split(s, off, p1 + p2 + p3 + p4 + p5, p6);
    lemma_at_split(s, off, p1 + p2 + p3 + p4, p5);
    lemma_at_split(s, off, p1 + p2 + p3, p4);
    lemma_at_split(s, off, p1 + p2, p3);
    lemma_at_split(s, off, p1, p2);
    let o1 = off + p1.len();
    let o2 = o1 + p2.len();
    let o3 = o2 + p3.len();
    let o4 = o3 + p4.len();
    let o5 = o4 + p5.len();
    let o6 = o5 + p6.len();
    lemma_dec_u16s(s, off, b.meta);
    lemma_dec_i16s(s, o1, b.x);
    lemma_dec_i16s(s, o2, b.y);
    lemma_dec_u16s(s, o3, b.w);
    lemma_dec_u16s(s, o4, b.h);
    lemma_dec_i16s(s, o5, b.rotation);
    lemma_dec_i16s(s, o6, b.editor_layer);
}

proof fn lemma_dec_count_header(s: Seq<u8>, off: int, tag: u8, n: nat, rest: Seq<u8>)
    requires
        at(s, off, seq![tag] + enc_u32(n as u32) + rest),
        n <= u32::MAX,
    ensures
        dec_u8(s, off) == Some((tag, off + 1)),
        dec_u32(s, off + 1) == Some((n as u32, off + 5)),
        at(s, off + 5, rest),
{
    lemma_at_split(s, off, seq![tag] + enc_u32(n as u32), rest);
    lemma_at_split(s, off, seq![tag], enc_u32(n as u32));
    assert(s[off] == seq![tag][0]);
    lemma_dec_u32(s, off + 1, n as u32);
}

proof fn lemma_dec_rect_block(s: Seq<u8>, off: int, tag: u8, b: RectSoAModel)
    requires
        at(s, off, enc_rect_block(tag, b)),
        rect_wf(b),
    ensures
        dec_u8(s, off) == Some((tag, off + 1)),
        dec_rect_block(s, off + 1) == Some((b, off + enc_rect_block(tag, b).len())),
{
    lemma_dec_count_header(s, off, tag, b.x.len(), enc_rect_payload(b));
    lemma_dec_rect_payload(s, off + 5, b);
}

proof fn lemma_dec_door_block(s: Seq<u8>, off: int, b: DoorSoAModel)
    requires
        at(s, off, enc_door_block(b)),
        door_wf(b),
    ensures
        dec_u8(s, off) == Some((BLOCK_DOORS, off + 1)),
        dec_door_block(s, off + 1) == Some((b, off + enc_door_block(b).len())),
{
    let p1 = enc_rect_payload(b.rects);
    let p2 = enc_u16s(b.radius);
    let p3 = enc_u16s(b.speed);
    let p4 = b.automatic;
    assert(enc_door_block(b) =~= seq![BLOCK_DOORS] + enc_u32(b.rects.x.len() as u32) + (p1 + p2
        + p3 + p4));
    lemma_dec_count_header(s, off, BLOCK_DOORS, b.rects.x.len(), p1 + p2 + p3 + p4);
    let o0 = off + 5;
    lemma_at_split(s, o0, p1 + p2 + p3, p4);
    lemma_at_split(s, o0, p1 + p2, p3);
    lemma_at_split(s, o0, p1, p2);
    lemma_dec_rect_payload(s, o0, b.rects);
    lemma_dec_u16s(s, o0 + p1.len(), b.radius);
    lemma_dec_u16s(s, o0 + p1.len() + p2.len(), b.speed);
    lemma_dec_bytes(s, o0 + p1.len() + p2.len() + p3.len(), p4);
}

proof fn lemma_dec_trigger_block(s: Seq<u8>, off: int, b: TriggerSoAModel)
    requires
        at(s, off, enc_trigger_block(b)),
        trigger_wf(b),
    ensures
        dec_u8(s, off) == Some((BLOCK_TRIGGERS, off + 1)),
        dec_trigger_block(s, off + 1) == Some((b, off + enc_trigger_block(b).len())),
{
    let p1 = enc_rect_payload(b.rects);
    let p2 = b.kind;
    let p3 = enc_u16s(b.enemy_id);
    assert(enc_trigger_block(b) =~= seq![BLOCK_TRIGGERS] + enc_u32(b.rects.x.len() as u32) + (p1
        + p2 + p3));
    lemma_dec_count_header(s, off, BLOCK_TRIGGERS, b.rects.x.len(), p1 + p2 + p3);
    let o0 = off + 5;
    lemma_at_split(s, o0, p1 + p2, p3);
    lemma_at_split(s, o0, p1, p2);
    lemma_dec_rect_payload(s, o0, b.rects);
    lemma_dec_bytes(s, o0 + p1.len(), p2);
    lemma_dec_u16s(s, o0 + p1.len() + p2.len(), b.enemy_id);
}

proof fn lemma_dec_enemy_spawn_block(s: Seq<u8>, off: int, b: EnemySpawnSoAModel)
    requires
        at(s, off, enc_enemy_spawn_block(b)),
        enemy_spawn_wf(b),
    ensures
        dec_u8(s, off) == Some((BLOCK_ENEMY_SPAWNS, off + 1)),
        dec_enemy_spawn_block(s, off + 1) == Some((b, off + enc_enemy_spawn_block(b).len())),
{
    let p1 = enc_u16s(b.meta);
    let p2 = enc_i16s(b.x);
    let p3 = enc_i16s(b.y);
    let p4 = b.kind;
    let p5 = enc_u16s(b.spawn_id);
    let p6 = enc_u16s(b.spawn_wave);
    let p7 = enc_i16s(b.editor_layer);
    assert(enc_enemy_spawn_block(b) =~= seq![BLOCK_ENEMY_SPAWNS] + enc_u32(b.x.len() as u32) + (p1
        + p2 + p3 + p4 + p5 + p6 + p7));
    lemma_dec_count_header(s, off, BLOCK_ENEMY_SPAWNS, b.x.len(), p1 + p2 + p3 + p4 + p5 + p6 + p7);
    let o0 = off + 5;
    lemma_at_split(s, o0, p1 + p2 + p3 + p4 + p5 + p6, p7);
    lemma_at_split(s, o0, p1 + p2 + p3 + p4 + p5, p6);
    lemma_at_split(s, o0, p1 + p2 + p3 + p4, p5);
    lemma_at_split(s, o0, p1 + p2 + p3, p4);
    lemma_at_split(s, o0, p1 + p2, p3);
    lemma_at_split(s, o0, p1, p2);
    let o1 = o0 + p1.len();
    let o2 = o1 + p2.len();
    let o3 = o2 + p3.len();
    let o4 = o3 + p4.len();
    let o5 = o4 + p5.len();
    let o6 = o5 + p6.len();
    lemma_dec_u16s(s, o0, b.meta);
    lemma_dec_i16s(s, o1, b.x);
    lemma_dec_i16s(s, o2, b.y);
    lemma_dec_bytes(s, o3, p4);
    lemma_dec_u16s(s, o4, b.spawn_id);
    lemma_dec_u16s(s, o5, b.spawn_wave);
    lemma_dec_i16s(s, o6, b.editor_layer);
}

proof fn lemma_dec_text_point_block(s: Seq<u8>, off: int, b: TextPointSoAModel)
    requires
        at(s, off, enc_text_point_block(b)),
        text_point_wf(b),
    ensures
        dec_u8(s, off) == Some((BLOCK_TEXT_POINTS, off + 1)),
        dec_text_point_block(s, off + 1) == Some((b, off + enc_text_point_block(b).len())),
{
    let p1 = enc_u16s(b.meta);
    let p2 = enc_i16s(b.x);
    let p3 = enc_i16s(b.y);
    let p4 = enc_i16s(b.editor_layer);
    let p5 = enc_strings(b.text);
    assert(enc_text_point_block(b) =~= seq![BLOCK_TEXT_POINTS] + enc_u32(b.x.len() as u32) + (p1
        + p2 + p3 + p4 + p5));
    lemma_dec_count_header(s, off, BLOCK_TEXT_POINTS, b.x.len(), p1 + p2 + p3 + p4 + p5);
    let o0 = off + 5;
    lemma_at_split(s, o0, p1 + p2 + p3 + p4, p5);
    lemma_at_split(s, o0, p1 + p2 + p3, p4);
    lemma_at_split(s, o0, p1 + p2, p3);
    lemma_at_split(s, o0, p1, p2);
    let o1 = o0 + p1.len();
    let o2 = o1 + p2.len();
    let o3 = o2 + p3.len();
    let o4 = o3 + p4.len();
    lemma_dec_u16s(s, o0, b.meta);
    lemma_dec_i16s(s, o1, b.x);
    lemma_dec_i16s(s, o2, b.y);
    lemma_dec_i16s(s, o3, b.editor_layer);
    lemma_dec_strings(s, o4, b.text);
}

proof fn lemma_dec_portal_geometry(s: Seq<u8>, off: int, b: WorldPortalSoAModel)
    requires
        at(s, off, enc_portal_geometry(b)),
        world_portal_wf(b),
    ensures
        dec_portal_geometry(s, off, b.x.len()) == Some(
            (
                b.meta,
                b.x,
                b.y,
                b.normal_x,
                b.normal_y,
                b.tangent_x,
                b.tangent_y,
                off + enc_portal_geometry(b).len(),
            ),
        ),
{
    let p1 = enc_u16s(b.meta);
    let p2 = enc_i16s(b.x);
    let p3 = enc_i16s(b.y);
    let p4 = enc_i16s(b.normal_x);
    let p5 = enc_i16s(b.normal_y);
    let p6 = enc_i16s(b.tangent_x);
    let p7 = enc_i16s(b.tangent_y);
    lemma_at_split(s, off, p1 + p2 + p3 + p4 + p5 + p6, p7);
    lemma_at_split(s, off, p1 + p2 + p3 + p4 + p5, p6);
    lemma_at_split(s, off, p1 + p2 + p3 + p4, p5);
    lemma_at_split(s, off, p1 + p2 + p3, p4);
    lemma_at_split(s, off, p1 + p2, p3);
    lemma_at_split(s, off, p1, p2);
    let o1 = off + p1.len();
    let o2 = o1 + p2.len();
    let o3 = o2 + p3.len();
    let o4 = o3 + p4.len();
    let o5 = o4 + p5.len();
    let o6 = o5 + p6.len();
    lemma_dec_u16s(s, off, b.meta);
    lemma_dec_i16s(s, o1, b.x);
    lemma_dec_i16s(s, o2, b.y);
    lemma_dec_i16s(s, o3, b.normal_x);
    lemma_dec_i16s(s, o4, b.normal_y);
    lemma_dec_i16s(s, o5, b.tangent_x);
    lemma_dec_i16s(s, o6, b.tangent_y);
}

proof fn lemma_dec_portal_links(s: Seq<u8>, off: int, b: WorldPortalSoAModel)
    requires
        at(s, off, enc_portal_links(b)),
        world_portal_wf(b),
    ensures
        dec_portal_links(s, off, b.x.len()) == Some(
            (
                b.width,
                b.portal_id,
                b.receiver_id,
                b.priority,
                b.scale,
                b.flags,
                b.seamless_depth,
                b.seamless_angle,
                b.editor_layer,
                off + enc_portal_links(b).len(),
            ),
        ),
{
    let p1 = enc_u16s(b.width);
    let p2 = enc_u16s(b.portal_id);
    let p3 = enc_u16s(b.receiver_id);
    let p4 = enc_i16s(b.priority);
    let p5 = enc_u16s(b.scale);
    let p6 = b.flags;
    let p7 = enc_u16s(b.seamless_depth);
    let p8 = enc_u16s(b.seamless_angle);
    let p9 = enc_i16s(b.editor_layer);
    lemma_at_split(s, off, p1 + p2 + p3 + p4 + p5 + p6 + p7 + p8, p9);
    lemma_at_split(s, off, p1 + p2 + p3 + p4 + p5 + p6 + p7, p8);
    lemma_at_split(s, off, p1 + p2 + p3 + p4 + p5 + p6, p7);
    lemma_at_split(s, off, p1 + p2 + p3 + p4 + p5, p6);
    lemma_at_split(s, off, p1 + p2 + p3 + p4, p5);
    lemma_at_split(s, off, p1 + p2 + p3, p4);
    lemma_at_split(s, off, p1 + p2, p3);
    lemma_at_split(s, off, p1, p2);
    let o1 = off + p1.len();
    let o2 = o1 + p2.len();
    let o3 = o2 + p3.len();
    let o4 = o3 + p4.len();
    let o5 = o4 + p5.len();
    let o6 = o5 + p6.len();
    let o7 = o6 + p7.len();
    let o8 = o7 + p8.len();
    lemma_dec_u16s(s, off, b.width);
    lemma_dec_u16s(s, o1, b.portal_id);
    lemma_dec_u16s(s, o2, b.receiver_id);
    lemma_dec_i16s(s, o3, b.priority);
    lemma_dec_u16s(s, o4, b.scale);
    lemma_dec_bytes(s, o5, p6);
    lemma_dec_u16s(s, o6, b.seamless_depth);
    lemma_dec_u16s(s, o7, b.seamless_angle);
    lemma_dec_i16s(s, o8, b.editor_layer);
}

proof fn lemma_dec_world_portal_block(s: Seq<u8>, off: int, b: WorldPortalSoAModel)
    requires
        at(s, off, enc_world_portal_block(b)),
        world_portal_wf(b),
    ensures
        dec_u8(s, off) == Some((BLOCK_WORLD_PORTALS, off + 1)),
        dec_world_portal_block(s, off + 1) == Some((b, off + enc_world_portal_block(b).len())),
{
    let g = enc_portal_geometry(b);
    let l = enc_portal_links(b);
    assert(enc_world_portal_block(b) =~= seq![BLOCK_WORLD_PORTALS] + enc_u32(b.x.len() as u32) + (g
        + l));
    lemma_dec_count_header(s, off, BLOCK_WORLD_PORTALS, b.x.len(), g + l);
    lemma_at_split(s, off + 5, g, l);
    lemma_dec_portal_geometry(s, off + 5, b);
    lemma_dec_portal_links(s, off + 5 + g.len(), b);
}

proof fn lemma_dec_chunk_header(s: Seq<u8>, c: WorldChunkModel)
    requires
        at(s, 0, enc_chunk_header(c)),
        c.bounds_local.len() == 4,
    ensures
        dec_chunk_header(s) == Some(
            (
                empty_chunk_model(c.chunk_id, c.origin_x, c.origin_y, c.bounds_local),
                8u16,
                enc_chunk_header(c).len() as int,
            ),
        ),
{
    let p1 = chunk_magic();
    let p2 = enc_u32(c.chunk_id);
    let p3 = enc_i32(c.origin_x);
    let p4 = enc_i32(c.origin_y);
    let p5 = enc_i16s(c.bounds_local);
    let p6 = enc_u16(8);
    lemma_at_split(s, 0, p1 + p2 + p3 + p4 + p5, p6);
    lemma_at_split(s, 0, p1 + p2 + p3 + p4, p5);
    lemma_at_split(s, 0, p1 + p2 + p3, p4);
    lemma_at_split(s, 0, p1 + p2, p3);
    lemma_at_split(s, 0, p1, p2);
    lemma_dec_bytes(s, 0, p1);
    lemma_dec_u32(s, 8, c.chunk_id);
    lemma_dec_i32(s, 12, c.origin_x);
    lemma_dec_i32(s, 16, c.origin_y);
    lemma_dec_i16s(s, 20, c.bounds_local);
    lemma_dec_u16(s, 28, 8);
}

proof fn lemma_layout9(
    s: Seq<u8>,
    h: Seq<u8>,
    b1: Seq<u8>,
    b2: Seq<u8>,
    b3: Seq<u8>,
    b4: Seq<u8>,
    b5: Seq<u8>,
    b6: Seq<u8>,
    b7: Seq<u8>,
    b8: Seq<u8>,
)
    requires
        s == h + b1 + b2 + b3 + b4 + b5 + b6 + b7 + b8,
    ensures
        s.len() == h.len() + b1.len() + b2.len() + b3.len() + b4.len() + b5.len() + b6.len()
            + b7.len() + b8.len(),
        at(s, 0, h),
        at(s, h.len() as int, b1),
        at(s, (h.len() + b1.len()) as int, b2),
        at(s, (h.len() + b1.len() + b2.len()) as int, b3),
        at(s, (h.len() + b1.len() + b2.len() + b3.len()) as int, b4),
        at(s, (h.len() + b1.len() + b2.len() + b3.len() + b4.len()) as int, b5),
        at(s, (h.len() + b1.len() + b2.len() + b3.len() + b4.len() + b5.len()) as int, b6),
        at(s, (h.len() + b1.len() + b2.len() + b3.len() + b4.len() + b5.len() + b6.len()) as int, b7),
        at(
            s,
            (h.len() + b1.len() + b2.len() + b3.len() + b4.len() + b5.len() + b6.len()
                + b7.len()) as int,
            b8,
        ),
{
    assert(at(s, 0, s)) by {
        assert(s.subrange(0, s.len() as int) =~= s);
    }
    lemma_at_split(s, 0, h + b1 + b2 + b3 + b4 + b5 + b6 + b7, b8);
    lemma_at_split(s, 0, h + b1 + b2 + b3 + b4 + b5 + b6, b7);
    lemma_at_split(s, 0, h + b1 + b2 + b3 + b4 + b5, b6);
    lemma_at_split(s, 0, h + b1 + b2 + b3 + b4, b5);
    lemma_at_split(s, 0, h + b1 + b2 + b3, b4);
    lemma_at_split(s, 0, h + b1 + b2, b3);
    lemma_at_split(s, 0, h + b1, b2);
    lemma_at_split(s, 0, h, b1);
}

proof fn lemma_step_static(s: Seq<u8>, off: int, c: WorldChunkModel, b: RectSoAModel)
    requires
        at(s, off, enc_rect_block(BLOCK_STATIC_RECTS, b)),
        rect_wf(b),
    ensures
        dec_block(s, off, c) == Some((WorldChunkModel { static_rects: b, ..c }, off + enc_rect_block(BLOCK_STATIC_RECTS, b).len())),
{
    lemma_dec_rect_block(s, off, BLOCK_STATIC_RECTS, b);
}

proof fn lemma_step_hazard(s: Seq<u8>, off: int, c: WorldChunkModel, b: RectSoAModel)
    requires
        at(s, off, enc_rect_block(BLOCK_HAZARD_RECTS, b)),
        rect_wf(b),
    ensures
        dec_block(s, off, c) == Some((WorldChunkModel { hazard_rects: b, ..c }, off + enc_rect_block(BLOCK_HAZARD_RECTS, b).len())),
{
    lemma_dec_rect_block(s, off, BLOCK_HAZARD_RECTS, b);
}

proof fn lemma_step_doors(s: Seq<u8>, off: int, c: WorldChunkModel, b: DoorSoAModel)
    requires
        at(s, off, enc_door_block(b)),
        door_wf(b),
    ensures
        dec_block(s, off, c) == Some((WorldChunkModel { doors: b, ..c }, off + enc_door_block(b).len())),
{
    lemma_dec_door_block(s, off, b);
}

proof fn lemma_step_checkpoints(s: Seq<u8>, off: int, c: WorldChunkModel, b: RectSoAModel)
    requires
        at(s, off, enc_rect_block(BLOCK_CHECKPOINTS, b)),
        rect_wf(b),
    ensures
        dec_block(s, off, c) == Some((WorldChunkModel { checkpoints: b, ..c }, off + enc_rect_block(BLOCK_CHECKPOINTS, b).len())),
{
    lemma_dec_rect_block(s, off, BLOCK_CHECKPOINTS, b);
}

proof fn lemma_step_triggers(s: Seq<u8>, off: int, c: WorldChunkModel, b: TriggerSoAModel)
    requires
        at(s, off, enc_trigger_block(b)),
        trigger_wf(b),
    ensures
        dec_block(s, off, c) == Some((WorldChunkModel { triggers: b, ..c }, off + enc_trigger_block(b).len())),
{
    lemma_dec_trigger_block(s, off, b);
}

proof fn lemma_step_enemies(s: Seq<u8>, off: int, c: WorldChunkModel, b: EnemySpawnSoAModel)
    requires
        at(s, off, enc_enemy_spawn_block(b)),
        enemy_spawn_wf(b),
    ensures
        dec_block(s, off, c) == Some((WorldChunkModel { enemy_spawns: b, ..c }, off + enc_enemy_spawn_block(b).len())),
{
    lemma_dec_enemy_spawn_block(s, off, b);
}

proof fn lemma_step_texts(s: Seq<u8>, off: int, c: WorldChunkModel, b: TextPointSoAModel)
    requires
        at(s, off, enc_text_point_block(b)),
        text_point_wf(b),
    ensures
        dec_block(s, off, c) == Some((WorldChunkModel { text_points: b, ..c }, off + enc_text_point_block(b).len())),
{
    lemma_dec_text_point_block(s, off, b);
}

proof fn lemma_step_portals(s: Seq<u8>, off: int, c: WorldChunkModel, b: WorldPortalSoAModel)
    requires
        at(s, off, enc_world_portal_block(b)),
        world_portal_wf(b),
    ensures
        dec_block(s, off, c) == Some((WorldChunkModel { world_portals: b, ..c }, off + enc_world_portal_block(b).len())),
{
    lemma_dec_world_portal_block(s, off, b);
}

proof fn lemma_blocks_chain(
    s: Seq<u8>,
    o0: int,
    o1: int,
    o2: int,
    o3: int,
    o4: int,
    o5: int,
    o6: int,
    o7: int,
    o8: int,
    c0: WorldChunkModel,
    c1: WorldChunkModel,
    c2: WorldChunkModel,
    c3: WorldChunkModel,
    c4: WorldChunkModel,
    c5: WorldChunkModel,
    c6: WorldChunkModel,
    c7: WorldChunkModel,
    c8: WorldChunkModel,
)
    requires
        dec_block(s, o0, c0) == Some((c1, o1)),
        dec_block(s, o1, c1) == Some((c2, o2)),
        dec_block(s, o2, c2) == Some((c3, o3)),
        dec_block(s, o3, c3) == Some((c4, o4)),
        dec_block(s, o4, c4) == Some((c5, o5)),
        dec_block(s, o5, c5) == Some((c6, o6)),
        dec_block(s, o6, c6) == Some((c7, o7)),
        dec_block(s, o7, c7) == Some((c8, o8)),
    ensures
        dec_blocks(s, o0, 8, c0) == Some((c8, o8)),
{
    assert(dec_blocks(s, o0, 0, c0) == Some((c0, o0)));
    assert(dec_blocks(s, o0, 1, c0) == Some((c1, o1)));
    assert(dec_blocks(s, o0, 2, c0) == Some((c2, o2)));
    assert(dec_blocks(s, o0, 3, c0) == Some((c3, o3)));
    assert(dec_blocks(s, o0, 4, c0) == Some((c4, o4)));
    assert(dec_blocks(s, o0, 5, c0) == Some((c5, o5)));
    assert(dec_blocks(s, o0, 6, c0) == Some((c6, o6)));
    assert(dec_blocks(s, o0, 7, c0) == Some((c7, o7)));
}

/// Encoding a well-formed chunk and decoding the bytes gives back the same chunk.
#[verifier::rlimit(60)]
pub proof fn lemma_decode_encode_chunk(c: WorldChunkModel)
    requires
        chunk_wf(c),
    ensures
        spec_decode_chunk(enc_chunk(c)) == Some(c),
{
    let s = enc_chunk(c);
    let h = enc_chunk_header(c);
    let b1 = enc_rect_block(BLOCK_STATIC_RECTS, c.static_rects);
    let b2 = enc_rect_block(BLOCK_HAZARD_RECTS, c.hazard_rects);
    let b3 = enc_door_block(c.doors);
    let b4 = enc_rect_block(BLOCK_CHECKPOINTS, c.checkpoints);
    let b5 = enc_trigger_block(c.triggers);
    let b6 = enc_enemy_spawn_block(c.enemy_spawns);
    let b7 = enc_text_point_block(c.text_points);
    let b8 = enc_world_portal_block(c.world_portals);
    assert(s == h + b1 + b2 + b3 + b4 + b5 + b6 + b7 + b8);
    lemma_layout9(s, h, b1, b2, b3, b4, b5, b6, b7, b8);
    let o0 = h.len() as int;
    let o1 = o0 + b1.len();
    let o2 = o1 + b2.len();
    let o3 = o2 + b3.len();
    let o4 = o3 + b4.len();
    let o5 = o4 + b5.len();
    let o6 = o5 + b6.len();
    let o7 = o6 + b7.len();
    let o8 = o7 + b8.len();
    lemma_dec_chunk_header(s, c);
    let c0 = empty_chunk_model(c.chunk_id, c.origin_x, c.origin_y, c.bounds_local);
    let c1 = WorldChunkModel { static_rects: c.static_rects, ..c0 };
    let c2 = WorldChunkModel { hazard_rects: c.hazard_rects, ..c1 };
    let c3 = WorldChunkModel { doors: c.doors, ..c2 };
    let c4 = WorldChunkModel { checkpoints: c.checkpoints, ..c3 };
    let c5 = WorldChunkModel { triggers: c.triggers, ..c4 };
    let c6 = WorldChunkModel { enemy_spawns: c.enemy_spawns, ..c5 };
    let c7 = WorldChunkModel { text_points: c.text_points, ..c6 };
    let c8 = WorldChunkModel { world_portals: c.world_portals, ..c7 };
    lemma_step_static(s, o0, c0, c.static_rects);
    lemma_step_hazard(s, o1, c1, c.hazard_rects);
    lemma_step_doors(s, o2, c2, c.doors);
    lemma_step_checkpoints(s, o3, c3, c.checkpoints);
    lemma_step_triggers(s, o4, c4, c.triggers);
    lemma_step_enemies(s, o5, c5, c.enemy_spawns);
    lemma_step_texts(s, o6, c6, c.text_points);
    lemma_step_portals(s, o7, c7, c.world_portals);
    lemma_blocks_chain(s, o0, o1, o2, o3, o4, o5, o6, o7, o8, c0, c1, c2, c3, c4, c5, c6, c7, c8);
    assert(c8 == c);
}

} // verus!
