//! The `world.index` text file of a level package: one keyed line per chunk, checkpoint,
//! trigger and portal, after a header line.
//!
//! Coordinates in this file are `f32` values. They are carried here as the text of their
//! decimal numbers; which texts read as finite `f32` values is handed in by the caller.
use vstd::prelude::*;

use crate::chunk::{ChunkObjectCounts, strings_view};
use crate::decimal::{
    format_i64, format_u64, spec_format_int, parse_i32, parse_u16, parse_u8, spec_parse_signed, spec_parse_unsigned,
};
use crate::error::{LevelPackageError, PackageResult, invalid_data};
use crate::keyed::{
    KeyValues, field_text, keyed_line, lemma_keyed_line_push, lookup, parse_bool, parse_key_values,
    push_field, spec_fields, spec_parse_bool, spec_trim, token_end, token_end_at, trim, trim_chars,
};
use crate::strutil::{chars_of, push_char, push_chars, push_str, slice_eq_str, str_eq};

verus! {

/// The index of a level package.
#[derive(Clone, Debug)]
pub struct WorldIndex {
    pub schema: u8,
    pub coord_scale: i32,
    pub chunk_size_units: i32,
    pub level_name: String,
    /// Decimal text of the spawn point's coordinates.
    pub spawn: [String; 2],
    pub chunks: Vec<WorldChunkEntry>,
    pub triggers: Vec<TriggerAnchor>,
    pub checkpoints: Vec<CheckpointAnchor>,
    pub portals: Vec<WorldPortalAnchor>,
}

/// One chunk file of the package, as the index lists it.
#[derive(Clone, Debug)]
pub struct WorldChunkEntry {
    pub id: u32,
    pub origin_q: [i32; 2],
    /// Decimal text of the chunk's bounding box in world units: min x, min y, max x, max y.
    pub bbox_units: [String; 4],
    pub path: String,
    pub bytes: u64,
    pub sha256: String,
    pub counts: ChunkObjectCounts,
}

#[derive(Clone, Debug)]
pub struct CheckpointAnchor {
    pub index: u32,
    /// Decimal text of the anchor point's coordinates.
    pub anchor: [String; 2],
    pub chunk_id: u32,
}

#[derive(Clone, Copy, Debug, PartialEq, Eq, Structural)]
pub struct TriggerAnchor {
    pub trigger_id: u16,
    pub source_chunk: u32,
    pub target_group: u16,
    pub kind: u8,
}

#[derive(Clone, Copy, Debug, PartialEq, Eq, Structural)]
pub struct WorldPortalAnchor {
    pub portal_id: u16,
    pub source_chunk: u32,
    pub receiver_id: u16,
    pub render: bool,
    pub lighting: bool,
    pub physics: bool,
}

#[verifier::ext_equal]
pub struct ChunkEntryModel {
    pub id: u32,
    pub origin_q: (i32, i32),
    pub bbox_units: Seq<Seq<char>>,
    pub path: Seq<char>,
    pub bytes: u64,
    pub sha256: Seq<char>,
    pub counts: ChunkObjectCounts,
}

#[verifier::ext_equal]
pub struct CheckpointAnchorModel {
    pub index: u32,
    pub anchor: Seq<Seq<char>>,
    pub chunk_id: u32,
}

#[verifier::ext_equal]
pub struct WorldIndexModel {
    pub schema: u8,
    pub coord_scale: i32,
    pub chunk_size_units: i32,
    pub level_name: Seq<char>,
    pub spawn: Seq<Seq<char>>,
    pub chunks: Seq<ChunkEntryModel>,
    pub triggers: Seq<TriggerAnchor>,
    pub checkpoints: Seq<CheckpointAnchorModel>,
    pub portals: Seq<WorldPortalAnchor>,
}

impl View for WorldChunkEntry {
    type V = ChunkEntryModel;

    open spec fn view(&self) -> ChunkEntryModel {
        ChunkEntryModel {
            id: self.id,
            origin_q: (self.origin_q[0], self.origin_q[1]),
            bbox_units: strings_view(self.bbox_units@),
            path: self.path@,
            bytes: self.bytes,
            sha256: self.sha256@,
            counts: self.counts,
        }
    }
}

impl View for CheckpointAnchor {
    type V = CheckpointAnchorModel;

    open spec fn view(&self) -> CheckpointAnchorModel {
        CheckpointAnchorModel {
            index: self.index,
            anchor: strings_view(self.anchor@),
            chunk_id: self.chunk_id,
        }
    }
}

pub open spec fn chunk_entries_view(v: Seq<WorldChunkEntry>) -> Seq<ChunkEntryModel> {
    Seq::new(v.len(), |i: int| v[i]@)
}

pub open spec fn checkpoints_view(v: Seq<CheckpointAnchor>) -> Seq<CheckpointAnchorModel> {
    Seq::new(v.len(), |i: int| v[i]@)
}

impl View for WorldIndex {
    type V = WorldIndexModel;

    open spec fn view(&self) -> WorldIndexModel {
        WorldIndexModel {
            schema: self.schema,
            coord_scale: self.coord_scale,
            chunk_size_units: self.chunk_size_units,
            level_name: self.level_name@,
            spawn: strings_view(self.spawn@),
            chunks: chunk_entries_view(self.chunks@),
            triggers: self.triggers@,
            checkpoints: checkpoints_view(self.checkpoints@),
            portals: self.portals@,
        }
    }
}

// ---------------------------------------------------------------------------
// Splitting text.

/// The first position at or after `i` holding `c`, else the length.
pub open spec fn find_char(s: Seq<char>, c: char, i: int) -> int
    decreases s.len() - i,
{
    if 0 <= i < s.len() && s[i] != c {
        find_char(s, c, i + 1)
    } else {
        i
    }
}

pub proof fn lemma_find_char_bounds(s: Seq<char>, c: char, i: int)
    requires
        0 <= i <= s.len(),
    ensures
        i <= find_char(s, c, i) <= s.len(),
        find_char(s, c, i) < s.len() ==> s[find_char(s, c, i)] == c,
        forall|j: int| i <= j < find_char(s, c, i) ==> s[j] != c,
    decreases s.len() - i,
{
    if i < s.len() && s[i] != c {
        lemma_find_char_bounds(s, c, i + 1);
    }
}

/// The pieces of `s[i..]` between occurrences of `c` (`str::split` with one character).
pub open spec fn split_from(s: Seq<char>, c: char, i: int) -> Seq<Seq<char>>
    decreases s.len() - i,
{
    if !(0 <= i <= s.len()) {
        seq![]
    } else {
        let k = find_char(s, c, i);
        proof {
            lemma_find_char_bounds(s, c, i);
        }
        if k >= s.len() {
            seq![s.subrange(i, s.len() as int)]
        } else {
            seq![s.subrange(i, k)] + split_from(s, c, k + 1)
        }
    }
}

/// The comma-separated parts of a value.
pub open spec fn split_commas(s: Seq<char>) -> Seq<Seq<char>> {
    split_from(s, ',', 0)
}

fn find_char_at(cs: &[char], c: char, i: usize) -> (k: usize)
    requires
        i <= cs@.len(),
    ensures
        k == find_char(cs@, c, i as int),
        i <= k <= cs@.len(),
{
    let mut k = i;
    while k < cs.len() && cs[k] != c
        invariant
            i <= k <= cs@.len(),
            find_char(cs@, c, k as int) == find_char(cs@, c, i as int),
        decreases cs@.len() - k,
    {
        k = k + 1;
    }
    k
}

/// The pieces of `s` between occurrences of `c`.
pub fn split_char(s: &str, c: char) -> (res: Vec<String>)
    ensures
        strings_view(res@) == split_from(s@, c, 0),
{
    let cs = chars_of(s);
    let n = cs.len();
    let mut parts: Vec<String> = Vec::new();
    let mut i: usize = 0;
    loop
        invariant
            cs@ == s@,
            n == cs@.len(),
            i <= n,
            strings_view(parts@) + split_from(cs@, c, i as int) == split_from(cs@, c, 0),
        decreases n - i,
    {
        let k = find_char_at(cs.as_slice(), c, i);
        let mut part = String::new();
        push_chars(&mut part, cs.as_slice(), i, k);
        let ghost old_parts = parts@;
        parts.push(part);
        assert(strings_view(parts@) =~= strings_view(old_parts).push(
            cs@.subrange(i as int, k as int),
        ));
        if k >= n {
            assert(split_from(cs@, c, i as int) =~= seq![cs@.subrange(i as int, n as int)]);
            assert(strings_view(old_parts) + seq![cs@.subrange(i as int, n as int)]
                =~= strings_view(parts@));
            return parts;
        }
        assert(strings_view(old_parts) + (seq![cs@.subrange(i as int, k as int)] + split_from(
            cs@,
            c,
            k + 1,
        )) =~= strings_view(parts@) + split_from(cs@, c, k + 1));
        i = k + 1;
    }
}

/// The kept lines of `s[i..]`: each piece between newlines, trimmed, unless it is blank or a
/// `#` comment.
pub open spec fn content_from(s: Seq<char>, i: int) -> Seq<Seq<char>>
    decreases s.len() - i,
{
    if !(0 <= i <= s.len()) {
        seq![]
    } else {
        let k = find_char(s, '\n', i);
        proof {
            lemma_find_char_bounds(s, '\n', i);
        }
        let line = spec_trim(s.subrange(i, k));
        let kept: Seq<Seq<char>> = if line.len() > 0 && line[0] != '#' {
            seq![line]
        } else {
            seq![]
        };
        if k >= s.len() {
            kept
        } else {
            kept + content_from(s, k + 1)
        }
    }
}

/// The lines of a text file that carry content.
pub open spec fn content_lines(s: Seq<char>) -> Seq<Seq<char>> {
    content_from(s, 0)
}

/// The trimmed lines of `source` that are neither blank nor comments.
pub fn read_content_lines(source: &str) -> (res: Vec<String>)
    ensures
        strings_view(res@) == content_lines(source@),
{
    let cs = chars_of(source);
    let n = cs.len();
    let mut lines: Vec<String> = Vec::new();
    let mut i: usize = 0;
    loop
        invariant
            cs@ == source@,
            n == cs@.len(),
            i <= n,
            strings_view(lines@) + content_from(cs@, i as int) == content_from(cs@, 0),
        decreases n - i,
    {
        let k = find_char_at(cs.as_slice(), '\n', i);
        let mut raw = String::new();
        push_chars(&mut raw, cs.as_slice(), i, k);
        let line = trim(raw.as_str());
        let ghost old_lines = lines@;
        let ghost kept: Seq<Seq<char>> = if line@.len() > 0 && line@[0] != '#' {
            seq![line@]
        } else {
            seq![]
        };
        let lc = chars_of(line.as_str());
        if lc.len() > 0 && lc[0] != '#' {
            lines.push(line);
        }
        assert(strings_view(lines@) =~= strings_view(old_lines) + kept);
        if k >= n {
            assert(strings_view(lines@) =~= strings_view(old_lines) + content_from(cs@, i as int));
            return lines;
        }
        assert(strings_view(old_lines) + (kept + content_from(cs@, k + 1)) =~= strings_view(
            lines@,
        ) + content_from(cs@, k + 1));
        i = k + 1;
    }
}

// ---------------------------------------------------------------------------
// Reading the fields of a line.

/// A field read as an unsigned integer no larger than `max`.
pub open spec fn field_unsigned(f: Seq<(Seq<char>, Seq<char>)>, key: Seq<char>, max: int) -> Option<
    int,
> {
    match lookup(f, key) {
        Some(v) => spec_parse_unsigned(v, max),
        None => None,
    }
}

/// A field read as an `i32`.
pub open spec fn field_i32(f: Seq<(Seq<char>, Seq<char>)>, key: Seq<char>) -> Option<int> {
    match lookup(f, key) {
        Some(v) => spec_parse_signed(v, 2147483648, 2147483647),
        None => None,
    }
}

/// A count field; zero when missing or unreadable.
pub open spec fn count_field(f: Seq<(Seq<char>, Seq<char>)>, key: Seq<char>) -> u32 {
    match field_unsigned(f, key, 4294967295) {
        Some(v) => v as u32,
        None => 0,
    }
}

/// A flag field: its word read by `spec_parse_bool`, or `default` when missing.
pub open spec fn flag_field(f: Seq<(Seq<char>, Seq<char>)>, key: Seq<char>, default: bool) -> bool {
    match lookup(f, key) {
        Some(v) => spec_parse_bool(v),
        None => default,
    }
}

/// Two `i32` separated by a comma.
pub open spec fn spec_i32_pair(v: Seq<char>) -> Result<(i32, i32), Seq<char>> {
    let parts = split_commas(v);
    if exists|j: int|
        0 <= j < parts.len() && (#[trigger] spec_parse_signed(parts[j], 2147483648, 2147483647))
            is None {
        Err("invalid i32 pair"@)
    } else if parts.len() != 2 {
        Err("invalid i32 pair length"@)
    } else {
        Ok(
            (
                spec_parse_signed(parts[0], 2147483648, 2147483647).unwrap() as i32,
                spec_parse_signed(parts[1], 2147483648, 2147483647).unwrap() as i32,
            ),
        )
    }
}

/// The parts of `v` when it holds exactly `n` comma-separated texts that all read as finite
/// numbers (those listed in `finite`).
pub open spec fn spec_float_list(v: Seq<char>, n: nat, finite: Seq<Seq<char>>) -> Option<
    Seq<Seq<char>>,
> {
    let parts = split_commas(v);
    if parts.len() == n && forall|j: int| 0 <= j < parts.len() ==> finite.contains(
        #[trigger] parts[j],
    ) {
        Some(parts)
    } else {
        None
    }
}

/// The trigger kind a word names: its number, or one of the names of the first three kinds.
pub open spec fn spec_parse_trigger_kind(v: Seq<char>) -> Option<u8> {
    if v == "0"@ || v == "level_start"@ || v == "checkpoint"@ {
        Some(0)
    } else if v == "1"@ || v == "level_end"@ {
        Some(1)
    } else if v == "2"@ || v == "enemy_spawn"@ || v == "spawn"@ {
        Some(2)
    } else {
        match spec_parse_unsigned(v, 255) {
            Some(k) => Some(k as u8),
            None => None,
        }
    }
}

/// A `chunk` line.
pub open spec fn spec_chunk_entry(f: Seq<(Seq<char>, Seq<char>)>, finite: Seq<Seq<char>>) -> Result<
    ChunkEntryModel,
    Seq<char>,
> {
    match field_unsigned(f, "id"@, 4294967295) {
        None => Err("world.index chunk missing id"@),
        Some(id) => match lookup(f, "origin_q"@) {
            None => Err("world.index chunk missing origin_q"@),
            Some(oq) => match spec_i32_pair(oq) {
                Err(e) => Err(e),
                Ok(origin) => match lookup(f, "bbox_units"@) {
                    None => Err("world.index chunk missing bbox_units"@),
                    Some(bb) => match spec_float_list(bb, 4, finite) {
                        None => Err("invalid f32 quad"@),
                        Some(bbox) => match lookup(f, "path"@) {
                            None => Err("world.index chunk missing path"@),
                            Some(path) => match field_unsigned(f, "bytes"@, 18446744073709551615) {
                                None => Err("world.index chunk missing bytes"@),
                                Some(bytes) => match lookup(f, "sha256"@) {
                                    None => Err("world.index chunk missing sha256"@),
                                    Some(sha) => Ok(
                                        ChunkEntryModel {
                                            id: id as u32,
                                            origin_q: origin,
                                            bbox_units: bbox,
                                            path,
                                            bytes: bytes as u64,
                                            sha256: sha,
                                            counts: spec_counts_fields(f),
                                        },
                                    ),
                                },
                            },
                        },
                    },
                },
            },
        },
    }
}

pub open spec fn spec_counts_fields(f: Seq<(Seq<char>, Seq<char>)>) -> ChunkObjectCounts {
    ChunkObjectCounts {
        static_rects: count_field(f, "static_rects"@),
        hazard_rects: count_field(f, "hazard_rects"@),
        doors: count_field(f, "doors"@),
        checkpoints: count_field(f, "checkpoints"@),
        triggers: count_field(f, "triggers"@),
        enemy_spawns: count_field(f, "enemy_spawns"@),
        text_points: count_field(f, "text_points"@),
        world_portals: count_field(f, "world_portals"@),
    }
}

/// A `checkpoint` line: an error when its anchor is unreadable, nothing when a field is
/// missing.
pub open spec fn spec_checkpoint(f: Seq<(Seq<char>, Seq<char>)>, finite: Seq<Seq<char>>) -> Result<
    Option<CheckpointAnchorModel>,
    Seq<char>,
> {
    let anchor: Result<Option<Seq<Seq<char>>>, Seq<char>> = match lookup(f, "anchor"@) {
        None => Ok(None),
        Some(a) => match spec_float_list(a, 2, finite) {
            Some(p) => Ok(Some(p)),
            None => Err("invalid f32 pair"@),
        },
    };
    match anchor {
        Err(e) => Err(e),
        Ok(anchor) => {
            let index = field_unsigned(f, "index"@, 4294967295);
            let chunk = match lookup(f, "restart_chunks"@) {
                Some(r) => spec_parse_unsigned(split_commas(r)[0], 4294967295),
                None => None,
            };
            if index is Some && anchor is Some && chunk is Some {
                Ok(
                    Some(
                        CheckpointAnchorModel {
                            index: index.unwrap() as u32,
                            anchor: anchor.unwrap(),
                            chunk_id: chunk.unwrap() as u32,
                        },
                    ),
                )
            } else {
                Ok(None)
            }
        },
    }
}

/// A `trigger` line.
pub open spec fn spec_trigger(f: Seq<(Seq<char>, Seq<char>)>) -> Result<TriggerAnchor, Seq<char>> {
    let tid = match field_unsigned(f, "trigger_id"@, 65535) {
        Some(v) => Some(v),
        None => field_unsigned(f, "id"@, 65535),
    };
    let kind = match lookup(f, "kind"@) {
        Some(k) => spec_parse_trigger_kind(k),
        None => None,
    };
    match tid {
        None => Err("world.index trigger missing trigger_id"@),
        Some(tid) => match field_unsigned(f, "source_chunk"@, 4294967295) {
            None => Err("world.index trigger missing source_chunk"@),
            Some(src) => match kind {
                None => Err("world.index trigger missing kind"@),
                Some(kind) => match lookup(f, "target_group"@) {
                    Some(g) => match spec_parse_unsigned(g, 65535) {
                        None => Err("world.index trigger invalid target_group"@),
                        Some(g) => Ok(
                            TriggerAnchor {
                                trigger_id: tid as u16,
                                source_chunk: src as u32,
                                target_group: g as u16,
                                kind,
                            },
                        ),
                    },
                    None => Ok(
                        TriggerAnchor {
                            trigger_id: tid as u16,
                            source_chunk: src as u32,
                            target_group: 0,
                            kind,
                        },
                    ),
                },
            },
        },
    }
}

/// A `portal` line; nothing when its id, source chunk or receiver is missing.
pub open spec fn spec_portal(f: Seq<(Seq<char>, Seq<char>)>) -> Option<WorldPortalAnchor> {
    let id = field_unsigned(f, "id"@, 65535);
    let src = field_unsigned(f, "source_chunk"@, 4294967295);
    let recv = field_unsigned(f, "receiver"@, 65535);
    if id is Some && src is Some && recv is Some {
        Some(
            WorldPortalAnchor {
                portal_id: id.unwrap() as u16,
                source_chunk: src.unwrap() as u32,
                receiver_id: recv.unwrap() as u16,
                render: flag_field(f, "render"@, false),
                lighting: flag_field(f, "lighting"@, false),
                physics: flag_field(f, "physics"@, true),
            },
        )
    } else {
        None
    }
}

/// A `level` line: the name, and the spawn point when both coordinates read as numbers.
pub open spec fn spec_level_line(
    acc: WorldIndexModel,
    f: Seq<(Seq<char>, Seq<char>)>,
    finite: Seq<Seq<char>>,
) -> WorldIndexModel {
    let name = match lookup(f, "name"@) {
        Some(n) => n,
        None => acc.level_name,
    };
    let spawn = match (lookup(f, "spawn_x"@), lookup(f, "spawn_y"@)) {
        (Some(x), Some(y)) => if finite.contains(x) && finite.contains(y) {
            seq![x, y]
        } else {
            acc.spawn
        },
        _ => acc.spawn,
    };
    WorldIndexModel { level_name: name, spawn, ..acc }
}

/// What one line after the header adds to the index.
pub open spec fn index_step(acc: WorldIndexModel, line: Seq<char>, finite: Seq<Seq<char>>) -> Result<
    WorldIndexModel,
    Seq<char>,
> {
    let k = token_end(line, 0);
    if k >= line.len() {
        Ok(acc)
    } else {
        let command = line.subrange(0, k);
        let f = spec_fields(spec_trim(line.subrange(k, line.len() as int)));
        if command == "level"@ {
            Ok(spec_level_line(acc, f, finite))
        } else if command == "chunk"@ {
            match spec_chunk_entry(f, finite) {
                Ok(c) => Ok(WorldIndexModel { chunks: acc.chunks.push(c), ..acc }),
                Err(e) => Err(e),
            }
        } else if command == "checkpoint"@ {
            match spec_checkpoint(f, finite) {
                Ok(Some(c)) => Ok(WorldIndexModel { checkpoints: acc.checkpoints.push(c), ..acc }),
                Ok(None) => Ok(acc),
                Err(e) => Err(e),
            }
        } else if command == "trigger"@ {
            match spec_trigger(f) {
                Ok(t) => Ok(WorldIndexModel { triggers: acc.triggers.push(t), ..acc }),
                Err(e) => Err(e),
            }
        } else if command == "portal"@ {
            match spec_portal(f) {
                Some(p) => Ok(WorldIndexModel { portals: acc.portals.push(p), ..acc }),
                None => Ok(acc),
            }
        } else {
            Ok(acc)
        }
    }
}

/// The lines after the header, read in order; the first failing line decides the error.
pub open spec fn index_body(acc: WorldIndexModel, lines: Seq<Seq<char>>, finite: Seq<Seq<char>>) -> Result<
    WorldIndexModel,
    Seq<char>,
>
    decreases lines.len(),
{
    if lines.len() == 0 {
        Ok(acc)
    } else {
        match index_body(acc, lines.drop_last(), finite) {
            Ok(a) => index_step(a, lines.last(), finite),
            Err(e) => Err(e),
        }
    }
}

pub open spec fn header_prefix() -> Seq<char> {
    "portals_world_index "@
}

/// The index before any line after the header.
pub open spec fn initial_index(schema: u8, coord_scale: i32, chunk_size_units: i32) -> WorldIndexModel {
    WorldIndexModel {
        schema,
        coord_scale,
        chunk_size_units,
        level_name: "Level"@,
        spawn: seq!["0"@, "0"@],
        chunks: seq![],
        triggers: seq![],
        checkpoints: seq![],
        portals: seq![],
    }
}

/// An index without chunks is rejected.
pub open spec fn finish_index(r: Result<WorldIndexModel, Seq<char>>) -> Result<WorldIndexModel, Seq<char>> {
    match r {
        Err(e) => Err(e),
        Ok(m) => if m.chunks.len() == 0 {
            Err("world.index contains no chunks"@)
        } else {
            Ok(m)
        },
    }
}

/// The index the content lines describe, or the message of the error that rejects them.
pub open spec fn spec_index_lines(lines: Seq<Seq<char>>, finite: Seq<Seq<char>>) -> Result<
    WorldIndexModel,
    Seq<char>,
> {
    if lines.len() == 0 {
        Err("empty world.index"@)
    } else {
        let header = lines[0];
        let p = header_prefix();
        if !(header.len() >= p.len() && header.subrange(0, p.len() as int) == p) {
            Err("missing portals_world_index header"@)
        } else {
            let hf = spec_fields(header.skip(p.len() as int));
            match field_unsigned(hf, "version"@, 255) {
                None => Err("world.index missing version"@),
                Some(schema) => match field_i32(hf, "coord_scale"@) {
                    None => Err("world.index missing coord_scale"@),
                    Some(cs) => match field_i32(hf, "chunk_size_units"@) {
                        None => Err("world.index missing chunk_size_units"@),
                        Some(csu) => if lookup(hf, "encoding"@) != Some("typed_bitpacked_soa"@) {
                            Err("world.index must use typed_bitpacked_soa encoding"@)
                        } else {
                            finish_index(
                                index_body(
                                    initial_index(schema as u8, cs as i32, csu as i32),
                                    lines.skip(1),
                                    finite,
                                ),
                            )
                        },
                    },
                },
            }
        }
    }
}

/// The index `source` describes, given the texts that read as finite numbers.
pub open spec fn spec_parse_world_index(source: Seq<char>, finite: Seq<Seq<char>>) -> Result<
    WorldIndexModel,
    Seq<char>,
> {
    spec_index_lines(content_lines(source), finite)
}

// ---------------------------------------------------------------------------
// Executable readers.

/// Whether `t` is one of the listed texts.
pub fn is_listed(list: &[String], t: &str) -> (b: bool)
    ensures
        b == strings_view(list@).contains(t@),
{
    let mut i: usize = 0;
    while i < list.len()
        invariant
            i <= list@.len(),
            forall|j: int| 0 <= j < i ==> list@[j]@ != t@,
        decreases list@.len() - i,
    {
        if str_eq(list[i].as_str(), t) {
            assert(strings_view(list@)[i as int] == t@);
            return true;
        }
        i = i + 1;
    }
    assert forall|j: int| 0 <= j < strings_view(list@).len() implies strings_view(list@)[j] != t@ by {
        assert(strings_view(list@)[j] == list@[j]@);
    }
    false
}

pub fn field_unsigned_of(fields: &KeyValues, key: &str, max: u64) -> (res: Option<u64>)
    requires
        max >= 9,
    ensures
        res matches Some(v) ==> field_unsigned(fields@, key@, max as int) == Some(v as int),
        res is None ==> field_unsigned(fields@, key@, max as int) is None,
{
    match fields.get(key) {
        Some(v) => {
            let cs = chars_of(v.as_str());
            crate::decimal::parse_unsigned(cs.as_slice(), max)
        },
        None => None,
    }
}

fn field_i32_of(fields: &KeyValues, key: &str) -> (res: Option<i32>)
    ensures
        res matches Some(v) ==> field_i32(fields@, key@) == Some(v as int),
        res is None ==> field_i32(fields@, key@) is None,
{
    match fields.get(key) {
        Some(v) => parse_i32(v.as_str()),
        None => None,
    }
}

fn count_of(fields: &KeyValues, key: &str) -> (res: u32)
    ensures
        res == count_field(fields@, key@),
{
    match field_unsigned_of(fields, key, 4294967295) {
        Some(v) => v as u32,
        None => 0,
    }
}

pub fn flag_of(fields: &KeyValues, key: &str, default: bool) -> (res: bool)
    ensures
        res == flag_field(fields@, key@, default),
{
    match fields.get(key) {
        Some(v) => parse_bool(v.as_str()),
        None => default,
    }
}

/// Reads two `i32` separated by a comma.
pub fn parse_i32_pair(value: &str) -> (res: PackageResult<[i32; 2]>)
    ensures
        match spec_i32_pair(value@) {
            Ok((x, y)) => res matches Ok(a) && a[0] == x && a[1] == y,
            Err(m) => res matches Err(LevelPackageError::InvalidData(e)) && e@ == m,
        },
{
    let parts = split_char(value, ',');
    let ghost ps = strings_view(parts@);
    let mut values: Vec<i32> = Vec::new();
    let mut j: usize = 0;
    while j < parts.len()
        invariant
            ps == strings_view(parts@),
            ps == split_commas(value@),
            j <= parts@.len(),
            values@.len() == j,
            forall|m: int|
                0 <= m < j ==> spec_parse_signed(#[trigger] ps[m], 2147483648, 2147483647) == Some(
                    values@[m] as int,
                ),
        decreases parts@.len() - j,
    {
        assert(ps[j as int] == parts@[j as int]@);
        match parse_i32(parts[j].as_str()) {
            Some(v) => values.push(v),
            None => {
                assert(spec_parse_signed(ps[j as int], 2147483648, 2147483647) is None);
                return Err(invalid_data("invalid i32 pair"));
            },
        }
        j = j + 1;
    }
    assert(!exists|m: int|
        0 <= m < ps.len() && (#[trigger] spec_parse_signed(ps[m], 2147483648, 2147483647)) is None);
    if values.len() != 2 {
        return Err(invalid_data("invalid i32 pair length"));
    }
    Ok([values[0], values[1]])
}

/// The parts of `value` when it holds exactly `n` comma-separated listed texts.
pub fn parse_float_list(value: &str, n: usize, finite: &[String]) -> (res: Option<Vec<String>>)
    ensures
        match spec_float_list(value@, n as nat, strings_view(finite@)) {
            Some(p) => res matches Some(v) && strings_view(v@) == p,
            None => res is None,
        },
{
    let parts = split_char(value, ',');
    if parts.len() != n {
        return None;
    }
    let mut j: usize = 0;
    while j < parts.len()
        invariant
            strings_view(parts@) == split_commas(value@),
            j <= parts@.len(),
            forall|m: int| 0 <= m < j ==> strings_view(finite@).contains(#[trigger] strings_view(parts@)[m]),
        decreases parts@.len() - j,
    {
        assert(strings_view(parts@)[j as int] == parts@[j as int]@);
        if !is_listed(finite, parts[j].as_str()) {
            return None;
        }
        j = j + 1;
    }
    Some(parts)
}

/// Reads a trigger kind: a number, or the name of one of the first three kinds.
pub fn parse_trigger_kind(value: &str) -> (res: Option<u8>)
    ensures
        res == spec_parse_trigger_kind(value@),
{
    if str_eq(value, "0") || str_eq(value, "level_start") || str_eq(value, "checkpoint") {
        Some(0)
    } else if str_eq(value, "1") || str_eq(value, "level_end") {
        Some(1)
    } else if str_eq(value, "2") || str_eq(value, "enemy_spawn") || str_eq(value, "spawn") {
        Some(2)
    } else {
        parse_u8(value)
    }
}

fn into_pair(v: Vec<String>) -> (r: [String; 2])
    requires
        v@.len() == 2,
    ensures
        strings_view(r@) == strings_view(v@),
{
    let mut v = v;
    let ghost sv = strings_view(v@);
    let b = v.pop().unwrap();
    let a = v.pop().unwrap();
    let r = [a, b];
    assert(strings_view(r@) =~= sv);
    r
}

fn into_quad(v: Vec<String>) -> (r: [String; 4])
    requires
        v@.len() == 4,
    ensures
        strings_view(r@) == strings_view(v@),
{
    let mut v = v;
    let ghost sv = strings_view(v@);
    let d = v.pop().unwrap();
    let c = v.pop().unwrap();
    let b = v.pop().unwrap();
    let a = v.pop().unwrap();
    let r = [a, b, c, d];
    assert(strings_view(r@) =~= sv);
    r
}

fn parse_chunk_entry(fields: &KeyValues, finite: &[String]) -> (res: PackageResult<WorldChunkEntry>)
    ensures
        match spec_chunk_entry(fields@, strings_view(finite@)) {
            Ok(m) => res matches Ok(c) && c@ == m,
            Err(msg) => res matches Err(LevelPackageError::InvalidData(e)) && e@ == msg,
        },
{
    let id = match field_unsigned_of(fields, "id", 4294967295) {
        Some(v) => v as u32,
        None => return Err(invalid_data("world.index chunk missing id")),
    };
    let origin_q = match fields.get("origin_q") {
        Some(v) => match parse_i32_pair(v.as_str()) {
            Ok(p) => p,
            Err(e) => return Err(e),
        },
        None => return Err(invalid_data("world.index chunk missing origin_q")),
    };
    let bbox_units = match fields.get("bbox_units") {
        Some(v) => match parse_float_list(v.as_str(), 4, finite) {
            Some(p) => into_quad(p),
            None => return Err(invalid_data("invalid f32 quad")),
        },
        None => return Err(invalid_data("world.index chunk missing bbox_units")),
    };
    let path = match fields.get("path") {
        Some(v) => v.clone(),
        None => return Err(invalid_data("world.index chunk missing path")),
    };
    let bytes = match field_unsigned_of(fields, "bytes", 18446744073709551615) {
        Some(v) => v,
        None => return Err(invalid_data("world.index chunk missing bytes")),
    };
    let sha256 = match fields.get("sha256") {
        Some(v) => v.clone(),
        None => return Err(invalid_data("world.index chunk missing sha256")),
    };
    let counts = ChunkObjectCounts {
        static_rects: count_of(fields, "static_rects"),
        hazard_rects: count_of(fields, "hazard_rects"),
        doors: count_of(fields, "doors"),
        checkpoints: count_of(fields, "checkpoints"),
        triggers: count_of(fields, "triggers"),
        enemy_spawns: count_of(fields, "enemy_spawns"),
        text_points: count_of(fields, "text_points"),
        world_portals: count_of(fields, "world_portals"),
    };
    Ok(WorldChunkEntry { id, origin_q, bbox_units, path, bytes, sha256, counts })
}

fn parse_checkpoint_anchor(fields: &KeyValues, finite: &[String]) -> (res: PackageResult<
    Option<CheckpointAnchor>,
>)
    ensures
        match spec_checkpoint(fields@, strings_view(finite@)) {
            Ok(Some(m)) => res matches Ok(Some(c)) && c@ == m,
            Ok(None) => res matches Ok(None),
            Err(msg) => res matches Err(LevelPackageError::InvalidData(e)) && e@ == msg,
        },
{
    let index = field_unsigned_of(fields, "index", 4294967295);
    let anchor = match fields.get("anchor") {
        Some(a) => match parse_float_list(a.as_str(), 2, finite) {
            Some(p) => Some(into_pair(p)),
            None => return Err(invalid_data("invalid f32 pair")),
        },
        None => None,
    };
    let chunk_id = match fields.get("restart_chunks") {
        Some(r) => {
            let parts = split_char(r.as_str(), ',');
            proof {
                crate::text_format::lemma_split_nonempty(r@, ',', 0);
            }
            let cs = chars_of(parts[0].as_str());
            crate::decimal::parse_unsigned(cs.as_slice(), 4294967295)
        },
        None => None,
    };
    match (index, anchor, chunk_id) {
        (Some(index), Some(anchor), Some(chunk_id)) => Ok(
            Some(CheckpointAnchor { index: index as u32, anchor, chunk_id: chunk_id as u32 }),
        ),
        _ => Ok(None),
    }
}

fn parse_trigger_anchor(fields: &KeyValues) -> (res: PackageResult<TriggerAnchor>)
    ensures
        match spec_trigger(fields@) {
            Ok(t) => res == Ok::<TriggerAnchor, LevelPackageError>(t),
            Err(msg) => res matches Err(LevelPackageError::InvalidData(e)) && e@ == msg,
        },
{
    let trigger_id = match field_unsigned_of(fields, "trigger_id", 65535) {
        Some(v) => v as u16,
        None => match field_unsigned_of(fields, "id", 65535) {
            Some(v) => v as u16,
            None => return Err(invalid_data("world.index trigger missing trigger_id")),
        },
    };
    let source_chunk = match field_unsigned_of(fields, "source_chunk", 4294967295) {
        Some(v) => v as u32,
        None => return Err(invalid_data("world.index trigger missing source_chunk")),
    };
    let kind = match fields.get("kind") {
        Some(k) => match parse_trigger_kind(k.as_str()) {
            Some(k) => k,
            None => return Err(invalid_data("world.index trigger missing kind")),
        },
        None => return Err(invalid_data("world.index trigger missing kind")),
    };
    let target_group = match fields.get("target_group") {
        Some(g) => match parse_u16(g.as_str()) {
            Some(g) => g,
            None => return Err(invalid_data("world.index trigger invalid target_group")),
        },
        None => 0,
    };
    Ok(TriggerAnchor { trigger_id, source_chunk, target_group, kind })
}

fn parse_portal_anchor(fields: &KeyValues) -> (res: Option<WorldPortalAnchor>)
    ensures
        res == spec_portal(fields@),
{
    let id = field_unsigned_of(fields, "id", 65535);
    let src = field_unsigned_of(fields, "source_chunk", 4294967295);
    let recv = field_unsigned_of(fields, "receiver", 65535);
    match (id, src, recv) {
        (Some(id), Some(src), Some(recv)) => Some(
            WorldPortalAnchor {
                portal_id: id as u16,
                source_chunk: src as u32,
                receiver_id: recv as u16,
                render: flag_of(fields, "render", false),
                lighting: flag_of(fields, "lighting", false),
                physics: flag_of(fields, "physics", true),
            },
        ),
        _ => None,
    }
}

/// `str::split` always yields at least one piece.
pub proof fn lemma_split_nonempty(s: Seq<char>, c: char, i: int)
    requires
        0 <= i <= s.len(),
    ensures
        split_from(s, c, i).len() >= 1,
{
    lemma_find_char_bounds(s, c, i);
}

/// Once a line fails, the lines after it do not change the error.
proof fn lemma_index_body_err_extends(
    acc: WorldIndexModel,
    lines: Seq<Seq<char>>,
    j: int,
    finite: Seq<Seq<char>>,
)
    requires
        0 <= j <= lines.len(),
        index_body(acc, lines.take(j), finite) is Err,
    ensures
        index_body(acc, lines, finite) == index_body(acc, lines.take(j), finite),
    decreases lines.len() - j,
{
    if j < lines.len() {
        assert(lines.take(j + 1).drop_last() =~= lines.take(j));
        lemma_index_body_err_extends(acc, lines, j + 1, finite);
    } else {
        assert(lines.take(j) =~= lines);
    }
}

/// Adds what one line after the header says to `acc`.
fn apply_index_line(acc: &mut WorldIndex, line: &str, finite: &[String]) -> (res: PackageResult<()>)
    ensures
        match index_step(old(acc)@, line@, strings_view(finite@)) {
            Ok(m) => res is Ok && final(acc)@ == m,
            Err(msg) => res matches Err(LevelPackageError::InvalidData(e)) && e@ == msg,
        },
{
    let ghost fin = strings_view(finite@);
    let lc = chars_of(line);
    let k = token_end_at(lc.as_slice(), 0);
    if k >= lc.len() {
        return Ok(());
    }
    let mut command = String::new();
    push_chars(&mut command, lc.as_slice(), 0, k);
    let rest = trim_chars(lc.as_slice(), k, lc.len());
    let fields = parse_key_values(rest.as_str());
    let ghost f = fields@;
    assert(command@ == line@.subrange(0, k as int));
    if str_eq(command.as_str(), "level") {
        let ghost a0 = acc@;
        match fields.get("name") {
            Some(n) => {
                acc.level_name = n.clone();
            },
            None => {},
        }
        match (fields.get("spawn_x"), fields.get("spawn_y")) {
            (Some(x), Some(y)) => {
                if is_listed(finite, x.as_str()) && is_listed(finite, y.as_str()) {
                    let spawn = [x.clone(), y.clone()];
                    assert(strings_view(spawn@) =~= seq![x@, y@]);
                    acc.spawn = spawn;
                }
            },
            _ => {},
        }
        assert(acc@ =~= spec_level_line(a0, f, fin));
        Ok(())
    } else if str_eq(command.as_str(), "chunk") {
        let entry = parse_chunk_entry(&fields, finite)?;
        let ghost old_chunks = acc.chunks@;
        acc.chunks.push(entry);
        assert(chunk_entries_view(acc.chunks@) =~= chunk_entries_view(old_chunks).push(entry@));
        Ok(())
    } else if str_eq(command.as_str(), "checkpoint") {
        match parse_checkpoint_anchor(&fields, finite)? {
            Some(c) => {
                let ghost old_cps = acc.checkpoints@;
                acc.checkpoints.push(c);
                assert(checkpoints_view(acc.checkpoints@) =~= checkpoints_view(old_cps).push(c@));
            },
            None => {},
        }
        Ok(())
    } else if str_eq(command.as_str(), "trigger") {
        let t = parse_trigger_anchor(&fields)?;
        acc.triggers.push(t);
        Ok(())
    } else if str_eq(command.as_str(), "portal") {
        match parse_portal_anchor(&fields) {
            Some(p) => {
                acc.portals.push(p);
            },
            None => {},
        }
        Ok(())
    } else {
        Ok(())
    }
}

/// Reads a `world.index` file. `finite` lists the texts that read as finite `f32` numbers:
/// the spawn point is taken only when both its coordinates are listed, and a chunk's bounding
/// box or a checkpoint's anchor is an error unless all its parts are listed.
pub fn parse_world_index(source: &str, finite: &[String]) -> (res: PackageResult<WorldIndex>)
    ensures
        match spec_parse_world_index(source@, strings_view(finite@)) {
            Ok(m) => res matches Ok(w) && w@ == m,
            Err(msg) => res matches Err(LevelPackageError::InvalidData(e)) && e@ == msg,
        },
{
    let ghost fin = strings_view(finite@);
    let lines = read_content_lines(source);
    let ghost ls = strings_view(lines@);
    if lines.len() == 0 {
        return Err(invalid_data("empty world.index"));
    }
    let header = chars_of(lines[0].as_str());
    assert(ls[0] == header@);
    let prefix = chars_of("portals_world_index ");
    let plen = prefix.len();
    if header.len() < plen || !slice_eq_str(header.as_slice(), 0, plen, "portals_world_index ") {
        return Err(invalid_data("missing portals_world_index header"));
    }
    let mut rest = String::new();
    push_chars(&mut rest, header.as_slice(), plen, header.len());
    assert(rest@ =~= header@.skip(plen as int));
    let hf = parse_key_values(rest.as_str());
    let schema = match field_unsigned_of(&hf, "version", 255) {
        Some(v) => v as u8,
        None => return Err(invalid_data("world.index missing version")),
    };
    let coord_scale = match field_i32_of(&hf, "coord_scale") {
        Some(v) => v,
        None => return Err(invalid_data("world.index missing coord_scale")),
    };
    let chunk_size_units = match field_i32_of(&hf, "chunk_size_units") {
        Some(v) => v,
        None => return Err(invalid_data("world.index missing chunk_size_units")),
    };
    let encoding_ok = match hf.get("encoding") {
        Some(e) => str_eq(e.as_str(), "typed_bitpacked_soa"),
        None => false,
    };
    if !encoding_ok {
        return Err(invalid_data("world.index must use typed_bitpacked_soa encoding"));
    }
    let spawn = ["0".to_string(), "0".to_string()];
    let mut acc = WorldIndex {
        schema,
        coord_scale,
        chunk_size_units,
        level_name: "Level".to_string(),
        spawn,
        chunks: Vec::new(),
        triggers: Vec::new(),
        checkpoints: Vec::new(),
        portals: Vec::new(),
    };
    let ghost acc0 = initial_index(schema, coord_scale, chunk_size_units);
    assert(acc@ =~= acc0);
    assert(ls.skip(1).take(0) =~= Seq::<Seq<char>>::empty());
    assert(spec_parse_world_index(source@, fin) == finish_index(index_body(acc0, ls.skip(1), fin)));
    let mut i: usize = 1;
    while i < lines.len()
        invariant
            spec_parse_world_index(source@, fin) == finish_index(index_body(acc0, ls.skip(1), fin)),
            ls == strings_view(lines@),
            fin == strings_view(finite@),
            1 <= i <= lines@.len(),
            index_body(acc0, ls.skip(1).take(i - 1), fin) == Ok::<WorldIndexModel, Seq<char>>(acc@),
        decreases lines@.len() - i,
    {
        let ghost before = acc@;
        assert(ls.skip(1).take(i as int).drop_last() =~= ls.skip(1).take(i - 1));
        assert(ls.skip(1).take(i as int).last() == lines@[i as int]@);
        match apply_index_line(&mut acc, lines[i].as_str(), finite) {
            Ok(()) => {},
            Err(e) => {
                proof {
                    let t = ls.skip(1).take(i as int);
                    assert(index_step(before, t.last(), fin) is Err);
                    assert(index_body(acc0, t.drop_last(), fin) == Ok::<WorldIndexModel, Seq<char>>(before));
                    assert(index_body(acc0, t, fin) is Err);
                    lemma_index_body_err_extends(acc0, ls.skip(1), i as int, fin);
                }
                return Err(e);
            },
        }
        i = i + 1;
    }
    assert(ls.skip(1).take(lines@.len() - 1) =~= ls.skip(1));
    if acc.chunks.len() == 0 {
        return Err(invalid_data("world.index contains no chunks"));
    }
    Ok(acc)
}

// ---------------------------------------------------------------------------
// Writing the index.

/// Texts joined by commas.
pub open spec fn join_commas(ps: Seq<Seq<char>>) -> Seq<char>
    decreases ps.len(),
{
    if ps.len() == 0 {
        seq![]
    } else if ps.len() == 1 {
        ps[0]
    } else {
        ps[0] + seq![','] + join_commas(ps.skip(1))
    }
}

pub open spec fn bool_text(b: bool) -> Seq<char> {
    if b {
        "true"@
    } else {
        "false"@
    }
}

/// The word written for a trigger kind: the names of the first three kinds, else the number.
pub open spec fn spec_format_trigger_kind(kind: u8) -> Seq<char> {
    if kind == 0 {
        "checkpoint"@
    } else if kind == 1 {
        "level_end"@
    } else if kind == 2 {
        "spawn"@
    } else {
        spec_format_int(kind as int)
    }
}

pub open spec fn num(v: int) -> Seq<char> {
    spec_format_int(v)
}

pub open spec fn header_fields(m: WorldIndexModel) -> Seq<(Seq<char>, Seq<char>, bool)> {
    seq![
        ("version"@, num(m.schema as int), false),
        ("endian"@, "little"@, false),
        ("coord_scale"@, num(m.coord_scale as int), false),
        ("chunk_size_units"@, num(m.chunk_size_units as int), false),
        ("encoding"@, "typed_bitpacked_soa"@, false),
    ]
}

pub open spec fn level_fields(m: WorldIndexModel) -> Seq<(Seq<char>, Seq<char>, bool)> {
    seq![("name"@, m.level_name, true), ("spawn_x"@, m.spawn[0], false), ("spawn_y"@, m.spawn[1], false)]
}

pub open spec fn chunk_fields(c: ChunkEntryModel) -> Seq<(Seq<char>, Seq<char>, bool)> {
    seq![
        ("id"@, num(c.id as int), false),
        ("origin_q"@, num(c.origin_q.0 as int) + seq![','] + num(c.origin_q.1 as int), false),
        ("bbox_units"@, join_commas(c.bbox_units), false),
        ("path"@, c.path, true),
        ("bytes"@, num(c.bytes as int), false),
        ("sha256"@, c.sha256, false),
        ("static_rects"@, num(c.counts.static_rects as int), false),
        ("hazard_rects"@, num(c.counts.hazard_rects as int), false),
        ("doors"@, num(c.counts.doors as int), false),
        ("checkpoints"@, num(c.counts.checkpoints as int), false),
        ("triggers"@, num(c.counts.triggers as int), false),
        ("enemy_spawns"@, num(c.counts.enemy_spawns as int), false),
        ("text_points"@, num(c.counts.text_points as int), false),
        ("world_portals"@, num(c.counts.world_portals as int), false),
    ]
}

pub open spec fn checkpoint_fields(c: CheckpointAnchorModel) -> Seq<(Seq<char>, Seq<char>, bool)> {
    seq![
        ("index"@, num(c.index as int), false),
        ("anchor"@, join_commas(c.anchor), false),
        ("restart_chunks"@, num(c.chunk_id as int), false),
    ]
}

pub open spec fn trigger_fields(t: TriggerAnchor) -> Seq<(Seq<char>, Seq<char>, bool)> {
    seq![
        ("trigger_id"@, num(t.trigger_id as int), false),
        ("kind"@, spec_format_trigger_kind(t.kind), false),
        ("source_chunk"@, num(t.source_chunk as int), false),
        ("target_group"@, num(t.target_group as int), false),
        ("activation_policy"@, "once"@, false),
        ("payload_offset"@, "0"@, false),
    ]
}

pub open spec fn portal_fields(p: WorldPortalAnchor) -> Seq<(Seq<char>, Seq<char>, bool)> {
    seq![
        ("id"@, num(p.portal_id as int), false),
        ("kind"@, "world"@, false),
        ("source_chunk"@, num(p.source_chunk as int), false),
        ("receiver"@, num(p.receiver_id as int), false),
        ("render"@, bool_text(p.render), false),
        ("lighting"@, bool_text(p.lighting), false),
        ("physics"@, bool_text(p.physics), false),
    ]
}

/// A line: the command word, a space, the fields, and a newline.
pub open spec fn text_line(command: Seq<char>, fields: Seq<(Seq<char>, Seq<char>, bool)>) -> Seq<char> {
    command + seq![' '] + keyed_line(fields) + seq!['\n']
}

pub open spec fn chunk_lines(cs: Seq<ChunkEntryModel>) -> Seq<char>
    decreases cs.len(),
{
    if cs.len() == 0 {
        seq![]
    } else {
        chunk_lines(cs.drop_last()) + text_line("chunk"@, chunk_fields(cs.last()))
    }
}

pub open spec fn checkpoint_lines(cs: Seq<CheckpointAnchorModel>) -> Seq<char>
    decreases cs.len(),
{
    if cs.len() == 0 {
        seq![]
    } else {
        checkpoint_lines(cs.drop_last()) + text_line("checkpoint"@, checkpoint_fields(cs.last()))
    }
}

pub open spec fn trigger_lines(ts: Seq<TriggerAnchor>) -> Seq<char>
    decreases ts.len(),
{
    if ts.len() == 0 {
        seq![]
    } else {
        trigger_lines(ts.drop_last()) + text_line("trigger"@, trigger_fields(ts.last()))
    }
}

pub open spec fn portal_lines(ps: Seq<WorldPortalAnchor>) -> Seq<char>
    decreases ps.len(),
{
    if ps.len() == 0 {
        seq![]
    } else {
        portal_lines(ps.drop_last()) + text_line("portal"@, portal_fields(ps.last()))
    }
}

/// The text of a `world.index` file: the header, the level line, then one line per chunk,
/// checkpoint, trigger and portal.
pub open spec fn spec_format_world_index(m: WorldIndexModel) -> Seq<char> {
    text_line("portals_world_index"@, header_fields(m)) + text_line("level"@, level_fields(m))
        + chunk_lines(m.chunks) + checkpoint_lines(m.checkpoints) + trigger_lines(m.triggers)
        + portal_lines(m.portals)
}

proof fn lemma_join_commas_push(ps: Seq<Seq<char>>, x: Seq<char>)
    ensures
        ps.len() == 0 ==> join_commas(ps.push(x)) == x,
        ps.len() > 0 ==> join_commas(ps.push(x)) == join_commas(ps) + seq![','] + x,
    decreases ps.len(),
{
    let g = ps.push(x);
    if ps.len() == 1 {
        assert(g.skip(1) =~= seq![x]);
        assert(join_commas(seq![x]) == x);
        assert(g[0] == ps[0]);
    } else if ps.len() > 1 {
        assert(g.skip(1) =~= ps.skip(1).push(x));
        assert(g[0] == ps[0]);
        lemma_join_commas_push(ps.skip(1), x);
        assert(ps[0] + seq![','] + (join_commas(ps.skip(1)) + seq![','] + x) =~= (ps[0] + seq![',']
            + join_commas(ps.skip(1))) + seq![','] + x);
    }
}

/// The parts joined by commas.
pub fn join_texts(parts: &[String]) -> (res: String)
    ensures
        res@ == join_commas(strings_view(parts@)),
{
    let mut out = String::new();
    let mut i: usize = 0;
    assert(strings_view(parts@).take(0) =~= Seq::<Seq<char>>::empty());
    while i < parts.len()
        invariant
            i <= parts@.len(),
            out@ == join_commas(strings_view(parts@).take(i as int)),
        decreases parts@.len() - i,
    {
        let ghost before = strings_view(parts@).take(i as int);
        proof {
            lemma_join_commas_push(before, parts@[i as int]@);
            assert(strings_view(parts@).take(i + 1) =~= before.push(parts@[i as int]@));
        }
        if i > 0 {
            push_char(&mut out, ',');
        }
        push_str(&mut out, parts[i].as_str());
        i = i + 1;
    }
    assert(strings_view(parts@).take(parts@.len() as int) =~= strings_view(parts@));
    out
}

pub fn bool_word(b: bool) -> (r: &'static str)
    ensures
        r@ == bool_text(b),
{
    if b {
        "true"
    } else {
        "false"
    }
}

/// The word written for a trigger kind.
pub fn format_trigger_kind(kind: u8) -> (res: String)
    ensures
        res@ == spec_format_trigger_kind(kind),
{
    if kind == 0 {
        "checkpoint".to_string()
    } else if kind == 1 {
        "level_end".to_string()
    } else if kind == 2 {
        "spawn".to_string()
    } else {
        format_u64(kind as u64)
    }
}

/// Appends one field to a line whose fields so far are `fs`; `first` tells whether there are
/// none yet.
pub fn add_field(
    out: &mut String,
    first: bool,
    key: &str,
    value: &str,
    quoted: bool,
    Ghost(head): Ghost<Seq<char>>,
    Ghost(fs): Ghost<Seq<(Seq<char>, Seq<char>, bool)>>,
)
    requires
        old(out)@ == head + keyed_line(fs),
        first == (fs.len() == 0),
    ensures
        final(out)@ == head + keyed_line(fs.push((key@, value@, quoted))),
{
    proof {
        lemma_keyed_line_push(fs, (key@, value@, quoted));
    }
    push_field(out, first, key, value, quoted);
    proof {
        let f = field_text(key@, value@, quoted);
        if first {
            assert(keyed_line(fs) =~= Seq::<char>::empty());
            assert(head + Seq::<char>::empty() + Seq::<char>::empty() + f =~= head + f);
        } else {
            assert(head + keyed_line(fs) + seq![' '] + f =~= head + (keyed_line(fs) + seq![' ']
                + f));
        }
    }
}

/// Two integers separated by a comma.
fn pair_text(x: i32, y: i32) -> (res: String)
    ensures
        res@ == num(x as int) + seq![','] + num(y as int),
{
    let mut out = format_i64(x as i64);
    push_char(&mut out, ',');
    let b = format_i64(y as i64);
    push_str(&mut out, b.as_str());
    out
}

fn push_header_line(out: &mut String, index: &WorldIndex)
    ensures
        final(out)@ == old(out)@ + text_line("portals_world_index"@, header_fields(index@)),
{
    let ghost start = out@;
    push_str(out, "portals_world_index");
    push_char(out, ' ');
    let ghost head = out@;
    let ghost mut fs: Seq<(Seq<char>, Seq<char>, bool)> = Seq::empty();
    assert(out@ =~= head + keyed_line(fs));
    let v0 = format_u64(index.schema as u64);
    add_field(out, true, "version", v0.as_str(), false, Ghost(head), Ghost(fs));
    proof { fs = fs.push(("version"@, v0@, false)); }
    let v1 = "little".to_string();
    add_field(out, false, "endian", v1.as_str(), false, Ghost(head), Ghost(fs));
    proof { fs = fs.push(("endian"@, v1@, false)); }
    let v2 = format_i64(index.coord_scale as i64);
    add_field(out, false, "coord_scale", v2.as_str(), false, Ghost(head), Ghost(fs));
    proof { fs = fs.push(("coord_scale"@, v2@, false)); }
    let v3 = format_i64(index.chunk_size_units as i64);
    add_field(out, false, "chunk_size_units", v3.as_str(), false, Ghost(head), Ghost(fs));
    proof { fs = fs.push(("chunk_size_units"@, v3@, false)); }
    let v4 = "typed_bitpacked_soa".to_string();
    add_field(out, false, "encoding", v4.as_str(), false, Ghost(head), Ghost(fs));
    proof { fs = fs.push(("encoding"@, v4@, false)); }
    push_char(out, '\n');
    assert(fs =~= header_fields(index@));
    assert(out@ =~= start + text_line("portals_world_index"@, header_fields(index@)));
}

fn push_level_line(out: &mut String, index: &WorldIndex)
    ensures
        final(out)@ == old(out)@ + text_line("level"@, level_fields(index@)),
{
    let ghost start = out@;
    push_str(out, "level");
    push_char(out, ' ');
    let ghost head = out@;
    let ghost mut fs: Seq<(Seq<char>, Seq<char>, bool)> = Seq::empty();
    assert(out@ =~= head + keyed_line(fs));
    let v0 = index.level_name.clone();
    add_field(out, true, "name", v0.as_str(), true, Ghost(head), Ghost(fs));
    proof { fs = fs.push(("name"@, v0@, true)); }
    let v1 = index.spawn[0].clone();
    add_field(out, false, "spawn_x", v1.as_str(), false, Ghost(head), Ghost(fs));
    proof { fs = fs.push(("spawn_x"@, v1@, false)); }
    let v2 = index.spawn[1].clone();
    add_field(out, false, "spawn_y", v2.as_str(), false, Ghost(head), Ghost(fs));
    proof { fs = fs.push(("spawn_y"@, v2@, false)); }
    push_char(out, '\n');
    assert(fs =~= level_fields(index@));
    assert(out@ =~= start + text_line("level"@, level_fields(index@)));
}

fn push_chunk_line(out: &mut String, c: &WorldChunkEntry)
    ensures
        final(out)@ == old(out)@ + text_line("chunk"@, chunk_fields(c@)),
{
    let ghost start = out@;
    push_str(out, "chunk");
    push_char(out, ' ');
    let ghost head = out@;
    let ghost mut fs: Seq<(Seq<char>, Seq<char>, bool)> = Seq::empty();
    assert(out@ =~= head + keyed_line(fs));
    let v0 = format_u64(c.id as u64);
    add_field(out, true, "id", v0.as_str(), false, Ghost(head), Ghost(fs));
    proof { fs = fs.push(("id"@, v0@, false)); }
    let v1 = pair_text(c.origin_q[0], c.origin_q[1]);
    add_field(out, false, "origin_q", v1.as_str(), false, Ghost(head), Ghost(fs));
    proof { fs = fs.push(("origin_q"@, v1@, false)); }
    let v2 = join_texts(c.bbox_units.as_slice());
    add_field(out, false, "bbox_units", v2.as_str(), false, Ghost(head), Ghost(fs));
    proof { fs = fs.push(("bbox_units"@, v2@, false)); }
    let v3 = c.path.clone();
    add_field(out, false, "path", v3.as_str(), true, Ghost(head), Ghost(fs));
    proof { fs = fs.push(("path"@, v3@, true)); }
    let v4 = format_u64(c.bytes);
    add_field(out, false, "bytes", v4.as_str(), false, Ghost(head), Ghost(fs));
    proof { fs = fs.push(("bytes"@, v4@, false)); }
    let v5 = c.sha256.clone();
    add_field(out, false, "sha256", v5.as_str(), false, Ghost(head), Ghost(fs));
    proof { fs = fs.push(("sha256"@, v5@, false)); }
    let v6 = format_u64(c.counts.static_rects as u64);
    add_field(out, false, "static_rects", v6.as_str(), false, Ghost(head), Ghost(fs));
    proof { fs = fs.push(("static_rects"@, v6@, false)); }
    let v7 = format_u64(c.counts.hazard_rects as u64);
    add_field(out, false, "hazard_rects", v7.as_str(), false, Ghost(head), Ghost(fs));
    proof { fs = fs.push(("hazard_rects"@, v7@, false)); }
    let v8 = format_u64(c.counts.doors as u64);
    add_field(out, false, "doors", v8.as_str(), false, Ghost(head), Ghost(fs));
    proof { fs = fs.push(("doors"@, v8@, false)); }
    let v9 = format_u64(c.counts.checkpoints as u64);
    add_field(out, false, "checkpoints", v9.as_str(), false, Ghost(head), Ghost(fs));
    proof { fs = fs.push(("checkpoints"@, v9@, false)); }
    let v10 = format_u64(c.counts.triggers as u64);
    add_field(out, false, "triggers", v10.as_str(), false, Ghost(head), Ghost(fs));
    proof { fs = fs.push(("triggers"@, v10@, false)); }
    let v11 = format_u64(c.counts.enemy_spawns as u64);
    add_field(out, false, "enemy_spawns", v11.as_str(), false, Ghost(head), Ghost(fs));
    proof { fs = fs.push(("enemy_spawns"@, v11@, false)); }
    let v12 = format_u64(c.counts.text_points as u64);
    add_field(out, false, "text_points", v12.as_str(), false, Ghost(head), Ghost(fs));
    proof { fs = fs.push(("text_points"@, v12@, false)); }
    let v13 = format_u64(c.counts.world_portals as u64);
    add_field(out, false, "world_portals", v13.as_str(), false, Ghost(head), Ghost(fs));
    proof { fs = fs.push(("world_portals"@, v13@, false)); }
    push_char(out, '\n');
    assert(fs =~= chunk_fields(c@));
    assert(out@ =~= start + text_line("chunk"@, chunk_fields(c@)));
}

fn push_checkpoint_line(out: &mut String, c: &CheckpointAnchor)
    ensures
        final(out)@ == old(out)@ + text_line("checkpoint"@, checkpoint_fields(c@)),
{
    let ghost start = out@;
    push_str(out, "checkpoint");
    push_char(out, ' ');
    let ghost head = out@;
    let ghost mut fs: Seq<(Seq<char>, Seq<char>, bool)> = Seq::empty();
    assert(out@ =~= head + keyed_line(fs));
    let v0 = format_u64(c.index as u64);
    add_field(out, true, "index", v0.as_str(), false, Ghost(head), Ghost(fs));
    proof { fs = fs.push(("index"@, v0@, false)); }
    let v1 = join_texts(c.anchor.as_slice());
    add_field(out, false, "anchor", v1.as_str(), false, Ghost(head), Ghost(fs));
    proof { fs = fs.push(("anchor"@, v1@, false)); }
    let v2 = format_u64(c.chunk_id as u64);
    add_field(out, false, "restart_chunks", v2.as_str(), false, Ghost(head), Ghost(fs));
    proof { fs = fs.push(("restart_chunks"@, v2@, false)); }
    push_char(out, '\n');
    assert(fs =~= checkpoint_fields(c@));
    assert(out@ =~= start + text_line("checkpoint"@, checkpoint_fields(c@)));
}

fn push_trigger_line(out: &mut String, t: &TriggerAnchor)
    ensures
        final(out)@ == old(out)@ + text_line("trigger"@, trigger_fields(*t)),
{
    let ghost start = out@;
    push_str(out, "trigger");
    push_char(out, ' ');
    let ghost head = out@;
    let ghost mut fs: Seq<(Seq<char>, Seq<char>, bool)> = Seq::empty();
    assert(out@ =~= head + keyed_line(fs));
    let v0 = format_u64(t.trigger_id as u64);
    add_field(out, true, "trigger_id", v0.as_str(), false, Ghost(head), Ghost(fs));
    proof { fs = fs.push(("trigger_id"@, v0@, false)); }
    let v1 = format_trigger_kind(t.kind);
    add_field(out, false, "kind", v1.as_str(), false, Ghost(head), Ghost(fs));
    proof { fs = fs.push(("kind"@, v1@, false)); }
    let v2 = format_u64(t.source_chunk as u64);
    add_field(out, false, "source_chunk", v2.as_str(), false, Ghost(head), Ghost(fs));
    proof { fs = fs.push(("source_chunk"@, v2@, false)); }
    let v3 = format_u64(t.target_group as u64);
    add_field(out, false, "target_group", v3.as_str(), false, Ghost(head), Ghost(fs));
    proof { fs = fs.push(("target_group"@, v3@, false)); }
    let v4 = "once".to_string();
    add_field(out, false, "activation_policy", v4.as_str(), false, Ghost(head), Ghost(fs));
    proof { fs = fs.push(("activation_policy"@, v4@, false)); }
    let v5 = "0".to_string();
    add_field(out, false, "payload_offset", v5.as_str(), false, Ghost(head), Ghost(fs));
    proof { fs = fs.push(("payload_offset"@, v5@, false)); }
    push_char(out, '\n');
    assert(fs =~= trigger_fields(*t));
    assert(out@ =~= start + text_line("trigger"@, trigger_fields(*t)));
}

fn push_portal_line(out: &mut String, p: &WorldPortalAnchor)
    ensures
        final(out)@ == old(out)@ + text_line("portal"@, portal_fields(*p)),
{
    let ghost start = out@;
    push_str(out, "portal");
    push_char(out, ' ');
    let ghost head = out@;
    let ghost mut fs: Seq<(Seq<char>, Seq<char>, bool)> = Seq::empty();
    assert(out@ =~= head + keyed_line(fs));
    let v0 = format_u64(p.portal_id as u64);
    add_field(out, true, "id", v0.as_str(), false, Ghost(head), Ghost(fs));
    proof { fs = fs.push(("id"@, v0@, false)); }
    let v1 = "world".to_string();
    add_field(out, false, "kind", v1.as_str(), false, Ghost(head), Ghost(fs));
    proof { fs = fs.push(("kind"@, v1@, false)); }
    let v2 = format_u64(p.source_chunk as u64);
    add_field(out, false, "source_chunk", v2.as_str(), false, Ghost(head), Ghost(fs));
    proof { fs = fs.push(("source_chunk"@, v2@, false)); }
    let v3 = format_u64(p.receiver_id as u64);
    add_field(out, false, "receiver", v3.as_str(), false, Ghost(head), Ghost(fs));
    proof { fs = fs.push(("receiver"@, v3@, false)); }
    let v4 = bool_word(p.render).to_string();
    add_field(out, false, "render", v4.as_str(), false, Ghost(head), Ghost(fs));
    proof { fs = fs.push(("render"@, v4@, false)); }
    let v5 = bool_word(p.lighting).to_string();
    add_field(out, false, "lighting", v5.as_str(), false, Ghost(head), Ghost(fs));
    proof { fs = fs.push(("lighting"@, v5@, false)); }
    let v6 = bool_word(p.physics).to_string();
    add_field(out, false, "physics", v6.as_str(), false, Ghost(head), Ghost(fs));
    proof { fs = fs.push(("physics"@, v6@, false)); }
    push_char(out, '\n');
    assert(fs =~= portal_fields(*p));
    assert(out@ =~= start + text_line("portal"@, portal_fields(*p)));
}

/// Writes a `world.index` file.
pub fn format_world_index(index: &WorldIndex) -> (res: String)
    ensures
        res@ == spec_format_world_index(index@),
{
    let ghost m = index@;
    let mut out = String::new();
    push_header_line(&mut out, index);
    push_level_line(&mut out, index);
    let ghost base = out@;
    let mut i: usize = 0;
    assert(chunk_entries_view(index.chunks@).take(0) =~= Seq::<ChunkEntryModel>::empty());
    while i < index.chunks.len()
        invariant
            i <= index.chunks@.len(),
            out@ == base + chunk_lines(chunk_entries_view(index.chunks@).take(i as int)),
        decreases index.chunks@.len() - i,
    {
        push_chunk_line(&mut out, &index.chunks[i]);
        assert(chunk_entries_view(index.chunks@).take(i + 1).drop_last() =~= chunk_entries_view(
            index.chunks@,
        ).take(i as int));
        i = i + 1;
    }
    assert(chunk_entries_view(index.chunks@).take(i as int) =~= m.chunks);
    let ghost base = out@;
    let mut i: usize = 0;
    assert(checkpoints_view(index.checkpoints@).take(0) =~= Seq::<CheckpointAnchorModel>::empty());
    while i < index.checkpoints.len()
        invariant
            i <= index.checkpoints@.len(),
            out@ == base + checkpoint_lines(checkpoints_view(index.checkpoints@).take(i as int)),
        decreases index.checkpoints@.len() - i,
    {
        push_checkpoint_line(&mut out, &index.checkpoints[i]);
        assert(checkpoints_view(index.checkpoints@).take(i + 1).drop_last() =~= checkpoints_view(
            index.checkpoints@,
        ).take(i as int));
        i = i + 1;
    }
    assert(checkpoints_view(index.checkpoints@).take(i as int) =~= m.checkpoints);
    let ghost base = out@;
    let mut i: usize = 0;
    assert(index.triggers@.take(0) =~= Seq::<TriggerAnchor>::empty());
    while i < index.triggers.len()
        invariant
            i <= index.triggers@.len(),
            out@ == base + trigger_lines(index.triggers@.take(i as int)),
        decreases index.triggers@.len() - i,
    {
        push_trigger_line(&mut out, &index.triggers[i]);
        assert(index.triggers@.take(i + 1).drop_last() =~= index.triggers@.take(i as int));
        i = i + 1;
    }
    assert(index.triggers@.take(i as int) =~= m.triggers);
    let ghost base = out@;
    let mut i: usize = 0;
    assert(index.portals@.take(0) =~= Seq::<WorldPortalAnchor>::empty());
    while i < index.portals.len()
        invariant
            i <= index.portals@.len(),
            out@ == base + portal_lines(index.portals@.take(i as int)),
        decreases index.portals@.len() - i,
    {
        push_portal_line(&mut out, &index.portals[i]);
        assert(index.portals@.take(i + 1).drop_last() =~= index.portals@.take(i as int));
        i = i + 1;
    }
    assert(index.portals@.take(i as int) =~= m.portals);
    out
}

} // verus!
