//! A level package: the manifest, the world index and the chunk files it lists, with the
//! checks that tie them together when a package is read.
use sha2::Digest;
use vstd::prelude::*;

use crate::binio::{
    chunk_wf, decode_chunk, enc_chunk, encode_chunk, lemma_decode_encode_chunk, spec_decode_chunk,
};
use crate::chunk::{WorldChunk, WorldChunkModel, spec_counts};
use crate::error::{LevelPackageError, PackageResult, invalid_data};
use crate::decimal::{format_u64, spec_format_int};
use crate::manifest::{
    LevelManifest, ManifestError, PACKAGE_SCHEMA, manifest_result_matches, parse_manifest,
    spec_parse_manifest,
};
use crate::naming::{spec_stable_level_id, stable_level_id};
use crate::strutil::{chars_of, push_char, push_str, str_eq};
use crate::text_format::{
    WorldChunkEntry, WorldIndex, parse_world_index, spec_parse_world_index, split_char, split_from,
};
use crate::chunk::strings_view;

verus! {

/// Quantization steps per world unit.
pub const COORD_SCALE: i32 = 16;

/// The side of a chunk in world units.
pub const CHUNK_SIZE_UNITS: i32 = 2048;

/// A package read from disk: its manifest, its index and its chunks in index order.
#[derive(Clone, Debug)]
pub struct LevelPackage {
    pub manifest: LevelManifest,
    pub index: WorldIndex,
    pub chunks: Vec<WorldChunk>,
}

// ---------------------------------------------------------------------------
// Checksums.

/// The SHA-256 digest of a byte string, as the `sha2` crate computes it.
pub uninterp spec fn sha256_digest(bytes: Seq<u8>) -> Seq<u8>;

/// `sha2::Sha256::digest`: the SHA-256 digest of `bytes`. The contract names the digest and
/// states its length of 32 bytes, which the type of the result fixes.
#[verifier::external_body]
fn sha256_bytes(bytes: &[u8]) -> (res: Vec<u8>)
    ensures
        res@ == sha256_digest(bytes@),
        res@.len() == 32,
{
    sha2::Sha256::digest(bytes).to_vec()
}

pub open spec fn hex_digit(d: int) -> char {
    if d < 10 {
        (d + 48) as char
    } else {
        (d + 87) as char
    }
}

/// Lower-case hexadecimal, two digits per byte (`{:02x}`).
pub open spec fn spec_hex(bytes: Seq<u8>) -> Seq<char>
    decreases bytes.len(),
{
    if bytes.len() == 0 {
        seq![]
    } else {
        spec_hex(bytes.drop_last()) + seq![
            hex_digit(bytes.last() as int / 16),
            hex_digit(bytes.last() as int % 16),
        ]
    }
}

fn hex_digit_char(d: u8) -> (c: char)
    requires
        d < 16,
    ensures
        c == hex_digit(d as int),
{
    if d < 10 {
        (d + 48) as char
    } else {
        (d + 87) as char
    }
}

/// The SHA-256 digest of `bytes` in lower-case hexadecimal.
pub fn sha256_hex(bytes: &[u8]) -> (res: String)
    ensures
        res@ == spec_hex(sha256_digest(bytes@)),
{
    let digest = sha256_bytes(bytes);
    let mut out = String::new();
    let mut i: usize = 0;
    while i < digest.len()
        invariant
            i <= digest@.len(),
            out@ == spec_hex(digest@.take(i as int)),
        decreases digest@.len() - i,
    {
        let b = digest[i];
        push_char(&mut out, hex_digit_char(b / 16));
        push_char(&mut out, hex_digit_char(b % 16));
        assert(digest@.take(i + 1).drop_last() =~= digest@.take(i as int));
        assert(out@ =~= spec_hex(digest@.take(i + 1)));
        i = i + 1;
    }
    assert(digest@.take(i as int) =~= digest@);
    out
}

// ---------------------------------------------------------------------------
// Paths inside a package.

/// A relative path that stays inside the package: not empty, not absolute, free of `\` and
/// `:`, not starting with a `.` component and without `..` components. These are the paths
/// whose components (`std::path::Path::components`, which drops empty and inner `.`
/// segments) are all normal names.
pub open spec fn spec_package_path_ok(p: Seq<char>) -> bool {
    let segs = split_from(p, '/', 0);
    &&& p.len() > 0
    &&& p[0] != '/'
    &&& p[0] != '\\'
    &&& !p.contains('\\')
    &&& !p.contains(':')
    &&& segs[0] != "."@
    &&& forall|j: int| 0 <= j < segs.len() ==> #[trigger] segs[j] != ".."@
}

fn path_error(path: &str) -> (e: LevelPackageError)
    ensures
        e matches LevelPackageError::InvalidPackagePath { path: p } && p@ == path@,
{
    LevelPackageError::InvalidPackagePath { path: path.to_string() }
}

/// Refuses a path that could leave the package directory.
pub fn validate_package_path(path: &str) -> (res: PackageResult<()>)
    ensures
        spec_package_path_ok(path@) ==> res is Ok,
        !spec_package_path_ok(path@) ==> (res matches Err(
            LevelPackageError::InvalidPackagePath { path: p },
        ) && p@ == path@),
{
    let cs = chars_of(path);
    if cs.len() == 0 || cs[0] == '/' || cs[0] == '\\' {
        return Err(path_error(path));
    }
    let mut i: usize = 0;
    while i < cs.len()
        invariant
            cs@ == path@,
            i <= cs@.len(),
            forall|k: int| 0 <= k < i ==> cs@[k] != '\\' && cs@[k] != ':',
        decreases cs@.len() - i,
    {
        if cs[i] == '\\' || cs[i] == ':' {
            assert(path@[i as int] == cs@[i as int]);
            return Err(path_error(path));
        }
        i = i + 1;
    }
    let segs = split_char(path, '/');
    proof {
        crate::text_format::lemma_split_nonempty(path@, '/', 0);
    }
    let ghost sv = crate::chunk::strings_view(segs@);
    assert(sv[0] == segs@[0]@);
    if str_eq(segs[0].as_str(), ".") {
        return Err(path_error(path));
    }
    let mut j: usize = 0;
    while j < segs.len()
        invariant
            sv == crate::chunk::strings_view(segs@),
            sv == split_from(path@, '/', 0),
            j <= segs@.len(),
            forall|k: int| 0 <= k < j ==> #[trigger] sv[k] != ".."@,
        decreases segs@.len() - j,
    {
        assert(sv[j as int] == segs@[j as int]@);
        if str_eq(segs[j].as_str(), "..") {
            return Err(path_error(path));
        }
        j = j + 1;
    }
    Ok(())
}

// ---------------------------------------------------------------------------
// Package checks.

/// The manifest must point at `world.index`.
pub fn check_manifest_entry(manifest: &LevelManifest) -> (res: PackageResult<()>)
    ensures
        manifest.entry@ == "world.index"@ ==> res is Ok,
        manifest.entry@ != "world.index"@ ==> (res matches Err(
            LevelPackageError::UnsupportedEntry { entry },
        ) && entry@ == manifest.entry@),
{
    if str_eq(manifest.entry.as_str(), "world.index") {
        Ok(())
    } else {
        Err(LevelPackageError::UnsupportedEntry { entry: manifest.entry.clone() })
    }
}

/// The index must have schema 4 and the manifest's coordinate settings.
pub fn check_index(manifest: &LevelManifest, index: &WorldIndex) -> (res: PackageResult<()>)
    ensures
        index.schema != PACKAGE_SCHEMA ==> res == Err::<(), LevelPackageError>(
            LevelPackageError::UnsupportedSchema { schema: index.schema },
        ),
        index.schema == PACKAGE_SCHEMA && (index.coord_scale != manifest.coord_scale
            || index.chunk_size_units != manifest.chunk_size_units) ==> (res matches Err(
            LevelPackageError::InvalidData(m),
        ) && m@ == "manifest and world.index coordinate settings disagree"@),
        index.schema == PACKAGE_SCHEMA && index.coord_scale == manifest.coord_scale
            && index.chunk_size_units == manifest.chunk_size_units ==> res is Ok,
{
    if index.schema != PACKAGE_SCHEMA {
        return Err(LevelPackageError::UnsupportedSchema { schema: index.schema });
    }
    if index.coord_scale != manifest.coord_scale || index.chunk_size_units
        != manifest.chunk_size_units {
        return Err(invalid_data("manifest and world.index coordinate settings disagree"));
    }
    Ok(())
}

/// Reads a package's `manifest.toml`, whose entry must be `world.index`.
pub fn read_package_manifest(source: &str) -> (res: PackageResult<LevelManifest>)
    ensures
        match spec_parse_manifest(source@) {
            Ok(m) => if m.entry == "world.index"@ {
                res matches Ok(x) && x@ == m
            } else {
                res matches Err(LevelPackageError::UnsupportedEntry { entry }) && entry@ == m.entry
            },
            Err(e) => manifest_result_matches(res, Err::<crate::manifest::ManifestModel, ManifestError>(e)),
        },
{
    let manifest = parse_manifest(source)?;
    check_manifest_entry(&manifest)?;
    Ok(manifest)
}

/// Reads a package's `world.index` and checks it against the manifest: schema 4 and the same
/// coordinate settings. `finite` lists the texts that read as finite numbers.
pub fn read_package_index(manifest: &LevelManifest, source: &str, finite: &[String]) -> (res: PackageResult<WorldIndex>)
    ensures
        match spec_parse_world_index(source@, strings_view(finite@)) {
            Err(msg) => res matches Err(LevelPackageError::InvalidData(e)) && e@ == msg,
            Ok(m) => if m.schema != PACKAGE_SCHEMA {
                res == Err::<WorldIndex, LevelPackageError>(LevelPackageError::UnsupportedSchema { schema: m.schema })
            } else if m.coord_scale != manifest.coord_scale || m.chunk_size_units != manifest.chunk_size_units {
                res matches Err(LevelPackageError::InvalidData(e)) && e@ == "manifest and world.index coordinate settings disagree"@
            } else {
                res matches Ok(w) && w@ == m
            },
        },
{
    let index = parse_world_index(source, finite)?;
    check_index(manifest, &index)?;
    Ok(index)
}

/// The outcome of checking a chunk file against its index entry.
pub enum ChunkCheck {
    SizeMismatch,
    ChecksumMismatch,
    Undecodable,
    HeaderMismatch,
    CountsMismatch,
    Passed(WorldChunkModel),
}

/// The first check the bytes fail, in order: byte size, SHA-256 checksum, the chunk image
/// itself, its header (id and origin), its object counts; else the chunk they hold.
pub open spec fn spec_check_chunk(entry: WorldChunkEntry, bytes: Seq<u8>) -> ChunkCheck {
    if bytes.len() != entry.bytes {
        ChunkCheck::SizeMismatch
    } else if spec_hex(sha256_digest(bytes)) != entry.sha256@ {
        ChunkCheck::ChecksumMismatch
    } else {
        match spec_decode_chunk(bytes) {
            None => ChunkCheck::Undecodable,
            Some(c) => if c.chunk_id != entry.id || c.origin_x != entry.origin_q[0] || c.origin_y
                != entry.origin_q[1] {
                ChunkCheck::HeaderMismatch
            } else if spec_counts(c) != entry.counts {
                ChunkCheck::CountsMismatch
            } else {
                ChunkCheck::Passed(c)
            },
        }
    }
}

/// Checks the bytes of a chunk file against its index entry and reads the chunk.
pub fn check_chunk_entry(entry: &WorldChunkEntry, bytes: &[u8]) -> (res: PackageResult<WorldChunk>)
    ensures
        match spec_check_chunk(*entry, bytes@) {
            ChunkCheck::SizeMismatch => res == Err::<WorldChunk, LevelPackageError>(
                LevelPackageError::ChunkSizeMismatch { chunk_id: entry.id },
            ),
            ChunkCheck::ChecksumMismatch => res == Err::<WorldChunk, LevelPackageError>(
                LevelPackageError::ChunkChecksumMismatch { chunk_id: entry.id },
            ),
            ChunkCheck::Undecodable => res matches Err(LevelPackageError::InvalidData(_)),
            ChunkCheck::HeaderMismatch => res == Err::<WorldChunk, LevelPackageError>(
                LevelPackageError::ChunkHeaderMismatch { chunk_id: entry.id },
            ),
            ChunkCheck::CountsMismatch => res == Err::<WorldChunk, LevelPackageError>(
                LevelPackageError::ChunkCountsMismatch { chunk_id: entry.id },
            ),
            ChunkCheck::Passed(c) => res matches Ok(x) && x@ == c,
        },
        res matches Ok(x) ==> {
            &&& bytes@.len() == entry.bytes
            &&& x.chunk_id == entry.id && x.origin_q == entry.origin_q
            &&& entry.counts.static_rects == x.static_rects.x@.len()
            &&& entry.counts.hazard_rects == x.hazard_rects.x@.len()
            &&& entry.counts.doors == x.doors.rects.x@.len()
            &&& entry.counts.checkpoints == x.checkpoints.x@.len()
            &&& entry.counts.triggers == x.triggers.rects.x@.len()
            &&& entry.counts.enemy_spawns == x.enemy_spawns.x@.len()
            &&& entry.counts.text_points == x.text_points.x@.len()
            &&& entry.counts.world_portals == x.world_portals.x@.len()
        },
{
    proof {
        crate::binio::lemma_decoded_chunk_wf(bytes@);
        if let Some(c) = spec_decode_chunk(bytes@) {
            crate::chunk::lemma_counts_are_block_lengths(c);
        }
    }
    if bytes.len() as u64 != entry.bytes {
        return Err(LevelPackageError::ChunkSizeMismatch { chunk_id: entry.id });
    }
    let actual = sha256_hex(bytes);
    if !str_eq(actual.as_str(), entry.sha256.as_str()) {
        return Err(LevelPackageError::ChunkChecksumMismatch { chunk_id: entry.id });
    }
    let chunk = decode_chunk(bytes)?;
    if chunk.chunk_id != entry.id || chunk.origin_q[0] != entry.origin_q[0] || chunk.origin_q[1]
        != entry.origin_q[1] {
        return Err(LevelPackageError::ChunkHeaderMismatch { chunk_id: entry.id });
    }
    if chunk.counts() != entry.counts {
        return Err(LevelPackageError::ChunkCountsMismatch { chunk_id: entry.id });
    }
    Ok(chunk)
}

// ---------------------------------------------------------------------------
// Writing a package.

/// `s` with zeros in front up to `width` characters.
pub open spec fn zero_pad(s: Seq<char>, width: nat) -> Seq<char> {
    if s.len() >= width {
        s
    } else {
        Seq::new((width - s.len()) as nat, |i: int| '0') + s
    }
}

/// Where chunk `chunk_id` is stored in a package: `world.chunks/`, the id with at least four
/// digits, and `.wchunk`.
pub open spec fn spec_chunk_path(chunk_id: u32) -> Seq<char> {
    "world.chunks/"@ + zero_pad(spec_format_int(chunk_id as int), 4) + ".wchunk"@
}

pub fn chunk_path(chunk_id: u32) -> (res: String)
    ensures
        res@ == spec_chunk_path(chunk_id),
{
    let digits = format_u64(chunk_id as u64);
    let dc = chars_of(digits.as_str());
    let mut out = String::new();
    push_str(&mut out, "world.chunks/");
    let ghost head = out@;
    let mut k: usize = dc.len();
    while k < 4
        invariant
            dc@ == digits@,
            dc@.len() <= k,
            k <= 4 || k == dc@.len(),
            out@ == head + Seq::new((k - dc@.len()) as nat, |i: int| '0'),
        decreases 4 - k,
    {
        push_char(&mut out, '0');
        assert(out@ =~= head + Seq::new((k + 1 - dc@.len()) as nat, |i: int| '0'));
        k = k + 1;
    }
    push_str(&mut out, digits.as_str());
    push_str(&mut out, ".wchunk");
    assert(out@ =~= spec_chunk_path(chunk_id));
    out
}

/// The manifest of a package compiled from a level named `name`.
pub fn package_manifest(name: &str) -> (m: LevelManifest)
    ensures
        m.id@ == spec_stable_level_id(name@),
        m.title@ == name@,
        m.author@ == "Author"@,
        m.entry@ == "world.index"@,
        m.chunk_size_units == CHUNK_SIZE_UNITS,
        m.coord_scale == COORD_SCALE,
{
    LevelManifest {
        id: stable_level_id(name),
        title: name.to_string(),
        author: "Author".to_string(),
        entry: "world.index".to_string(),
        chunk_size_units: CHUNK_SIZE_UNITS,
        coord_scale: COORD_SCALE,
    }
}

/// The image of a chunk and the index entry that describes it, given the text of its
/// bounding box in world units.
pub fn chunk_entry(chunk: &WorldChunk, bbox_units: [String; 4]) -> (res: (WorldChunkEntry, Vec<u8>))
    ensures
        res.1@ == enc_chunk(chunk@),
        res.0.id == chunk.chunk_id,
        res.0.origin_q == chunk.origin_q,
        res.0.bbox_units == bbox_units,
        res.0.path@ == spec_chunk_path(chunk.chunk_id),
        res.0.bytes == enc_chunk(chunk@).len(),
        res.0.sha256@ == spec_hex(sha256_digest(enc_chunk(chunk@))),
        res.0.counts == spec_counts(chunk@),
        res.0.counts.doors == chunk.doors.rects.x@.len() as u32,
        res.0.counts.checkpoints == chunk.checkpoints.x@.len() as u32,
        res.0.counts.static_rects == chunk.static_rects.x@.len() as u32,
        res.0.counts.hazard_rects == chunk.hazard_rects.x@.len() as u32,
        res.0.counts.triggers == chunk.triggers.rects.x@.len() as u32,
        res.0.counts.enemy_spawns == chunk.enemy_spawns.x@.len() as u32,
        res.0.counts.text_points == chunk.text_points.x@.len() as u32,
        res.0.counts.world_portals == chunk.world_portals.x@.len() as u32,
{
    let bytes = encode_chunk(chunk);
    let entry = WorldChunkEntry {
        id: chunk.chunk_id,
        origin_q: chunk.origin_q,
        bbox_units,
        path: chunk_path(chunk.chunk_id),
        bytes: bytes.len() as u64,
        sha256: sha256_hex(bytes.as_slice()),
        counts: chunk.counts(),
    };
    (entry, bytes)
}

/// The image of a well-formed chunk passes every check against the entry that describes it,
/// and reads back as that chunk.
pub proof fn lemma_written_chunk_passes_checks(c: WorldChunkModel, entry: WorldChunkEntry)
    requires
        chunk_wf(c),
        entry.id == c.chunk_id,
        entry.origin_q[0] == c.origin_x,
        entry.origin_q[1] == c.origin_y,
        entry.bytes == enc_chunk(c).len(),
        entry.sha256@ == spec_hex(sha256_digest(enc_chunk(c))),
        entry.counts == spec_counts(c),
    ensures
        spec_check_chunk(entry, enc_chunk(c)) == ChunkCheck::Passed(c),
{
    lemma_decode_encode_chunk(c);
}

} // verus!
