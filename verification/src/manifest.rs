//! `manifest.toml`, the entry file of a level package.
use vstd::prelude::*;

use crate::decimal::{format_i64, spec_format_int};
use crate::error::{LevelPackageError, PackageResult, invalid_data_string};
use crate::keyed::{quote, spec_quote};
use crate::strutil::push_str;

verus! {

/// The schema of the package format this library reads and writes.
pub const PACKAGE_SCHEMA: u8 = 4;

/// What the manifest says about a package.
#[derive(Clone, Debug)]
pub struct LevelManifest {
    pub id: String,
    pub title: String,
    pub author: String,
    pub entry: String,
    pub chunk_size_units: i32,
    pub coord_scale: i32,
}

#[verifier::ext_equal]
pub struct ManifestModel {
    pub id: Seq<char>,
    pub title: Seq<char>,
    pub author: Seq<char>,
    pub entry: Seq<char>,
    pub chunk_size_units: i32,
    pub coord_scale: i32,
}

impl View for LevelManifest {
    type V = ManifestModel;

    open spec fn view(&self) -> ManifestModel {
        ManifestModel {
            id: self.id@,
            title: self.title@,
            author: self.author@,
            entry: self.entry@,
            chunk_size_units: self.chunk_size_units,
            coord_scale: self.coord_scale,
        }
    }
}

// ---------------------------------------------------------------------------
// The TOML document.

/// The value found at `section.key` of a TOML document.
#[derive(Clone, Debug)]
pub enum TomlField {
    Missing,
    Str(String),
    Int(i64),
    Other,
}

pub enum TomlFieldView {
    Missing,
    Str(Seq<char>),
    Int(i64),
    Other,
}

impl View for TomlField {
    type V = TomlFieldView;

    open spec fn view(&self) -> TomlFieldView {
        match self {
            TomlField::Missing => TomlFieldView::Missing,
            TomlField::Str(s) => TomlFieldView::Str(s@),
            TomlField::Int(i) => TomlFieldView::Int(*i),
            TomlField::Other => TomlFieldView::Other,
        }
    }
}

/// The value the `toml` crate finds at `section.key` of `source`.
pub uninterp spec fn toml_field(source: Seq<char>, section: Seq<char>, key: Seq<char>) -> TomlFieldView;

/// The message of the `toml` crate's error for `source`, when it does not parse.
pub uninterp spec fn toml_error(source: Seq<char>) -> Option<Seq<char>>;

/// Parses `source` as a TOML table (`toml::Table` from `str`) and reports the value at
/// `section.key`: a string, an integer, another kind of value, or nothing when the section or
/// key is missing, when the section is not a table, or when `source` does not parse. The
/// contract names the result and says no more of it.
#[verifier::external_body]
fn toml_field_at(source: &str, section: &str, key: &str) -> (res: TomlField)
    ensures
        res@ == toml_field(source@, section@, key@),
{
    let table = match source.parse::<toml::Table>() {
        Ok(t) => t,
        Err(_) => return TomlField::Missing,
    };
    let value = match table.get(section) {
        Some(v) => v.get(key),
        None => None,
    };
    match value {
        Some(toml::Value::String(s)) => TomlField::Str(s.clone()),
        Some(toml::Value::Integer(i)) => TomlField::Int(*i),
        Some(_) => TomlField::Other,
        None => TomlField::Missing,
    }
}

/// Parses `source` as a TOML table and returns the text of the `toml` crate's error when it
/// does not parse (its `Display`); the contract names that text and says no more of it.
#[verifier::external_body]
fn toml_parse_error(source: &str) -> (res: Option<String>)
    ensures
        match res {
            Some(m) => toml_error(source@) == Some(m@),
            None => toml_error(source@) is None,
        },
{
    match source.parse::<toml::Table>() {
        Ok(_) => None,
        Err(e) => Some(format!("{e}")),
    }
}

// ---------------------------------------------------------------------------
// Reading.

/// Why a manifest is refused.
pub enum ManifestError {
    Invalid(Seq<char>),
    Schema(u8),
    Encoding(Seq<char>),
}

pub open spec fn field_path(section: Seq<char>, key: Seq<char>) -> Seq<char> {
    section + "."@ + key
}

/// A required string field.
pub open spec fn spec_required_string(source: Seq<char>, section: Seq<char>, key: Seq<char>) -> Result<
    Seq<char>,
    Seq<char>,
> {
    match toml_field(source, section, key) {
        TomlFieldView::Missing => Err("manifest missing "@ + field_path(section, key)),
        TomlFieldView::Str(s) => Ok(s),
        _ => Err("manifest "@ + field_path(section, key) + " must be a string"@),
    }
}

/// A required integer field that fits an `i32`.
pub open spec fn spec_required_i32(source: Seq<char>, section: Seq<char>, key: Seq<char>) -> Result<
    i32,
    Seq<char>,
> {
    match toml_field(source, section, key) {
        TomlFieldView::Missing => Err("manifest missing "@ + field_path(section, key)),
        TomlFieldView::Int(v) => if i32::MIN <= v <= i32::MAX {
            Ok(v as i32)
        } else {
            Err("manifest "@ + field_path(section, key) + " does not fit i32"@)
        },
        _ => Err("manifest "@ + field_path(section, key) + " must be an integer"@),
    }
}

/// The manifest `source` describes, or why it is refused.
pub open spec fn spec_parse_manifest(source: Seq<char>) -> Result<ManifestModel, ManifestError> {
    match toml_error(source) {
        Some(m) => Err(ManifestError::Invalid("invalid manifest.toml: "@ + m)),
        None => match spec_required_i32(source, "package"@, "schema"@) {
            Err(m) => Err(ManifestError::Invalid(m)),
            Ok(schema) => if !(0 <= schema <= 255) {
                Err(ManifestError::Invalid("unsupported manifest schema "@ + spec_format_int(schema as int)))
            } else if schema != PACKAGE_SCHEMA {
                Err(ManifestError::Schema(schema as u8))
            } else {
                match spec_required_string(source, "world"@, "encoding"@) {
                    Err(m) => Err(ManifestError::Invalid(m)),
                    Ok(encoding) => if encoding != "typed_bitpacked_soa"@ {
                        Err(ManifestError::Encoding(encoding))
                    } else {
                        match (
                            spec_required_string(source, "package"@, "id"@),
                            spec_required_string(source, "package"@, "title"@),
                            spec_required_string(source, "package"@, "author"@),
                            spec_required_string(source, "package"@, "entry"@),
                            spec_required_i32(source, "world"@, "chunk_size_units"@),
                            spec_required_i32(source, "world"@, "coord_scale"@),
                        ) {
                            (Err(m), _, _, _, _, _) => Err(ManifestError::Invalid(m)),
                            (Ok(_), Err(m), _, _, _, _) => Err(ManifestError::Invalid(m)),
                            (Ok(_), Ok(_), Err(m), _, _, _) => Err(ManifestError::Invalid(m)),
                            (Ok(_), Ok(_), Ok(_), Err(m), _, _) => Err(ManifestError::Invalid(m)),
                            (Ok(_), Ok(_), Ok(_), Ok(_), Err(m), _) => Err(ManifestError::Invalid(m)),
                            (Ok(_), Ok(_), Ok(_), Ok(_), Ok(_), Err(m)) => Err(ManifestError::Invalid(m)),
                            (Ok(id), Ok(title), Ok(author), Ok(entry), Ok(csu), Ok(cs)) => Ok(
                                ManifestModel {
                                    id,
                                    title,
                                    author,
                                    entry,
                                    chunk_size_units: csu,
                                    coord_scale: cs,
                                },
                            ),
                        }
                    },
                }
            },
        },
    }
}

/// Whether `res` is what `spec` describes.
pub open spec fn manifest_result_matches(
    res: PackageResult<LevelManifest>,
    spec: Result<ManifestModel, ManifestError>,
) -> bool {
    match spec {
        Ok(m) => res matches Ok(x) && x@ == m,
        Err(ManifestError::Invalid(msg)) => res matches Err(LevelPackageError::InvalidData(e)) && e@
            == msg,
        Err(ManifestError::Schema(s)) => res matches Err(LevelPackageError::UnsupportedSchema { schema })
            && schema == s,
        Err(ManifestError::Encoding(enc)) => res matches Err(
            LevelPackageError::UnsupportedEncoding { encoding },
        ) && encoding@ == enc,
    }
}

fn path_message(prefix: &str, section: &str, key: &str, suffix: &str) -> (res: String)
    ensures
        res@ == prefix@ + field_path(section@, key@) + suffix@,
{
    let mut out = String::new();
    push_str(&mut out, prefix);
    push_str(&mut out, section);
    push_str(&mut out, ".");
    push_str(&mut out, key);
    push_str(&mut out, suffix);
    out
}

fn required_manifest_string(source: &str, section: &str, key: &str) -> (res: PackageResult<String>)
    ensures
        match spec_required_string(source@, section@, key@) {
            Ok(s) => res matches Ok(x) && x@ == s,
            Err(m) => res matches Err(LevelPackageError::InvalidData(e)) && e@ == m,
        },
{
    match toml_field_at(source, section, key) {
        TomlField::Missing => {
            let m = path_message("manifest missing ", section, key, "");
            proof {
                reveal_strlit("");
            }
            assert(m@ =~= "manifest missing "@ + field_path(section@, key@));
            Err(invalid_data_string(m))
        },
        TomlField::Str(s) => Ok(s),
        _ => Err(invalid_data_string(path_message("manifest ", section, key, " must be a string"))),
    }
}

fn required_manifest_i32(source: &str, section: &str, key: &str) -> (res: PackageResult<i32>)
    ensures
        match spec_required_i32(source@, section@, key@) {
            Ok(v) => res == Ok::<i32, LevelPackageError>(v),
            Err(m) => res matches Err(LevelPackageError::InvalidData(e)) && e@ == m,
        },
{
    match toml_field_at(source, section, key) {
        TomlField::Missing => {
            let m = path_message("manifest missing ", section, key, "");
            proof {
                reveal_strlit("");
            }
            assert(m@ =~= "manifest missing "@ + field_path(section@, key@));
            Err(invalid_data_string(m))
        },
        TomlField::Int(v) => {
            if i32::MIN as i64 <= v && v <= i32::MAX as i64 {
                Ok(v as i32)
            } else {
                Err(invalid_data_string(path_message("manifest ", section, key, " does not fit i32")))
            }
        },
        _ => Err(invalid_data_string(path_message("manifest ", section, key, " must be an integer"))),
    }
}

/// Reads `manifest.toml`: schema 4, the `typed_bitpacked_soa` encoding, and the package and
/// world fields.
pub fn parse_manifest(source: &str) -> (res: PackageResult<LevelManifest>)
    ensures
        manifest_result_matches(res, spec_parse_manifest(source@)),
{
    match toml_parse_error(source) {
        Some(m) => {
            let mut message = "invalid manifest.toml: ".to_string();
            push_str(&mut message, m.as_str());
            return Err(LevelPackageError::InvalidData(message));
        },
        None => {},
    }
    let schema = required_manifest_i32(source, "package", "schema")?;
    if schema < 0 || schema > 255 {
        let mut message = "unsupported manifest schema ".to_string();
        let digits = format_i64(schema as i64);
        push_str(&mut message, digits.as_str());
        return Err(LevelPackageError::InvalidData(message));
    }
    if schema != PACKAGE_SCHEMA as i32 {
        return Err(LevelPackageError::UnsupportedSchema { schema: schema as u8 });
    }
    let encoding = required_manifest_string(source, "world", "encoding")?;
    if !crate::strutil::str_eq(encoding.as_str(), "typed_bitpacked_soa") {
        return Err(LevelPackageError::UnsupportedEncoding { encoding });
    }
    let id = required_manifest_string(source, "package", "id")?;
    let title = required_manifest_string(source, "package", "title")?;
    let author = required_manifest_string(source, "package", "author")?;
    let entry = required_manifest_string(source, "package", "entry")?;
    let chunk_size_units = required_manifest_i32(source, "world", "chunk_size_units")?;
    let coord_scale = required_manifest_i32(source, "world", "coord_scale")?;
    Ok(LevelManifest { id, title, author, entry, chunk_size_units, coord_scale })
}

// ---------------------------------------------------------------------------
// Writing.

/// The text of `manifest.toml` for a package: its identity and entry, then the fixed
/// description of the world encoding, visibility and simulation settings.
pub open spec fn spec_format_manifest(m: ManifestModel) -> Seq<char> {
    "[package]\nschema = 4\nid = "@
        + spec_quote(m.id)
        + "\ntitle = "@
        + spec_quote(m.title)
        + "\nauthor = "@
        + spec_quote(m.author)
        + "\ncreated_with = \"aperture-kill\"\nengine_min = \"0.1.0\"\nentry = "@
        + spec_quote(m.entry)
        + "\n\n[world]\nmode = \"chunked\"\nencoding = \"typed_bitpacked_soa\"\nsource = \"world.source.level\"\ndebug_dump = \"world.debug.level\"\nindex = \"world.index\"\nlayers = \"world.layers\"\ngroups = \"world.groups\"\ntriggers = \"world.triggers\"\ncheckpoints = \"world.checkpoints\"\nportals = \"world.portals\"\nchunk_size_units = "@
        + spec_format_int(m.chunk_size_units as int)
        + "\ncoord_scale = "@
        + spec_format_int(m.coord_scale as int)
        + "\ncoord_storage = \"chunk_local_i16\"\nchunk_origin_storage = \"world_i32\"\n\n[bits]\nobject_kind_bits = 8\nportalable_bits = 1\nsurface_type_bits = 2\nview_layer_bits = 3\ngroup_id_bits = 10\neditor_layer_bits = 10\n\n[visibility]\nmodel = \"screen_culling\"\nrender_guard_units = 256\nparticle_guard_units = 512\nmax_target_aspect = \"48:9\"\nmax_target_visible_chunks = 256\nocclusion_culling = \"optional\"\n\n[simulation]\nmodel = \"interest_volumes\"\nplayer_margin_units = 768\nprojectile_margin_units = 1024\nportal_physics_margin_units = 512\ncheckpoint_pin_radius_units = 1024\nsleep_offscreen_actors = true\n\n[compression]\nchunk_default = \"none\"\npreferred = \"none\"\n"@
}

/// Writes `manifest.toml`.
pub fn format_manifest(manifest: &LevelManifest) -> (res: String)
    ensures
        res@ == spec_format_manifest(manifest@),
{
    let ghost m = manifest@;
    let mut out = String::new();
    push_str(&mut out, "[package]\nschema = 4\nid = ");
    let q = quote(manifest.id.as_str());
    push_str(&mut out, q.as_str());
    push_str(&mut out, "\ntitle = ");
    let q = quote(manifest.title.as_str());
    push_str(&mut out, q.as_str());
    push_str(&mut out, "\nauthor = ");
    let q = quote(manifest.author.as_str());
    push_str(&mut out, q.as_str());
    push_str(&mut out, "\ncreated_with = \"aperture-kill\"\nengine_min = \"0.1.0\"\nentry = ");
    let q = quote(manifest.entry.as_str());
    push_str(&mut out, q.as_str());
    push_str(&mut out, "\n\n[world]\nmode = \"chunked\"\nencoding = \"typed_bitpacked_soa\"\nsource = \"world.source.level\"\ndebug_dump = \"world.debug.level\"\nindex = \"world.index\"\nlayers = \"world.layers\"\ngroups = \"world.groups\"\ntriggers = \"world.triggers\"\ncheckpoints = \"world.checkpoints\"\nportals = \"world.portals\"\nchunk_size_units = ");
    let d = format_i64(manifest.chunk_size_units as i64);
    push_str(&mut out, d.as_str());
    push_str(&mut out, "\ncoord_scale = ");
    let d = format_i64(manifest.coord_scale as i64);
    push_str(&mut out, d.as_str());
    push_str(&mut out, "\ncoord_storage = \"chunk_local_i16\"\nchunk_origin_storage = \"world_i32\"\n\n[bits]\nobject_kind_bits = 8\nportalable_bits = 1\nsurface_type_bits = 2\nview_layer_bits = 3\ngroup_id_bits = 10\neditor_layer_bits = 10\n\n[visibility]\nmodel = \"screen_culling\"\nrender_guard_units = 256\nparticle_guard_units = 512\nmax_target_aspect = \"48:9\"\nmax_target_visible_chunks = 256\nocclusion_culling = \"optional\"\n\n[simulation]\nmodel = \"interest_volumes\"\nplayer_margin_units = 768\nprojectile_margin_units = 1024\nportal_physics_margin_units = 512\ncheckpoint_pin_radius_units = 1024\nsleep_offscreen_actors = true\n\n[compression]\nchunk_default = \"none\"\npreferred = \"none\"\n");
    assert(out@ =~= spec_format_manifest(m));
    out
}

} // verus!
