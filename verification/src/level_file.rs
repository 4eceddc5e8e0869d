//! The hand-editable level file (`portals_level version=3`): one keyed row per object.
//!
//! Coordinates, sizes and the other real-valued fields are kept as the decimal text the file
//! holds. Which texts read as finite numbers, and which as numbers above zero, is given by the
//! caller as two lists (`finite` and `positive`); everything else about the format is decided
//! here.
use vstd::prelude::*;

use crate::chunk::strings_view;
use crate::decimal::{format_i64, format_u64, parse_i16, spec_format_int, spec_parse_signed};
use crate::index_laws::{joined, lemma_joined_append, lemma_joined_one, line_text};
use crate::keyed::{
    keyed_line, lookup, looks_keyed, parse_key_values, spec_fields, spec_looks_keyed,
    spec_split_command, split_command, KeyValues,
};
use crate::level::{
    field_meta, is_default_meta, object_meta_lossy, prune_metadata, push_inline_meta,
    spec_field_meta, spec_object_meta, spec_prune, LevelObjectKind, LevelObjectMeta,
    LevelTriggerKind, ObjectMeta,
};
use crate::naming::{ascii_lower, slug, spec_slug};
use crate::strutil::{chars_of, push_char, push_str, str_eq};
use crate::text_format::{
    add_field, bool_text, bool_word, content_lines, field_unsigned, field_unsigned_of, flag_field,
    flag_of, is_listed, num, read_content_lines, text_line,
};

verus! {

/// The format version this module reads and writes.
pub const LEVEL_FORMAT_VERSION: u8 = 3;

/// A point, each coordinate as written.
#[derive(Clone, Debug, PartialEq, Eq)]
pub struct Point<S> {
    pub x: S,
    pub y: S,
}

/// A rectangle: its corner and its size, as written.
#[derive(Clone, Debug, PartialEq, Eq)]
pub struct Rect<S> {
    pub x: S,
    pub y: S,
    pub w: S,
    pub h: S,
}

#[derive(Clone, Debug, PartialEq, Eq)]
pub struct SolidRow<S> {
    pub rect: Rect<S>,
    pub portalable: bool,
    /// `None`: no rotation.
    pub rotation: Option<S>,
}

#[derive(Clone, Debug, PartialEq, Eq)]
pub struct DoorRow<S> {
    pub rect: Rect<S>,
    /// `None`: the default trigger radius.
    pub radius: Option<S>,
    pub rotation: Option<S>,
    /// `None`: the default speed.
    pub speed: Option<S>,
    pub automatic: bool,
}

#[derive(Clone, Debug, PartialEq, Eq)]
pub struct HazardRow<S> {
    pub rect: Rect<S>,
    pub rotation: Option<S>,
}

/// A Filth enemy: where it spawns, and its spawn group and wave (both zero for an enemy present
/// from the start).
#[derive(Clone, Debug, PartialEq, Eq)]
pub struct EnemyRow<S> {
    pub spawn: Point<S>,
    pub spawn_id: u16,
    pub spawn_wave: u16,
}

#[derive(Clone, Debug, PartialEq, Eq)]
pub struct TriggerRow<S> {
    pub rect: Rect<S>,
    pub kind: LevelTriggerKind,
}

#[derive(Clone, Debug, PartialEq, Eq)]
pub struct TextRow<S> {
    pub pos: Point<S>,
    pub value: S,
}

#[derive(Clone, Debug, PartialEq, Eq)]
pub struct WorldPortalRow<S> {
    pub pos: Point<S>,
    pub normal: Point<S>,
    /// `None`: perpendicular to the normal.
    pub tangent: Option<Point<S>>,
    /// `None`: the default portal width.
    pub width: Option<S>,
    pub portal_id: u16,
    pub receiver_id: u16,
    pub priority: i16,
    /// `None`: scale one.
    pub scale: Option<S>,
    pub scale_objects: bool,
    pub seamless: bool,
    pub seamless_depth: Option<S>,
    pub seamless_angle: Option<S>,
    pub seamless_rely_on_walls: bool,
}

/// A level as its file states it.
#[derive(Clone, Debug, PartialEq, Eq)]
pub struct LevelDoc {
    pub name: String,
    /// `None`: the default spawn point.
    pub spawn: Option<Point<String>>,
    pub solids: Vec<SolidRow<String>>,
    pub doors: Vec<DoorRow<String>>,
    pub hazards: Vec<HazardRow<String>>,
    pub checkpoints: Vec<Rect<String>>,
    pub enemies: Vec<EnemyRow<String>>,
    pub triggers: Vec<TriggerRow<String>>,
    pub texts: Vec<TextRow<String>>,
    pub world_portals: Vec<WorldPortalRow<String>>,
    pub metadata: Vec<LevelObjectMeta>,
}

/// The mathematical content of a `LevelDoc`.
#[verifier::ext_equal]
pub struct LevelDocModel {
    pub name: Seq<char>,
    pub spawn: Option<Point<Seq<char>>>,
    pub solids: Seq<SolidRow<Seq<char>>>,
    pub doors: Seq<DoorRow<Seq<char>>>,
    pub hazards: Seq<HazardRow<Seq<char>>>,
    pub checkpoints: Seq<Rect<Seq<char>>>,
    pub enemies: Seq<EnemyRow<Seq<char>>>,
    pub triggers: Seq<TriggerRow<Seq<char>>>,
    pub texts: Seq<TextRow<Seq<char>>>,
    pub world_portals: Seq<WorldPortalRow<Seq<char>>>,
    pub metadata: Seq<LevelObjectMeta>,
}

pub open spec fn opt_view(o: Option<String>) -> Option<Seq<char>> {
    match o {
        Some(s) => Some(s@),
        None => None,
    }
}

impl View for Point<String> {
    type V = Point<Seq<char>>;

    open spec fn view(&self) -> Point<Seq<char>> {
        Point { x: self.x@, y: self.y@ }
    }
}

pub open spec fn opt_point_view(o: Option<Point<String>>) -> Option<Point<Seq<char>>> {
    match o {
        Some(p) => Some(p@),
        None => None,
    }
}

impl View for Rect<String> {
    type V = Rect<Seq<char>>;

    open spec fn view(&self) -> Rect<Seq<char>> {
        Rect { x: self.x@, y: self.y@, w: self.w@, h: self.h@ }
    }
}

impl View for SolidRow<String> {
    type V = SolidRow<Seq<char>>;

    open spec fn view(&self) -> SolidRow<Seq<char>> {
        SolidRow { rect: self.rect@, portalable: self.portalable, rotation: opt_view(self.rotation) }
    }
}

impl View for DoorRow<String> {
    type V = DoorRow<Seq<char>>;

    open spec fn view(&self) -> DoorRow<Seq<char>> {
        DoorRow {
            rect: self.rect@,
            radius: opt_view(self.radius),
            rotation: opt_view(self.rotation),
            speed: opt_view(self.speed),
            automatic: self.automatic,
        }
    }
}

impl View for HazardRow<String> {
    type V = HazardRow<Seq<char>>;

    open spec fn view(&self) -> HazardRow<Seq<char>> {
        HazardRow { rect: self.rect@, rotation: opt_view(self.rotation) }
    }
}

impl View for EnemyRow<String> {
    type V = EnemyRow<Seq<char>>;

    open spec fn view(&self) -> EnemyRow<Seq<char>> {
        EnemyRow { spawn: self.spawn@, spawn_id: self.spawn_id, spawn_wave: self.spawn_wave }
    }
}

impl View for TriggerRow<String> {
    type V = TriggerRow<Seq<char>>;

    open spec fn view(&self) -> TriggerRow<Seq<char>> {
        TriggerRow { rect: self.rect@, kind: self.kind }
    }
}

impl View for TextRow<String> {
    type V = TextRow<Seq<char>>;

    open spec fn view(&self) -> TextRow<Seq<char>> {
        TextRow { pos: self.pos@, value: self.value@ }
    }
}

impl View for WorldPortalRow<String> {
    type V = WorldPortalRow<Seq<char>>;

    open spec fn view(&self) -> WorldPortalRow<Seq<char>> {
        WorldPortalRow {
            pos: self.pos@,
            normal: self.normal@,
            tangent: opt_point_view(self.tangent),
            width: opt_view(self.width),
            portal_id: self.portal_id,
            receiver_id: self.receiver_id,
            priority: self.priority,
            scale: opt_view(self.scale),
            scale_objects: self.scale_objects,
            seamless: self.seamless,
            seamless_depth: opt_view(self.seamless_depth),
            seamless_angle: opt_view(self.seamless_angle),
            seamless_rely_on_walls: self.seamless_rely_on_walls,
        }
    }
}

impl View for LevelDoc {
    type V = LevelDocModel;

    open spec fn view(&self) -> LevelDocModel {
        LevelDocModel {
            name: self.name@,
            spawn: opt_point_view(self.spawn),
            solids: self.solids@.map_values(|r: SolidRow<String>| r@),
            doors: self.doors@.map_values(|r: DoorRow<String>| r@),
            hazards: self.hazards@.map_values(|r: HazardRow<String>| r@),
            checkpoints: self.checkpoints@.map_values(|r: Rect<String>| r@),
            enemies: self.enemies@.map_values(|r: EnemyRow<String>| r@),
            triggers: self.triggers@.map_values(|r: TriggerRow<String>| r@),
            texts: self.texts@.map_values(|r: TextRow<String>| r@),
            world_portals: self.world_portals@.map_values(|r: WorldPortalRow<String>| r@),
            metadata: self.metadata@,
        }
    }
}

// ---------------------------------------------------------------------------
// What a row says.

/// A field holding a finite number.
pub open spec fn float_field(f: Seq<(Seq<char>, Seq<char>)>, key: Seq<char>, finite: Seq<Seq<char>>) -> Option<Seq<char>> {
    match lookup(f, key) {
        Some(v) => if finite.contains(v) {
            Some(v)
        } else {
            None
        },
        None => None,
    }
}

/// A field holding a finite number above zero.
pub open spec fn positive_field(
    f: Seq<(Seq<char>, Seq<char>)>,
    key: Seq<char>,
    finite: Seq<Seq<char>>,
    positive: Seq<Seq<char>>,
) -> Option<Seq<char>> {
    match float_field(f, key, finite) {
        Some(v) => if positive.contains(v) {
            Some(v)
        } else {
            None
        },
        None => None,
    }
}

/// A point given by two number fields.
pub open spec fn point_of(f: Seq<(Seq<char>, Seq<char>)>, kx: Seq<char>, ky: Seq<char>, finite: Seq<Seq<char>>) -> Option<Point<Seq<char>>> {
    match float_field(f, kx, finite) {
        Some(x) => match float_field(f, ky, finite) {
            Some(y) => Some(Point { x, y }),
            None => None,
        },
        None => None,
    }
}

/// The rectangle of a row: `x`, `y`, `w` and `h`, the size above zero.
pub open spec fn rect_of(f: Seq<(Seq<char>, Seq<char>)>, finite: Seq<Seq<char>>, positive: Seq<Seq<char>>) -> Option<Rect<Seq<char>>> {
    match point_of(f, "x"@, "y"@, finite) {
        Some(p) => match float_field(f, "w"@, finite) {
            Some(w) => match float_field(f, "h"@, finite) {
                Some(h) => if positive.contains(w) && positive.contains(h) {
                    Some(Rect { x: p.x, y: p.y, w, h })
                } else {
                    None
                },
                None => None,
            },
            None => None,
        },
        None => None,
    }
}

pub open spec fn u16_field(f: Seq<(Seq<char>, Seq<char>)>, key: Seq<char>) -> Option<u16> {
    match field_unsigned(f, key, 65535) {
        Some(v) => Some(v as u16),
        None => None,
    }
}

pub open spec fn i16_field(f: Seq<(Seq<char>, Seq<char>)>, key: Seq<char>) -> Option<i16> {
    match lookup(f, key) {
        Some(v) => match spec_parse_signed(v, 32768, 32767) {
            Some(n) => Some(n as i16),
            None => None,
        },
        None => None,
    }
}

pub open spec fn solid_row(f: Seq<(Seq<char>, Seq<char>)>, finite: Seq<Seq<char>>, positive: Seq<Seq<char>>) -> Option<SolidRow<Seq<char>>> {
    match rect_of(f, finite, positive) {
        Some(rect) => Some(
            SolidRow {
                rect,
                portalable: flag_field(f, "portalable"@, true),
                rotation: float_field(f, "rotation"@, finite),
            },
        ),
        None => None,
    }
}

pub open spec fn door_row(f: Seq<(Seq<char>, Seq<char>)>, finite: Seq<Seq<char>>, positive: Seq<Seq<char>>) -> Option<DoorRow<Seq<char>>> {
    match rect_of(f, finite, positive) {
        Some(rect) => Some(
            DoorRow {
                rect,
                radius: positive_field(f, "radius"@, finite, positive),
                rotation: float_field(f, "rotation"@, finite),
                speed: positive_field(f, "speed"@, finite, positive),
                automatic: flag_field(f, "automatic"@, true),
            },
        ),
        None => None,
    }
}

pub open spec fn hazard_row(f: Seq<(Seq<char>, Seq<char>)>, finite: Seq<Seq<char>>, positive: Seq<Seq<char>>) -> Option<HazardRow<Seq<char>>> {
    match rect_of(f, finite, positive) {
        Some(rect) => Some(HazardRow { rect, rotation: float_field(f, "rotation"@, finite) }),
        None => None,
    }
}

/// Equal up to the case of ASCII letters.
pub open spec fn eq_ignore_ascii_case(a: Seq<char>, b: Seq<char>) -> bool {
    a.len() == b.len() && forall|j: int| 0 <= j < a.len() ==> ascii_lower(#[trigger] a[j]) == ascii_lower(b[j])
}

/// An enemy row: only the Filth kind (the default) is read; a spawn wave above zero makes a
/// spawned enemy, whose group is at least one.
pub open spec fn enemy_row(f: Seq<(Seq<char>, Seq<char>)>, finite: Seq<Seq<char>>) -> Option<EnemyRow<Seq<char>>> {
    let kind = match lookup(f, "kind"@) {
        Some(k) => k,
        None => "filth"@,
    };
    match point_of(f, "spawn_x"@, "spawn_y"@, finite) {
        Some(spawn) => if eq_ignore_ascii_case(kind, "filth"@) {
            let id = match u16_field(f, "spawn_id"@) {
                Some(v) => v,
                None => 0,
            };
            let wave = match u16_field(f, "spawn_wave"@) {
                Some(v) => v,
                None => 0,
            };
            if wave > 0 {
                Some(EnemyRow { spawn, spawn_id: if id == 0 { 1 } else { id }, spawn_wave: wave })
            } else {
                Some(EnemyRow { spawn, spawn_id: 0, spawn_wave: 0 })
            }
        } else {
            None
        },
        None => None,
    }
}

/// The trigger kind a row names; an enemy-spawn trigger's enemy is at least one.
pub open spec fn trigger_kind_of(f: Seq<(Seq<char>, Seq<char>)>) -> Option<LevelTriggerKind> {
    let kind = match lookup(f, "kind"@) {
        Some(k) => k,
        None => Seq::<char>::empty(),
    };
    if kind == "level_start"@ {
        Some(LevelTriggerKind::LevelStart)
    } else if kind == "level_end"@ {
        Some(LevelTriggerKind::LevelEnd)
    } else if kind == "enemy_spawn"@ {
        let id = match u16_field(f, "enemy_id"@) {
            Some(v) => v,
            None => 1,
        };
        Some(LevelTriggerKind::EnemySpawn { enemy_id: if id == 0 { 1 } else { id } })
    } else {
        None
    }
}

pub open spec fn trigger_row(f: Seq<(Seq<char>, Seq<char>)>, finite: Seq<Seq<char>>, positive: Seq<Seq<char>>) -> Option<TriggerRow<Seq<char>>> {
    match rect_of(f, finite, positive) {
        Some(rect) => match trigger_kind_of(f) {
            Some(kind) => Some(TriggerRow { rect, kind }),
            None => None,
        },
        None => None,
    }
}

/// A text row: its `value` field, else its `text` field; an empty text is dropped.
pub open spec fn text_row(f: Seq<(Seq<char>, Seq<char>)>, finite: Seq<Seq<char>>) -> Option<TextRow<Seq<char>>> {
    match point_of(f, "x"@, "y"@, finite) {
        Some(pos) => {
            let value = match lookup(f, "value"@) {
                Some(v) => v,
                None => match lookup(f, "text"@) {
                    Some(v) => v,
                    None => Seq::<char>::empty(),
                },
            };
            if value.len() > 0 {
                Some(TextRow { pos, value })
            } else {
                None
            }
        },
        None => None,
    }
}

/// A world portal row: its position and normal are required; its id is `portal_id`, else `id`,
/// else zero, and its receiver defaults to its id.
pub open spec fn world_portal_row(f: Seq<(Seq<char>, Seq<char>)>, finite: Seq<Seq<char>>, positive: Seq<Seq<char>>) -> Option<WorldPortalRow<Seq<char>>> {
    match point_of(f, "x"@, "y"@, finite) {
        Some(pos) => match point_of(f, "normal_x"@, "normal_y"@, finite) {
            Some(normal) => {
                let id = match u16_field(f, "portal_id"@) {
                    Some(v) => v,
                    None => match u16_field(f, "id"@) {
                        Some(v) => v,
                        None => 0,
                    },
                };
                Some(
                    WorldPortalRow {
                        pos,
                        normal,
                        tangent: point_of(f, "tangent_x"@, "tangent_y"@, finite),
                        width: positive_field(f, "width"@, finite, positive),
                        portal_id: id,
                        receiver_id: match u16_field(f, "receiver_id"@) {
                            Some(v) => v,
                            None => id,
                        },
                        priority: match i16_field(f, "priority"@) {
                            Some(v) => v,
                            None => 0,
                        },
                        scale: positive_field(f, "scale"@, finite, positive),
                        scale_objects: flag_field(f, "scale_objects"@, false),
                        seamless: flag_field(f, "seamless"@, false),
                        seamless_depth: positive_field(f, "seamless_depth"@, finite, positive),
                        seamless_angle: positive_field(f, "seamless_angle"@, finite, positive),
                        seamless_rely_on_walls: flag_field(f, "seamless_rely_on_walls"@, false),
                    },
                )
            },
            None => None,
        },
        None => None,
    }
}

/// The word that names each kind of object, as its row command does.
pub open spec fn spec_kind_word(kind: LevelObjectKind) -> Seq<char> {
    match kind {
        LevelObjectKind::Solid => "solid"@,
        LevelObjectKind::Door => "door"@,
        LevelObjectKind::Hazard => "hazard"@,
        LevelObjectKind::Checkpoint => "checkpoint"@,
        LevelObjectKind::Enemy => "enemy"@,
        LevelObjectKind::Trigger => "trigger"@,
        LevelObjectKind::Text => "text"@,
        LevelObjectKind::WorldPortal => "world_portal"@,
    }
}

pub open spec fn spec_parse_kind(word: Seq<char>) -> Option<LevelObjectKind> {
    if word == "solid"@ {
        Some(LevelObjectKind::Solid)
    } else if word == "door"@ {
        Some(LevelObjectKind::Door)
    } else if word == "hazard"@ {
        Some(LevelObjectKind::Hazard)
    } else if word == "checkpoint"@ {
        Some(LevelObjectKind::Checkpoint)
    } else if word == "enemy"@ {
        Some(LevelObjectKind::Enemy)
    } else if word == "trigger"@ {
        Some(LevelObjectKind::Trigger)
    } else if word == "text"@ {
        Some(LevelObjectKind::Text)
    } else if word == "world_portal"@ {
        Some(LevelObjectKind::WorldPortal)
    } else {
        None
    }
}

/// Each kind's word reads back as that kind.
pub proof fn lemma_kind_word_round_trip(kind: LevelObjectKind)
    ensures
        spec_parse_kind(spec_kind_word(kind)) == Some(kind),
{
    reveal_strlit("solid");
    reveal_strlit("door");
    reveal_strlit("hazard");
    reveal_strlit("checkpoint");
    reveal_strlit("enemy");
    reveal_strlit("trigger");
    reveal_strlit("text");
    reveal_strlit("world_portal");
    let w = spec_kind_word(kind);
    if w.len() == 5 {
        assert(w[0] != "solid"@[0] ==> w != "solid"@);
        assert(w[0] != "enemy"@[0] ==> w != "enemy"@);
    }
    if w.len() == 4 {
        assert(w[1] != "door"@[1] ==> w != "door"@);
        assert(w[1] != "text"@[1] ==> w != "text"@);
    }
}

/// A separate `meta` row: the kind, the index and non-zero metadata of one object.
pub open spec fn meta_row(f: Seq<(Seq<char>, Seq<char>)>) -> Option<LevelObjectMeta> {
    match lookup(f, "kind"@) {
        Some(k) => match spec_parse_kind(k) {
            Some(kind) => match field_unsigned(f, "index"@, usize::MAX as int) {
                Some(index) => match spec_field_meta(f) {
                    Some(meta) => Some(LevelObjectMeta { kind, index: index as usize, meta }),
                    None => None,
                },
                None => None,
            },
            None => None,
        },
        None => None,
    }
}

/// The metadata list after an object row: its `obj_id` and `layer` fields, when not both zero,
/// are recorded for object `index` of `kind`.
pub open spec fn with_inline_meta(
    metadata: Seq<LevelObjectMeta>,
    f: Seq<(Seq<char>, Seq<char>)>,
    kind: LevelObjectKind,
    index: usize,
) -> Seq<LevelObjectMeta> {
    match spec_field_meta(f) {
        Some(meta) => if is_default_meta(meta) {
            metadata
        } else {
            metadata.push(LevelObjectMeta { kind, index, meta })
        },
        None => metadata,
    }
}

/// What one keyed row adds to the level.
pub open spec fn level_row(
    acc: LevelDocModel,
    command: Seq<char>,
    f: Seq<(Seq<char>, Seq<char>)>,
    finite: Seq<Seq<char>>,
    positive: Seq<Seq<char>>,
) -> LevelDocModel {
    if command == "level"@ {
        LevelDocModel {
            name: match lookup(f, "name"@) {
                Some(n) => n,
                None => acc.name,
            },
            spawn: match point_of(f, "spawn_x"@, "spawn_y"@, finite) {
                Some(p) => Some(p),
                None => acc.spawn,
            },
            ..acc
        }
    } else if command == "solid"@ {
        match solid_row(f, finite, positive) {
            Some(r) => LevelDocModel {
                solids: acc.solids.push(r),
                metadata: with_inline_meta(acc.metadata, f, LevelObjectKind::Solid, acc.solids.len() as usize),
                ..acc
            },
            None => acc,
        }
    } else if command == "door"@ {
        match door_row(f, finite, positive) {
            Some(r) => LevelDocModel {
                doors: acc.doors.push(r),
                metadata: with_inline_meta(acc.metadata, f, LevelObjectKind::Door, acc.doors.len() as usize),
                ..acc
            },
            None => acc,
        }
    } else if command == "hazard"@ {
        match hazard_row(f, finite, positive) {
            Some(r) => LevelDocModel {
                hazards: acc.hazards.push(r),
                metadata: with_inline_meta(acc.metadata, f, LevelObjectKind::Hazard, acc.hazards.len() as usize),
                ..acc
            },
            None => acc,
        }
    } else if command == "checkpoint"@ {
        match rect_of(f, finite, positive) {
            Some(r) => LevelDocModel {
                checkpoints: acc.checkpoints.push(r),
                metadata: with_inline_meta(
                    acc.metadata,
                    f,
                    LevelObjectKind::Checkpoint,
                    acc.checkpoints.len() as usize,
                ),
                ..acc
            },
            None => acc,
        }
    } else if command == "enemy"@ {
        match enemy_row(f, finite) {
            Some(r) => LevelDocModel {
                enemies: acc.enemies.push(r),
                metadata: with_inline_meta(acc.metadata, f, LevelObjectKind::Enemy, acc.enemies.len() as usize),
                ..acc
            },
            None => acc,
        }
    } else if command == "trigger"@ {
        match trigger_row(f, finite, positive) {
            Some(r) => LevelDocModel {
                triggers: acc.triggers.push(r),
                metadata: with_inline_meta(acc.metadata, f, LevelObjectKind::Trigger, acc.triggers.len() as usize),
                ..acc
            },
            None => acc,
        }
    } else if command == "text"@ {
        match text_row(f, finite) {
            Some(r) => LevelDocModel {
                texts: acc.texts.push(r),
                metadata: with_inline_meta(acc.metadata, f, LevelObjectKind::Text, acc.texts.len() as usize),
                ..acc
            },
            None => acc,
        }
    } else if command == "world_portal"@ {
        match world_portal_row(f, finite, positive) {
            Some(r) => LevelDocModel {
                world_portals: acc.world_portals.push(r),
                metadata: with_inline_meta(
                    acc.metadata,
                    f,
                    LevelObjectKind::WorldPortal,
                    acc.world_portals.len() as usize,
                ),
                ..acc
            },
            None => acc,
        }
    } else if command == "meta"@ {
        match meta_row(f) {
            Some(m) => LevelDocModel { metadata: acc.metadata.push(m), ..acc },
            None => acc,
        }
    } else {
        acc
    }
}

pub open spec fn non_keyed_message(command: Seq<char>) -> Seq<char> {
    "non-keyed row in v3 level: "@ + command
}

/// What one line after the header does: every row must be keyed.
pub open spec fn level_step(acc: LevelDocModel, line: Seq<char>, finite: Seq<Seq<char>>, positive: Seq<Seq<char>>) -> Result<LevelDocModel, Seq<char>> {
    match spec_split_command(line) {
        Some((command, rest)) => if spec_looks_keyed(rest) {
            Ok(level_row(acc, command, spec_fields(rest), finite, positive))
        } else {
            Err(non_keyed_message(command))
        },
        None => Ok(acc),
    }
}

/// The lines after the header, read in order; the first failing line decides the error.
pub open spec fn level_body(acc: LevelDocModel, lines: Seq<Seq<char>>, finite: Seq<Seq<char>>, positive: Seq<Seq<char>>) -> Result<LevelDocModel, Seq<char>>
    decreases lines.len(),
{
    if lines.len() == 0 {
        Ok(acc)
    } else {
        match level_body(acc, lines.drop_last(), finite, positive) {
            Ok(a) => level_step(a, lines.last(), finite, positive),
            Err(e) => Err(e),
        }
    }
}

/// The file name's stem with each `_` shown as a space: the name of a level whose file does not
/// give one.
pub open spec fn stem_name(stem: Seq<char>) -> Seq<char> {
    Seq::new(stem.len(), |i: int| if stem[i] == '_' { ' ' } else { stem[i] })
}

pub open spec fn empty_level(name: Seq<char>) -> LevelDocModel {
    LevelDocModel {
        name,
        spawn: None,
        solids: seq![],
        doors: seq![],
        hazards: seq![],
        checkpoints: seq![],
        enemies: seq![],
        triggers: seq![],
        texts: seq![],
        world_portals: seq![],
        metadata: seq![],
    }
}

pub open spec fn version_message(version: Option<int>) -> Seq<char> {
    "unsupported level format version "@ + match version {
        Some(v) => "Some("@ + spec_format_int(v) + ")"@,
        None => "None"@,
    }
}

/// The level read, its metadata pruned.
pub open spec fn finish_level(r: Result<LevelDocModel, Seq<char>>) -> Result<LevelDocModel, Seq<char>> {
    match r {
        Ok(m) => Ok(LevelDocModel { metadata: spec_prune(m.metadata), ..m }),
        Err(e) => Err(e),
    }
}

/// The level the content lines describe, or the message that rejects them.
pub open spec fn spec_level_lines(lines: Seq<Seq<char>>, stem: Seq<char>, finite: Seq<Seq<char>>, positive: Seq<Seq<char>>) -> Result<LevelDocModel, Seq<char>> {
    if lines.len() == 0 {
        Err("empty level file"@)
    } else {
        match spec_split_command(lines[0]) {
            Some((command, rest)) => if command != "portals_level"@ {
                Err("missing portals_level header"@)
            } else {
                let version = field_unsigned(spec_fields(rest), "version"@, 255);
                if version != Some(LEVEL_FORMAT_VERSION as int) {
                    Err(version_message(version))
                } else {
                    finish_level(level_body(empty_level(stem_name(stem)), lines.skip(1), finite, positive))
                }
            },
            None => Err("missing portals_level header"@),
        }
    }
}

/// The level the text of a level file describes, given the name of the file without its
/// extension and the texts that read as finite numbers and as numbers above zero.
pub open spec fn spec_parse_level(source: Seq<char>, stem: Seq<char>, finite: Seq<Seq<char>>, positive: Seq<Seq<char>>) -> Result<LevelDocModel, Seq<char>> {
    spec_level_lines(content_lines(source), stem, finite, positive)
}

// ---------------------------------------------------------------------------
// Reading rows.

fn float_of(fields: &KeyValues, key: &str, finite: &[String]) -> (res: Option<String>)
    ensures
        opt_view(res) == float_field(fields@, key@, strings_view(finite@)),
{
    match fields.get(key) {
        Some(v) => if is_listed(finite, v.as_str()) {
            Some(v.clone())
        } else {
            None
        },
        None => None,
    }
}

fn positive_of(fields: &KeyValues, key: &str, finite: &[String], positive: &[String]) -> (res: Option<String>)
    ensures
        opt_view(res) == positive_field(fields@, key@, strings_view(finite@), strings_view(positive@)),
{
    match float_of(fields, key, finite) {
        Some(v) => if is_listed(positive, v.as_str()) {
            Some(v)
        } else {
            None
        },
        None => None,
    }
}

fn point_of_fields(fields: &KeyValues, kx: &str, ky: &str, finite: &[String]) -> (res: Option<Point<String>>)
    ensures
        opt_point_view(res) == point_of(fields@, kx@, ky@, strings_view(finite@)),
{
    match float_of(fields, kx, finite) {
        Some(x) => match float_of(fields, ky, finite) {
            Some(y) => Some(Point { x, y }),
            None => None,
        },
        None => None,
    }
}

fn rect_of_fields(fields: &KeyValues, finite: &[String], positive: &[String]) -> (res: Option<Rect<String>>)
    ensures
        match res {
            Some(r) => rect_of(fields@, strings_view(finite@), strings_view(positive@)) == Some(r@),
            None => rect_of(fields@, strings_view(finite@), strings_view(positive@)) is None,
        },
{
    let p = match point_of_fields(fields, "x", "y", finite) {
        Some(p) => p,
        None => return None,
    };
    let w = match float_of(fields, "w", finite) {
        Some(w) => w,
        None => return None,
    };
    let h = match float_of(fields, "h", finite) {
        Some(h) => h,
        None => return None,
    };
    if is_listed(positive, w.as_str()) && is_listed(positive, h.as_str()) {
        Some(Rect { x: p.x, y: p.y, w, h })
    } else {
        None
    }
}

fn u16_of(fields: &KeyValues, key: &str) -> (res: Option<u16>)
    ensures
        res == u16_field(fields@, key@),
{
    match field_unsigned_of(fields, key, 65535) {
        Some(v) => Some(v as u16),
        None => None,
    }
}

fn i16_of(fields: &KeyValues, key: &str) -> (res: Option<i16>)
    ensures
        res == i16_field(fields@, key@),
{
    match fields.get(key) {
        Some(v) => parse_i16(v.as_str()),
        None => None,
    }
}

fn ascii_lower_char(c: char) -> (r: char)
    ensures
        r == ascii_lower(c),
{
    if 'A' <= c && c <= 'Z' {
        let lower = ((c as u8) + 32) as char;
        assert(lower == ((c as int) + 32) as char) by {
            vstd::utf8::char_u32_cast(c, c as u32);
        }
        lower
    } else {
        c
    }
}

/// Whether `a` equals `b` up to the case of ASCII letters.
pub fn eq_ignore_case(a: &str, b: &str) -> (r: bool)
    ensures
        r == eq_ignore_ascii_case(a@, b@),
{
    let x = chars_of(a);
    let y = chars_of(b);
    if x.len() != y.len() {
        return false;
    }
    let mut j: usize = 0;
    while j < x.len()
        invariant
            x@ == a@,
            y@ == b@,
            x@.len() == y@.len(),
            j <= x@.len(),
            forall|k: int| 0 <= k < j ==> ascii_lower(#[trigger] x@[k]) == ascii_lower(y@[k]),
        decreases x@.len() - j,
    {
        if ascii_lower_char(x[j]) != ascii_lower_char(y[j]) {
            return false;
        }
        j = j + 1;
    }
    true
}

fn read_solid(fields: &KeyValues, finite: &[String], positive: &[String]) -> (res: Option<SolidRow<String>>)
    ensures
        match res {
            Some(r) => solid_row(fields@, strings_view(finite@), strings_view(positive@)) == Some(r@),
            None => solid_row(fields@, strings_view(finite@), strings_view(positive@)) is None,
        },
{
    match rect_of_fields(fields, finite, positive) {
        Some(rect) => Some(
            SolidRow {
                rect,
                portalable: flag_of(fields, "portalable", true),
                rotation: float_of(fields, "rotation", finite),
            },
        ),
        None => None,
    }
}

fn read_door(fields: &KeyValues, finite: &[String], positive: &[String]) -> (res: Option<DoorRow<String>>)
    ensures
        match res {
            Some(r) => door_row(fields@, strings_view(finite@), strings_view(positive@)) == Some(r@),
            None => door_row(fields@, strings_view(finite@), strings_view(positive@)) is None,
        },
{
    match rect_of_fields(fields, finite, positive) {
        Some(rect) => Some(
            DoorRow {
                rect,
                radius: positive_of(fields, "radius", finite, positive),
                rotation: float_of(fields, "rotation", finite),
                speed: positive_of(fields, "speed", finite, positive),
                automatic: flag_of(fields, "automatic", true),
            },
        ),
        None => None,
    }
}

fn read_hazard(fields: &KeyValues, finite: &[String], positive: &[String]) -> (res: Option<HazardRow<String>>)
    ensures
        match res {
            Some(r) => hazard_row(fields@, strings_view(finite@), strings_view(positive@)) == Some(r@),
            None => hazard_row(fields@, strings_view(finite@), strings_view(positive@)) is None,
        },
{
    match rect_of_fields(fields, finite, positive) {
        Some(rect) => Some(HazardRow { rect, rotation: float_of(fields, "rotation", finite) }),
        None => None,
    }
}

fn read_enemy(fields: &KeyValues, finite: &[String]) -> (res: Option<EnemyRow<String>>)
    ensures
        match res {
            Some(r) => enemy_row(fields@, strings_view(finite@)) == Some(r@),
            None => enemy_row(fields@, strings_view(finite@)) is None,
        },
{
    let is_filth = match fields.get("kind") {
        Some(k) => eq_ignore_case(k.as_str(), "filth"),
        None => true,
    };
    proof {
        reveal_strlit("filth");
        assert(eq_ignore_ascii_case("filth"@, "filth"@));
    }
    let spawn = match point_of_fields(fields, "spawn_x", "spawn_y", finite) {
        Some(p) => p,
        None => return None,
    };
    if !is_filth {
        return None;
    }
    let id = match u16_of(fields, "spawn_id") {
        Some(v) => v,
        None => 0,
    };
    let wave = match u16_of(fields, "spawn_wave") {
        Some(v) => v,
        None => 0,
    };
    if wave > 0 {
        Some(EnemyRow { spawn, spawn_id: if id == 0 { 1 } else { id }, spawn_wave: wave })
    } else {
        Some(EnemyRow { spawn, spawn_id: 0, spawn_wave: 0 })
    }
}

fn read_trigger_kind(fields: &KeyValues) -> (res: Option<LevelTriggerKind>)
    ensures
        res == trigger_kind_of(fields@),
{
    let kind = match fields.get("kind") {
        Some(k) => k.as_str(),
        None => "",
    };
    proof {
        reveal_strlit("");
        assert(""@ =~= Seq::<char>::empty());
    }
    assert(kind@ == match lookup(fields@, "kind"@) {
        Some(k) => k,
        None => Seq::<char>::empty(),
    });
    if str_eq(kind, "level_start") {
        Some(LevelTriggerKind::LevelStart)
    } else if str_eq(kind, "level_end") {
        Some(LevelTriggerKind::LevelEnd)
    } else if str_eq(kind, "enemy_spawn") {
        let id = match u16_of(fields, "enemy_id") {
            Some(v) => v,
            None => 1,
        };
        Some(LevelTriggerKind::EnemySpawn { enemy_id: if id == 0 { 1 } else { id } })
    } else {
        None
    }
}

fn read_trigger(fields: &KeyValues, finite: &[String], positive: &[String]) -> (res: Option<TriggerRow<String>>)
    ensures
        match res {
            Some(r) => trigger_row(fields@, strings_view(finite@), strings_view(positive@)) == Some(r@),
            None => trigger_row(fields@, strings_view(finite@), strings_view(positive@)) is None,
        },
{
    match rect_of_fields(fields, finite, positive) {
        Some(rect) => match read_trigger_kind(fields) {
            Some(kind) => Some(TriggerRow { rect, kind }),
            None => None,
        },
        None => None,
    }
}

fn read_text(fields: &KeyValues, finite: &[String]) -> (res: Option<TextRow<String>>)
    ensures
        match res {
            Some(r) => text_row(fields@, strings_view(finite@)) == Some(r@),
            None => text_row(fields@, strings_view(finite@)) is None,
        },
{
    let pos = match point_of_fields(fields, "x", "y", finite) {
        Some(p) => p,
        None => return None,
    };
    let value = match fields.get("value") {
        Some(v) => v.clone(),
        None => match fields.get("text") {
            Some(v) => v.clone(),
            None => String::new(),
        },
    };
    let n = chars_of(value.as_str()).len();
    if n > 0 {
        Some(TextRow { pos, value })
    } else {
        None
    }
}

fn read_world_portal(fields: &KeyValues, finite: &[String], positive: &[String]) -> (res: Option<WorldPortalRow<String>>)
    ensures
        match res {
            Some(r) => world_portal_row(fields@, strings_view(finite@), strings_view(positive@)) == Some(r@),
            None => world_portal_row(fields@, strings_view(finite@), strings_view(positive@)) is None,
        },
{
    let pos = match point_of_fields(fields, "x", "y", finite) {
        Some(p) => p,
        None => return None,
    };
    let normal = match point_of_fields(fields, "normal_x", "normal_y", finite) {
        Some(p) => p,
        None => return None,
    };
    let id = match u16_of(fields, "portal_id") {
        Some(v) => v,
        None => match u16_of(fields, "id") {
            Some(v) => v,
            None => 0,
        },
    };
    Some(
        WorldPortalRow {
            pos,
            normal,
            tangent: point_of_fields(fields, "tangent_x", "tangent_y", finite),
            width: positive_of(fields, "width", finite, positive),
            portal_id: id,
            receiver_id: match u16_of(fields, "receiver_id") {
                Some(v) => v,
                None => id,
            },
            priority: match i16_of(fields, "priority") {
                Some(v) => v,
                None => 0,
            },
            scale: positive_of(fields, "scale", finite, positive),
            scale_objects: flag_of(fields, "scale_objects", false),
            seamless: flag_of(fields, "seamless", false),
            seamless_depth: positive_of(fields, "seamless_depth", finite, positive),
            seamless_angle: positive_of(fields, "seamless_angle", finite, positive),
            seamless_rely_on_walls: flag_of(fields, "seamless_rely_on_walls", false),
        },
    )
}

/// The kind of object a word names.
pub fn parse_kind(word: &str) -> (res: Option<LevelObjectKind>)
    ensures
        res == spec_parse_kind(word@),
{
    if str_eq(word, "solid") {
        Some(LevelObjectKind::Solid)
    } else if str_eq(word, "door") {
        Some(LevelObjectKind::Door)
    } else if str_eq(word, "hazard") {
        Some(LevelObjectKind::Hazard)
    } else if str_eq(word, "checkpoint") {
        Some(LevelObjectKind::Checkpoint)
    } else if str_eq(word, "enemy") {
        Some(LevelObjectKind::Enemy)
    } else if str_eq(word, "trigger") {
        Some(LevelObjectKind::Trigger)
    } else if str_eq(word, "text") {
        Some(LevelObjectKind::Text)
    } else if str_eq(word, "world_portal") {
        Some(LevelObjectKind::WorldPortal)
    } else {
        None
    }
}

fn read_meta(fields: &KeyValues) -> (res: Option<LevelObjectMeta>)
    ensures
        res == meta_row(fields@),
{
    let kind = match fields.get("kind") {
        Some(k) => match parse_kind(k.as_str()) {
            Some(kind) => kind,
            None => return None,
        },
        None => return None,
    };
    let index = match field_unsigned_of(fields, "index", usize::MAX as u64) {
        Some(v) => v as usize,
        None => return None,
    };
    match field_meta(fields) {
        Some(meta) => Some(LevelObjectMeta { kind, index, meta }),
        None => None,
    }
}

fn apply_level_row(doc: &mut LevelDoc, command: &str, fields: &KeyValues, finite: &[String], positive: &[String])
    ensures
        final(doc)@ == level_row(old(doc)@, command@, fields@, strings_view(finite@), strings_view(positive@)),
{
    let ghost fin = strings_view(finite@);
    let ghost pos = strings_view(positive@);
    let ghost before = doc@;
    if str_eq(command, "level") {
        match fields.get("name") {
            Some(n) => {
                doc.name = n.clone();
            },
            None => {},
        }
        match point_of_fields(fields, "spawn_x", "spawn_y", finite) {
            Some(p) => {
                doc.spawn = Some(p);
            },
            None => {},
        }
        assert(doc@ =~= level_row(before, command@, fields@, fin, pos));
    } else if str_eq(command, "solid") {
        match read_solid(fields, finite, positive) {
            Some(r) => {
                let index = doc.solids.len();
                doc.solids.push(r);
                push_inline_meta(fields, LevelObjectKind::Solid, index, &mut doc.metadata);
                assert(doc.solids@.map_values(|r: SolidRow<String>| r@) =~= before.solids.push(r@));
            },
            None => {},
        }
        assert(doc@ =~= level_row(before, command@, fields@, fin, pos));
    } else if str_eq(command, "door") {
        match read_door(fields, finite, positive) {
            Some(r) => {
                let index = doc.doors.len();
                doc.doors.push(r);
                push_inline_meta(fields, LevelObjectKind::Door, index, &mut doc.metadata);
                assert(doc.doors@.map_values(|r: DoorRow<String>| r@) =~= before.doors.push(r@));
            },
            None => {},
        }
        assert(doc@ =~= level_row(before, command@, fields@, fin, pos));
    } else if str_eq(command, "hazard") {
        match read_hazard(fields, finite, positive) {
            Some(r) => {
                let index = doc.hazards.len();
                doc.hazards.push(r);
                push_inline_meta(fields, LevelObjectKind::Hazard, index, &mut doc.metadata);
                assert(doc.hazards@.map_values(|r: HazardRow<String>| r@) =~= before.hazards.push(r@));
            },
            None => {},
        }
        assert(doc@ =~= level_row(before, command@, fields@, fin, pos));
    } else if str_eq(command, "checkpoint") {
        match rect_of_fields(fields, finite, positive) {
            Some(r) => {
                let index = doc.checkpoints.len();
                doc.checkpoints.push(r);
                push_inline_meta(fields, LevelObjectKind::Checkpoint, index, &mut doc.metadata);
                assert(doc.checkpoints@.map_values(|r: Rect<String>| r@) =~= before.checkpoints.push(r@));
            },
            None => {},
        }
        assert(doc@ =~= level_row(before, command@, fields@, fin, pos));
    } else if str_eq(command, "enemy") {
        match read_enemy(fields, finite) {
            Some(r) => {
                let index = doc.enemies.len();
                doc.enemies.push(r);
                push_inline_meta(fields, LevelObjectKind::Enemy, index, &mut doc.metadata);
                assert(doc.enemies@.map_values(|r: EnemyRow<String>| r@) =~= before.enemies.push(r@));
            },
            None => {},
        }
        assert(doc@ =~= level_row(before, command@, fields@, fin, pos));
    } else if str_eq(command, "trigger") {
        match read_trigger(fields, finite, positive) {
            Some(r) => {
                let index = doc.triggers.len();
                doc.triggers.push(r);
                push_inline_meta(fields, LevelObjectKind::Trigger, index, &mut doc.metadata);
                assert(doc.triggers@.map_values(|r: TriggerRow<String>| r@) =~= before.triggers.push(r@));
            },
            None => {},
        }
        assert(doc@ =~= level_row(before, command@, fields@, fin, pos));
    } else if str_eq(command, "text") {
        match read_text(fields, finite) {
            Some(r) => {
                let index = doc.texts.len();
                doc.texts.push(r);
                push_inline_meta(fields, LevelObjectKind::Text, index, &mut doc.metadata);
                assert(doc.texts@.map_values(|r: TextRow<String>| r@) =~= before.texts.push(r@));
            },
            None => {},
        }
        assert(doc@ =~= level_row(before, command@, fields@, fin, pos));
    } else if str_eq(command, "world_portal") {
        match read_world_portal(fields, finite, positive) {
            Some(r) => {
                let index = doc.world_portals.len();
                doc.world_portals.push(r);
                push_inline_meta(fields, LevelObjectKind::WorldPortal, index, &mut doc.metadata);
                assert(doc.world_portals@.map_values(|r: WorldPortalRow<String>| r@)
                    =~= before.world_portals.push(r@));
            },
            None => {},
        }
        assert(doc@ =~= level_row(before, command@, fields@, fin, pos));
    } else if str_eq(command, "meta") {
        match read_meta(fields) {
            Some(m) => {
                doc.metadata.push(m);
            },
            None => {},
        }
        assert(doc@ =~= level_row(before, command@, fields@, fin, pos));
    } else {
        assert(doc@ =~= level_row(before, command@, fields@, fin, pos));
    }
}

fn stem_to_name(stem: &str) -> (res: String)
    ensures
        res@ == stem_name(stem@),
{
    let cs = chars_of(stem);
    let mut out = String::new();
    let mut i: usize = 0;
    while i < cs.len()
        invariant
            cs@ == stem@,
            i <= cs@.len(),
            out@ == stem_name(stem@).take(i as int),
        decreases cs@.len() - i,
    {
        let c = if cs[i] == '_' {
            ' '
        } else {
            cs[i]
        };
        push_char(&mut out, c);
        i = i + 1;
        assert(out@ =~= stem_name(stem@).take(i as int));
    }
    assert(stem_name(stem@).take(i as int) =~= stem_name(stem@));
    out
}

fn version_text(version: Option<u64>) -> (res: String)
    ensures
        res@ == version_message(
            match version {
                Some(v) => Some(v as int),
                None => None,
            },
        ),
{
    let mut out = "unsupported level format version ".to_string();
    match version {
        Some(v) => {
            push_str(&mut out, "Some(");
            let d = format_u64(v);
            push_str(&mut out, d.as_str());
            push_str(&mut out, ")");
        },
        None => {
            push_str(&mut out, "None");
        },
    }
    proof {
        reveal_strlit("unsupported level format version ");
        reveal_strlit("Some(");
        reveal_strlit(")");
        reveal_strlit("None");
    }
    assert(out@ =~= version_message(
        match version {
            Some(v) => Some(v as int),
            None => None,
        },
    ));
    out
}

/// Reads the text of a level file. `stem` is the file's name without its extension, which
/// names the level when no `level` row does; `finite` lists the texts that read as finite
/// numbers and `positive` those that read as numbers above zero.
pub fn parse_level_text(source: &str, stem: &str, finite: &[String], positive: &[String]) -> (res: Result<LevelDoc, String>)
    ensures
        match spec_parse_level(source@, stem@, strings_view(finite@), strings_view(positive@)) {
            Ok(m) => res matches Ok(d) && d@ == m,
            Err(e) => res matches Err(msg) && msg@ == e,
        },
{
    let ghost fin = strings_view(finite@);
    let ghost pos = strings_view(positive@);
    let lines = read_content_lines(source);
    let ghost ls = strings_view(lines@);
    if lines.len() == 0 {
        return Err("empty level file".to_string());
    }
    assert(ls[0] == lines@[0]@);
    let (command, rest) = match split_command(lines[0].as_str()) {
        Some(cr) => cr,
        None => return Err("missing portals_level header".to_string()),
    };
    if !str_eq(command.as_str(), "portals_level") {
        return Err("missing portals_level header".to_string());
    }
    let header = parse_key_values(rest.as_str());
    let version = field_unsigned_of(&header, "version", 255);
    match version {
        Some(v) => {
            if v != 3 {
                return Err(version_text(version));
            }
        },
        None => {
            return Err(version_text(version));
        },
    }
    let name = stem_to_name(stem);
    let mut doc = LevelDoc {
        name,
        spawn: None,
        solids: Vec::new(),
        doors: Vec::new(),
        hazards: Vec::new(),
        checkpoints: Vec::new(),
        enemies: Vec::new(),
        triggers: Vec::new(),
        texts: Vec::new(),
        world_portals: Vec::new(),
        metadata: Vec::new(),
    };
    let ghost start = empty_level(stem_name(stem@));
    assert(doc@ =~= start);
    let mut i: usize = 1;
    assert(ls.subrange(1, 1) =~= Seq::<Seq<char>>::empty());
    assert(spec_parse_level(source@, stem@, fin, pos) == finish_level(level_body(start, ls.skip(1), fin, pos)));
    while i < lines.len()
        invariant
            ls == strings_view(lines@),
            1 <= i <= lines@.len(),
            fin == strings_view(finite@),
            pos == strings_view(positive@),
            level_body(start, ls.subrange(1, i as int), fin, pos) == Ok::<LevelDocModel, Seq<char>>(doc@),
            spec_parse_level(source@, stem@, fin, pos) == finish_level(level_body(start, ls.skip(1), fin, pos)),
        decreases lines@.len() - i,
    {
        let ghost prev = ls.subrange(1, i as int);
        assert(ls.subrange(1, i + 1).drop_last() =~= prev);
        assert(ls.subrange(1, i + 1).last() == lines@[i as int]@);
        match split_command(lines[i].as_str()) {
            Some((c, r)) => {
                if !looks_keyed(r.as_str()) {
                    let mut msg = "non-keyed row in v3 level: ".to_string();
                    push_str(&mut msg, c.as_str());
                    proof {
                        reveal_strlit("non-keyed row in v3 level: ");
                        assert(ls.skip(1).subrange(0, i as int) =~= ls.subrange(1, i + 1));
                        lemma_level_body_err(start, ls.subrange(1, i + 1), ls.skip(1), fin, pos);
                    }
                    assert(msg@ =~= non_keyed_message(c@));
                    return Err(msg);
                }
                let fields = parse_key_values(r.as_str());
                apply_level_row(&mut doc, c.as_str(), &fields, finite, positive);
            },
            None => {},
        }
        i = i + 1;
    }
    assert(ls.subrange(1, i as int) =~= ls.skip(1));
    let LevelDoc {
        name,
        spawn,
        solids,
        doors,
        hazards,
        checkpoints,
        enemies,
        triggers,
        texts,
        world_portals,
        metadata,
    } = doc;
    let metadata = prune_metadata(metadata);
    Ok(LevelDoc {
        name,
        spawn,
        solids,
        doors,
        hazards,
        checkpoints,
        enemies,
        triggers,
        texts,
        world_portals,
        metadata,
    })
}

/// Once a prefix of the lines fails, so do all the lines.
proof fn lemma_level_body_err(
    acc: LevelDocModel,
    prefix: Seq<Seq<char>>,
    all: Seq<Seq<char>>,
    finite: Seq<Seq<char>>,
    positive: Seq<Seq<char>>,
)
    requires
        prefix.len() <= all.len(),
        all.subrange(0, prefix.len() as int) == prefix,
        level_body(acc, prefix, finite, positive) is Err,
    ensures
        level_body(acc, all, finite, positive) == level_body(acc, prefix, finite, positive),
    decreases all.len(),
{
    if all.len() > prefix.len() {
        assert(all.drop_last().subrange(0, prefix.len() as int) =~= prefix);
        lemma_level_body_err(acc, prefix, all.drop_last(), finite, positive);
    } else {
        assert(all =~= prefix);
    }
}

// ---------------------------------------------------------------------------
// Writing a level.

/// A value as written; an unset value is written as its default `d`.
pub open spec fn opt_text(o: Option<Seq<char>>, d: Seq<char>) -> Seq<char> {
    match o {
        Some(t) => t,
        None => d,
    }
}

pub open spec fn opt_x(p: Option<Point<Seq<char>>>, d: Seq<char>) -> Seq<char> {
    match p {
        Some(p) => p.x,
        None => d,
    }
}

pub open spec fn opt_y(p: Option<Point<Seq<char>>>, d: Seq<char>) -> Seq<char> {
    match p {
        Some(p) => p.y,
        None => d,
    }
}

pub open spec fn meta_fields(m: ObjectMeta) -> Seq<(Seq<char>, Seq<char>, bool)> {
    seq![("obj_id"@, num(m.group_id as int), false), ("layer"@, num(m.editor_layer as int), false)]
}

pub open spec fn rect_fields(r: Rect<Seq<char>>) -> Seq<(Seq<char>, Seq<char>, bool)> {
    seq![("x"@, r.x, false), ("y"@, r.y, false), ("w"@, r.w, false), ("h"@, r.h, false)]
}

pub open spec fn header_fields() -> Seq<(Seq<char>, Seq<char>, bool)> {
    seq![("version"@, num(LEVEL_FORMAT_VERSION as int), false)]
}

pub open spec fn name_fields(m: LevelDocModel) -> Seq<(Seq<char>, Seq<char>, bool)> {
    seq![("name"@, m.name, true), ("spawn_x"@, opt_x(m.spawn, "110"@), false), ("spawn_y"@, opt_y(m.spawn, "480"@), false)]
}

pub open spec fn solid_fields(r: SolidRow<Seq<char>>, m: ObjectMeta) -> Seq<(Seq<char>, Seq<char>, bool)> {
    rect_fields(r.rect) + seq![
        ("portalable"@, bool_text(r.portalable), false),
        ("rotation"@, opt_text(r.rotation, "0"@), false),
    ] + meta_fields(m)
}

pub open spec fn door_fields(r: DoorRow<Seq<char>>, m: ObjectMeta) -> Seq<(Seq<char>, Seq<char>, bool)> {
    rect_fields(r.rect) + seq![
        ("radius"@, opt_text(r.radius, "112"@), false),
        ("rotation"@, opt_text(r.rotation, "0"@), false),
        ("speed"@, opt_text(r.speed, "3.6"@), false),
        ("automatic"@, bool_text(r.automatic), false),
    ] + meta_fields(m)
}

pub open spec fn hazard_fields(r: HazardRow<Seq<char>>, m: ObjectMeta) -> Seq<(Seq<char>, Seq<char>, bool)> {
    rect_fields(r.rect) + seq![("rotation"@, opt_text(r.rotation, "0"@), false)] + meta_fields(m)
}

pub open spec fn checkpoint_fields(r: Rect<Seq<char>>, m: ObjectMeta) -> Seq<(Seq<char>, Seq<char>, bool)> {
    rect_fields(r) + meta_fields(m)
}

pub open spec fn enemy_fields(r: EnemyRow<Seq<char>>, m: ObjectMeta) -> Seq<(Seq<char>, Seq<char>, bool)> {
    seq![
        ("kind"@, "filth"@, false),
        ("spawn_x"@, r.spawn.x, false),
        ("spawn_y"@, r.spawn.y, false),
        ("spawn_id"@, num(r.spawn_id as int), false),
        ("spawn_wave"@, num(r.spawn_wave as int), false),
    ] + meta_fields(m)
}

pub open spec fn trigger_word(kind: LevelTriggerKind) -> Seq<char> {
    match kind {
        LevelTriggerKind::LevelStart => "level_start"@,
        LevelTriggerKind::LevelEnd => "level_end"@,
        LevelTriggerKind::EnemySpawn { .. } => "enemy_spawn"@,
    }
}

pub open spec fn trigger_fields(r: TriggerRow<Seq<char>>, m: ObjectMeta) -> Seq<(Seq<char>, Seq<char>, bool)> {
    seq![("kind"@, trigger_word(r.kind), false)] + rect_fields(r.rect) + match r.kind {
        LevelTriggerKind::EnemySpawn { enemy_id } => seq![("enemy_id"@, num(enemy_id as int), false)],
        _ => Seq::<(Seq<char>, Seq<char>, bool)>::empty(),
    } + meta_fields(m)
}

pub open spec fn text_fields(r: TextRow<Seq<char>>, m: ObjectMeta) -> Seq<(Seq<char>, Seq<char>, bool)> {
    seq![("x"@, r.pos.x, false), ("y"@, r.pos.y, false)] + meta_fields(m) + seq![("value"@, r.value, true)]
}

pub open spec fn world_portal_fields(r: WorldPortalRow<Seq<char>>, m: ObjectMeta) -> Seq<(Seq<char>, Seq<char>, bool)> {
    seq![
        ("x"@, r.pos.x, false),
        ("y"@, r.pos.y, false),
        ("normal_x"@, r.normal.x, false),
        ("normal_y"@, r.normal.y, false),
        ("tangent_x"@, opt_x(r.tangent, ""@), false),
        ("tangent_y"@, opt_y(r.tangent, ""@), false),
        ("width"@, opt_text(r.width, ""@), false),
        ("portal_id"@, num(r.portal_id as int), false),
        ("receiver_id"@, num(r.receiver_id as int), false),
        ("priority"@, num(r.priority as int), false),
        ("scale"@, opt_text(r.scale, "1"@), false),
        ("scale_objects"@, bool_text(r.scale_objects), false),
        ("seamless"@, bool_text(r.seamless), false),
        ("seamless_depth"@, opt_text(r.seamless_depth, "256"@), false),
        ("seamless_angle"@, opt_text(r.seamless_angle, "180"@), false),
        ("seamless_rely_on_walls"@, bool_text(r.seamless_rely_on_walls), false),
    ] + meta_fields(m)
}

/// The `solid` rows, each with the metadata recorded for its object.
pub open spec fn solid_texts(rows: Seq<SolidRow<Seq<char>>>, md: Seq<LevelObjectMeta>) -> Seq<Seq<char>> {
    Seq::new(
        rows.len(),
        |i: int| line_text("solid"@, solid_fields(rows[i], spec_object_meta(md, LevelObjectKind::Solid, i as usize))),
    )
}

/// The `door` rows, each with the metadata recorded for its object.
pub open spec fn door_texts(rows: Seq<DoorRow<Seq<char>>>, md: Seq<LevelObjectMeta>) -> Seq<Seq<char>> {
    Seq::new(
        rows.len(),
        |i: int| line_text("door"@, door_fields(rows[i], spec_object_meta(md, LevelObjectKind::Door, i as usize))),
    )
}

/// The `hazard` rows, each with the metadata recorded for its object.
pub open spec fn hazard_texts(rows: Seq<HazardRow<Seq<char>>>, md: Seq<LevelObjectMeta>) -> Seq<Seq<char>> {
    Seq::new(
        rows.len(),
        |i: int| line_text("hazard"@, hazard_fields(rows[i], spec_object_meta(md, LevelObjectKind::Hazard, i as usize))),
    )
}

/// The `checkpoint` rows, each with the metadata recorded for its object.
pub open spec fn checkpoint_texts(rows: Seq<Rect<Seq<char>>>, md: Seq<LevelObjectMeta>) -> Seq<Seq<char>> {
    Seq::new(
        rows.len(),
        |i: int| line_text("checkpoint"@, checkpoint_fields(rows[i], spec_object_meta(md, LevelObjectKind::Checkpoint, i as usize))),
    )
}

/// The `enemy` rows, each with the metadata recorded for its object.
pub open spec fn enemy_texts(rows: Seq<EnemyRow<Seq<char>>>, md: Seq<LevelObjectMeta>) -> Seq<Seq<char>> {
    Seq::new(
        rows.len(),
        |i: int| line_text("enemy"@, enemy_fields(rows[i], spec_object_meta(md, LevelObjectKind::Enemy, i as usize))),
    )
}

/// The `trigger` rows, each with the metadata recorded for its object.
pub open spec fn trigger_texts(rows: Seq<TriggerRow<Seq<char>>>, md: Seq<LevelObjectMeta>) -> Seq<Seq<char>> {
    Seq::new(
        rows.len(),
        |i: int| line_text("trigger"@, trigger_fields(rows[i], spec_object_meta(md, LevelObjectKind::Trigger, i as usize))),
    )
}

/// The `text` rows, each with the metadata recorded for its object.
pub open spec fn text_texts(rows: Seq<TextRow<Seq<char>>>, md: Seq<LevelObjectMeta>) -> Seq<Seq<char>> {
    Seq::new(
        rows.len(),
        |i: int| line_text("text"@, text_fields(rows[i], spec_object_meta(md, LevelObjectKind::Text, i as usize))),
    )
}

/// The `world_portal` rows, each with the metadata recorded for its object.
pub open spec fn world_portal_texts(rows: Seq<WorldPortalRow<Seq<char>>>, md: Seq<LevelObjectMeta>) -> Seq<Seq<char>> {
    Seq::new(
        rows.len(),
        |i: int| line_text("world_portal"@, world_portal_fields(rows[i], spec_object_meta(md, LevelObjectKind::WorldPortal, i as usize))),
    )
}

/// The lines of a level file: the header, the `level` row, then the rows of each kind of
/// object in turn.
pub open spec fn level_texts(m: LevelDocModel) -> Seq<Seq<char>> {
    seq![line_text("portals_level"@, header_fields()), line_text("level"@, name_fields(m))]
        + solid_texts(m.solids, m.metadata) + door_texts(m.doors, m.metadata) + hazard_texts(
        m.hazards,
        m.metadata,
    ) + checkpoint_texts(m.checkpoints, m.metadata) + enemy_texts(m.enemies, m.metadata)
        + trigger_texts(m.triggers, m.metadata) + text_texts(m.texts, m.metadata)
        + world_portal_texts(m.world_portals, m.metadata)
}

/// The text of a level file: its lines, each ended by a newline.
pub open spec fn spec_format_level(m: LevelDocModel) -> Seq<char> {
    joined(level_texts(m))
}

fn opt_string(o: &Option<String>, d: &str) -> (res: String)
    ensures
        res@ == opt_text(opt_view(*o), d@),
{
    match o {
        Some(t) => t.clone(),
        None => d.to_string(),
    }
}

fn opt_x_string(o: &Option<Point<String>>, d: &str) -> (res: String)
    ensures
        res@ == opt_x(opt_point_view(*o), d@),
{
    match o {
        Some(p) => p.x.clone(),
        None => d.to_string(),
    }
}

fn opt_y_string(o: &Option<Point<String>>, d: &str) -> (res: String)
    ensures
        res@ == opt_y(opt_point_view(*o), d@),
{
    match o {
        Some(p) => p.y.clone(),
        None => d.to_string(),
    }
}

fn trigger_word_str(kind: LevelTriggerKind) -> (r: &'static str)
    ensures
        r@ == trigger_word(kind),
{
    match kind {
        LevelTriggerKind::LevelStart => "level_start",
        LevelTriggerKind::LevelEnd => "level_end",
        LevelTriggerKind::EnemySpawn { .. } => "enemy_spawn",
    }
}

fn push_header_line(out: &mut String)
    ensures
        final(out)@ == old(out)@ + text_line("portals_level"@, header_fields()),
{
    let ghost start = out@;
    push_str(out, "portals_level");
    push_char(out, ' ');
    let ghost head = out@;
    let ghost mut fs: Seq<(Seq<char>, Seq<char>, bool)> = Seq::empty();
    assert(out@ =~= head + keyed_line(fs));
    let v0 = format_u64(LEVEL_FORMAT_VERSION as u64);
    add_field(out, true, "version", v0.as_str(), false, Ghost(head), Ghost(fs));
    proof { fs = fs.push(("version"@, v0@, false)); }
    push_char(out, '\n');
    assert(fs =~= header_fields());
    assert(out@ =~= start + text_line("portals_level"@, header_fields()));
}

fn push_name_line(out: &mut String, doc: &LevelDoc)
    ensures
        final(out)@ == old(out)@ + text_line("level"@, name_fields(doc@)),
{
    let ghost start = out@;
    push_str(out, "level");
    push_char(out, ' ');
    let ghost head = out@;
    let ghost mut fs: Seq<(Seq<char>, Seq<char>, bool)> = Seq::empty();
    assert(out@ =~= head + keyed_line(fs));
    let v0 = doc.name.clone();
    add_field(out, true, "name", v0.as_str(), true, Ghost(head), Ghost(fs));
    proof { fs = fs.push(("name"@, v0@, true)); }
    let v1 = opt_x_string(&doc.spawn, "110");
    add_field(out, false, "spawn_x", v1.as_str(), false, Ghost(head), Ghost(fs));
    proof { fs = fs.push(("spawn_x"@, v1@, false)); }
    let v2 = opt_y_string(&doc.spawn, "480");
    add_field(out, false, "spawn_y", v2.as_str(), false, Ghost(head), Ghost(fs));
    proof { fs = fs.push(("spawn_y"@, v2@, false)); }
    push_char(out, '\n');
    assert(fs =~= name_fields(doc@));
    assert(out@ =~= start + text_line("level"@, name_fields(doc@)));
}

fn push_solid_line(out: &mut String, r: &SolidRow<String>, m: ObjectMeta)
    ensures
        final(out)@ == old(out)@ + text_line("solid"@, solid_fields(r@, m)),
{
    let ghost start = out@;
    push_str(out, "solid");
    push_char(out, ' ');
    let ghost head = out@;
    let ghost mut fs: Seq<(Seq<char>, Seq<char>, bool)> = Seq::empty();
    assert(out@ =~= head + keyed_line(fs));
    let v0 = r.rect.x.clone();
    add_field(out, true, "x", v0.as_str(), false, Ghost(head), Ghost(fs));
    proof { fs = fs.push(("x"@, v0@, false)); }
    let v1 = r.rect.y.clone();
    add_field(out, false, "y", v1.as_str(), false, Ghost(head), Ghost(fs));
    proof { fs = fs.push(("y"@, v1@, false)); }
    let v2 = r.rect.w.clone();
    add_field(out, false, "w", v2.as_str(), false, Ghost(head), Ghost(fs));
    proof { fs = fs.push(("w"@, v2@, false)); }
    let v3 = r.rect.h.clone();
    add_field(out, false, "h", v3.as_str(), false, Ghost(head), Ghost(fs));
    proof { fs = fs.push(("h"@, v3@, false)); }
    let v4 = bool_word(r.portalable).to_string();
    add_field(out, false, "portalable", v4.as_str(), false, Ghost(head), Ghost(fs));
    proof { fs = fs.push(("portalable"@, v4@, false)); }
    let v5 = opt_string(&r.rotation, "0");
    add_field(out, false, "rotation", v5.as_str(), false, Ghost(head), Ghost(fs));
    proof { fs = fs.push(("rotation"@, v5@, false)); }
    let v6 = format_u64(m.group_id as u64);
    add_field(out, false, "obj_id", v6.as_str(), false, Ghost(head), Ghost(fs));
    proof { fs = fs.push(("obj_id"@, v6@, false)); }
    let v7 = format_i64(m.editor_layer as i64);
    add_field(out, false, "layer", v7.as_str(), false, Ghost(head), Ghost(fs));
    proof { fs = fs.push(("layer"@, v7@, false)); }
    push_char(out, '\n');
    assert(fs =~= solid_fields(r@, m));
    assert(out@ =~= start + text_line("solid"@, solid_fields(r@, m)));
}

fn push_door_line(out: &mut String, r: &DoorRow<String>, m: ObjectMeta)
    ensures
        final(out)@ == old(out)@ + text_line("door"@, door_fields(r@, m)),
{
    let ghost start = out@;
    push_str(out, "door");
    push_char(out, ' ');
    let ghost head = out@;
    let ghost mut fs: Seq<(Seq<char>, Seq<char>, bool)> = Seq::empty();
    assert(out@ =~= head + keyed_line(fs));
    let v0 = r.rect.x.clone();
    add_field(out, true, "x", v0.as_str(), false, Ghost(head), Ghost(fs));
    proof { fs = fs.push(("x"@, v0@, false)); }
    let v1 = r.rect.y.clone();
    add_field(out, false, "y", v1.as_str(), false, Ghost(head), Ghost(fs));
    proof { fs = fs.push(("y"@, v1@, false)); }
    let v2 = r.rect.w.clone();
    add_field(out, false, "w", v2.as_str(), false, Ghost(head), Ghost(fs));
    proof { fs = fs.push(("w"@, v2@, false)); }
    let v3 = r.rect.h.clone();
    add_field(out, false, "h", v3.as_str(), false, Ghost(head), Ghost(fs));
    proof { fs = fs.push(("h"@, v3@, false)); }
    let v4 = opt_string(&r.radius, "112");
    add_field(out, false, "radius", v4.as_str(), false, Ghost(head), Ghost(fs));
    proof { fs = fs.push(("radius"@, v4@, false)); }
    let v5 = opt_string(&r.rotation, "0");
    add_field(out, false, "rotation", v5.as_str(), false, Ghost(head), Ghost(fs));
    proof { fs = fs.push(("rotation"@, v5@, false)); }
    let v6 = opt_string(&r.speed, "3.6");
    add_field(out, false, "speed", v6.as_str(), false, Ghost(head), Ghost(fs));
    proof { fs = fs.push(("speed"@, v6@, false)); }
    let v7 = bool_word(r.automatic).to_string();
    add_field(out, false, "automatic", v7.as_str(), false, Ghost(head), Ghost(fs));
    proof { fs = fs.push(("automatic"@, v7@, false)); }
    let v8 = format_u64(m.group_id as u64);
    add_field(out, false, "obj_id", v8.as_str(), false, Ghost(head), Ghost(fs));
    proof { fs = fs.push(("obj_id"@, v8@, false)); }
    let v9 = format_i64(m.editor_layer as i64);
    add_field(out, false, "layer", v9.as_str(), false, Ghost(head), Ghost(fs));
    proof { fs = fs.push(("layer"@, v9@, false)); }
    push_char(out, '\n');
    assert(fs =~= door_fields(r@, m));
    assert(out@ =~= start + text_line("door"@, door_fields(r@, m)));
}

fn push_hazard_line(out: &mut String, r: &HazardRow<String>, m: ObjectMeta)
    ensures
        final(out)@ == old(out)@ + text_line("hazard"@, hazard_fields(r@, m)),
{
    let ghost start = out@;
    push_str(out, "hazard");
    push_char(out, ' ');
    let ghost head = out@;
    let ghost mut fs: Seq<(Seq<char>, Seq<char>, bool)> = Seq::empty();
    assert(out@ =~= head + keyed_line(fs));
    let v0 = r.rect.x.clone();
    add_field(out, true, "x", v0.as_str(), false, Ghost(head), Ghost(fs));
    proof { fs = fs.push(("x"@, v0@, false)); }
    let v1 = r.rect.y.clone();
    add_field(out, false, "y", v1.as_str(), false, Ghost(head), Ghost(fs));
    proof { fs = fs.push(("y"@, v1@, false)); }
    let v2 = r.rect.w.clone();
    add_field(out, false, "w", v2.as_str(), false, Ghost(head), Ghost(fs));
    proof { fs = fs.push(("w"@, v2@, false)); }
    let v3 = r.rect.h.clone();
    add_field(out, false, "h", v3.as_str(), false, Ghost(head), Ghost(fs));
    proof { fs = fs.push(("h"@, v3@, false)); }
    let v4 = opt_string(&r.rotation, "0");
    add_field(out, false, "rotation", v4.as_str(), false, Ghost(head), Ghost(fs));
    proof { fs = fs.push(("rotation"@, v4@, false)); }
    let v5 = format_u64(m.group_id as u64);
    add_field(out, false, "obj_id", v5.as_str(), false, Ghost(head), Ghost(fs));
    proof { fs = fs.push(("obj_id"@, v5@, false)); }
    let v6 = format_i64(m.editor_layer as i64);
    add_field(out, false, "layer", v6.as_str(), false, Ghost(head), Ghost(fs));
    proof { fs = fs.push(("layer"@, v6@, false)); }
    push_char(out, '\n');
    assert(fs =~= hazard_fields(r@, m));
    assert(out@ =~= start + text_line("hazard"@, hazard_fields(r@, m)));
}

fn push_checkpoint_line(out: &mut String, r: &Rect<String>, m: ObjectMeta)
    ensures
        final(out)@ == old(out)@ + text_line("checkpoint"@, checkpoint_fields(r@, m)),
{
    let ghost start = out@;
    push_str(out, "checkpoint");
    push_char(out, ' ');
    let ghost head = out@;
    let ghost mut fs: Seq<(Seq<char>, Seq<char>, bool)> = Seq::empty();
    assert(out@ =~= head + keyed_line(fs));
    let v0 = r.x.clone();
    add_field(out, true, "x", v0.as_str(), false, Ghost(head), Ghost(fs));
    proof { fs = fs.push(("x"@, v0@, false)); }
    let v1 = r.y.clone();
    add_field(out, false, "y", v1.as_str(), false, Ghost(head), Ghost(fs));
    proof { fs = fs.push(("y"@, v1@, false)); }
    let v2 = r.w.clone();
    add_field(out, false, "w", v2.as_str(), false, Ghost(head), Ghost(fs));
    proof { fs = fs.push(("w"@, v2@, false)); }
    let v3 = r.h.clone();
    add_field(out, false, "h", v3.as_str(), false, Ghost(head), Ghost(fs));
    proof { fs = fs.push(("h"@, v3@, false)); }
    let v4 = format_u64(m.group_id as u64);
    add_field(out, false, "obj_id", v4.as_str(), false, Ghost(head), Ghost(fs));
    proof { fs = fs.push(("obj_id"@, v4@, false)); }
    let v5 = format_i64(m.editor_layer as i64);
    add_field(out, false, "layer", v5.as_str(), false, Ghost(head), Ghost(fs));
    proof { fs = fs.push(("layer"@, v5@, false)); }
    push_char(out, '\n');
    assert(fs =~= checkpoint_fields(r@, m));
    assert(out@ =~= start + text_line("checkpoint"@, checkpoint_fields(r@, m)));
}

fn push_enemy_line(out: &mut String, r: &EnemyRow<String>, m: ObjectMeta)
    ensures
        final(out)@ == old(out)@ + text_line("enemy"@, enemy_fields(r@, m)),
{
    let ghost start = out@;
    push_str(out, "enemy");
    push_char(out, ' ');
    let ghost head = out@;
    let ghost mut fs: Seq<(Seq<char>, Seq<char>, bool)> = Seq::empty();
    assert(out@ =~= head + keyed_line(fs));
    let v0 = "filth".to_string();
    add_field(out, true, "kind", v0.as_str(), false, Ghost(head), Ghost(fs));
    proof { fs = fs.push(("kind"@, v0@, false)); }
    let v1 = r.spawn.x.clone();
    add_field(out, false, "spawn_x", v1.as_str(), false, Ghost(head), Ghost(fs));
    proof { fs = fs.push(("spawn_x"@, v1@, false)); }
    let v2 = r.spawn.y.clone();
    add_field(out, false, "spawn_y", v2.as_str(), false, Ghost(head), Ghost(fs));
    proof { fs = fs.push(("spawn_y"@, v2@, false)); }
    let v3 = format_u64(r.spawn_id as u64);
    add_field(out, false, "spawn_id", v3.as_str(), false, Ghost(head), Ghost(fs));
    proof { fs = fs.push(("spawn_id"@, v3@, false)); }
    let v4 = format_u64(r.spawn_wave as u64);
    add_field(out, false, "spawn_wave", v4.as_str(), false, Ghost(head), Ghost(fs));
    proof { fs = fs.push(("spawn_wave"@, v4@, false)); }
    let v5 = format_u64(m.group_id as u64);
    add_field(out, false, "obj_id", v5.as_str(), false, Ghost(head), Ghost(fs));
    proof { fs = fs.push(("obj_id"@, v5@, false)); }
    let v6 = format_i64(m.editor_layer as i64);
    add_field(out, false, "layer", v6.as_str(), false, Ghost(head), Ghost(fs));
    proof { fs = fs.push(("layer"@, v6@, false)); }
    push_char(out, '\n');
    assert(fs =~= enemy_fields(r@, m));
    assert(out@ =~= start + text_line("enemy"@, enemy_fields(r@, m)));
}

fn push_text_line(out: &mut String, r: &TextRow<String>, m: ObjectMeta)
    ensures
        final(out)@ == old(out)@ + text_line("text"@, text_fields(r@, m)),
{
    let ghost start = out@;
    push_str(out, "text");
    push_char(out, ' ');
    let ghost head = out@;
    let ghost mut fs: Seq<(Seq<char>, Seq<char>, bool)> = Seq::empty();
    assert(out@ =~= head + keyed_line(fs));
    let v0 = r.pos.x.clone();
    add_field(out, true, "x", v0.as_str(), false, Ghost(head), Ghost(fs));
    proof { fs = fs.push(("x"@, v0@, false)); }
    let v1 = r.pos.y.clone();
    add_field(out, false, "y", v1.as_str(), false, Ghost(head), Ghost(fs));
    proof { fs = fs.push(("y"@, v1@, false)); }
    let v2 = format_u64(m.group_id as u64);
    add_field(out, false, "obj_id", v2.as_str(), false, Ghost(head), Ghost(fs));
    proof { fs = fs.push(("obj_id"@, v2@, false)); }
    let v3 = format_i64(m.editor_layer as i64);
    add_field(out, false, "layer", v3.as_str(), false, Ghost(head), Ghost(fs));
    proof { fs = fs.push(("layer"@, v3@, false)); }
    let v4 = r.value.clone();
    add_field(out, false, "value", v4.as_str(), true, Ghost(head), Ghost(fs));
    proof { fs = fs.push(("value"@, v4@, true)); }
    push_char(out, '\n');
    assert(fs =~= text_fields(r@, m));
    assert(out@ =~= start + text_line("text"@, text_fields(r@, m)));
}

fn push_world_portal_line(out: &mut String, r: &WorldPortalRow<String>, m: ObjectMeta)
    ensures
        final(out)@ == old(out)@ + text_line("world_portal"@, world_portal_fields(r@, m)),
{
    let ghost start = out@;
    push_str(out, "world_portal");
    push_char(out, ' ');
    let ghost head = out@;
    let ghost mut fs: Seq<(Seq<char>, Seq<char>, bool)> = Seq::empty();
    assert(out@ =~= head + keyed_line(fs));
    let v0 = r.pos.x.clone();
    add_field(out, true, "x", v0.as_str(), false, Ghost(head), Ghost(fs));
    proof { fs = fs.push(("x"@, v0@, false)); }
    let v1 = r.pos.y.clone();
    add_field(out, false, "y", v1.as_str(), false, Ghost(head), Ghost(fs));
    proof { fs = fs.push(("y"@, v1@, false)); }
    let v2 = r.normal.x.clone();
    add_field(out, false, "normal_x", v2.as_str(), false, Ghost(head), Ghost(fs));
    proof { fs = fs.push(("normal_x"@, v2@, false)); }
    let v3 = r.normal.y.clone();
    add_field(out, false, "normal_y", v3.as_str(), false, Ghost(head), Ghost(fs));
    proof { fs = fs.push(("normal_y"@, v3@, false)); }
    let v4 = opt_x_string(&r.tangent, "");
    add_field(out, false, "tangent_x", v4.as_str(), false, Ghost(head), Ghost(fs));
    proof { fs = fs.push(("tangent_x"@, v4@, false)); }
    let v5 = opt_y_string(&r.tangent, "");
    add_field(out, false, "tangent_y", v5.as_str(), false, Ghost(head), Ghost(fs));
    proof { fs = fs.push(("tangent_y"@, v5@, false)); }
    let v6 = opt_string(&r.width, "");
    add_field(out, false, "width", v6.as_str(), false, Ghost(head), Ghost(fs));
    proof { fs = fs.push(("width"@, v6@, false)); }
    let v7 = format_u64(r.portal_id as u64);
    add_field(out, false, "portal_id", v7.as_str(), false, Ghost(head), Ghost(fs));
    proof { fs = fs.push(("portal_id"@, v7@, false)); }
    let v8 = format_u64(r.receiver_id as u64);
    add_field(out, false, "receiver_id", v8.as_str(), false, Ghost(head), Ghost(fs));
    proof { fs = fs.push(("receiver_id"@, v8@, false)); }
    let v9 = format_i64(r.priority as i64);
    add_field(out, false, "priority", v9.as_str(), false, Ghost(head), Ghost(fs));
    proof { fs = fs.push(("priority"@, v9@, false)); }
    let v10 = opt_string(&r.scale, "1");
    add_field(out, false, "scale", v10.as_str(), false, Ghost(head), Ghost(fs));
    proof { fs = fs.push(("scale"@, v10@, false)); }
    let v11 = bool_word(r.scale_objects).to_string();
    add_field(out, false, "scale_objects", v11.as_str(), false, Ghost(head), Ghost(fs));
    proof { fs = fs.push(("scale_objects"@, v11@, false)); }
    let v12 = bool_word(r.seamless).to_string();
    add_field(out, false, "seamless", v12.as_str(), false, Ghost(head), Ghost(fs));
    proof { fs = fs.push(("seamless"@, v12@, false)); }
    let v13 = opt_string(&r.seamless_depth, "256");
    add_field(out, false, "seamless_depth", v13.as_str(), false, Ghost(head), Ghost(fs));
    proof { fs = fs.push(("seamless_depth"@, v13@, false)); }
    let v14 = opt_string(&r.seamless_angle, "180");
    add_field(out, false, "seamless_angle", v14.as_str(), false, Ghost(head), Ghost(fs));
    proof { fs = fs.push(("seamless_angle"@, v14@, false)); }
    let v15 = bool_word(r.seamless_rely_on_walls).to_string();
    add_field(out, false, "seamless_rely_on_walls", v15.as_str(), false, Ghost(head), Ghost(fs));
    proof { fs = fs.push(("seamless_rely_on_walls"@, v15@, false)); }
    let v16 = format_u64(m.group_id as u64);
    add_field(out, false, "obj_id", v16.as_str(), false, Ghost(head), Ghost(fs));
    proof { fs = fs.push(("obj_id"@, v16@, false)); }
    let v17 = format_i64(m.editor_layer as i64);
    add_field(out, false, "layer", v17.as_str(), false, Ghost(head), Ghost(fs));
    proof { fs = fs.push(("layer"@, v17@, false)); }
    push_char(out, '\n');
    assert(fs =~= world_portal_fields(r@, m));
    assert(out@ =~= start + text_line("world_portal"@, world_portal_fields(r@, m)));
}


fn push_trigger_line(out: &mut String, r: &TriggerRow<String>, m: ObjectMeta)
    ensures
        final(out)@ == old(out)@ + text_line("trigger"@, trigger_fields(r@, m)),
{
    let ghost start = out@;
    push_str(out, "trigger");
    push_char(out, ' ');
    let ghost head = out@;
    let ghost mut fs: Seq<(Seq<char>, Seq<char>, bool)> = Seq::empty();
    assert(out@ =~= head + keyed_line(fs));
    let v0 = trigger_word_str(r.kind).to_string();
    add_field(out, true, "kind", v0.as_str(), false, Ghost(head), Ghost(fs));
    proof { fs = fs.push(("kind"@, v0@, false)); }
    let v1 = r.rect.x.clone();
    add_field(out, false, "x", v1.as_str(), false, Ghost(head), Ghost(fs));
    proof { fs = fs.push(("x"@, v1@, false)); }
    let v2 = r.rect.y.clone();
    add_field(out, false, "y", v2.as_str(), false, Ghost(head), Ghost(fs));
    proof { fs = fs.push(("y"@, v2@, false)); }
    let v3 = r.rect.w.clone();
    add_field(out, false, "w", v3.as_str(), false, Ghost(head), Ghost(fs));
    proof { fs = fs.push(("w"@, v3@, false)); }
    let v4 = r.rect.h.clone();
    add_field(out, false, "h", v4.as_str(), false, Ghost(head), Ghost(fs));
    proof { fs = fs.push(("h"@, v4@, false)); }
    match r.kind {
        LevelTriggerKind::EnemySpawn { enemy_id } => {
            let v5 = format_u64(enemy_id as u64);
            add_field(out, false, "enemy_id", v5.as_str(), false, Ghost(head), Ghost(fs));
            proof { fs = fs.push(("enemy_id"@, v5@, false)); }
        },
        _ => {},
    }
    let v6 = format_u64(m.group_id as u64);
    add_field(out, false, "obj_id", v6.as_str(), false, Ghost(head), Ghost(fs));
    proof { fs = fs.push(("obj_id"@, v6@, false)); }
    let v7 = format_i64(m.editor_layer as i64);
    add_field(out, false, "layer", v7.as_str(), false, Ghost(head), Ghost(fs));
    proof { fs = fs.push(("layer"@, v7@, false)); }
    push_char(out, '\n');
    assert(fs =~= trigger_fields(r@, m));
    assert(out@ =~= start + text_line("trigger"@, trigger_fields(r@, m)));
}

fn push_solid_lines(out: &mut String, doc: &LevelDoc)
    ensures
        final(out)@ == old(out)@ + joined(solid_texts(doc@.solids, doc@.metadata)),
{
    let ghost start = out@;
    let ghost md = doc@.metadata;
    let mut i: usize = 0;
    assert(solid_texts(doc@.solids.take(0), md) =~= Seq::<Seq<char>>::empty());
    assert(out@ =~= start + joined(solid_texts(doc@.solids.take(0), md)));
    while i < doc.solids.len()
        invariant
            i <= doc.solids@.len(),
            md == doc@.metadata,
            out@ == start + joined(solid_texts(doc@.solids.take(i as int), md)),
        decreases doc.solids@.len() - i,
    {
        let m = object_meta_lossy(doc.metadata.as_slice(), LevelObjectKind::Solid, i);
        push_solid_line(out, &doc.solids[i], m);
        proof {
            let prev = solid_texts(doc@.solids.take(i as int), md);
            let l = line_text("solid"@, solid_fields(doc.solids@[i as int]@, m));
            assert(solid_texts(doc@.solids.take(i + 1), md) =~= prev.push(l));
            lemma_joined_push(prev, l);
            assert(out@ =~= start + joined(solid_texts(doc@.solids.take(i + 1), md)));
        }
        i = i + 1;
    }
    assert(doc@.solids.take(i as int) =~= doc@.solids);
}

fn push_door_lines(out: &mut String, doc: &LevelDoc)
    ensures
        final(out)@ == old(out)@ + joined(door_texts(doc@.doors, doc@.metadata)),
{
    let ghost start = out@;
    let ghost md = doc@.metadata;
    let mut i: usize = 0;
    assert(door_texts(doc@.doors.take(0), md) =~= Seq::<Seq<char>>::empty());
    assert(out@ =~= start + joined(door_texts(doc@.doors.take(0), md)));
    while i < doc.doors.len()
        invariant
            i <= doc.doors@.len(),
            md == doc@.metadata,
            out@ == start + joined(door_texts(doc@.doors.take(i as int), md)),
        decreases doc.doors@.len() - i,
    {
        let m = object_meta_lossy(doc.metadata.as_slice(), LevelObjectKind::Door, i);
        push_door_line(out, &doc.doors[i], m);
        proof {
            let prev = door_texts(doc@.doors.take(i as int), md);
            let l = line_text("door"@, door_fields(doc.doors@[i as int]@, m));
            assert(door_texts(doc@.doors.take(i + 1), md) =~= prev.push(l));
            lemma_joined_push(prev, l);
            assert(out@ =~= start + joined(door_texts(doc@.doors.take(i + 1), md)));
        }
        i = i + 1;
    }
    assert(doc@.doors.take(i as int) =~= doc@.doors);
}

fn push_hazard_lines(out: &mut String, doc: &LevelDoc)
    ensures
        final(out)@ == old(out)@ + joined(hazard_texts(doc@.hazards, doc@.metadata)),
{
    let ghost start = out@;
    let ghost md = doc@.metadata;
    let mut i: usize = 0;
    assert(hazard_texts(doc@.hazards.take(0), md) =~= Seq::<Seq<char>>::empty());
    assert(out@ =~= start + joined(hazard_texts(doc@.hazards.take(0), md)));
    while i < doc.hazards.len()
        invariant
            i <= doc.hazards@.len(),
            md == doc@.metadata,
            out@ == start + joined(hazard_texts(doc@.hazards.take(i as int), md)),
        decreases doc.hazards@.len() - i,
    {
        let m = object_meta_lossy(doc.metadata.as_slice(), LevelObjectKind::Hazard, i);
        push_hazard_line(out, &doc.hazards[i], m);
        proof {
            let prev = hazard_texts(doc@.hazards.take(i as int), md);
            let l = line_text("hazard"@, hazard_fields(doc.hazards@[i as int]@, m));
            assert(hazard_texts(doc@.hazards.take(i + 1), md) =~= prev.push(l));
            lemma_joined_push(prev, l);
            assert(out@ =~= start + joined(hazard_texts(doc@.hazards.take(i + 1), md)));
        }
        i = i + 1;
    }
    assert(doc@.hazards.take(i as int) =~= doc@.hazards);
}

fn push_checkpoint_lines(out: &mut String, doc: &LevelDoc)
    ensures
        final(out)@ == old(out)@ + joined(checkpoint_texts(doc@.checkpoints, doc@.metadata)),
{
    let ghost start = out@;
    let ghost md = doc@.metadata;
    let mut i: usize = 0;
    assert(checkpoint_texts(doc@.checkpoints.take(0), md) =~= Seq::<Seq<char>>::empty());
    assert(out@ =~= start + joined(checkpoint_texts(doc@.checkpoints.take(0), md)));
    while i < doc.checkpoints.len()
        invariant
            i <= doc.checkpoints@.len(),
            md == doc@.metadata,
            out@ == start + joined(checkpoint_texts(doc@.checkpoints.take(i as int), md)),
        decreases doc.checkpoints@.len() - i,
    {
        let m = object_meta_lossy(doc.metadata.as_slice(), LevelObjectKind::Checkpoint, i);
        push_checkpoint_line(out, &doc.checkpoints[i], m);
        proof {
            let prev = checkpoint_texts(doc@.checkpoints.take(i as int), md);
            let l = line_text("checkpoint"@, checkpoint_fields(doc.checkpoints@[i as int]@, m));
            assert(checkpoint_texts(doc@.checkpoints.take(i + 1), md) =~= prev.push(l));
            lemma_joined_push(prev, l);
            assert(out@ =~= start + joined(checkpoint_texts(doc@.checkpoints.take(i + 1), md)));
        }
        i = i + 1;
    }
    assert(doc@.checkpoints.take(i as int) =~= doc@.checkpoints);
}

fn push_enemy_lines(out: &mut String, doc: &LevelDoc)
    ensures
        final(out)@ == old(out)@ + joined(enemy_texts(doc@.enemies, doc@.metadata)),
{
    let ghost start = out@;
    let ghost md = doc@.metadata;
    let mut i: usize = 0;
    assert(enemy_texts(doc@.enemies.take(0), md) =~= Seq::<Seq<char>>::empty());
    assert(out@ =~= start + joined(enemy_texts(doc@.enemies.take(0), md)));
    while i < doc.enemies.len()
        invariant
            i <= doc.enemies@.len(),
            md == doc@.metadata,
            out@ == start + joined(enemy_texts(doc@.enemies.take(i as int), md)),
        decreases doc.enemies@.len() - i,
    {
        let m = object_meta_lossy(doc.metadata.as_slice(), LevelObjectKind::Enemy, i);
        push_enemy_line(out, &doc.enemies[i], m);
        proof {
            let prev = enemy_texts(doc@.enemies.take(i as int), md);
            let l = line_text("enemy"@, enemy_fields(doc.enemies@[i as int]@, m));
            assert(enemy_texts(doc@.enemies.take(i + 1), md) =~= prev.push(l));
            lemma_joined_push(prev, l);
            assert(out@ =~= start + joined(enemy_texts(doc@.enemies.take(i + 1), md)));
        }
        i = i + 1;
    }
    assert(doc@.enemies.take(i as int) =~= doc@.enemies);
}

fn push_trigger_lines(out: &mut String, doc: &LevelDoc)
    ensures
        final(out)@ == old(out)@ + joined(trigger_texts(doc@.triggers, doc@.metadata)),
{
    let ghost start = out@;
    let ghost md = doc@.metadata;
    let mut i: usize = 0;
    assert(trigger_texts(doc@.triggers.take(0), md) =~= Seq::<Seq<char>>::empty());
    assert(out@ =~= start + joined(trigger_texts(doc@.triggers.take(0), md)));
    while i < doc.triggers.len()
        invariant
            i <= doc.triggers@.len(),
            md == doc@.metadata,
            out@ == start + joined(trigger_texts(doc@.triggers.take(i as int), md)),
        decreases doc.triggers@.len() - i,
    {
        let m = object_meta_lossy(doc.metadata.as_slice(), LevelObjectKind::Trigger, i);
        push_trigger_line(out, &doc.triggers[i], m);
        proof {
            let prev = trigger_texts(doc@.triggers.take(i as int), md);
            let l = line_text("trigger"@, trigger_fields(doc.triggers@[i as int]@, m));
            assert(trigger_texts(doc@.triggers.take(i + 1), md) =~= prev.push(l));
            lemma_joined_push(prev, l);
            assert(out@ =~= start + joined(trigger_texts(doc@.triggers.take(i + 1), md)));
        }
        i = i + 1;
    }
    assert(doc@.triggers.take(i as int) =~= doc@.triggers);
}

fn push_text_lines(out: &mut String, doc: &LevelDoc)
    ensures
        final(out)@ == old(out)@ + joined(text_texts(doc@.texts, doc@.metadata)),
{
    let ghost start = out@;
    let ghost md = doc@.metadata;
    let mut i: usize = 0;
    assert(text_texts(doc@.texts.take(0), md) =~= Seq::<Seq<char>>::empty());
    assert(out@ =~= start + joined(text_texts(doc@.texts.take(0), md)));
    while i < doc.texts.len()
        invariant
            i <= doc.texts@.len(),
            md == doc@.metadata,
            out@ == start + joined(text_texts(doc@.texts.take(i as int), md)),
        decreases doc.texts@.len() - i,
    {
        let m = object_meta_lossy(doc.metadata.as_slice(), LevelObjectKind::Text, i);
        push_text_line(out, &doc.texts[i], m);
        proof {
            let prev = text_texts(doc@.texts.take(i as int), md);
            let l = line_text("text"@, text_fields(doc.texts@[i as int]@, m));
            assert(text_texts(doc@.texts.take(i + 1), md) =~= prev.push(l));
            lemma_joined_push(prev, l);
            assert(out@ =~= start + joined(text_texts(doc@.texts.take(i + 1), md)));
        }
        i = i + 1;
    }
    assert(doc@.texts.take(i as int) =~= doc@.texts);
}

fn push_world_portal_lines(out: &mut String, doc: &LevelDoc)
    ensures
        final(out)@ == old(out)@ + joined(world_portal_texts(doc@.world_portals, doc@.metadata)),
{
    let ghost start = out@;
    let ghost md = doc@.metadata;
    let mut i: usize = 0;
    assert(world_portal_texts(doc@.world_portals.take(0), md) =~= Seq::<Seq<char>>::empty());
    assert(out@ =~= start + joined(world_portal_texts(doc@.world_portals.take(0), md)));
    while i < doc.world_portals.len()
        invariant
            i <= doc.world_portals@.len(),
            md == doc@.metadata,
            out@ == start + joined(world_portal_texts(doc@.world_portals.take(i as int), md)),
        decreases doc.world_portals@.len() - i,
    {
        let m = object_meta_lossy(doc.metadata.as_slice(), LevelObjectKind::WorldPortal, i);
        push_world_portal_line(out, &doc.world_portals[i], m);
        proof {
            let prev = world_portal_texts(doc@.world_portals.take(i as int), md);
            let l = line_text("world_portal"@, world_portal_fields(doc.world_portals@[i as int]@, m));
            assert(world_portal_texts(doc@.world_portals.take(i + 1), md) =~= prev.push(l));
            lemma_joined_push(prev, l);
            assert(out@ =~= start + joined(world_portal_texts(doc@.world_portals.take(i + 1), md)));
        }
        i = i + 1;
    }
    assert(doc@.world_portals.take(i as int) =~= doc@.world_portals);
}

/// The text of the level file for `doc`, as the game saves it.
pub fn format_level(doc: &LevelDoc) -> (res: String)
    ensures
        res@ == spec_format_level(doc@),
{
    let mut out = String::new();
    push_header_line(&mut out);
    push_name_line(&mut out, doc);
    push_solid_lines(&mut out, doc);
    push_door_lines(&mut out, doc);
    push_hazard_lines(&mut out, doc);
    push_checkpoint_lines(&mut out, doc);
    push_enemy_lines(&mut out, doc);
    push_trigger_lines(&mut out, doc);
    push_text_lines(&mut out, doc);
    push_world_portal_lines(&mut out, doc);
    proof {
        lemma_level_texts_joined(doc@);
    }
    out
}

/// Adding a line to a list adds it and a newline to their text.
pub proof fn lemma_joined_push(ls: Seq<Seq<char>>, l: Seq<char>)
    ensures
        joined(ls.push(l)) == joined(ls) + l + seq!['\n'],
{
    lemma_joined_append(ls, seq![l]);
    lemma_joined_one(l);
    assert(ls + seq![l] =~= ls.push(l));
    assert(joined(ls) + (l + seq!['\n']) =~= joined(ls) + l + seq!['\n']);
}

#[verifier::spinoff_prover]
#[verifier::rlimit(40)]
proof fn lemma_level_texts_joined(m: LevelDocModel)
    ensures
        spec_format_level(m) == text_line("portals_level"@, header_fields()) + text_line("level"@, name_fields(m))
            + joined(solid_texts(m.solids, m.metadata)) + joined(door_texts(m.doors, m.metadata))
            + joined(hazard_texts(m.hazards, m.metadata)) + joined(checkpoint_texts(m.checkpoints, m.metadata))
            + joined(enemy_texts(m.enemies, m.metadata)) + joined(trigger_texts(m.triggers, m.metadata))
            + joined(text_texts(m.texts, m.metadata)) + joined(world_portal_texts(m.world_portals, m.metadata)),
{
    let md = m.metadata;
    let h = line_text("portals_level"@, header_fields());
    let n = line_text("level"@, name_fields(m));
    let a0 = seq![h, n];
    let a1 = a0 + solid_texts(m.solids, md);
    let a2 = a1 + door_texts(m.doors, md);
    let a3 = a2 + hazard_texts(m.hazards, md);
    let a4 = a3 + checkpoint_texts(m.checkpoints, md);
    let a5 = a4 + enemy_texts(m.enemies, md);
    let a6 = a5 + trigger_texts(m.triggers, md);
    let a7 = a6 + text_texts(m.texts, md);
    lemma_joined_push(seq![h], n);
    lemma_joined_one(h);
    assert(seq![h].push(n) =~= a0);
    lemma_joined_append(a0, solid_texts(m.solids, md));
    lemma_joined_append(a1, door_texts(m.doors, md));
    lemma_joined_append(a2, hazard_texts(m.hazards, md));
    lemma_joined_append(a3, checkpoint_texts(m.checkpoints, md));
    lemma_joined_append(a4, enemy_texts(m.enemies, md));
    lemma_joined_append(a5, trigger_texts(m.triggers, md));
    lemma_joined_append(a6, text_texts(m.texts, md));
    lemma_joined_append(a7, world_portal_texts(m.world_portals, md));
    assert(text_line("portals_level"@, header_fields()) =~= h + seq!['\n']);
    assert(text_line("level"@, name_fields(m)) =~= n + seq!['\n']);
}

/// The name of the file a level is saved to when it has none yet: its slug and `.lvl`.
pub fn level_file_name(name: &str) -> (res: String)
    ensures
        res@ == spec_slug(name@) + ".lvl"@,
{
    let mut out = slug(name);
    push_str(&mut out, ".lvl");
    out
}

// ---------------------------------------------------------------------------
// The source copy of a level kept in a package.

pub open spec fn source_meta_fields(m: ObjectMeta) -> Seq<(Seq<char>, Seq<char>, bool)> {
    seq![("group_id"@, num(m.group_id as int), false), ("editor_layer"@, num(m.editor_layer as int), false)]
}

pub open spec fn source_solid_fields(r: SolidRow<Seq<char>>, m: ObjectMeta) -> Seq<(Seq<char>, Seq<char>, bool)> {
    seq![("x"@, r.rect.x, false), ("y"@, r.rect.y, false), ("w"@, r.rect.w, false), ("h"@, r.rect.h, false), ("portalable"@, bool_text(r.portalable), false), ("surface"@, "normal"@, false), ("group_id"@, num(m.group_id as int), false), ("view_layer"@, num(1), false), ("editor_layer"@, num(m.editor_layer as int), false), ("rotation"@, opt_text(r.rotation, "0"@), false)]
}

pub open spec fn source_hazard_fields(r: HazardRow<Seq<char>>, m: ObjectMeta) -> Seq<(Seq<char>, Seq<char>, bool)> {
    seq![("x"@, r.rect.x, false), ("y"@, r.rect.y, false), ("w"@, r.rect.w, false), ("h"@, r.rect.h, false), ("group_id"@, num(m.group_id as int), false), ("editor_layer"@, num(m.editor_layer as int), false), ("rotation"@, opt_text(r.rotation, "0"@), false)]
}

pub open spec fn source_door_fields(r: DoorRow<Seq<char>>, m: ObjectMeta) -> Seq<(Seq<char>, Seq<char>, bool)> {
    seq![("x"@, r.rect.x, false), ("y"@, r.rect.y, false), ("w"@, r.rect.w, false), ("h"@, r.rect.h, false), ("radius"@, opt_text(r.radius, "112"@), false), ("speed"@, opt_text(r.speed, "3.6"@), false), ("automatic"@, bool_text(r.automatic), false), ("group_id"@, num(m.group_id as int), false), ("editor_layer"@, num(m.editor_layer as int), false), ("rotation"@, opt_text(r.rotation, "0"@), false)]
}

pub open spec fn source_checkpoint_fields(r: Rect<Seq<char>>, m: ObjectMeta) -> Seq<(Seq<char>, Seq<char>, bool)> {
    seq![("x"@, r.x, false), ("y"@, r.y, false), ("w"@, r.w, false), ("h"@, r.h, false), ("group_id"@, num(m.group_id as int), false), ("editor_layer"@, num(m.editor_layer as int), false)]
}

pub open spec fn source_enemy_fields(r: EnemyRow<Seq<char>>, m: ObjectMeta) -> Seq<(Seq<char>, Seq<char>, bool)> {
    seq![("kind"@, "filth"@, false), ("spawn_x"@, r.spawn.x, false), ("spawn_y"@, r.spawn.y, false), ("spawn_id"@, num(r.spawn_id as int), false), ("spawn_wave"@, num(r.spawn_wave as int), false), ("group_id"@, num(m.group_id as int), false), ("editor_layer"@, num(m.editor_layer as int), false)]
}

pub open spec fn source_text_fields(r: TextRow<Seq<char>>, m: ObjectMeta) -> Seq<(Seq<char>, Seq<char>, bool)> {
    seq![("x"@, r.pos.x, false), ("y"@, r.pos.y, false), ("group_id"@, num(m.group_id as int), false), ("editor_layer"@, num(m.editor_layer as int), false), ("value"@, r.value, true)]
}

pub open spec fn source_trigger_fields(r: TriggerRow<Seq<char>>, m: ObjectMeta) -> Seq<(Seq<char>, Seq<char>, bool)> {
    seq![("kind"@, trigger_word(r.kind), false)] + rect_fields(r.rect) + match r.kind {
        LevelTriggerKind::EnemySpawn { enemy_id } => seq![("enemy_id"@, num(enemy_id as int), false)],
        _ => Seq::<(Seq<char>, Seq<char>, bool)>::empty(),
    } + source_meta_fields(m)
}

pub open spec fn source_world_portal_fields(r: WorldPortalRow<Seq<char>>, m: ObjectMeta) -> Seq<(Seq<char>, Seq<char>, bool)> {
    seq![
        ("x"@, r.pos.x, false),
        ("y"@, r.pos.y, false),
        ("normal_x"@, r.normal.x, false),
        ("normal_y"@, r.normal.y, false),
        ("tangent_x"@, opt_x(r.tangent, ""@), false),
        ("tangent_y"@, opt_y(r.tangent, ""@), false),
        ("width"@, opt_text(r.width, ""@), false),
        ("portal_id"@, num(r.portal_id as int), false),
        ("receiver_id"@, num(r.receiver_id as int), false),
        ("priority"@, num(r.priority as int), false),
        ("scale"@, opt_text(r.scale, "1"@), false),
        ("scale_objects"@, bool_text(r.scale_objects), false),
        ("seamless"@, bool_text(r.seamless), false),
        ("seamless_depth"@, opt_text(r.seamless_depth, "256"@), false),
        ("seamless_angle"@, opt_text(r.seamless_angle, "180"@), false),
        ("seamless_rely_on_walls"@, bool_text(r.seamless_rely_on_walls), false),
    ] + source_meta_fields(m)
}

pub open spec fn source_solid_texts(rows: Seq<SolidRow<Seq<char>>>, md: Seq<LevelObjectMeta>) -> Seq<Seq<char>> {
    Seq::new(
        rows.len(),
        |i: int| line_text("solid"@, source_solid_fields(rows[i], spec_object_meta(md, LevelObjectKind::Solid, i as usize))),
    )
}

pub open spec fn source_hazard_texts(rows: Seq<HazardRow<Seq<char>>>, md: Seq<LevelObjectMeta>) -> Seq<Seq<char>> {
    Seq::new(
        rows.len(),
        |i: int| line_text("hazard"@, source_hazard_fields(rows[i], spec_object_meta(md, LevelObjectKind::Hazard, i as usize))),
    )
}

pub open spec fn source_door_texts(rows: Seq<DoorRow<Seq<char>>>, md: Seq<LevelObjectMeta>) -> Seq<Seq<char>> {
    Seq::new(
        rows.len(),
        |i: int| line_text("door"@, source_door_fields(rows[i], spec_object_meta(md, LevelObjectKind::Door, i as usize))),
    )
}

pub open spec fn source_checkpoint_texts(rows: Seq<Rect<Seq<char>>>, md: Seq<LevelObjectMeta>) -> Seq<Seq<char>> {
    Seq::new(
        rows.len(),
        |i: int| line_text("checkpoint"@, source_checkpoint_fields(rows[i], spec_object_meta(md, LevelObjectKind::Checkpoint, i as usize))),
    )
}

pub open spec fn source_enemy_texts(rows: Seq<EnemyRow<Seq<char>>>, md: Seq<LevelObjectMeta>) -> Seq<Seq<char>> {
    Seq::new(
        rows.len(),
        |i: int| line_text("enemy"@, source_enemy_fields(rows[i], spec_object_meta(md, LevelObjectKind::Enemy, i as usize))),
    )
}

pub open spec fn source_trigger_texts(rows: Seq<TriggerRow<Seq<char>>>, md: Seq<LevelObjectMeta>) -> Seq<Seq<char>> {
    Seq::new(
        rows.len(),
        |i: int| line_text("trigger"@, source_trigger_fields(rows[i], spec_object_meta(md, LevelObjectKind::Trigger, i as usize))),
    )
}

pub open spec fn source_text_texts(rows: Seq<TextRow<Seq<char>>>, md: Seq<LevelObjectMeta>) -> Seq<Seq<char>> {
    Seq::new(
        rows.len(),
        |i: int| line_text("text"@, source_text_fields(rows[i], spec_object_meta(md, LevelObjectKind::Text, i as usize))),
    )
}

pub open spec fn source_world_portal_texts(rows: Seq<WorldPortalRow<Seq<char>>>, md: Seq<LevelObjectMeta>) -> Seq<Seq<char>> {
    Seq::new(
        rows.len(),
        |i: int| line_text("world_portal"@, source_world_portal_fields(rows[i], spec_object_meta(md, LevelObjectKind::WorldPortal, i as usize))),
    )
}

/// The lines of a package's source copy of a level: the header, the `level` row, then solids,
/// hazards, doors, checkpoints, enemies, triggers, texts and world portals.
pub open spec fn source_texts(m: LevelDocModel) -> Seq<Seq<char>> {
    seq![line_text("portals_world"@, seq![("version"@, num(4), false)]), line_text("level"@, name_fields(m))]
        + source_solid_texts(m.solids, m.metadata) + source_hazard_texts(m.hazards, m.metadata)
        + source_door_texts(m.doors, m.metadata) + source_checkpoint_texts(m.checkpoints, m.metadata)
        + source_enemy_texts(m.enemies, m.metadata) + source_trigger_texts(m.triggers, m.metadata)
        + source_text_texts(m.texts, m.metadata) + source_world_portal_texts(m.world_portals, m.metadata)
}

pub open spec fn spec_format_source_level(m: LevelDocModel) -> Seq<char> {
    joined(source_texts(m))
}

pub open spec fn debug_banner() -> Seq<char> {
    "# generated debug dump; gameplay uses world.index and .wchunk files\n"@
}


fn push_source_header(out: &mut String, )
    ensures
        final(out)@ == old(out)@ + text_line("portals_world"@, seq![("version"@, num(4), false)]),
{
    let ghost start = out@;
    push_str(out, "portals_world");
    push_char(out, ' ');
    let ghost head = out@;
    let ghost mut fs: Seq<(Seq<char>, Seq<char>, bool)> = Seq::empty();
    assert(out@ =~= head + keyed_line(fs));
    let v0 = format_u64(4);
    add_field(out, true, "version", v0.as_str(), false, Ghost(head), Ghost(fs));
    proof { fs = fs.push(("version"@, v0@, false)); }
    push_char(out, '\n');
    assert(fs =~= seq![("version"@, num(4), false)]);
    assert(out@ =~= start + text_line("portals_world"@, seq![("version"@, num(4), false)]));
}

fn push_source_solid(out: &mut String, r: &SolidRow<String>, m: ObjectMeta)
    ensures
        final(out)@ == old(out)@ + text_line("solid"@, source_solid_fields(r@, m)),
{
    let ghost start = out@;
    push_str(out, "solid");
    push_char(out, ' ');
    let ghost head = out@;
    let ghost mut fs: Seq<(Seq<char>, Seq<char>, bool)> = Seq::empty();
    assert(out@ =~= head + keyed_line(fs));
    let v0 = r.rect.x.clone();
    add_field(out, true, "x", v0.as_str(), false, Ghost(head), Ghost(fs));
    proof { fs = fs.push(("x"@, v0@, false)); }
    let v1 = r.rect.y.clone();
    add_field(out, false, "y", v1.as_str(), false, Ghost(head), Ghost(fs));
    proof { fs = fs.push(("y"@, v1@, false)); }
    let v2 = r.rect.w.clone();
    add_field(out, false, "w", v2.as_str(), false, Ghost(head), Ghost(fs));
    proof { fs = fs.push(("w"@, v2@, false)); }
    let v3 = r.rect.h.clone();
    add_field(out, false, "h", v3.as_str(), false, Ghost(head), Ghost(fs));
    proof { fs = fs.push(("h"@, v3@, false)); }
    let v4 = bool_word(r.portalable).to_string();
    add_field(out, false, "portalable", v4.as_str(), false, Ghost(head), Ghost(fs));
    proof { fs = fs.push(("portalable"@, v4@, false)); }
    let v5 = "normal".to_string();
    add_field(out, false, "surface", v5.as_str(), false, Ghost(head), Ghost(fs));
    proof { fs = fs.push(("surface"@, v5@, false)); }
    let v6 = format_u64(m.group_id as u64);
    add_field(out, false, "group_id", v6.as_str(), false, Ghost(head), Ghost(fs));
    proof { fs = fs.push(("group_id"@, v6@, false)); }
    let v7 = format_u64(1);
    add_field(out, false, "view_layer", v7.as_str(), false, Ghost(head), Ghost(fs));
    proof { fs = fs.push(("view_layer"@, v7@, false)); }
    let v8 = format_i64(m.editor_layer as i64);
    add_field(out, false, "editor_layer", v8.as_str(), false, Ghost(head), Ghost(fs));
    proof { fs = fs.push(("editor_layer"@, v8@, false)); }
    let v9 = opt_string(&r.rotation, "0");
    add_field(out, false, "rotation", v9.as_str(), false, Ghost(head), Ghost(fs));
    proof { fs = fs.push(("rotation"@, v9@, false)); }
    push_char(out, '\n');
    assert(fs =~= source_solid_fields(r@, m));
    assert(out@ =~= start + text_line("solid"@, source_solid_fields(r@, m)));
}

fn push_source_hazard(out: &mut String, r: &HazardRow<String>, m: ObjectMeta)
    ensures
        final(out)@ == old(out)@ + text_line("hazard"@, source_hazard_fields(r@, m)),
{
    let ghost start = out@;
    push_str(out, "hazard");
    push_char(out, ' ');
    let ghost head = out@;
    let ghost mut fs: Seq<(Seq<char>, Seq<char>, bool)> = Seq::empty();
    assert(out@ =~= head + keyed_line(fs));
    let v0 = r.rect.x.clone();
    add_field(out, true, "x", v0.as_str(), false, Ghost(head), Ghost(fs));
    proof { fs = fs.push(("x"@, v0@, false)); }
    let v1 = r.rect.y.clone();
    add_field(out, false, "y", v1.as_str(), false, Ghost(head), Ghost(fs));
    proof { fs = fs.push(("y"@, v1@, false)); }
    let v2 = r.rect.w.clone();
    add_field(out, false, "w", v2.as_str(), false, Ghost(head), Ghost(fs));
    proof { fs = fs.push(("w"@, v2@, false)); }
    let v3 = r.rect.h.clone();
    add_field(out, false, "h", v3.as_str(), false, Ghost(head), Ghost(fs));
    proof { fs = fs.push(("h"@, v3@, false)); }
    let v4 = format_u64(m.group_id as u64);
    add_field(out, false, "group_id", v4.as_str(), false, Ghost(head), Ghost(fs));
    proof { fs = fs.push(("group_id"@, v4@, false)); }
    let v5 = format_i64(m.editor_layer as i64);
    add_field(out, false, "editor_layer", v5.as_str(), false, Ghost(head), Ghost(fs));
    proof { fs = fs.push(("editor_layer"@, v5@, false)); }
    let v6 = opt_string(&r.rotation, "0");
    add_field(out, false, "rotation", v6.as_str(), false, Ghost(head), Ghost(fs));
    proof { fs = fs.push(("rotation"@, v6@, false)); }
    push_char(out, '\n');
    assert(fs =~= source_hazard_fields(r@, m));
    assert(out@ =~= start + text_line("hazard"@, source_hazard_fields(r@, m)));
}

fn push_source_door(out: &mut String, r: &DoorRow<String>, m: ObjectMeta)
    ensures
        final(out)@ == old(out)@ + text_line("door"@, source_door_fields(r@, m)),
{
    let ghost start = out@;
    push_str(out, "door");
    push_char(out, ' ');
    let ghost head = out@;
    let ghost mut fs: Seq<(Seq<char>, Seq<char>, bool)> = Seq::empty();
    assert(out@ =~= head + keyed_line(fs));
    let v0 = r.rect.x.clone();
    add_field(out, true, "x", v0.as_str(), false, Ghost(head), Ghost(fs));
    proof { fs = fs.push(("x"@, v0@, false)); }
    let v1 = r.rect.y.clone();
    add_field(out, false, "y", v1.as_str(), false, Ghost(head), Ghost(fs));
    proof { fs = fs.push(("y"@, v1@, false)); }
    let v2 = r.rect.w.clone();
    add_field(out, false, "w", v2.as_str(), false, Ghost(head), Ghost(fs));
    proof { fs = fs.push(("w"@, v2@, false)); }
    let v3 = r.rect.h.clone();
    add_field(out, false, "h", v3.as_str(), false, Ghost(head), Ghost(fs));
    proof { fs = fs.push(("h"@, v3@, false)); }
    let v4 = opt_string(&r.radius, "112");
    add_field(out, false, "radius", v4.as_str(), false, Ghost(head), Ghost(fs));
    proof { fs = fs.push(("radius"@, v4@, false)); }
    let v5 = opt_string(&r.speed, "3.6");
    add_field(out, false, "speed", v5.as_str(), false, Ghost(head), Ghost(fs));
    proof { fs = fs.push(("speed"@, v5@, false)); }
    let v6 = bool_word(r.automatic).to_string();
    add_field(out, false, "automatic", v6.as_str(), false, Ghost(head), Ghost(fs));
    proof { fs = fs.push(("automatic"@, v6@, false)); }
    let v7 = format_u64(m.group_id as u64);
    add_field(out, false, "group_id", v7.as_str(), false, Ghost(head), Ghost(fs));
    proof { fs = fs.push(("group_id"@, v7@, false)); }
    let v8 = format_i64(m.editor_layer as i64);
    add_field(out, false, "editor_layer", v8.as_str(), false, Ghost(head), Ghost(fs));
    proof { fs = fs.push(("editor_layer"@, v8@, false)); }
    let v9 = opt_string(&r.rotation, "0");
    add_field(out, false, "rotation", v9.as_str(), false, Ghost(head), Ghost(fs));
    proof { fs = fs.push(("rotation"@, v9@, false)); }
    push_char(out, '\n');
    assert(fs =~= source_door_fields(r@, m));
    assert(out@ =~= start + text_line("door"@, source_door_fields(r@, m)));
}

fn push_source_checkpoint(out: &mut String, r: &Rect<String>, m: ObjectMeta)
    ensures
        final(out)@ == old(out)@ + text_line("checkpoint"@, source_checkpoint_fields(r@, m)),
{
    let ghost start = out@;
    push_str(out, "checkpoint");
    push_char(out, ' ');
    let ghost head = out@;
    let ghost mut fs: Seq<(Seq<char>, Seq<char>, bool)> = Seq::empty();
    assert(out@ =~= head + keyed_line(fs));
    let v0 = r.x.clone();
    add_field(out, true, "x", v0.as_str(), false, Ghost(head), Ghost(fs));
    proof { fs = fs.push(("x"@, v0@, false)); }
    let v1 = r.y.clone();
    add_field(out, false, "y", v1.as_str(), false, Ghost(head), Ghost(fs));
    proof { fs = fs.push(("y"@, v1@, false)); }
    let v2 = r.w.clone();
    add_field(out, false, "w", v2.as_str(), false, Ghost(head), Ghost(fs));
    proof { fs = fs.push(("w"@, v2@, false)); }
    let v3 = r.h.clone();
    add_field(out, false, "h", v3.as_str(), false, Ghost(head), Ghost(fs));
    proof { fs = fs.push(("h"@, v3@, false)); }
    let v4 = format_u64(m.group_id as u64);
    add_field(out, false, "group_id", v4.as_str(), false, Ghost(head), Ghost(fs));
    proof { fs = fs.push(("group_id"@, v4@, false)); }
    let v5 = format_i64(m.editor_layer as i64);
    add_field(out, false, "editor_layer", v5.as_str(), false, Ghost(head), Ghost(fs));
    proof { fs = fs.push(("editor_layer"@, v5@, false)); }
    push_char(out, '\n');
    assert(fs =~= source_checkpoint_fields(r@, m));
    assert(out@ =~= start + text_line("checkpoint"@, source_checkpoint_fields(r@, m)));
}

fn push_source_enemy(out: &mut String, r: &EnemyRow<String>, m: ObjectMeta)
    ensures
        final(out)@ == old(out)@ + text_line("enemy"@, source_enemy_fields(r@, m)),
{
    let ghost start = out@;
    push_str(out, "enemy");
    push_char(out, ' ');
    let ghost head = out@;
    let ghost mut fs: Seq<(Seq<char>, Seq<char>, bool)> = Seq::empty();
    assert(out@ =~= head + keyed_line(fs));
    let v0 = "filth".to_string();
    add_field(out, true, "kind", v0.as_str(), false, Ghost(head), Ghost(fs));
    proof { fs = fs.push(("kind"@, v0@, false)); }
    let v1 = r.spawn.x.clone();
    add_field(out, false, "spawn_x", v1.as_str(), false, Ghost(head), Ghost(fs));
    proof { fs = fs.push(("spawn_x"@, v1@, false)); }
    let v2 = r.spawn.y.clone();
    add_field(out, false, "spawn_y", v2.as_str(), false, Ghost(head), Ghost(fs));
    proof { fs = fs.push(("spawn_y"@, v2@, false)); }
    let v3 = format_u64(r.spawn_id as u64);
    add_field(out, false, "spawn_id", v3.as_str(), false, Ghost(head), Ghost(fs));
    proof { fs = fs.push(("spawn_id"@, v3@, false)); }
    let v4 = format_u64(r.spawn_wave as u64);
    add_field(out, false, "spawn_wave", v4.as_str(), false, Ghost(head), Ghost(fs));
    proof { fs = fs.push(("spawn_wave"@, v4@, false)); }
    let v5 = format_u64(m.group_id as u64);
    add_field(out, false, "group_id", v5.as_str(), false, Ghost(head), Ghost(fs));
    proof { fs = fs.push(("group_id"@, v5@, false)); }
    let v6 = format_i64(m.editor_layer as i64);
    add_field(out, false, "editor_layer", v6.as_str(), false, Ghost(head), Ghost(fs));
    proof { fs = fs.push(("editor_layer"@, v6@, false)); }
    push_char(out, '\n');
    assert(fs =~= source_enemy_fields(r@, m));
    assert(out@ =~= start + text_line("enemy"@, source_enemy_fields(r@, m)));
}

fn push_source_text(out: &mut String, r: &TextRow<String>, m: ObjectMeta)
    ensures
        final(out)@ == old(out)@ + text_line("text"@, source_text_fields(r@, m)),
{
    let ghost start = out@;
    push_str(out, "text");
    push_char(out, ' ');
    let ghost head = out@;
    let ghost mut fs: Seq<(Seq<char>, Seq<char>, bool)> = Seq::empty();
    assert(out@ =~= head + keyed_line(fs));
    let v0 = r.pos.x.clone();
    add_field(out, true, "x", v0.as_str(), false, Ghost(head), Ghost(fs));
    proof { fs = fs.push(("x"@, v0@, false)); }
    let v1 = r.pos.y.clone();
    add_field(out, false, "y", v1.as_str(), false, Ghost(head), Ghost(fs));
    proof { fs = fs.push(("y"@, v1@, false)); }
    let v2 = format_u64(m.group_id as u64);
    add_field(out, false, "group_id", v2.as_str(), false, Ghost(head), Ghost(fs));
    proof { fs = fs.push(("group_id"@, v2@, false)); }
    let v3 = format_i64(m.editor_layer as i64);
    add_field(out, false, "editor_layer", v3.as_str(), false, Ghost(head), Ghost(fs));
    proof { fs = fs.push(("editor_layer"@, v3@, false)); }
    let v4 = r.value.clone();
    add_field(out, false, "value", v4.as_str(), true, Ghost(head), Ghost(fs));
    proof { fs = fs.push(("value"@, v4@, true)); }
    push_char(out, '\n');
    assert(fs =~= source_text_fields(r@, m));
    assert(out@ =~= start + text_line("text"@, source_text_fields(r@, m)));
}

fn push_source_world_portal(out: &mut String, r: &WorldPortalRow<String>, m: ObjectMeta)
    ensures
        final(out)@ == old(out)@ + text_line("world_portal"@, source_world_portal_fields(r@, m)),
{
    let ghost start = out@;
    push_str(out, "world_portal");
    push_char(out, ' ');
    let ghost head = out@;
    let ghost mut fs: Seq<(Seq<char>, Seq<char>, bool)> = Seq::empty();
    assert(out@ =~= head + keyed_line(fs));
    let v0 = r.pos.x.clone();
    add_field(out, true, "x", v0.as_str(), false, Ghost(head), Ghost(fs));
    proof { fs = fs.push(("x"@, v0@, false)); }
    let v1 = r.pos.y.clone();
    add_field(out, false, "y", v1.as_str(), false, Ghost(head), Ghost(fs));
    proof { fs = fs.push(("y"@, v1@, false)); }
    let v2 = r.normal.x.clone();
    add_field(out, false, "normal_x", v2.as_str(), false, Ghost(head), Ghost(fs));
    proof { fs = fs.push(("normal_x"@, v2@, false)); }
    let v3 = r.normal.y.clone();
    add_field(out, false, "normal_y", v3.as_str(), false, Ghost(head), Ghost(fs));
    proof { fs = fs.push(("normal_y"@, v3@, false)); }
    let v4 = opt_x_string(&r.tangent, "");
    add_field(out, false, "tangent_x", v4.as_str(), false, Ghost(head), Ghost(fs));
    proof { fs = fs.push(("tangent_x"@, v4@, false)); }
    let v5 = opt_y_string(&r.tangent, "");
    add_field(out, false, "tangent_y", v5.as_str(), false, Ghost(head), Ghost(fs));
    proof { fs = fs.push(("tangent_y"@, v5@, false)); }
    let v6 = opt_string(&r.width, "");
    add_field(out, false, "width", v6.as_str(), false, Ghost(head), Ghost(fs));
    proof { fs = fs.push(("width"@, v6@, false)); }
    let v7 = format_u64(r.portal_id as u64);
    add_field(out, false, "portal_id", v7.as_str(), false, Ghost(head), Ghost(fs));
    proof { fs = fs.push(("portal_id"@, v7@, false)); }
    let v8 = format_u64(r.receiver_id as u64);
    add_field(out, false, "receiver_id", v8.as_str(), false, Ghost(head), Ghost(fs));
    proof { fs = fs.push(("receiver_id"@, v8@, false)); }
    let v9 = format_i64(r.priority as i64);
    add_field(out, false, "priority", v9.as_str(), false, Ghost(head), Ghost(fs));
    proof { fs = fs.push(("priority"@, v9@, false)); }
    let v10 = opt_string(&r.scale, "1");
    add_field(out, false, "scale", v10.as_str(), false, Ghost(head), Ghost(fs));
    proof { fs = fs.push(("scale"@, v10@, false)); }
    let v11 = bool_word(r.scale_objects).to_string();
    add_field(out, false, "scale_objects", v11.as_str(), false, Ghost(head), Ghost(fs));
    proof { fs = fs.push(("scale_objects"@, v11@, false)); }
    let v12 = bool_word(r.seamless).to_string();
    add_field(out, false, "seamless", v12.as_str(), false, Ghost(head), Ghost(fs));
    proof { fs = fs.push(("seamless"@, v12@, false)); }
    let v13 = opt_string(&r.seamless_depth, "256");
    add_field(out, false, "seamless_depth", v13.as_str(), false, Ghost(head), Ghost(fs));
    proof { fs = fs.push(("seamless_depth"@, v13@, false)); }
    let v14 = opt_string(&r.seamless_angle, "180");
    add_field(out, false, "seamless_angle", v14.as_str(), false, Ghost(head), Ghost(fs));
    proof { fs = fs.push(("seamless_angle"@, v14@, false)); }
    let v15 = bool_word(r.seamless_rely_on_walls).to_string();
    add_field(out, false, "seamless_rely_on_walls", v15.as_str(), false, Ghost(head), Ghost(fs));
    proof { fs = fs.push(("seamless_rely_on_walls"@, v15@, false)); }
    let v16 = format_u64(m.group_id as u64);
    add_field(out, false, "group_id", v16.as_str(), false, Ghost(head), Ghost(fs));
    proof { fs = fs.push(("group_id"@, v16@, false)); }
    let v17 = format_i64(m.editor_layer as i64);
    add_field(out, false, "editor_layer", v17.as_str(), false, Ghost(head), Ghost(fs));
    proof { fs = fs.push(("editor_layer"@, v17@, false)); }
    push_char(out, '\n');
    assert(fs =~= source_world_portal_fields(r@, m));
    assert(out@ =~= start + text_line("world_portal"@, source_world_portal_fields(r@, m)));
}

fn push_source_trigger(out: &mut String, r: &TriggerRow<String>, m: ObjectMeta)
    ensures
        final(out)@ == old(out)@ + text_line("trigger"@, source_trigger_fields(r@, m)),
{
    let ghost start = out@;
    push_str(out, "trigger");
    push_char(out, ' ');
    let ghost head = out@;
    let ghost mut fs: Seq<(Seq<char>, Seq<char>, bool)> = Seq::empty();
    assert(out@ =~= head + keyed_line(fs));
    let v0 = trigger_word_str(r.kind).to_string();
    add_field(out, true, "kind", v0.as_str(), false, Ghost(head), Ghost(fs));
    proof { fs = fs.push(("kind"@, v0@, false)); }
    let v1 = r.rect.x.clone();
    add_field(out, false, "x", v1.as_str(), false, Ghost(head), Ghost(fs));
    proof { fs = fs.push(("x"@, v1@, false)); }
    let v2 = r.rect.y.clone();
    add_field(out, false, "y", v2.as_str(), false, Ghost(head), Ghost(fs));
    proof { fs = fs.push(("y"@, v2@, false)); }
    let v3 = r.rect.w.clone();
    add_field(out, false, "w", v3.as_str(), false, Ghost(head), Ghost(fs));
    proof { fs = fs.push(("w"@, v3@, false)); }
    let v4 = r.rect.h.clone();
    add_field(out, false, "h", v4.as_str(), false, Ghost(head), Ghost(fs));
    proof { fs = fs.push(("h"@, v4@, false)); }
    match r.kind {
        LevelTriggerKind::EnemySpawn { enemy_id } => {
            let v5 = format_u64(enemy_id as u64);
            add_field(out, false, "enemy_id", v5.as_str(), false, Ghost(head), Ghost(fs));
            proof { fs = fs.push(("enemy_id"@, v5@, false)); }
        },
        _ => {},
    }
    let v6 = format_u64(m.group_id as u64);
    add_field(out, false, "group_id", v6.as_str(), false, Ghost(head), Ghost(fs));
    proof { fs = fs.push(("group_id"@, v6@, false)); }
    let v7 = format_i64(m.editor_layer as i64);
    add_field(out, false, "editor_layer", v7.as_str(), false, Ghost(head), Ghost(fs));
    proof { fs = fs.push(("editor_layer"@, v7@, false)); }
    push_char(out, '\n');
    assert(fs =~= source_trigger_fields(r@, m));
    assert(out@ =~= start + text_line("trigger"@, source_trigger_fields(r@, m)));
}

fn push_source_solid_lines(out: &mut String, doc: &LevelDoc)
    ensures
        final(out)@ == old(out)@ + joined(source_solid_texts(doc@.solids, doc@.metadata)),
{
    let ghost start = out@;
    let ghost md = doc@.metadata;
    let mut i: usize = 0;
    assert(source_solid_texts(doc@.solids.take(0), md) =~= Seq::<Seq<char>>::empty());
    assert(out@ =~= start + joined(source_solid_texts(doc@.solids.take(0), md)));
    while i < doc.solids.len()
        invariant
            i <= doc.solids@.len(),
            md == doc@.metadata,
            out@ == start + joined(source_solid_texts(doc@.solids.take(i as int), md)),
        decreases doc.solids@.len() - i,
    {
        let m = object_meta_lossy(doc.metadata.as_slice(), LevelObjectKind::Solid, i);
        push_source_solid(out, &doc.solids[i], m);
        proof {
            let prev = source_solid_texts(doc@.solids.take(i as int), md);
            let l = line_text("solid"@, source_solid_fields(doc.solids@[i as int]@, m));
            assert(source_solid_texts(doc@.solids.take(i + 1), md) =~= prev.push(l));
            lemma_joined_push(prev, l);
            assert(out@ =~= start + joined(source_solid_texts(doc@.solids.take(i + 1), md)));
        }
        i = i + 1;
    }
    assert(doc@.solids.take(i as int) =~= doc@.solids);
}

fn push_source_hazard_lines(out: &mut String, doc: &LevelDoc)
    ensures
        final(out)@ == old(out)@ + joined(source_hazard_texts(doc@.hazards, doc@.metadata)),
{
    let ghost start = out@;
    let ghost md = doc@.metadata;
    let mut i: usize = 0;
    assert(source_hazard_texts(doc@.hazards.take(0), md) =~= Seq::<Seq<char>>::empty());
    assert(out@ =~= start + joined(source_hazard_texts(doc@.hazards.take(0), md)));
    while i < doc.hazards.len()
        invariant
            i <= doc.hazards@.len(),
            md == doc@.metadata,
            out@ == start + joined(source_hazard_texts(doc@.hazards.take(i as int), md)),
        decreases doc.hazards@.len() - i,
    {
        let m = object_meta_lossy(doc.metadata.as_slice(), LevelObjectKind::Hazard, i);
        push_source_hazard(out, &doc.hazards[i], m);
        proof {
            let prev = source_hazard_texts(doc@.hazards.take(i as int), md);
            let l = line_text("hazard"@, source_hazard_fields(doc.hazards@[i as int]@, m));
            assert(source_hazard_texts(doc@.hazards.take(i + 1), md) =~= prev.push(l));
            lemma_joined_push(prev, l);
            assert(out@ =~= start + joined(source_hazard_texts(doc@.hazards.take(i + 1), md)));
        }
        i = i + 1;
    }
    assert(doc@.hazards.take(i as int) =~= doc@.hazards);
}

fn push_source_door_lines(out: &mut String, doc: &LevelDoc)
    ensures
        final(out)@ == old(out)@ + joined(source_door_texts(doc@.doors, doc@.metadata)),
{
    let ghost start = out@;
    let ghost md = doc@.metadata;
    let mut i: usize = 0;
    assert(source_door_texts(doc@.doors.take(0), md) =~= Seq::<Seq<char>>::empty());
    assert(out@ =~= start + joined(source_door_texts(doc@.doors.take(0), md)));
    while i < doc.doors.len()
        invariant
            i <= doc.doors@.len(),
            md == doc@.metadata,
            out@ == start + joined(source_door_texts(doc@.doors.take(i as int), md)),
        decreases doc.doors@.len() - i,
    {
        let m = object_meta_lossy(doc.metadata.as_slice(), LevelObjectKind::Door, i);
        push_source_door(out, &doc.doors[i], m);
        proof {
            let prev = source_door_texts(doc@.doors.take(i as int), md);
            let l = line_text("door"@, source_door_fields(doc.doors@[i as int]@, m));
            assert(source_door_texts(doc@.doors.take(i + 1), md) =~= prev.push(l));
            lemma_joined_push(prev, l);
            assert(out@ =~= start + joined(source_door_texts(doc@.doors.take(i + 1), md)));
        }
        i = i + 1;
    }
    assert(doc@.doors.take(i as int) =~= doc@.doors);
}

fn push_source_checkpoint_lines(out: &mut String, doc: &LevelDoc)
    ensures
        final(out)@ == old(out)@ + joined(source_checkpoint_texts(doc@.checkpoints, doc@.metadata)),
{
    let ghost start = out@;
    let ghost md = doc@.metadata;
    let mut i: usize = 0;
    assert(source_checkpoint_texts(doc@.checkpoints.take(0), md) =~= Seq::<Seq<char>>::empty());
    assert(out@ =~= start + joined(source_checkpoint_texts(doc@.checkpoints.take(0), md)));
    while i < doc.checkpoints.len()
        invariant
            i <= doc.checkpoints@.len(),
            md == doc@.metadata,
            out@ == start + joined(source_checkpoint_texts(doc@.checkpoints.take(i as int), md)),
        decreases doc.checkpoints@.len() - i,
    {
        let m = object_meta_lossy(doc.metadata.as_slice(), LevelObjectKind::Checkpoint, i);
        push_source_checkpoint(out, &doc.checkpoints[i], m);
        proof {
            let prev = source_checkpoint_texts(doc@.checkpoints.take(i as int), md);
            let l = line_text("checkpoint"@, source_checkpoint_fields(doc.checkpoints@[i as int]@, m));
            assert(source_checkpoint_texts(doc@.checkpoints.take(i + 1), md) =~= prev.push(l));
            lemma_joined_push(prev, l);
            assert(out@ =~= start + joined(source_checkpoint_texts(doc@.checkpoints.take(i + 1), md)));
        }
        i = i + 1;
    }
    assert(doc@.checkpoints.take(i as int) =~= doc@.checkpoints);
}

fn push_source_enemy_lines(out: &mut String, doc: &LevelDoc)
    ensures
        final(out)@ == old(out)@ + joined(source_enemy_texts(doc@.enemies, doc@.metadata)),
{
    let ghost start = out@;
    let ghost md = doc@.metadata;
    let mut i: usize = 0;
    assert(source_enemy_texts(doc@.enemies.take(0), md) =~= Seq::<Seq<char>>::empty());
    assert(out@ =~= start + joined(source_enemy_texts(doc@.enemies.take(0), md)));
    while i < doc.enemies.len()
        invariant
            i <= doc.enemies@.len(),
            md == doc@.metadata,
            out@ == start + joined(source_enemy_texts(doc@.enemies.take(i as int), md)),
        decreases doc.enemies@.len() - i,
    {
        let m = object_meta_lossy(doc.metadata.as_slice(), LevelObjectKind::Enemy, i);
        push_source_enemy(out, &doc.enemies[i], m);
        proof {
            let prev = source_enemy_texts(doc@.enemies.take(i as int), md);
            let l = line_text("enemy"@, source_enemy_fields(doc.enemies@[i as int]@, m));
            assert(source_enemy_texts(doc@.enemies.take(i + 1), md) =~= prev.push(l));
            lemma_joined_push(prev, l);
            assert(out@ =~= start + joined(source_enemy_texts(doc@.enemies.take(i + 1), md)));
        }
        i = i + 1;
    }
    assert(doc@.enemies.take(i as int) =~= doc@.enemies);
}

fn push_source_trigger_lines(out: &mut String, doc: &LevelDoc)
    ensures
        final(out)@ == old(out)@ + joined(source_trigger_texts(doc@.triggers, doc@.metadata)),
{
    let ghost start = out@;
    let ghost md = doc@.metadata;
    let mut i: usize = 0;
    assert(source_trigger_texts(doc@.triggers.take(0), md) =~= Seq::<Seq<char>>::empty());
    assert(out@ =~= start + joined(source_trigger_texts(doc@.triggers.take(0), md)));
    while i < doc.triggers.len()
        invariant
            i <= doc.triggers@.len(),
            md == doc@.metadata,
            out@ == start + joined(source_trigger_texts(doc@.triggers.take(i as int), md)),
        decreases doc.triggers@.len() - i,
    {
        let m = object_meta_lossy(doc.metadata.as_slice(), LevelObjectKind::Trigger, i);
        push_source_trigger(out, &doc.triggers[i], m);
        proof {
            let prev = source_trigger_texts(doc@.triggers.take(i as int), md);
            let l = line_text("trigger"@, source_trigger_fields(doc.triggers@[i as int]@, m));
            assert(source_trigger_texts(doc@.triggers.take(i + 1), md) =~= prev.push(l));
            lemma_joined_push(prev, l);
            assert(out@ =~= start + joined(source_trigger_texts(doc@.triggers.take(i + 1), md)));
        }
        i = i + 1;
    }
    assert(doc@.triggers.take(i as int) =~= doc@.triggers);
}

fn push_source_text_lines(out: &mut String, doc: &LevelDoc)
    ensures
        final(out)@ == old(out)@ + joined(source_text_texts(doc@.texts, doc@.metadata)),
{
    let ghost start = out@;
    let ghost md = doc@.metadata;
    let mut i: usize = 0;
    assert(source_text_texts(doc@.texts.take(0), md) =~= Seq::<Seq<char>>::empty());
    assert(out@ =~= start + joined(source_text_texts(doc@.texts.take(0), md)));
    while i < doc.texts.len()
        invariant
            i <= doc.texts@.len(),
            md == doc@.metadata,
            out@ == start + joined(source_text_texts(doc@.texts.take(i as int), md)),
        decreases doc.texts@.len() - i,
    {
        let m = object_meta_lossy(doc.metadata.as_slice(), LevelObjectKind::Text, i);
        push_source_text(out, &doc.texts[i], m);
        proof {
            let prev = source_text_texts(doc@.texts.take(i as int), md);
            let l = line_text("text"@, source_text_fields(doc.texts@[i as int]@, m));
            assert(source_text_texts(doc@.texts.take(i + 1), md) =~= prev.push(l));
            lemma_joined_push(prev, l);
            assert(out@ =~= start + joined(source_text_texts(doc@.texts.take(i + 1), md)));
        }
        i = i + 1;
    }
    assert(doc@.texts.take(i as int) =~= doc@.texts);
}

fn push_source_world_portal_lines(out: &mut String, doc: &LevelDoc)
    ensures
        final(out)@ == old(out)@ + joined(source_world_portal_texts(doc@.world_portals, doc@.metadata)),
{
    let ghost start = out@;
    let ghost md = doc@.metadata;
    let mut i: usize = 0;
    assert(source_world_portal_texts(doc@.world_portals.take(0), md) =~= Seq::<Seq<char>>::empty());
    assert(out@ =~= start + joined(source_world_portal_texts(doc@.world_portals.take(0), md)));
    while i < doc.world_portals.len()
        invariant
            i <= doc.world_portals@.len(),
            md == doc@.metadata,
            out@ == start + joined(source_world_portal_texts(doc@.world_portals.take(i as int), md)),
        decreases doc.world_portals@.len() - i,
    {
        let m = object_meta_lossy(doc.metadata.as_slice(), LevelObjectKind::WorldPortal, i);
        push_source_world_portal(out, &doc.world_portals[i], m);
        proof {
            let prev = source_world_portal_texts(doc@.world_portals.take(i as int), md);
            let l = line_text("world_portal"@, source_world_portal_fields(doc.world_portals@[i as int]@, m));
            assert(source_world_portal_texts(doc@.world_portals.take(i + 1), md) =~= prev.push(l));
            lemma_joined_push(prev, l);
            assert(out@ =~= start + joined(source_world_portal_texts(doc@.world_portals.take(i + 1), md)));
        }
        i = i + 1;
    }
    assert(doc@.world_portals.take(i as int) =~= doc@.world_portals);
}

#[verifier::spinoff_prover]
#[verifier::rlimit(40)]
proof fn lemma_source_texts_joined(m: LevelDocModel)
    ensures
        spec_format_source_level(m) == text_line("portals_world"@, seq![("version"@, num(4), false)]) + text_line("level"@, name_fields(m))
            + joined(source_solid_texts(m.solids, m.metadata)) + joined(source_hazard_texts(m.hazards, m.metadata))
            + joined(source_door_texts(m.doors, m.metadata)) + joined(source_checkpoint_texts(m.checkpoints, m.metadata))
            + joined(source_enemy_texts(m.enemies, m.metadata)) + joined(source_trigger_texts(m.triggers, m.metadata))
            + joined(source_text_texts(m.texts, m.metadata)) + joined(source_world_portal_texts(m.world_portals, m.metadata)),
{
    let md = m.metadata;
    let h = line_text("portals_world"@, seq![("version"@, num(4), false)]);
    let n = line_text("level"@, name_fields(m));
    let a0 = seq![h, n];
    let a1 = a0 + source_solid_texts(m.solids, md);
    let a2 = a1 + source_hazard_texts(m.hazards, md);
    let a3 = a2 + source_door_texts(m.doors, md);
    let a4 = a3 + source_checkpoint_texts(m.checkpoints, md);
    let a5 = a4 + source_enemy_texts(m.enemies, md);
    let a6 = a5 + source_trigger_texts(m.triggers, md);
    let a7 = a6 + source_text_texts(m.texts, md);
    lemma_joined_push(seq![h], n);
    lemma_joined_one(h);
    assert(seq![h].push(n) =~= a0);
    lemma_joined_append(a0, source_solid_texts(m.solids, md));
    lemma_joined_append(a1, source_hazard_texts(m.hazards, md));
    lemma_joined_append(a2, source_door_texts(m.doors, md));
    lemma_joined_append(a3, source_checkpoint_texts(m.checkpoints, md));
    lemma_joined_append(a4, source_enemy_texts(m.enemies, md));
    lemma_joined_append(a5, source_trigger_texts(m.triggers, md));
    lemma_joined_append(a6, source_text_texts(m.texts, md));
    lemma_joined_append(a7, source_world_portal_texts(m.world_portals, md));
    assert(text_line("portals_world"@, seq![("version"@, num(4), false)]) =~= h + seq!['\n']);
    assert(text_line("level"@, name_fields(m)) =~= n + seq!['\n']);
}

/// The source copy of a level that a package keeps beside its chunks (`portals_world
/// version=4`): one row per object, its group and editor layer inline.
pub fn format_source_level(doc: &LevelDoc) -> (res: String)
    ensures
        res@ == spec_format_source_level(doc@),
{
    let mut out = String::new();
    push_source_header(&mut out);
    push_name_line(&mut out, doc);
    push_source_solid_lines(&mut out, doc);
    push_source_hazard_lines(&mut out, doc);
    push_source_door_lines(&mut out, doc);
    push_source_checkpoint_lines(&mut out, doc);
    push_source_enemy_lines(&mut out, doc);
    push_source_trigger_lines(&mut out, doc);
    push_source_text_lines(&mut out, doc);
    push_source_world_portal_lines(&mut out, doc);
    proof {
        lemma_source_texts_joined(doc@);
    }
    out
}

/// The debug copy of a level: a comment saying what the game reads instead, then the source
/// copy.
pub fn format_debug_level(doc: &LevelDoc) -> (res: String)
    ensures
        res@ == debug_banner() + spec_format_source_level(doc@),
{
    let mut out = "# generated debug dump; gameplay uses world.index and .wchunk files\n".to_string();
    let body = format_source_level(doc);
    push_str(&mut out, body.as_str());
    out
}

// ---------------------------------------------------------------------------
// The package's list of world portals.

pub open spec fn portal_list_fields(r: WorldPortalRow<Seq<char>>) -> Seq<(Seq<char>, Seq<char>, bool)> {
    seq![
        ("id"@, num(r.portal_id as int), false),
        ("receiver"@, num(r.receiver_id as int), false),
        ("render"@, bool_text(r.seamless), false),
        ("lighting"@, bool_text(r.seamless), false),
        ("physics"@, "true"@, false),
        ("width"@, opt_text(r.width, ""@), false),
        ("x"@, r.pos.x, false),
        ("y"@, r.pos.y, false),
        ("normal"@, r.normal.x + seq![','] + r.normal.y, false),
    ]
}

pub open spec fn portal_list_texts(rows: Seq<WorldPortalRow<Seq<char>>>) -> Seq<Seq<char>> {
    Seq::new(rows.len(), |i: int| line_text("world_portal"@, portal_list_fields(rows[i])))
}

fn push_portal_list_line(out: &mut String, r: &WorldPortalRow<String>)
    ensures
        final(out)@ == old(out)@ + text_line("world_portal"@, portal_list_fields(r@)),
{
    let ghost start = out@;
    push_str(out, "world_portal");
    push_char(out, ' ');
    let ghost head = out@;
    let ghost mut fs: Seq<(Seq<char>, Seq<char>, bool)> = Seq::empty();
    assert(out@ =~= head + keyed_line(fs));
    let v0 = format_u64(r.portal_id as u64);
    add_field(out, true, "id", v0.as_str(), false, Ghost(head), Ghost(fs));
    proof { fs = fs.push(("id"@, v0@, false)); }
    let v1 = format_u64(r.receiver_id as u64);
    add_field(out, false, "receiver", v1.as_str(), false, Ghost(head), Ghost(fs));
    proof { fs = fs.push(("receiver"@, v1@, false)); }
    let v2 = bool_word(r.seamless).to_string();
    add_field(out, false, "render", v2.as_str(), false, Ghost(head), Ghost(fs));
    proof { fs = fs.push(("render"@, v2@, false)); }
    let v3 = bool_word(r.seamless).to_string();
    add_field(out, false, "lighting", v3.as_str(), false, Ghost(head), Ghost(fs));
    proof { fs = fs.push(("lighting"@, v3@, false)); }
    let v4 = "true".to_string();
    add_field(out, false, "physics", v4.as_str(), false, Ghost(head), Ghost(fs));
    proof { fs = fs.push(("physics"@, v4@, false)); }
    let v5 = opt_string(&r.width, "");
    add_field(out, false, "width", v5.as_str(), false, Ghost(head), Ghost(fs));
    proof { fs = fs.push(("width"@, v5@, false)); }
    let v6 = r.pos.x.clone();
    add_field(out, false, "x", v6.as_str(), false, Ghost(head), Ghost(fs));
    proof { fs = fs.push(("x"@, v6@, false)); }
    let v7 = r.pos.y.clone();
    add_field(out, false, "y", v7.as_str(), false, Ghost(head), Ghost(fs));
    proof { fs = fs.push(("y"@, v7@, false)); }
    let mut v8 = r.normal.x.clone();
    push_char(&mut v8, ',');
    push_str(&mut v8, r.normal.y.as_str());
    assert(v8@ =~= r.normal.x@ + seq![','] + r.normal.y@);
    add_field(out, false, "normal", v8.as_str(), false, Ghost(head), Ghost(fs));
    proof { fs = fs.push(("normal"@, v8@, false)); }
    push_char(out, '\n');
    assert(fs =~= portal_list_fields(r@));
    assert(out@ =~= start + text_line("world_portal"@, portal_list_fields(r@)));
}

/// The package's list of world portals: one line per portal, in order, rendered and lit
/// when seamless.
pub fn format_portals(doc: &LevelDoc) -> (res: String)
    ensures
        res@ == joined(portal_list_texts(doc@.world_portals)),
{
    let mut out = String::new();
    let ghost rows = doc@.world_portals;
    let mut i: usize = 0;
    assert(portal_list_texts(rows.take(0)) =~= Seq::<Seq<char>>::empty());
    assert(out@ =~= joined(portal_list_texts(rows.take(0))));
    while i < doc.world_portals.len()
        invariant
            i <= doc.world_portals@.len(),
            rows == doc@.world_portals,
            out@ == joined(portal_list_texts(rows.take(i as int))),
        decreases doc.world_portals@.len() - i,
    {
        push_portal_list_line(&mut out, &doc.world_portals[i]);
        proof {
            let prev = portal_list_texts(rows.take(i as int));
            let l = line_text("world_portal"@, portal_list_fields(doc.world_portals@[i as int]@));
            assert(portal_list_texts(rows.take(i + 1)) =~= prev.push(l));
            lemma_joined_push(prev, l);
        }
        i = i + 1;
    }
    assert(rows.take(i as int) =~= rows);
    out
}

// ---------------------------------------------------------------------------
// Levels the game starts from.

pub open spec fn text_rect(x: Seq<char>, y: Seq<char>, w: Seq<char>, h: Seq<char>) -> Rect<Seq<char>> {
    Rect { x, y, w, h }
}

/// The level a new custom level starts from: a floor, a start trigger around the spawn
/// point and an end trigger to the right.
pub open spec fn spec_custom_template(name: Seq<char>) -> LevelDocModel {
    LevelDocModel {
        spawn: Some(Point { x: "128"@, y: "320"@ }),
        solids: seq![
            SolidRow { rect: text_rect("64"@, "400"@, "960"@, "32"@), portalable: false, rotation: None },
        ],
        triggers: Seq::empty().push(
            TriggerRow { rect: text_rect("104"@, "280"@, "48"@, "80"@), kind: LevelTriggerKind::LevelStart },
        ).push(TriggerRow { rect: text_rect("920"@, "320"@, "48"@, "80"@), kind: LevelTriggerKind::LevelEnd }),
        ..empty_level(name)
    }
}

/// The nine walls and platforms of the test chamber.
pub open spec fn test_chamber_solids() -> Seq<SolidRow<Seq<char>>> {
    Seq::empty()
        .push(SolidRow { rect: text_rect("0"@, "560"@, "900"@, "40"@), portalable: true, rotation: None })
        .push(SolidRow { rect: text_rect("0"@, "0"@, "30"@, "600"@), portalable: true, rotation: None })
        .push(SolidRow { rect: text_rect("870"@, "0"@, "30"@, "600"@), portalable: true, rotation: None })
        .push(SolidRow { rect: text_rect("0"@, "0"@, "900"@, "30"@), portalable: true, rotation: None })
        .push(SolidRow { rect: text_rect("170"@, "430"@, "210"@, "28"@), portalable: true, rotation: None })
        .push(SolidRow { rect: text_rect("520"@, "390"@, "220"@, "28"@), portalable: true, rotation: None })
        .push(SolidRow { rect: text_rect("430"@, "250"@, "32"@, "170"@), portalable: true, rotation: None })
        .push(SolidRow { rect: text_rect("250"@, "150"@, "180"@, "26"@), portalable: true, rotation: None })
        .push(SolidRow { rect: text_rect("610"@, "160"@, "32"@, "160"@), portalable: true, rotation: None })
}

/// The level played when no level file can be read: the test chamber.
pub open spec fn spec_fallback() -> LevelDocModel {
    LevelDocModel {
        spawn: Some(Point { x: "110"@, y: "480"@ }),
        solids: test_chamber_solids(),
        ..empty_level("Test Chamber"@)
    }
}

fn rect_of_texts(x: &str, y: &str, w: &str, h: &str) -> (r: Rect<String>)
    ensures
        r@ == text_rect(x@, y@, w@, h@),
{
    Rect { x: x.to_string(), y: y.to_string(), w: w.to_string(), h: h.to_string() }
}

fn plain_solid(x: &str, y: &str, w: &str, h: &str, portalable: bool) -> (r: SolidRow<String>)
    ensures
        r@ == (SolidRow { rect: text_rect(x@, y@, w@, h@), portalable, rotation: None }),
{
    SolidRow { rect: rect_of_texts(x, y, w, h), portalable, rotation: None }
}

fn empty_doc(name: String) -> (d: LevelDoc)
    ensures
        d@ == empty_level(name@),
{
    let d = LevelDoc {
        name,
        spawn: None,
        solids: Vec::new(),
        doors: Vec::new(),
        hazards: Vec::new(),
        checkpoints: Vec::new(),
        enemies: Vec::new(),
        triggers: Vec::new(),
        texts: Vec::new(),
        world_portals: Vec::new(),
        metadata: Vec::new(),
    };
    assert(d@ =~= empty_level(name@));
    d
}

impl LevelDoc {
    /// A new custom level named `name`.
    pub fn custom_template(name: String) -> (d: LevelDoc)
        ensures
            d@ == spec_custom_template(name@),
    {
        let mut d = empty_doc(name);
        d.spawn = Some(Point { x: "128".to_string(), y: "320".to_string() });
        d.solids.push(plain_solid("64", "400", "960", "32", false));
        let ghost t0 = d@.triggers;
        d.triggers.push(TriggerRow { rect: rect_of_texts("104", "280", "48", "80"), kind: LevelTriggerKind::LevelStart });
        let ghost t1 = d@.triggers;
        assert(t1 =~= t0.push(d.triggers@[0]@));
        d.triggers.push(TriggerRow { rect: rect_of_texts("920", "320", "48", "80"), kind: LevelTriggerKind::LevelEnd });
        assert(d@.triggers =~= t1.push(d.triggers@[1]@));
        assert(d@.solids =~= spec_custom_template(d.name@).solids);
        assert(d@.triggers =~= spec_custom_template(d.name@).triggers);
        assert(d@ =~= spec_custom_template(d.name@));
        d
    }

    /// The test chamber, played when no level file can be read.
    pub fn fallback() -> (d: LevelDoc)
        ensures
            d@ == spec_fallback(),
    {
        let mut d = empty_doc("Test Chamber".to_string());
        d.spawn = Some(Point { x: "110".to_string(), y: "480".to_string() });
        let ghost s0 = d@.solids;
        d.solids.push(plain_solid("0", "560", "900", "40", true));
        assert(d@.solids =~= s0.push(d.solids@[0]@));
        let ghost s1 = d@.solids;
        d.solids.push(plain_solid("0", "0", "30", "600", true));
        assert(d@.solids =~= s1.push(d.solids@[1]@));
        let ghost s2 = d@.solids;
        d.solids.push(plain_solid("870", "0", "30", "600", true));
        assert(d@.solids =~= s2.push(d.solids@[2]@));
        let ghost s3 = d@.solids;
        d.solids.push(plain_solid("0", "0", "900", "30", true));
        assert(d@.solids =~= s3.push(d.solids@[3]@));
        let ghost s4 = d@.solids;
        d.solids.push(plain_solid("170", "430", "210", "28", true));
        assert(d@.solids =~= s4.push(d.solids@[4]@));
        let ghost s5 = d@.solids;
        d.solids.push(plain_solid("520", "390", "220", "28", true));
        assert(d@.solids =~= s5.push(d.solids@[5]@));
        let ghost s6 = d@.solids;
        d.solids.push(plain_solid("430", "250", "32", "170", true));
        assert(d@.solids =~= s6.push(d.solids@[6]@));
        let ghost s7 = d@.solids;
        d.solids.push(plain_solid("250", "150", "180", "26", true));
        assert(d@.solids =~= s7.push(d.solids@[7]@));
        let ghost s8 = d@.solids;
        d.solids.push(plain_solid("610", "160", "32", "160", true));
        assert(d@.solids =~= s8.push(d.solids@[8]@));
        assert(d@.solids =~= test_chamber_solids());
        assert(d@ =~= spec_fallback());
        d
    }
}

} // verus!
