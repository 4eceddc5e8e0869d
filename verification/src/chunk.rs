//! Typed structure-of-arrays storage for one world chunk.
use vstd::prelude::*;

use crate::decimal::format_i64;
use crate::error::{LevelPackageError, PackageResult, invalid_data_string};
use crate::level::{LevelObjectKind, LevelObjectMeta, LevelTriggerKind, ObjectMeta};
use crate::strutil::{concat, push_str};

verus! {

/// Number of records of each kind held by a chunk.
#[derive(Clone, Copy, Debug, Default, PartialEq, Eq, Structural)]
pub struct ChunkObjectCounts {
    pub static_rects: u32,
    pub hazard_rects: u32,
    pub doors: u32,
    pub checkpoints: u32,
    pub triggers: u32,
    pub enemy_spawns: u32,
    pub text_points: u32,
    pub world_portals: u32,
}

/// Rectangles in chunk-local quantized coordinates, one array per field.
#[derive(Clone, Debug, Default, PartialEq, Eq)]
pub struct RectSoABlock {
    pub meta: Vec<u16>,
    pub x: Vec<i16>,
    pub y: Vec<i16>,
    pub w: Vec<u16>,
    pub h: Vec<u16>,
    pub rotation: Vec<i16>,
    pub editor_layer: Vec<i16>,
}

/// Doors: a rectangle block plus the door-specific arrays.
#[derive(Clone, Debug, Default, PartialEq, Eq)]
pub struct DoorSoABlock {
    pub rects: RectSoABlock,
    pub radius: Vec<u16>,
    pub speed: Vec<u16>,
    pub automatic: Vec<u8>,
}

/// Triggers: a rectangle block plus kind and enemy id.
#[derive(Clone, Debug, Default, PartialEq, Eq)]
pub struct TriggerSoABlock {
    pub rects: RectSoABlock,
    pub kind: Vec<u8>,
    pub enemy_id: Vec<u16>,
}

#[derive(Clone, Debug, Default, PartialEq, Eq)]
pub struct EnemySpawnSoABlock {
    pub meta: Vec<u16>,
    pub x: Vec<i16>,
    pub y: Vec<i16>,
    pub kind: Vec<u8>,
    pub spawn_id: Vec<u16>,
    pub spawn_wave: Vec<u16>,
    pub editor_layer: Vec<i16>,
}

#[derive(Clone, Debug, Default, PartialEq, Eq)]
pub struct TextPointSoABlock {
    pub meta: Vec<u16>,
    pub x: Vec<i16>,
    pub y: Vec<i16>,
    pub editor_layer: Vec<i16>,
    pub text: Vec<String>,
}

#[derive(Clone, Debug, Default, PartialEq, Eq)]
pub struct WorldPortalSoABlock {
    pub meta: Vec<u16>,
    pub x: Vec<i16>,
    pub y: Vec<i16>,
    pub normal_x: Vec<i16>,
    pub normal_y: Vec<i16>,
    pub tangent_x: Vec<i16>,
    pub tangent_y: Vec<i16>,
    pub width: Vec<u16>,
    pub portal_id: Vec<u16>,
    pub receiver_id: Vec<u16>,
    pub priority: Vec<i16>,
    pub scale: Vec<u16>,
    pub flags: Vec<u8>,
    pub seamless_depth: Vec<u16>,
    pub seamless_angle: Vec<u16>,
    pub editor_layer: Vec<i16>,
}

/// One chunk of the world: its id, quantized origin, local bounds and object blocks.
#[derive(Clone, Debug, Default, PartialEq, Eq)]
pub struct WorldChunk {
    pub chunk_id: u32,
    pub origin_q: [i32; 2],
    pub bounds_local: [i16; 4],
    pub static_rects: RectSoABlock,
    pub hazard_rects: RectSoABlock,
    pub doors: DoorSoABlock,
    pub checkpoints: RectSoABlock,
    pub triggers: TriggerSoABlock,
    pub enemy_spawns: EnemySpawnSoABlock,
    pub text_points: TextPointSoABlock,
    pub world_portals: WorldPortalSoABlock,
}

/// Borrowed view of all object blocks of a chunk.
#[derive(Clone, Copy)]
pub struct ChunkSoAView<'a> {
    pub static_rects: &'a RectSoABlock,
    pub hazard_rects: &'a RectSoABlock,
    pub doors: &'a DoorSoABlock,
    pub checkpoints: &'a RectSoABlock,
    pub triggers: &'a TriggerSoABlock,
    pub enemy_spawns: &'a EnemySpawnSoABlock,
    pub text_points: &'a TextPointSoABlock,
    pub world_portals: &'a WorldPortalSoABlock,
}

// ---------------------------------------------------------------------------
// Mathematical models of the blocks.

pub struct RectSoAModel {
    pub meta: Seq<u16>,
    pub x: Seq<i16>,
    pub y: Seq<i16>,
    pub w: Seq<u16>,
    pub h: Seq<u16>,
    pub rotation: Seq<i16>,
    pub editor_layer: Seq<i16>,
}

pub struct DoorSoAModel {
    pub rects: RectSoAModel,
    pub radius: Seq<u16>,
    pub speed: Seq<u16>,
    pub automatic: Seq<u8>,
}

pub struct TriggerSoAModel {
    pub rects: RectSoAModel,
    pub kind: Seq<u8>,
    pub enemy_id: Seq<u16>,
}

pub struct EnemySpawnSoAModel {
    pub meta: Seq<u16>,
    pub x: Seq<i16>,
    pub y: Seq<i16>,
    pub kind: Seq<u8>,
    pub spawn_id: Seq<u16>,
    pub spawn_wave: Seq<u16>,
    pub editor_layer: Seq<i16>,
}

pub struct TextPointSoAModel {
    pub meta: Seq<u16>,
    pub x: Seq<i16>,
    pub y: Seq<i16>,
    pub editor_layer: Seq<i16>,
    pub text: Seq<Seq<char>>,
}

pub struct WorldPortalSoAModel {
    pub meta: Seq<u16>,
    pub x: Seq<i16>,
    pub y: Seq<i16>,
    pub normal_x: Seq<i16>,
    pub normal_y: Seq<i16>,
    pub tangent_x: Seq<i16>,
    pub tangent_y: Seq<i16>,
    pub width: Seq<u16>,
    pub portal_id: Seq<u16>,
    pub receiver_id: Seq<u16>,
    pub priority: Seq<i16>,
    pub scale: Seq<u16>,
    pub flags: Seq<u8>,
    pub seamless_depth: Seq<u16>,
    pub seamless_angle: Seq<u16>,
    pub editor_layer: Seq<i16>,
}

pub struct WorldChunkModel {
    pub chunk_id: u32,
    pub origin_x: i32,
    pub origin_y: i32,
    pub bounds_local: Seq<i16>,
    pub static_rects: RectSoAModel,
    pub hazard_rects: RectSoAModel,
    pub doors: DoorSoAModel,
    pub checkpoints: RectSoAModel,
    pub triggers: TriggerSoAModel,
    pub enemy_spawns: EnemySpawnSoAModel,
    pub text_points: TextPointSoAModel,
    pub world_portals: WorldPortalSoAModel,
}

impl View for RectSoABlock {
    type V = RectSoAModel;

    open spec fn view(&self) -> RectSoAModel {
        RectSoAModel {
            meta: self.meta@,
            x: self.x@,
            y: self.y@,
            w: self.w@,
            h: self.h@,
            rotation: self.rotation@,
            editor_layer: self.editor_layer@,
        }
    }
}

impl View for DoorSoABlock {
    type V = DoorSoAModel;

    open spec fn view(&self) -> DoorSoAModel {
        DoorSoAModel {
            rects: self.rects@,
            radius: self.radius@,
            speed: self.speed@,
            automatic: self.automatic@,
        }
    }
}

impl View for TriggerSoABlock {
    type V = TriggerSoAModel;

    open spec fn view(&self) -> TriggerSoAModel {
        TriggerSoAModel { rects: self.rects@, kind: self.kind@, enemy_id: self.enemy_id@ }
    }
}

impl View for EnemySpawnSoABlock {
    type V = EnemySpawnSoAModel;

    open spec fn view(&self) -> EnemySpawnSoAModel {
        EnemySpawnSoAModel {
            meta: self.meta@,
            x: self.x@,
            y: self.y@,
            kind: self.kind@,
            spawn_id: self.spawn_id@,
            spawn_wave: self.spawn_wave@,
            editor_layer: self.editor_layer@,
        }
    }
}

/// The characters of each text entry.
pub open spec fn strings_view(v: Seq<String>) -> Seq<Seq<char>> {
    Seq::new(v.len(), |i: int| v[i]@)
}

impl View for TextPointSoABlock {
    type V = TextPointSoAModel;

    open spec fn view(&self) -> TextPointSoAModel {
        TextPointSoAModel {
            meta: self.meta@,
            x: self.x@,
            y: self.y@,
            editor_layer: self.editor_layer@,
            text: strings_view(self.text@),
        }
    }
}

impl View for WorldPortalSoABlock {
    type V = WorldPortalSoAModel;

    open spec fn view(&self) -> WorldPortalSoAModel {
        WorldPortalSoAModel {
            meta: self.meta@,
            x: self.x@,
            y: self.y@,
            normal_x: self.normal_x@,
            normal_y: self.normal_y@,
            tangent_x: self.tangent_x@,
            tangent_y: self.tangent_y@,
            width: self.width@,
            portal_id: self.portal_id@,
            receiver_id: self.receiver_id@,
            priority: self.priority@,
            scale: self.scale@,
            flags: self.flags@,
            seamless_depth: self.seamless_depth@,
            seamless_angle: self.seamless_angle@,
            editor_layer: self.editor_layer@,
        }
    }
}

impl View for WorldChunk {
    type V = WorldChunkModel;

    open spec fn view(&self) -> WorldChunkModel {
        WorldChunkModel {
            chunk_id: self.chunk_id,
            origin_x: self.origin_q[0],
            origin_y: self.origin_q[1],
            bounds_local: self.bounds_local@,
            static_rects: self.static_rects@,
            hazard_rects: self.hazard_rects@,
            doors: self.doors@,
            checkpoints: self.checkpoints@,
            triggers: self.triggers@,
            enemy_spawns: self.enemy_spawns@,
            text_points: self.text_points@,
            world_portals: self.world_portals@,
        }
    }
}

impl RectSoABlock {
    pub fn len(&self) -> (n: usize)
        ensures
            n == self.x@.len(),
    {
        self.x.len()
    }

    pub fn is_empty(&self) -> (b: bool)
        ensures
            b == (self.x@.len() == 0),
    {
        self.x.len() == 0
    }
}

impl DoorSoABlock {
    pub fn len(&self) -> (n: usize)
        ensures
            n == self.rects.x@.len(),
    {
        self.rects.len()
    }
}

impl TriggerSoABlock {
    pub fn len(&self) -> (n: usize)
        ensures
            n == self.rects.x@.len(),
    {
        self.rects.len()
    }
}

/// The view layer written for every object.
pub const DEFAULT_VIEW_LAYER: u8 = 1;

/// Quantized side of a chunk: `CHUNK_SIZE_UNITS * COORD_SCALE`.
pub const CHUNK_SIZE_Q: i32 = 32768;

/// Surface metadata packed into the 16-bit `meta` field of a record.
#[derive(Clone, Copy, Debug, PartialEq, Eq)]
pub struct SurfaceMeta {
    pub portalable: bool,
    pub view_layer: u8,
    pub group_id: u16,
}

/// The packed form of surface metadata: bit 0 portalable, bits 1-2 surface type (always 0),
/// bits 3-5 view layer, bits 6-15 group id.
pub open spec fn spec_pack_surface_meta(portalable: bool, view_layer: int, group_id: int) -> int {
    (if portalable { 1int } else { 0int }) + 8 * view_layer + 64 * group_id
}

/// Packs surface metadata; fails when the group id needs more than 10 bits or the editor
/// layer is outside `0..=1023`.
pub fn pack_surface_meta(portalable: bool, meta: ObjectMeta) -> (res: PackageResult<u16>)
    ensures
        meta.group_id > 1023 ==> res matches Err(LevelPackageError::InvalidData(_)),
        meta.group_id <= 1023 && !(0 <= meta.editor_layer <= 1023) ==> res matches Err(
            LevelPackageError::InvalidData(_),
        ),
        meta.group_id <= 1023 && 0 <= meta.editor_layer <= 1023 ==> (res matches Ok(v) && v
            == spec_pack_surface_meta(portalable, DEFAULT_VIEW_LAYER as int, meta.group_id as int)),
{
    if meta.group_id > 1023 {
        let mut msg = concat("group_id ", format_i64(meta.group_id as i64).as_str());
        push_str(&mut msg, " exceeds v4 10-bit limit");
        return Err(invalid_data_string(msg));
    }
    if !(0 <= meta.editor_layer && meta.editor_layer <= 1023) {
        let mut msg = concat("editor_layer ", format_i64(meta.editor_layer as i64).as_str());
        push_str(&mut msg, " outside v4 range 0..1023");
        return Err(invalid_data_string(msg));
    }
    let view_layer = DEFAULT_VIEW_LAYER;
    let p: u16 = if portalable { 1 } else { 0 };
    let g = meta.group_id;
    let v: u16 = p | ((0u16 & 0b11) << 1) | ((view_layer as u16 & 0b111) << 3) | (g << 6);
    assert(p <= 1 && g <= 1023 ==> (p | ((0u16 & 0b11) << 1) | ((1u16 & 0b111) << 3) | (g << 6))
        == p + 8 + 64 * g) by (bit_vector);
    Ok(v)
}

/// Unpacks the fields of a packed `meta` value.
pub fn unpack_surface_meta(meta: u16) -> (m: SurfaceMeta)
    ensures
        m.portalable == (meta % 2 == 1),
        m.view_layer == (meta / 8) % 8,
        m.group_id == meta / 64,
{
    assert(meta & 1 == meta % 2) by (bit_vector);
    assert((meta >> 3) & 0b111 == (meta / 8) % 8) by (bit_vector);
    assert(meta >> 6 == meta / 64) by (bit_vector);
    SurfaceMeta {
        portalable: meta & 1 != 0,
        view_layer: ((meta >> 3) & 0b111) as u8,
        group_id: meta >> 6,
    }
}

/// Unpacking a packed value gives back the portalable flag, the view layer and the group id.
pub proof fn lemma_surface_meta_roundtrip(portalable: bool, view_layer: int, group_id: int)
    requires
        0 <= view_layer < 8,
        0 <= group_id <= 1023,
    ensures
        ({
            let v = spec_pack_surface_meta(portalable, view_layer, group_id);
            &&& 0 <= v <= u16::MAX
            &&& (v % 2 == 1) == portalable
            &&& (v / 8) % 8 == view_layer
            &&& v / 64 == group_id
        }),
{
}

/// The group id of a packed `meta` value.
pub fn group_id_from_surface_meta(meta: u16) -> (g: u16)
    ensures
        g == meta / 64,
{
    assert(meta >> 6 == meta / 64) by (bit_vector);
    meta >> 6
}

/// One rectangle record in quantized form.
#[derive(Clone, Copy, Debug, PartialEq, Eq)]
pub struct RectRecord {
    pub meta: u16,
    pub x: i16,
    pub y: i16,
    pub w: u16,
    pub h: u16,
    pub rotation: i16,
    pub editor_layer: i16,
}

/// Growing rectangle arrays; `finish` turns them into a block.
#[derive(Debug)]
pub struct RectSoABuilder {
    meta: Vec<u16>,
    x: Vec<i16>,
    y: Vec<i16>,
    w: Vec<u16>,
    h: Vec<u16>,
    rotation: Vec<i16>,
    editor_layer: Vec<i16>,
}

impl Default for RectSoABuilder {
    fn default() -> (b: Self)
        ensures
            b@ == RectSoABuilder::new_spec(),
    {
        RectSoABuilder::new()
    }
}

/// Every array of a rectangle block has the length of `x`.
pub open spec fn rect_columns(b: RectSoAModel) -> bool {
    let n = b.x.len();
    &&& b.meta.len() == n
    &&& b.y.len() == n
    &&& b.w.len() == n
    &&& b.h.len() == n
    &&& b.rotation.len() == n
    &&& b.editor_layer.len() == n
}

/// The block `b` with one more record appended to every array.
pub open spec fn rect_push(b: RectSoAModel, r: RectRecord) -> RectSoAModel {
    RectSoAModel {
        meta: b.meta.push(r.meta),
        x: b.x.push(r.x),
        y: b.y.push(r.y),
        w: b.w.push(r.w),
        h: b.h.push(r.h),
        rotation: b.rotation.push(r.rotation),
        editor_layer: b.editor_layer.push(r.editor_layer),
    }
}

impl View for RectSoABuilder {
    type V = RectSoAModel;

    closed spec fn view(&self) -> RectSoAModel {
        RectSoAModel {
            meta: self.meta@,
            x: self.x@,
            y: self.y@,
            w: self.w@,
            h: self.h@,
            rotation: self.rotation@,
            editor_layer: self.editor_layer@,
        }
    }
}

impl RectSoABuilder {
    /// A builder only ever holds arrays of one length.
    #[verifier::type_invariant]
    spec fn columns_agree(self) -> bool {
        rect_columns(self@)
    }

    pub fn new() -> (b: Self)
        ensures
            b@ == RectSoABuilder::new_spec(),
    {
        let b = RectSoABuilder {
            meta: Vec::new(),
            x: Vec::new(),
            y: Vec::new(),
            w: Vec::new(),
            h: Vec::new(),
            rotation: Vec::new(),
            editor_layer: Vec::new(),
        };
        assert(b@.meta =~= Seq::empty() && b@.x =~= Seq::empty() && b@.y =~= Seq::empty()
            && b@.w =~= Seq::empty() && b@.h =~= Seq::empty() && b@.rotation =~= Seq::empty()
            && b@.editor_layer =~= Seq::empty());
        b
    }

    pub fn push(&mut self, record: RectRecord)
        ensures
            final(self)@ == rect_push(old(self)@, record),
    {
        proof {
            use_type_invariant(&*self);
        }
        let mut taken = RectSoABuilder::new();
        std::mem::swap(self, &mut taken);
        let RectSoABuilder { mut meta, mut x, mut y, mut w, mut h, mut rotation, mut editor_layer } =
            taken;
        meta.push(record.meta);
        x.push(record.x);
        y.push(record.y);
        w.push(record.w);
        h.push(record.h);
        rotation.push(record.rotation);
        editor_layer.push(record.editor_layer);
        *self = RectSoABuilder { meta, x, y, w, h, rotation, editor_layer };
    }

    /// The finished block; its arrays all have one length.
    pub fn finish(self) -> (b: RectSoABlock)
        ensures
            b@ == self@,
            rect_columns(b@),
    {
        proof {
            use_type_invariant(&self);
        }
        RectSoABlock {
            meta: self.meta,
            x: self.x,
            y: self.y,
            w: self.w,
            h: self.h,
            rotation: self.rotation,
            editor_layer: self.editor_layer,
        }
    }
}

#[derive(Debug, Default)]
pub struct DoorSoABuilder {
    pub rects: RectSoABuilder,
    pub radius: Vec<u16>,
    pub speed: Vec<u16>,
    pub automatic: Vec<u8>,
}

impl DoorSoABuilder {
    pub fn new() -> (b: Self)
        ensures
            b.rects@ == RectSoABuilder::new_spec(),
            b.radius@.len() == 0,
            b.speed@.len() == 0 && b.automatic@.len() == 0,
    {
        DoorSoABuilder {
            rects: RectSoABuilder::new(),
            radius: Vec::new(),
            speed: Vec::new(),
            automatic: Vec::new(),
        }
    }

    pub fn push(&mut self, record: RectRecord, radius: u16, speed: u16, automatic: bool)
        ensures
            final(self).rects@ == rect_push(old(self).rects@, record),
            final(self).radius@ == old(self).radius@.push(radius),
            final(self).speed@ == old(self).speed@.push(speed),
            final(self).automatic@ == old(self).automatic@.push(if automatic { 1u8 } else { 0u8 }),
    {
        self.rects.push(record);
        self.radius.push(radius);
        self.speed.push(speed);
        self.automatic.push(if automatic { 1u8 } else { 0u8 });
    }

    pub fn finish(self) -> (b: DoorSoABlock)
        ensures
            b@ == (DoorSoAModel {
                rects: self.rects@,
                radius: self.radius@,
                speed: self.speed@,
                automatic: self.automatic@,
            }),
            rect_columns(b.rects@),
    {
        DoorSoABlock {
            rects: self.rects.finish(),
            radius: self.radius,
            speed: self.speed,
            automatic: self.automatic,
        }
    }
}

#[derive(Debug, Default)]
pub struct TriggerSoABuilder {
    pub rects: RectSoABuilder,
    pub kind: Vec<u8>,
    pub enemy_id: Vec<u16>,
}

impl TriggerSoABuilder {
    pub fn new() -> (b: Self)
        ensures
            b.rects@ == RectSoABuilder::new_spec(),
            b.kind@.len() == 0 && b.enemy_id@.len() == 0,
    {
        TriggerSoABuilder { rects: RectSoABuilder::new(), kind: Vec::new(), enemy_id: Vec::new() }
    }

    pub fn push(&mut self, record: RectRecord, kind: u8, enemy_id: u16)
        ensures
            final(self).rects@ == rect_push(old(self).rects@, record),
            final(self).kind@ == old(self).kind@.push(kind),
            final(self).enemy_id@ == old(self).enemy_id@.push(enemy_id),
    {
        self.rects.push(record);
        self.kind.push(kind);
        self.enemy_id.push(enemy_id);
    }

    pub fn finish(self) -> (b: TriggerSoABlock)
        ensures
            b@ == (TriggerSoAModel {
                rects: self.rects@,
                kind: self.kind@,
                enemy_id: self.enemy_id@,
            }),
            rect_columns(b.rects@),
    {
        TriggerSoABlock { rects: self.rects.finish(), kind: self.kind, enemy_id: self.enemy_id }
    }
}

impl RectSoABuilder {
    /// The model of an empty builder.
    pub open spec fn new_spec() -> RectSoAModel {
        RectSoAModel {
            meta: Seq::empty(),
            x: Seq::empty(),
            y: Seq::empty(),
            w: Seq::empty(),
            h: Seq::empty(),
            rotation: Seq::empty(),
            editor_layer: Seq::empty(),
        }
    }
}

#[derive(Clone, Debug, Default)]
pub struct EnemySpawnSoABuilder {
    pub meta: Vec<u16>,
    pub x: Vec<i16>,
    pub y: Vec<i16>,
    pub kind: Vec<u8>,
    pub spawn_id: Vec<u16>,
    pub spawn_wave: Vec<u16>,
    pub editor_layer: Vec<i16>,
}

impl EnemySpawnSoABuilder {
    pub fn finish(self) -> (b: EnemySpawnSoABlock)
        ensures
            b.meta == self.meta && b.x == self.x && b.y == self.y && b.kind == self.kind
                && b.spawn_id == self.spawn_id && b.spawn_wave == self.spawn_wave
                && b.editor_layer == self.editor_layer,
    {
        EnemySpawnSoABlock {
            meta: self.meta,
            x: self.x,
            y: self.y,
            kind: self.kind,
            spawn_id: self.spawn_id,
            spawn_wave: self.spawn_wave,
            editor_layer: self.editor_layer,
        }
    }
}

#[derive(Clone, Debug, Default)]
pub struct TextPointSoABuilder {
    pub meta: Vec<u16>,
    pub x: Vec<i16>,
    pub y: Vec<i16>,
    pub editor_layer: Vec<i16>,
    pub text: Vec<String>,
}

impl TextPointSoABuilder {
    pub fn finish(self) -> (b: TextPointSoABlock)
        ensures
            b.meta == self.meta && b.x == self.x && b.y == self.y
                && b.editor_layer == self.editor_layer && b.text == self.text,
    {
        TextPointSoABlock {
            meta: self.meta,
            x: self.x,
            y: self.y,
            editor_layer: self.editor_layer,
            text: self.text,
        }
    }
}

#[derive(Clone, Debug, Default)]
pub struct WorldPortalSoABuilder {
    pub meta: Vec<u16>,
    pub x: Vec<i16>,
    pub y: Vec<i16>,
    pub normal_x: Vec<i16>,
    pub normal_y: Vec<i16>,
    pub tangent_x: Vec<i16>,
    pub tangent_y: Vec<i16>,
    pub width: Vec<u16>,
    pub portal_id: Vec<u16>,
    pub receiver_id: Vec<u16>,
    pub priority: Vec<i16>,
    pub scale: Vec<u16>,
    pub flags: Vec<u8>,
    pub seamless_depth: Vec<u16>,
    pub seamless_angle: Vec<u16>,
    pub editor_layer: Vec<i16>,
}

impl WorldPortalSoABuilder {
    pub fn finish(self) -> (b: WorldPortalSoABlock)
        ensures
            b.meta == self.meta && b.x == self.x && b.y == self.y && b.normal_x == self.normal_x
                && b.normal_y == self.normal_y && b.tangent_x == self.tangent_x && b.tangent_y
                == self.tangent_y && b.width == self.width && b.portal_id == self.portal_id
                && b.receiver_id == self.receiver_id && b.priority == self.priority && b.scale
                == self.scale && b.flags == self.flags && b.seamless_depth == self.seamless_depth
                && b.seamless_angle == self.seamless_angle && b.editor_layer == self.editor_layer,
    {
        WorldPortalSoABlock {
            meta: self.meta,
            x: self.x,
            y: self.y,
            normal_x: self.normal_x,
            normal_y: self.normal_y,
            tangent_x: self.tangent_x,
            tangent_y: self.tangent_y,
            width: self.width,
            portal_id: self.portal_id,
            receiver_id: self.receiver_id,
            priority: self.priority,
            scale: self.scale,
            flags: self.flags,
            seamless_depth: self.seamless_depth,
            seamless_angle: self.seamless_angle,
            editor_layer: self.editor_layer,
        }
    }
}

/// The quantized origin of the chunk with key `(kx, ky)`: the centre of its square.
pub open spec fn spec_chunk_origin(k: int) -> int {
    k * 32768 + 16384
}

/// Quantized origin of a chunk key. Keys come from dividing an `i32` coordinate by the chunk
/// size, so they lie in `-65536..=65535`, where the origin fits `i32`.
pub fn chunk_origin_for_key(key: (i32, i32)) -> (origin: [i32; 2])
    requires
        -65536 <= key.0 <= 65535,
        -65536 <= key.1 <= 65535,
    ensures
        origin[0] == spec_chunk_origin(key.0 as int),
        origin[1] == spec_chunk_origin(key.1 as int),
{
    [key.0 * CHUNK_SIZE_Q + CHUNK_SIZE_Q / 2, key.1 * CHUNK_SIZE_Q + CHUNK_SIZE_Q / 2]
}

/// The error for a coordinate that does not fit its chunk-local `i16`.
pub open spec fn out_of_local_range(res: PackageResult<[i16; 2]>, name: Seq<char>) -> bool {
    res matches Err(LevelPackageError::CoordinateOutOfRange { name: n, storage: st }) && n@ == name
        && st@ == "chunk-local i16"@
}

fn local_range_error(name: &str) -> (res: PackageResult<[i16; 2]>)
    ensures
        out_of_local_range(res, name@),
{
    Err(LevelPackageError::CoordinateOutOfRange { name: name.to_string(), storage: "chunk-local i16".to_string() })
}

/// A quantized point relative to the chunk origin `origin_q`, each coordinate stored as an
/// `i16`; a coordinate that does not fit (`x` checked first) is an error.
pub fn local_from_quantized(origin_q: [i32; 2], q: [i32; 2]) -> (res: PackageResult<[i16; 2]>)
    requires
        i32::MIN <= q[0] - origin_q[0] <= i32::MAX,
        i32::MIN <= q[1] - origin_q[1] <= i32::MAX,
    ensures
        !(-32768 <= q[0] - origin_q[0] <= 32767) ==> out_of_local_range(res, "x"@),
        (-32768 <= q[0] - origin_q[0] <= 32767) && !(-32768 <= q[1] - origin_q[1] <= 32767)
            ==> out_of_local_range(res, "y"@),
        (-32768 <= q[0] - origin_q[0] <= 32767) && (-32768 <= q[1] - origin_q[1] <= 32767)
            ==> (res matches Ok(p) && p[0] == q[0] - origin_q[0] && p[1] == q[1] - origin_q[1]),
{
    let x: i32 = q[0] - origin_q[0];
    let y: i32 = q[1] - origin_q[1];
    if x < -32768 || x > 32767 {
        return local_range_error("x");
    }
    if y < -32768 || y > 32767 {
        return local_range_error("y");
    }
    Ok([x as i16, y as i16])
}

/// `old` widened to also cover `b` (`b` itself when there is no `old`).
pub open spec fn spec_include(old: Option<[i16; 4]>, b: [i16; 4]) -> Seq<i16> {
    match old {
        None => b@,
        Some(e) => seq![
            if e[0] <= b[0] { e[0] } else { b[0] },
            if e[1] <= b[1] { e[1] } else { b[1] },
            if e[2] >= b[2] { e[2] } else { b[2] },
            if e[3] >= b[3] { e[3] } else { b[3] },
        ],
    }
}

/// Collects the records of one chunk before they are frozen into a `WorldChunk`.
pub struct ChunkBuilder {
    pub origin_q: [i32; 2],
    pub bounds: Option<[i16; 4]>,
    pub static_rects: RectSoABuilder,
    pub hazard_rects: RectSoABuilder,
    pub doors: DoorSoABuilder,
    pub checkpoints: RectSoABuilder,
    pub triggers: TriggerSoABuilder,
    pub enemy_spawns: EnemySpawnSoABuilder,
    pub text_points: TextPointSoABuilder,
    pub world_portals: WorldPortalSoABuilder,
}

/// The geometry of a world portal in quantized form.
#[derive(Clone, Copy, Debug, PartialEq, Eq)]
pub struct PortalRecord {
    pub normal_x: i16,
    pub normal_y: i16,
    pub tangent_x: i16,
    pub tangent_y: i16,
    pub width: u16,
    pub portal_id: u16,
    pub receiver_id: u16,
    pub priority: i16,
    pub scale: u16,
    pub scale_objects: bool,
    pub seamless: bool,
    pub seamless_depth: u16,
    pub seamless_angle: u16,
    pub seamless_rely_on_walls: bool,
}

/// The flag byte of a world portal: bit 0 scale objects, bit 1 seamless, bit 2 rely on walls.
pub open spec fn spec_portal_flags(scale_objects: bool, seamless: bool, rely_on_walls: bool) -> u8 {
    ((if scale_objects { 1int } else { 0int }) + (if seamless { 2int } else { 0int }) + (
    if rely_on_walls { 4int } else { 0int })) as u8
}

/// The record kind and enemy id stored for a trigger: 0 level start, 1 level end, 2 enemy
/// spawn (enemy id at least 1).
pub open spec fn spec_trigger_record(kind: LevelTriggerKind) -> (u8, u16) {
    match kind {
        LevelTriggerKind::LevelStart => (0u8, 0u16),
        LevelTriggerKind::LevelEnd => (1u8, 0u16),
        LevelTriggerKind::EnemySpawn { enemy_id } => (2u8, if enemy_id >= 1 { enemy_id } else { 1u16 }),
    }
}

/// Builds the record of a rectangle object; fails when its metadata cannot be packed.
pub fn rect_record(
    portalable: bool,
    meta: ObjectMeta,
    pos: [i16; 2],
    size: [u16; 2],
    rotation: i16,
) -> (res: PackageResult<RectRecord>)
    ensures
        (meta.group_id <= 1023 && 0 <= meta.editor_layer <= 1023) <==> res is Ok,
        res is Err ==> res matches Err(LevelPackageError::InvalidData(_)),
        res matches Ok(r) ==> r == (RectRecord {
            meta: spec_pack_surface_meta(portalable, DEFAULT_VIEW_LAYER as int, meta.group_id as int)
                as u16,
            x: pos[0],
            y: pos[1],
            w: size[0],
            h: size[1],
            rotation,
            editor_layer: meta.editor_layer,
        }),
{
    let packed = pack_surface_meta(portalable, meta)?;
    Ok(
        RectRecord {
            meta: packed,
            x: pos[0],
            y: pos[1],
            w: size[0],
            h: size[1],
            rotation,
            editor_layer: meta.editor_layer,
        },
    )
}

impl ChunkBuilder {
    /// An empty builder for the chunk with the given key.
    pub fn new(key: (i32, i32)) -> (b: Self)
        requires
            -65536 <= key.0 <= 65535,
            -65536 <= key.1 <= 65535,
        ensures
            b.origin_q[0] == spec_chunk_origin(key.0 as int),
            b.origin_q[1] == spec_chunk_origin(key.1 as int),
            b.bounds is None,
            b.static_rects@ == RectSoABuilder::new_spec(),
            b.hazard_rects@ == RectSoABuilder::new_spec(),
            b.checkpoints@ == RectSoABuilder::new_spec(),
            b.doors.rects@ == RectSoABuilder::new_spec(),
            b.doors.radius@.len() == 0 && b.doors.speed@.len() == 0 && b.doors.automatic@.len()
                == 0,
            b.triggers.rects@ == RectSoABuilder::new_spec(),
            b.triggers.kind@.len() == 0 && b.triggers.enemy_id@.len() == 0,
            b.enemy_spawns.x@.len() == 0 && b.enemy_spawns.meta@.len() == 0,
            b.text_points.x@.len() == 0 && b.text_points.text@.len() == 0,
            b.world_portals.x@.len() == 0 && b.world_portals.meta@.len() == 0,
    {
        ChunkBuilder {
            origin_q: chunk_origin_for_key(key),
            bounds: None,
            static_rects: RectSoABuilder::new(),
            hazard_rects: RectSoABuilder::new(),
            doors: DoorSoABuilder::new(),
            checkpoints: RectSoABuilder::new(),
            triggers: TriggerSoABuilder::new(),
            enemy_spawns: EnemySpawnSoABuilder {
                meta: Vec::new(),
                x: Vec::new(),
                y: Vec::new(),
                kind: Vec::new(),
                spawn_id: Vec::new(),
                spawn_wave: Vec::new(),
                editor_layer: Vec::new(),
            },
            text_points: TextPointSoABuilder {
                meta: Vec::new(),
                x: Vec::new(),
                y: Vec::new(),
                editor_layer: Vec::new(),
                text: Vec::new(),
            },
            world_portals: WorldPortalSoABuilder {
                meta: Vec::new(),
                x: Vec::new(),
                y: Vec::new(),
                normal_x: Vec::new(),
                normal_y: Vec::new(),
                tangent_x: Vec::new(),
                tangent_y: Vec::new(),
                width: Vec::new(),
                portal_id: Vec::new(),
                receiver_id: Vec::new(),
                priority: Vec::new(),
                scale: Vec::new(),
                flags: Vec::new(),
                seamless_depth: Vec::new(),
                seamless_angle: Vec::new(),
                editor_layer: Vec::new(),
            },
        }
    }

    /// Widens the chunk bounds to cover `bounds` (min x, min y, max x, max y).
    pub fn include_aabb(&mut self, bounds: [i16; 4])
        ensures
            final(self).bounds matches Some(nb) && nb@ == spec_include(old(self).bounds, bounds),
            final(self).origin_q == old(self).origin_q,
            final(self).static_rects == old(self).static_rects,
            final(self).hazard_rects == old(self).hazard_rects,
            final(self).doors == old(self).doors,
            final(self).checkpoints == old(self).checkpoints,
            final(self).triggers == old(self).triggers,
            final(self).enemy_spawns == old(self).enemy_spawns,
            final(self).text_points == old(self).text_points,
            final(self).world_portals == old(self).world_portals,
    {
        match self.bounds {
            Some(e) => {
                let nb: [i16; 4] = [
                    if e[0] <= bounds[0] { e[0] } else { bounds[0] },
                    if e[1] <= bounds[1] { e[1] } else { bounds[1] },
                    if e[2] >= bounds[2] { e[2] } else { bounds[2] },
                    if e[3] >= bounds[3] { e[3] } else { bounds[3] },
                ];
                assert(nb@ =~= spec_include(old(self).bounds, bounds));
                self.bounds = Some(nb);
            },
            None => {
                self.bounds = Some(bounds);
            },
        }
    }

    /// Widens the chunk bounds to cover one point.
    pub fn include_point(&mut self, point: [i16; 2])
        ensures
            final(self).bounds matches Some(nb) && nb@ == spec_include(
                old(self).bounds,
                [point[0], point[1], point[0], point[1]],
            ),
            final(self).origin_q == old(self).origin_q,
            final(self).static_rects == old(self).static_rects,
            final(self).hazard_rects == old(self).hazard_rects,
            final(self).doors == old(self).doors,
            final(self).checkpoints == old(self).checkpoints,
            final(self).triggers == old(self).triggers,
            final(self).enemy_spawns == old(self).enemy_spawns,
            final(self).text_points == old(self).text_points,
            final(self).world_portals == old(self).world_portals,
    {
        self.include_aabb([point[0], point[1], point[0], point[1]]);
    }

    pub fn push_solid(&mut self, record: RectRecord, bounds: [i16; 4])
        ensures
            final(self).static_rects@ == rect_push(old(self).static_rects@, record),
            final(self).bounds matches Some(nb) && nb@ == spec_include(old(self).bounds, bounds),
            final(self).hazard_rects == old(self).hazard_rects,
            final(self).doors == old(self).doors,
            final(self).checkpoints == old(self).checkpoints,
            final(self).triggers == old(self).triggers,
    {
        self.static_rects.push(record);
        self.include_aabb(bounds);
    }

    pub fn push_hazard(&mut self, record: RectRecord, bounds: [i16; 4])
        ensures
            final(self).hazard_rects@ == rect_push(old(self).hazard_rects@, record),
            final(self).bounds matches Some(nb) && nb@ == spec_include(old(self).bounds, bounds),
            final(self).static_rects == old(self).static_rects,
    {
        self.hazard_rects.push(record);
        self.include_aabb(bounds);
    }

    pub fn push_checkpoint(&mut self, record: RectRecord, bounds: [i16; 4])
        ensures
            final(self).checkpoints@ == rect_push(old(self).checkpoints@, record),
            final(self).bounds matches Some(nb) && nb@ == spec_include(old(self).bounds, bounds),
            final(self).static_rects == old(self).static_rects,
    {
        self.checkpoints.push(record);
        self.include_aabb(bounds);
    }

    pub fn push_door(&mut self, record: RectRecord, bounds: [i16; 4], radius: u16, speed: u16, automatic: bool)
        ensures
            final(self).doors.rects@ == rect_push(old(self).doors.rects@, record),
            final(self).doors.radius@ == old(self).doors.radius@.push(radius),
            final(self).doors.speed@ == old(self).doors.speed@.push(speed),
            final(self).doors.automatic@ == old(self).doors.automatic@.push(
                if automatic { 1u8 } else { 0u8 },
            ),
            final(self).bounds matches Some(nb) && nb@ == spec_include(old(self).bounds, bounds),
    {
        self.doors.push(record, radius, speed, automatic);
        self.include_aabb(bounds);
    }

    /// Adds a trigger; its kind is stored as 0 (level start), 1 (level end) or 2 (enemy
    /// spawn, with an enemy id of at least 1).
    pub fn push_trigger(&mut self, record: RectRecord, bounds: [i16; 4], kind: LevelTriggerKind)
        ensures
            final(self).triggers.rects@ == rect_push(old(self).triggers.rects@, record),
            final(self).triggers.kind@ == old(self).triggers.kind@.push(spec_trigger_record(kind).0),
            final(self).triggers.enemy_id@ == old(self).triggers.enemy_id@.push(
                spec_trigger_record(kind).1,
            ),
            final(self).bounds matches Some(nb) && nb@ == spec_include(old(self).bounds, bounds),
    {
        let (k, enemy_id): (u8, u16) = match kind {
            LevelTriggerKind::LevelStart => (0, 0),
            LevelTriggerKind::LevelEnd => (1, 0),
            LevelTriggerKind::EnemySpawn { enemy_id } => (2, if enemy_id >= 1 { enemy_id } else { 1 }),
        };
        self.triggers.push(record, k, enemy_id);
        self.include_aabb(bounds);
    }

    /// Adds an enemy spawn point; fails when its metadata cannot be packed.
    pub fn push_enemy(&mut self, meta: ObjectMeta, local: [i16; 2], kind: u8, spawn_id: u16, spawn_wave: u16) -> (res: PackageResult<()>)
        ensures
            (meta.group_id <= 1023 && 0 <= meta.editor_layer <= 1023) <==> res is Ok,
            res is Err ==> res matches Err(LevelPackageError::InvalidData(_)),
            res is Ok ==> {
                &&& final(self).enemy_spawns.meta@ == old(self).enemy_spawns.meta@.push(
                    spec_pack_surface_meta(false, DEFAULT_VIEW_LAYER as int, meta.group_id as int) as u16,
                )
                &&& final(self).enemy_spawns.x@ == old(self).enemy_spawns.x@.push(local[0])
                &&& final(self).enemy_spawns.y@ == old(self).enemy_spawns.y@.push(local[1])
                &&& final(self).enemy_spawns.kind@ == old(self).enemy_spawns.kind@.push(kind)
                &&& final(self).enemy_spawns.spawn_id@ == old(self).enemy_spawns.spawn_id@.push(spawn_id)
                &&& final(self).enemy_spawns.spawn_wave@ == old(self).enemy_spawns.spawn_wave@.push(
                    spawn_wave,
                )
                &&& final(self).enemy_spawns.editor_layer@ == old(self).enemy_spawns.editor_layer@.push(
                    meta.editor_layer,
                )
                &&& final(self).bounds matches Some(nb) && nb@ == spec_include(
                    old(self).bounds,
                    [local[0], local[1], local[0], local[1]],
                )
            },
    {
        let surface = pack_surface_meta(false, meta)?;
        self.include_point(local);
        self.enemy_spawns.meta.push(surface);
        self.enemy_spawns.x.push(local[0]);
        self.enemy_spawns.y.push(local[1]);
        self.enemy_spawns.kind.push(kind);
        self.enemy_spawns.spawn_id.push(spawn_id);
        self.enemy_spawns.spawn_wave.push(spawn_wave);
        self.enemy_spawns.editor_layer.push(meta.editor_layer);
        Ok(())
    }

    /// Adds a text point; fails when its metadata cannot be packed.
    pub fn push_text(&mut self, meta: ObjectMeta, local: [i16; 2], text: String) -> (res: PackageResult<()>)
        ensures
            (meta.group_id <= 1023 && 0 <= meta.editor_layer <= 1023) <==> res is Ok,
            res is Err ==> res matches Err(LevelPackageError::InvalidData(_)),
            res is Ok ==> {
                &&& final(self).text_points.meta@ == old(self).text_points.meta@.push(
                    spec_pack_surface_meta(false, DEFAULT_VIEW_LAYER as int, meta.group_id as int) as u16,
                )
                &&& final(self).text_points.x@ == old(self).text_points.x@.push(local[0])
                &&& final(self).text_points.y@ == old(self).text_points.y@.push(local[1])
                &&& final(self).text_points.editor_layer@ == old(self).text_points.editor_layer@.push(
                    meta.editor_layer,
                )
                &&& final(self).text_points.text@ == old(self).text_points.text@.push(text)
                &&& final(self).bounds matches Some(nb) && nb@ == spec_include(
                    old(self).bounds,
                    [local[0], local[1], local[0], local[1]],
                )
            },
    {
        let surface = pack_surface_meta(false, meta)?;
        self.include_point(local);
        self.text_points.meta.push(surface);
        self.text_points.x.push(local[0]);
        self.text_points.y.push(local[1]);
        self.text_points.editor_layer.push(meta.editor_layer);
        self.text_points.text.push(text);
        Ok(())
    }

    /// Adds a world portal; fails when its metadata cannot be packed.
    pub fn push_world_portal(&mut self, meta: ObjectMeta, local: [i16; 2], p: PortalRecord) -> (res: PackageResult<()>)
        ensures
            (meta.group_id <= 1023 && 0 <= meta.editor_layer <= 1023) <==> res is Ok,
            res is Err ==> res matches Err(LevelPackageError::InvalidData(_)),
            res is Ok ==> {
                let w = final(self).world_portals;
                let o = old(self).world_portals;
                &&& w.meta@ == o.meta@.push(
                    spec_pack_surface_meta(false, DEFAULT_VIEW_LAYER as int, meta.group_id as int) as u16,
                )
                &&& w.x@ == o.x@.push(local[0])
                &&& w.y@ == o.y@.push(local[1])
                &&& w.normal_x@ == o.normal_x@.push(p.normal_x)
                &&& w.normal_y@ == o.normal_y@.push(p.normal_y)
                &&& w.tangent_x@ == o.tangent_x@.push(p.tangent_x)
                &&& w.tangent_y@ == o.tangent_y@.push(p.tangent_y)
                &&& w.width@ == o.width@.push(p.width)
                &&& w.portal_id@ == o.portal_id@.push(p.portal_id)
                &&& w.receiver_id@ == o.receiver_id@.push(p.receiver_id)
                &&& w.priority@ == o.priority@.push(p.priority)
                &&& w.scale@ == o.scale@.push(p.scale)
                &&& w.flags@ == o.flags@.push(
                    spec_portal_flags(p.scale_objects, p.seamless, p.seamless_rely_on_walls),
                )
                &&& w.seamless_depth@ == o.seamless_depth@.push(p.seamless_depth)
                &&& w.seamless_angle@ == o.seamless_angle@.push(p.seamless_angle)
                &&& w.editor_layer@ == o.editor_layer@.push(meta.editor_layer)
                &&& final(self).bounds matches Some(nb) && nb@ == spec_include(
                    old(self).bounds,
                    [local[0], local[1], local[0], local[1]],
                )
            },
    {
        let surface = pack_surface_meta(false, meta)?;
        let a: u8 = if p.scale_objects { 1 } else { 0 };
        let b: u8 = if p.seamless { 1 } else { 0 };
        let c: u8 = if p.seamless_rely_on_walls { 1 } else { 0 };
        let flags: u8 = a | (b << 1) | (c << 2);
        assert(a <= 1 && b <= 1 && c <= 1 ==> (a | (b << 1) | (c << 2)) == a + 2 * b + 4 * c) by (bit_vector);
        self.include_point(local);
        self.world_portals.meta.push(surface);
        self.world_portals.x.push(local[0]);
        self.world_portals.y.push(local[1]);
        self.world_portals.normal_x.push(p.normal_x);
        self.world_portals.normal_y.push(p.normal_y);
        self.world_portals.tangent_x.push(p.tangent_x);
        self.world_portals.tangent_y.push(p.tangent_y);
        self.world_portals.width.push(p.width);
        self.world_portals.portal_id.push(p.portal_id);
        self.world_portals.receiver_id.push(p.receiver_id);
        self.world_portals.priority.push(p.priority);
        self.world_portals.scale.push(p.scale);
        self.world_portals.flags.push(flags);
        self.world_portals.seamless_depth.push(p.seamless_depth);
        self.world_portals.seamless_angle.push(p.seamless_angle);
        self.world_portals.editor_layer.push(meta.editor_layer);
        Ok(())
    }

    /// Freezes the builder into a chunk; a chunk with nothing in it gets zero bounds.
    pub fn finish(self, chunk_id: u32) -> (c: WorldChunk)
        ensures
            c.chunk_id == chunk_id,
            c.origin_q == self.origin_q,
            c.bounds_local@ == (match self.bounds {
                Some(b) => b@,
                None => seq![0i16, 0i16, 0i16, 0i16],
            }),
            c.static_rects@ == self.static_rects@,
            c.hazard_rects@ == self.hazard_rects@,
            c.checkpoints@ == self.checkpoints@,
            c.doors@ == (DoorSoAModel {
                rects: self.doors.rects@,
                radius: self.doors.radius@,
                speed: self.doors.speed@,
                automatic: self.doors.automatic@,
            }),
            c.triggers@ == (TriggerSoAModel {
                rects: self.triggers.rects@,
                kind: self.triggers.kind@,
                enemy_id: self.triggers.enemy_id@,
            }),
            c.enemy_spawns.x == self.enemy_spawns.x && c.enemy_spawns.meta == self.enemy_spawns.meta,
            c.text_points.text == self.text_points.text && c.text_points.x == self.text_points.x,
            c.world_portals.x == self.world_portals.x && c.world_portals.portal_id
                == self.world_portals.portal_id,
            rect_columns(c.static_rects@) && rect_columns(c.hazard_rects@) && rect_columns(
                c.checkpoints@,
            ) && rect_columns(c.doors.rects@) && rect_columns(c.triggers.rects@),
    {
        let bounds: [i16; 4] = match self.bounds {
            Some(b) => b,
            None => {
                let z: [i16; 4] = [0, 0, 0, 0];
                assert(z@ =~= seq![0i16, 0i16, 0i16, 0i16]);
                z
            },
        };
        WorldChunk {
            chunk_id,
            origin_q: self.origin_q,
            bounds_local: bounds,
            static_rects: self.static_rects.finish(),
            hazard_rects: self.hazard_rects.finish(),
            doors: self.doors.finish(),
            checkpoints: self.checkpoints.finish(),
            triggers: self.triggers.finish(),
            enemy_spawns: self.enemy_spawns.finish(),
            text_points: self.text_points.finish(),
            world_portals: self.world_portals.finish(),
        }
    }
}

/// Record counts of a chunk model (each length as `u32`).
pub open spec fn spec_counts(c: WorldChunkModel) -> ChunkObjectCounts {
    ChunkObjectCounts {
        static_rects: c.static_rects.x.len() as u32,
        hazard_rects: c.hazard_rects.x.len() as u32,
        doors: c.doors.rects.x.len() as u32,
        checkpoints: c.checkpoints.x.len() as u32,
        triggers: c.triggers.rects.x.len() as u32,
        enemy_spawns: c.enemy_spawns.x.len() as u32,
        text_points: c.text_points.x.len() as u32,
        world_portals: c.world_portals.x.len() as u32,
    }
}

/// Each count of a well-formed chunk is the number of records in the block of its own kind.
pub proof fn lemma_counts_are_block_lengths(c: WorldChunkModel)
    requires
        c.static_rects.x.len() <= u32::MAX,
        c.hazard_rects.x.len() <= u32::MAX,
        c.doors.rects.x.len() <= u32::MAX,
        c.checkpoints.x.len() <= u32::MAX,
        c.triggers.rects.x.len() <= u32::MAX,
        c.enemy_spawns.x.len() <= u32::MAX,
        c.text_points.x.len() <= u32::MAX,
        c.world_portals.x.len() <= u32::MAX,
    ensures
        spec_counts(c).static_rects == c.static_rects.x.len(),
        spec_counts(c).hazard_rects == c.hazard_rects.x.len(),
        spec_counts(c).doors == c.doors.rects.x.len(),
        spec_counts(c).checkpoints == c.checkpoints.x.len(),
        spec_counts(c).triggers == c.triggers.rects.x.len(),
        spec_counts(c).enemy_spawns == c.enemy_spawns.x.len(),
        spec_counts(c).text_points == c.text_points.x.len(),
        spec_counts(c).world_portals == c.world_portals.x.len(),
{
}

impl WorldChunk {
    /// Borrows every block of the chunk.
    pub fn soa_view(&self) -> (v: ChunkSoAView<'_>)
        ensures
            *v.static_rects == self.static_rects,
            *v.hazard_rects == self.hazard_rects,
            *v.doors == self.doors,
            *v.checkpoints == self.checkpoints,
            *v.triggers == self.triggers,
            *v.enemy_spawns == self.enemy_spawns,
            *v.text_points == self.text_points,
            *v.world_portals == self.world_portals,
    {
        ChunkSoAView {
            static_rects: &self.static_rects,
            hazard_rects: &self.hazard_rects,
            doors: &self.doors,
            checkpoints: &self.checkpoints,
            triggers: &self.triggers,
            enemy_spawns: &self.enemy_spawns,
            text_points: &self.text_points,
            world_portals: &self.world_portals,
        }
    }

    /// Number of records of each kind.
    pub fn counts(&self) -> (c: ChunkObjectCounts)
        ensures
            c == spec_counts(self@),
            c.static_rects == self.static_rects.x@.len() as u32,
            c.hazard_rects == self.hazard_rects.x@.len() as u32,
            c.doors == self.doors.rects.x@.len() as u32,
            c.checkpoints == self.checkpoints.x@.len() as u32,
            c.triggers == self.triggers.rects.x@.len() as u32,
            c.enemy_spawns == self.enemy_spawns.x@.len() as u32,
            c.text_points == self.text_points.x@.len() as u32,
            c.world_portals == self.world_portals.x@.len() as u32,
    {
        #[verifier::truncate]
        let static_rects = self.static_rects.len() as u32;
        #[verifier::truncate]
        let hazard_rects = self.hazard_rects.len() as u32;
        #[verifier::truncate]
        let doors = self.doors.len() as u32;
        #[verifier::truncate]
        let checkpoints = self.checkpoints.len() as u32;
        #[verifier::truncate]
        let triggers = self.triggers.len() as u32;
        #[verifier::truncate]
        let enemy_spawns = self.enemy_spawns.x.len() as u32;
        #[verifier::truncate]
        let text_points = self.text_points.x.len() as u32;
        #[verifier::truncate]
        let world_portals = self.world_portals.x.len() as u32;
        ChunkObjectCounts {
            static_rects,
            hazard_rects,
            doors,
            checkpoints,
            triggers,
            enemy_spawns,
            text_points,
            world_portals,
        }
    }
}

/// The stored kind number of a trigger kind: 0 level start, 1 level end, 2 enemy spawn.
pub fn trigger_runtime_kind(kind: LevelTriggerKind) -> (k: u8)
    ensures
        k == spec_trigger_record(kind).0,
{
    match kind {
        LevelTriggerKind::LevelStart => 0,
        LevelTriggerKind::LevelEnd => 1,
        LevelTriggerKind::EnemySpawn { .. } => 2,
    }
}

/// Records non-default metadata for a loaded object (default metadata is not stored).
pub fn push_loaded_meta(
    metadata: &mut Vec<LevelObjectMeta>,
    kind: LevelObjectKind,
    index: usize,
    group_id: u16,
    editor_layer: i16,
)
    ensures
        (group_id == 0 && editor_layer == 0) ==> final(metadata)@ == old(metadata)@,
        !(group_id == 0 && editor_layer == 0) ==> final(metadata)@ == old(metadata)@.push(
            LevelObjectMeta { kind, index, meta: ObjectMeta { group_id, editor_layer } },
        ),
{
    let meta = ObjectMeta { group_id, editor_layer };
    if !meta.is_none() {
        metadata.push(LevelObjectMeta { kind, index, meta });
    }
}

} // verus!
