//! Indexes built from a loaded package for use while a level runs: objects by group,
//! triggers by target group, and the set of resident chunks.
use std::collections::{BTreeMap, BTreeSet};

use vstd::prelude::*;

use crate::chunk::{WorldChunk, WorldChunkModel, group_id_from_surface_meta};
use crate::decimal::{format_u64, spec_format_int};
use crate::error::{LevelPackageError, PackageResult};
use crate::level::LevelObjectKind;
use crate::strutil::push_str;
use crate::package::LevelPackage;
use crate::text_format::{TriggerAnchor, WorldIndex};

verus! {

/// Where an object lives: its chunk, its kind and its index in that chunk's block.
#[derive(Clone, Copy, Debug, PartialEq, Eq, Structural)]
pub struct ObjectHandle {
    pub chunk_id: u32,
    pub kind: LevelObjectKind,
    pub index: u32,
}

/// The objects of each non-zero group, in chunk order and block order.
#[derive(Clone, Debug)]
pub struct GroupIndex {
    pub groups: BTreeMap<u16, Vec<ObjectHandle>>,
}

/// The handles of the objects of one block whose packed meta names group `g` (never group 0).
pub open spec fn block_handles(chunk_id: u32, kind: LevelObjectKind, metas: Seq<u16>, g: u16) -> Seq<
    ObjectHandle,
>
    decreases metas.len(),
{
    if metas.len() == 0 {
        seq![]
    } else {
        block_handles(chunk_id, kind, metas.drop_last(), g) + if g != 0 && metas.last() / 64 == g {
            seq![ObjectHandle { chunk_id, kind, index: (metas.len() - 1) as u32 }]
        } else {
            seq![]
        }
    }
}

/// The handles of group `g` in one chunk, block by block.
pub open spec fn chunk_handles(c: WorldChunkModel, g: u16) -> Seq<ObjectHandle> {
    block_handles(c.chunk_id, LevelObjectKind::Solid, c.static_rects.meta, g) + block_handles(
        c.chunk_id,
        LevelObjectKind::Hazard,
        c.hazard_rects.meta,
        g,
    ) + block_handles(c.chunk_id, LevelObjectKind::Door, c.doors.rects.meta, g) + block_handles(
        c.chunk_id,
        LevelObjectKind::Checkpoint,
        c.checkpoints.meta,
        g,
    ) + block_handles(c.chunk_id, LevelObjectKind::Trigger, c.triggers.rects.meta, g)
        + block_handles(c.chunk_id, LevelObjectKind::Enemy, c.enemy_spawns.meta, g)
        + block_handles(c.chunk_id, LevelObjectKind::Text, c.text_points.meta, g) + block_handles(
        c.chunk_id,
        LevelObjectKind::WorldPortal,
        c.world_portals.meta,
        g,
    )
}

/// The handles of group `g` over all chunks, in order.
pub open spec fn group_handles(chunks: Seq<WorldChunkModel>, g: u16) -> Seq<ObjectHandle>
    decreases chunks.len(),
{
    if chunks.len() == 0 {
        seq![]
    } else {
        group_handles(chunks.drop_last(), g) + chunk_handles(chunks.last(), g)
    }
}

pub open spec fn chunks_view(v: Seq<WorldChunk>) -> Seq<WorldChunkModel> {
    Seq::new(v.len(), |i: int| v[i]@)
}

proof fn lemma_block_handles_zero(chunk_id: u32, kind: LevelObjectKind, metas: Seq<u16>)
    ensures
        block_handles(chunk_id, kind, metas, 0) == Seq::<ObjectHandle>::empty(),
    decreases metas.len(),
{
    if metas.len() > 0 {
        lemma_block_handles_zero(chunk_id, kind, metas.drop_last());
        assert(block_handles(chunk_id, kind, metas.drop_last(), 0) + Seq::<ObjectHandle>::empty()
            =~= Seq::<ObjectHandle>::empty());
    }
}

/// The packed metas of the block of kind `kind` of a chunk.
pub open spec fn kind_metas(c: WorldChunkModel, kind: LevelObjectKind) -> Seq<u16> {
    match kind {
        LevelObjectKind::Solid => c.static_rects.meta,
        LevelObjectKind::Hazard => c.hazard_rects.meta,
        LevelObjectKind::Door => c.doors.rects.meta,
        LevelObjectKind::Checkpoint => c.checkpoints.meta,
        LevelObjectKind::Trigger => c.triggers.rects.meta,
        LevelObjectKind::Enemy => c.enemy_spawns.meta,
        LevelObjectKind::Text => c.text_points.meta,
        LevelObjectKind::WorldPortal => c.world_portals.meta,
    }
}

/// Every block of the chunk has at most `u32::MAX` records, so a `u32` index names each.
pub open spec fn metas_fit(c: WorldChunkModel) -> bool {
    forall|k: LevelObjectKind| #[trigger] kind_metas(c, k).len() <= u32::MAX
}

/// `h` names an object of group `g` in one of the chunks: `g` is not zero, and in a chunk
/// with `h`'s chunk id the record `h.index` of the block of `h.kind` has group `g`.
pub open spec fn names_group_object(cs: Seq<WorldChunkModel>, h: ObjectHandle, g: u16) -> bool {
    g != 0 && exists|k: int|
        0 <= k < cs.len() && (#[trigger] cs[k]).chunk_id == h.chunk_id && h.index < kind_metas(
            cs[k],
            h.kind,
        ).len() && kind_metas(cs[k], h.kind)[h.index as int] / 64 == g
}

proof fn lemma_concat_no_dup(a: Seq<ObjectHandle>, b: Seq<ObjectHandle>)
    requires
        a.no_duplicates(),
        b.no_duplicates(),
        forall|x: ObjectHandle| a.contains(x) ==> !b.contains(x),
    ensures
        (a + b).no_duplicates(),
{
    let c = a + b;
    assert forall|i: int, j: int| 0 <= i < c.len() && 0 <= j < c.len() && i != j implies c[i] != c[j] by {
        if i < a.len() && j >= a.len() {
            assert(a.contains(c[i]));
            assert(b.contains(c[j]));
        } else if j < a.len() && i >= a.len() {
            assert(a.contains(c[j]));
            assert(b.contains(c[i]));
        } else if i >= a.len() && j >= a.len() {
            assert(c[i] == b[i - a.len()] && c[j] == b[j - a.len()]);
        }
    }
}

proof fn lemma_block_members(chunk_id: u32, kind: LevelObjectKind, metas: Seq<u16>, g: u16)
    requires
        metas.len() <= u32::MAX,
    ensures
        forall|h: ObjectHandle| #[trigger]
            block_handles(chunk_id, kind, metas, g).contains(h) <==> (h.chunk_id == chunk_id
                && h.kind == kind && h.index < metas.len() && g != 0 && metas[h.index as int] / 64
                == g),
        block_handles(chunk_id, kind, metas, g).no_duplicates(),
    decreases metas.len(),
{
    if metas.len() > 0 {
        let m1 = metas.drop_last();
        lemma_block_members(chunk_id, kind, m1, g);
        let prev = block_handles(chunk_id, kind, m1, g);
        let b = block_handles(chunk_id, kind, metas, g);
        let last = ObjectHandle { chunk_id, kind, index: (metas.len() - 1) as u32 };
        if g != 0 && metas.last() / 64 == g {
            assert(b =~= prev.push(last));
            assert(!prev.contains(last));
            assert forall|h: ObjectHandle| #[trigger] b.contains(h) <==> (h.chunk_id == chunk_id
                && h.kind == kind && h.index < metas.len() && g != 0 && metas[h.index as int] / 64
                == g) by {
                if b.contains(h) {
                    let i = choose|i: int| 0 <= i < b.len() && b[i] == h;
                    if i < prev.len() {
                        assert(prev.contains(h));
                    }
                }
                if h.chunk_id == chunk_id && h.kind == kind && h.index < metas.len() && g != 0
                    && metas[h.index as int] / 64 == g {
                    if h.index < m1.len() {
                        assert(m1[h.index as int] == metas[h.index as int]);
                        assert(prev.contains(h));
                        let i = choose|i: int| 0 <= i < prev.len() && prev[i] == h;
                        assert(b[i] == h);
                    } else {
                        assert(h == last);
                        assert(b[prev.len() as int] == h);
                    }
                }
            }
            lemma_concat_no_dup(prev, seq![last]);
            assert(prev + seq![last] =~= b);
        } else {
            assert(b =~= prev);
            assert forall|h: ObjectHandle| #[trigger] b.contains(h) <==> (h.chunk_id == chunk_id
                && h.kind == kind && h.index < metas.len() && g != 0 && metas[h.index as int] / 64
                == g) by {
                if h.index < m1.len() {
                    assert(m1[h.index as int] == metas[h.index as int]);
                }
            }
        }
    }
}

proof fn lemma_chunk_members(c: WorldChunkModel, g: u16)
    requires
        metas_fit(c),
    ensures
        forall|h: ObjectHandle| #[trigger]
            chunk_handles(c, g).contains(h) <==> (h.chunk_id == c.chunk_id && h.index
                < kind_metas(c, h.kind).len() && g != 0 && kind_metas(c, h.kind)[h.index as int]
                / 64 == g),
        chunk_handles(c, g).no_duplicates(),
{
    assert(kind_metas(c, LevelObjectKind::Solid).len() <= u32::MAX);
    assert(kind_metas(c, LevelObjectKind::Hazard).len() <= u32::MAX);
    assert(kind_metas(c, LevelObjectKind::Door).len() <= u32::MAX);
    assert(kind_metas(c, LevelObjectKind::Checkpoint).len() <= u32::MAX);
    assert(kind_metas(c, LevelObjectKind::Trigger).len() <= u32::MAX);
    assert(kind_metas(c, LevelObjectKind::Enemy).len() <= u32::MAX);
    assert(kind_metas(c, LevelObjectKind::Text).len() <= u32::MAX);
    assert(kind_metas(c, LevelObjectKind::WorldPortal).len() <= u32::MAX);
    let b0 = block_handles(c.chunk_id, LevelObjectKind::Solid, c.static_rects.meta, g);
    let b1 = block_handles(c.chunk_id, LevelObjectKind::Hazard, c.hazard_rects.meta, g);
    let b2 = block_handles(c.chunk_id, LevelObjectKind::Door, c.doors.rects.meta, g);
    let b3 = block_handles(c.chunk_id, LevelObjectKind::Checkpoint, c.checkpoints.meta, g);
    let b4 = block_handles(c.chunk_id, LevelObjectKind::Trigger, c.triggers.rects.meta, g);
    let b5 = block_handles(c.chunk_id, LevelObjectKind::Enemy, c.enemy_spawns.meta, g);
    let b6 = block_handles(c.chunk_id, LevelObjectKind::Text, c.text_points.meta, g);
    let b7 = block_handles(c.chunk_id, LevelObjectKind::WorldPortal, c.world_portals.meta, g);
    lemma_block_members(c.chunk_id, LevelObjectKind::Solid, c.static_rects.meta, g);
    lemma_block_members(c.chunk_id, LevelObjectKind::Hazard, c.hazard_rects.meta, g);
    lemma_block_members(c.chunk_id, LevelObjectKind::Door, c.doors.rects.meta, g);
    lemma_block_members(c.chunk_id, LevelObjectKind::Checkpoint, c.checkpoints.meta, g);
    lemma_block_members(c.chunk_id, LevelObjectKind::Trigger, c.triggers.rects.meta, g);
    lemma_block_members(c.chunk_id, LevelObjectKind::Enemy, c.enemy_spawns.meta, g);
    lemma_block_members(c.chunk_id, LevelObjectKind::Text, c.text_points.meta, g);
    lemma_block_members(c.chunk_id, LevelObjectKind::WorldPortal, c.world_portals.meta, g);
    let a1 = b0 + b1;
    let a2 = a1 + b2;
    let a3 = a2 + b3;
    let a4 = a3 + b4;
    let a5 = a4 + b5;
    let a6 = a5 + b6;
    let a7 = a6 + b7;
    assert(chunk_handles(c, g) == a7);
    lemma_concat_members(b0, b1);
    lemma_concat_no_dup(b0, b1);
    lemma_concat_members(a1, b2);
    lemma_concat_no_dup(a1, b2);
    lemma_concat_members(a2, b3);
    lemma_concat_no_dup(a2, b3);
    lemma_concat_members(a3, b4);
    lemma_concat_no_dup(a3, b4);
    lemma_concat_members(a4, b5);
    lemma_concat_no_dup(a4, b5);
    lemma_concat_members(a5, b6);
    lemma_concat_no_dup(a5, b6);
    lemma_concat_members(a6, b7);
    lemma_concat_no_dup(a6, b7);
    assert forall|h: ObjectHandle| #[trigger] a7.contains(h) <==> (h.chunk_id == c.chunk_id
        && h.index < kind_metas(c, h.kind).len() && g != 0 && kind_metas(c, h.kind)[h.index as int]
        / 64 == g) by {
        lemma_concat_members(b0, b1);
    }
}

proof fn lemma_concat_members(a: Seq<ObjectHandle>, b: Seq<ObjectHandle>)
    ensures
        forall|x: ObjectHandle| #[trigger] (a + b).contains(x) <==> (a.contains(x) || b.contains(x)),
{
    assert forall|x: ObjectHandle| #[trigger] (a + b).contains(x) <==> (a.contains(x) || b.contains(x)) by {
        let c = a + b;
        if c.contains(x) {
            let i = choose|i: int| 0 <= i < c.len() && c[i] == x;
            if i >= a.len() {
                assert(b[i - a.len()] == x);
            }
        }
        if a.contains(x) {
            let i = choose|i: int| 0 <= i < a.len() && a[i] == x;
            assert(c[i] == x);
        }
        if b.contains(x) {
            let i = choose|i: int| 0 <= i < b.len() && b[i] == x;
            assert(c[i + a.len()] == x);
        }
    }
}

/// The objects listed for group `g` are exactly the objects of group `g`: a handle is listed
/// when `g` is not zero and the record it names carries group `g`. When the chunks have
/// distinct ids, each object is listed once.
pub proof fn lemma_group_index_law(cs: Seq<WorldChunkModel>, g: u16)
    requires
        forall|k: int| 0 <= k < cs.len() ==> metas_fit(#[trigger] cs[k]),
    ensures
        forall|h: ObjectHandle| #[trigger]
            group_handles(cs, g).contains(h) <==> names_group_object(cs, h, g),
        (forall|i: int, j: int| 0 <= i < j < cs.len() ==> cs[i].chunk_id != cs[j].chunk_id)
            ==> group_handles(cs, g).no_duplicates(),
    decreases cs.len(),
{
    if cs.len() > 0 {
        let c0 = cs.drop_last();
        assert forall|k: int| 0 <= k < c0.len() implies metas_fit(#[trigger] c0[k]) by {
            assert(c0[k] == cs[k]);
        }
        lemma_group_index_law(c0, g);
        let c = cs.last();
        assert(metas_fit(cs[cs.len() - 1]));
        lemma_chunk_members(c, g);
        lemma_concat_members(group_handles(c0, g), chunk_handles(c, g));
        assert forall|h: ObjectHandle| #[trigger]
            group_handles(cs, g).contains(h) <==> names_group_object(cs, h, g) by {
            if names_group_object(cs, h, g) {
                let k = choose|k: int|
                    0 <= k < cs.len() && (#[trigger] cs[k]).chunk_id == h.chunk_id && h.index
                        < kind_metas(cs[k], h.kind).len() && kind_metas(cs[k], h.kind)[h.index as int]
                        / 64 == g;
                if k < c0.len() {
                    assert(c0[k] == cs[k]);
                    assert(names_group_object(c0, h, g));
                } else {
                    assert(cs[k] == c);
                }
            }
            if names_group_object(c0, h, g) {
                let k = choose|k: int|
                    0 <= k < c0.len() && (#[trigger] c0[k]).chunk_id == h.chunk_id && h.index
                        < kind_metas(c0[k], h.kind).len() && kind_metas(c0[k], h.kind)[h.index as int]
                        / 64 == g;
                assert(cs[k] == c0[k]);
            }
            if chunk_handles(c, g).contains(h) {
                assert(cs[cs.len() - 1] == c);
            }
        }
        if forall|i: int, j: int| 0 <= i < j < cs.len() ==> cs[i].chunk_id != cs[j].chunk_id {
            assert forall|i: int, j: int| 0 <= i < j < c0.len() implies c0[i].chunk_id
                != c0[j].chunk_id by {
                assert(c0[i] == cs[i] && c0[j] == cs[j]);
            }
            assert forall|x: ObjectHandle| group_handles(c0, g).contains(x) implies !chunk_handles(
                c,
                g,
            ).contains(x) by {
                assert(names_group_object(c0, x, g));
                let k = choose|k: int|
                    0 <= k < c0.len() && (#[trigger] c0[k]).chunk_id == x.chunk_id && x.index
                        < kind_metas(c0[k], x.kind).len() && kind_metas(c0[k], x.kind)[x.index as int]
                        / 64 == g;
                assert(cs[k] == c0[k]);
                assert(cs[k].chunk_id != cs[cs.len() - 1].chunk_id);
            }
            lemma_concat_no_dup(group_handles(c0, g), chunk_handles(c, g));
        }
    }
}

impl GroupIndex {
    /// The objects of group `g`; none for a group that has no object.
    pub open spec fn handles_of(&self, g: u16) -> Seq<ObjectHandle> {
        if self.groups@.contains_key(g) {
            self.groups@[g]@
        } else {
            seq![]
        }
    }

    /// Collects the objects of every non-zero group over `chunks`.
    pub fn from_chunks(chunks: &[WorldChunk]) -> (res: Self)
        ensures
            forall|g: u16| #[trigger]
                res.handles_of(g) == group_handles(chunks_view(chunks@), g),
            forall|g: u16| #[trigger]
                res.groups@.contains_key(g) == (group_handles(chunks_view(chunks@), g).len() > 0),
            !res.groups@.contains_key(0),
            (forall|k: int| 0 <= k < chunks@.len() ==> metas_fit(#[trigger] chunks@[k]@)) ==> forall|
                g: u16,
                h: ObjectHandle,
            | #[trigger] res.handles_of(g).contains(h) <==> names_group_object(
                chunks_view(chunks@),
                h,
                g,
            ),
    {
        let mut index = GroupIndex { groups: BTreeMap::new() };
        let ghost cv = chunks_view(chunks@);
        let mut i: usize = 0;
        while i < chunks.len()
            invariant
                cv == chunks_view(chunks@),
                i <= chunks@.len(),
                forall|g: u16| #[trigger]
                    index.handles_of(g) == group_handles(cv.take(i as int), g),
                forall|g: u16| #[trigger]
                    index.groups@.contains_key(g) == (group_handles(cv.take(i as int), g).len() > 0),
            decreases chunks@.len() - i,
        {
            let chunk = &chunks[i];
            let ghost c = chunk@;
            let ghost before = index;
            index.add_rect_block(chunk.chunk_id, LevelObjectKind::Solid, chunk.static_rects.meta.as_slice());
            index.add_rect_block(chunk.chunk_id, LevelObjectKind::Hazard, chunk.hazard_rects.meta.as_slice());
            index.add_rect_block(chunk.chunk_id, LevelObjectKind::Door, chunk.doors.rects.meta.as_slice());
            index.add_rect_block(
                chunk.chunk_id,
                LevelObjectKind::Checkpoint,
                chunk.checkpoints.meta.as_slice(),
            );
            index.add_rect_block(chunk.chunk_id, LevelObjectKind::Trigger, chunk.triggers.rects.meta.as_slice());
            index.add_rect_block(chunk.chunk_id, LevelObjectKind::Enemy, chunk.enemy_spawns.meta.as_slice());
            index.add_rect_block(chunk.chunk_id, LevelObjectKind::Text, chunk.text_points.meta.as_slice());
            index.add_rect_block(
                chunk.chunk_id,
                LevelObjectKind::WorldPortal,
                chunk.world_portals.meta.as_slice(),
            );
            proof {
                assert(cv.take(i + 1).drop_last() =~= cv.take(i as int));
                assert(cv.take(i + 1).last() == c);
                assert forall|g: u16| #[trigger]
                    index.handles_of(g) == group_handles(cv.take(i + 1), g) by {
                    assert(group_handles(cv.take(i + 1), g) == group_handles(cv.take(i as int), g)
                        + chunk_handles(c, g));
                    assert(before.handles_of(g) + chunk_handles(c, g) =~= index.handles_of(g));
                }
                assert forall|g: u16| #[trigger]
                    index.groups@.contains_key(g) == (group_handles(cv.take(i + 1), g).len() > 0) by {
                    assert(group_handles(cv.take(i + 1), g) == group_handles(cv.take(i as int), g)
                        + chunk_handles(c, g));
                }
            }
            i = i + 1;
        }
        proof {
            assert(cv.take(i as int) =~= cv);
            assert(group_handles(cv, 0).len() == 0) by {
                lemma_group_handles_zero(cv);
            }
        }
        proof {
            if forall|k: int| 0 <= k < chunks@.len() ==> metas_fit(#[trigger] chunks@[k]@) {
                assert forall|k: int| 0 <= k < cv.len() implies metas_fit(#[trigger] cv[k]) by {
                    assert(cv[k] == chunks@[k]@);
                }
                assert forall|g: u16, h: ObjectHandle| #[trigger] index.handles_of(g).contains(h)
                    <==> names_group_object(cv, h, g) by {
                    lemma_group_index_law(cv, g);
                }
            }
        }
        index
    }

    /// The objects of group `group_id`, in chunk order.
    pub fn handles(&self, group_id: u16) -> (res: &[ObjectHandle])
        ensures
            res@ == self.handles_of(group_id),
    {
        proof {
            lemma_u16_keys_ordered();
        }
        match self.groups.get(&group_id) {
            Some(v) => v.as_slice(),
            None => &[],
        }
    }

    /// Whether group `group_id` has objects.
    pub fn contains_group(&self, group_id: u16) -> (b: bool)
        ensures
            b == self.groups@.contains_key(group_id),
    {
        proof {
            lemma_u16_keys_ordered();
        }
        self.groups.contains_key(&group_id)
    }

    fn add_rect_block(&mut self, chunk_id: u32, kind: LevelObjectKind, metas: &[u16])
        requires
            forall|g: u16| #[trigger]
                old(self).groups@.contains_key(g) == (old(self).handles_of(g).len() > 0),
        ensures
            forall|g: u16| #[trigger]
                final(self).handles_of(g) == old(self).handles_of(g) + block_handles(
                    chunk_id,
                    kind,
                    metas@,
                    g,
                ),
            forall|g: u16| #[trigger]
                final(self).groups@.contains_key(g) == (final(self).handles_of(g).len() > 0),
    {
        proof {
            lemma_u16_keys_ordered();
        }
        let ghost start = *self;
        let mut i: usize = 0;
        while i < metas.len()
            invariant
                i <= metas@.len(),
                forall|g: u16| #[trigger]
                    self.handles_of(g) == start.handles_of(g) + block_handles(
                        chunk_id,
                        kind,
                        metas@.take(i as int),
                        g,
                    ),
                forall|g: u16| #[trigger]
                    self.groups@.contains_key(g) == (self.handles_of(g).len() > 0),
            decreases metas@.len() - i,
        {
            let group_id = group_id_from_surface_meta(metas[i]);
            let ghost before = *self;
            let ghost t = metas@.take(i + 1);
            assert(t.drop_last() =~= metas@.take(i as int));
            assert(t.last() == metas@[i as int]);
            if group_id != 0 {
                let handle = ObjectHandle { chunk_id, kind, index: i as u32 };
                let mut list = match self.groups.remove(&group_id) {
                    Some(v) => v,
                    None => Vec::new(),
                };
                assert(list@ == before.handles_of(group_id));
                list.push(handle);
                self.groups.insert(group_id, list);
                proof {
                    assert forall|g: u16| #[trigger]
                        self.handles_of(g) == start.handles_of(g) + block_handles(
                            chunk_id,
                            kind,
                            t,
                            g,
                        ) by {
                        if g == group_id {
                            assert(start.handles_of(g) + block_handles(chunk_id, kind, t, g)
                                =~= before.handles_of(g).push(handle));
                        } else {
                            assert(block_handles(chunk_id, kind, t, g) =~= block_handles(
                                chunk_id,
                                kind,
                                metas@.take(i as int),
                                g,
                            ));
                        }
                    }
                    assert forall|g: u16| #[trigger]
                        self.groups@.contains_key(g) == (self.handles_of(g).len() > 0) by {
                        if g == group_id {
                            assert(self.handles_of(g).len() > 0);
                        }
                    }
                }
            } else {
                proof {
                    assert forall|g: u16| #[trigger]
                        self.handles_of(g) == start.handles_of(g) + block_handles(
                            chunk_id,
                            kind,
                            t,
                            g,
                        ) by {
                        assert(block_handles(chunk_id, kind, t, g) =~= block_handles(
                            chunk_id,
                            kind,
                            metas@.take(i as int),
                            g,
                        ));
                    }
                }
            }
            i = i + 1;
        }
        assert(metas@.take(metas@.len() as int) =~= metas@);
    }
}

/// `u16` keys obey the ordering laws the standard maps and sets rely on.
pub open spec fn u16_keys_ordered() -> bool {
    vstd::laws_cmp::obeys_cmp::<u16>()
}

proof fn lemma_u16_keys_ordered()
    ensures
        u16_keys_ordered(),
{
    broadcast use vstd::laws_cmp::group_laws_cmp;
}

proof fn lemma_group_handles_zero(chunks: Seq<WorldChunkModel>)
    ensures
        group_handles(chunks, 0).len() == 0,
    decreases chunks.len(),
{
    if chunks.len() > 0 {
        lemma_group_handles_zero(chunks.drop_last());
        let c = chunks.last();
        lemma_block_handles_zero(c.chunk_id, LevelObjectKind::Solid, c.static_rects.meta);
        lemma_block_handles_zero(c.chunk_id, LevelObjectKind::Hazard, c.hazard_rects.meta);
        lemma_block_handles_zero(c.chunk_id, LevelObjectKind::Door, c.doors.rects.meta);
        lemma_block_handles_zero(c.chunk_id, LevelObjectKind::Checkpoint, c.checkpoints.meta);
        lemma_block_handles_zero(c.chunk_id, LevelObjectKind::Trigger, c.triggers.rects.meta);
        lemma_block_handles_zero(c.chunk_id, LevelObjectKind::Enemy, c.enemy_spawns.meta);
        lemma_block_handles_zero(c.chunk_id, LevelObjectKind::Text, c.text_points.meta);
        lemma_block_handles_zero(c.chunk_id, LevelObjectKind::WorldPortal, c.world_portals.meta);
    }
}

// ---------------------------------------------------------------------------
// Triggers.

/// A trigger as the running level sees it.
#[derive(Clone, Copy, Debug, PartialEq, Eq, Structural)]
pub struct TriggerRuntimeEntry {
    pub trigger_id: u16,
    pub source_chunk: u32,
    pub target_group: u16,
    pub kind: u8,
}

/// The triggers of a level, in index order.
#[derive(Clone, Debug)]
pub struct TriggerIndex {
    pub triggers: Vec<TriggerRuntimeEntry>,
}

pub open spec fn runtime_entry(t: TriggerAnchor) -> TriggerRuntimeEntry {
    TriggerRuntimeEntry {
        trigger_id: t.trigger_id,
        source_chunk: t.source_chunk,
        target_group: t.target_group,
        kind: t.kind,
    }
}

pub open spec fn runtime_entries(ts: Seq<TriggerAnchor>) -> Seq<TriggerRuntimeEntry> {
    Seq::new(ts.len(), |i: int| runtime_entry(ts[i]))
}

/// The position of the first trigger whose id an earlier trigger already uses.
pub open spec fn first_duplicate(ts: Seq<TriggerAnchor>) -> Option<int>
    decreases ts.len(),
{
    if ts.len() == 0 {
        None
    } else {
        match first_duplicate(ts.drop_last()) {
            Some(j) => Some(j),
            None => if exists|i: int|
                0 <= i < ts.len() - 1 && #[trigger] ts[i].trigger_id == ts.last().trigger_id {
                Some(ts.len() - 1)
            } else {
                None
            },
        }
    }
}

pub open spec fn duplicate_message(id: u16) -> Seq<char> {
    "duplicate trigger_id "@ + spec_format_int(id as int) + " in world.index"@
}

/// The triggers of `ts` aimed at `target_group`; none for group 0.
pub open spec fn targeting(ts: Seq<TriggerRuntimeEntry>, target_group: u16) -> Seq<TriggerRuntimeEntry>
    decreases ts.len(),
{
    if ts.len() == 0 {
        seq![]
    } else {
        targeting(ts.drop_last(), target_group) + if target_group != 0 && ts.last().target_group
            == target_group {
            seq![ts.last()]
        } else {
            seq![]
        }
    }
}

/// The triggers of `ts` aimed at `target_group` are the triggers of `ts` kept by the filter
/// `target_group != 0 && t.target_group == target_group`, in the order of `ts`: a trigger is
/// listed exactly when it is in `ts` and aims at that (non-zero) group.
pub proof fn lemma_targeting_is_filter(ts: Seq<TriggerRuntimeEntry>, target_group: u16)
    ensures
        targeting(ts, target_group) == ts.filter(
            |t: TriggerRuntimeEntry| target_group != 0 && t.target_group == target_group,
        ),
        forall|t: TriggerRuntimeEntry| #[trigger]
            targeting(ts, target_group).contains(t) <==> (ts.contains(t) && target_group != 0
                && t.target_group == target_group),
    decreases ts.len(),
{
    reveal(Seq::filter);
    let pred = |t: TriggerRuntimeEntry| target_group != 0 && t.target_group == target_group;
    if ts.len() > 0 {
        let t0 = ts.drop_last();
        lemma_targeting_is_filter(t0, target_group);
        let r = targeting(ts, target_group);
        let r0 = targeting(t0, target_group);
        if pred(ts.last()) {
            assert(r =~= r0.push(ts.last()));
        } else {
            assert(r =~= r0);
        }
        assert forall|t: TriggerRuntimeEntry| #[trigger] r.contains(t) <==> (ts.contains(t)
            && target_group != 0 && t.target_group == target_group) by {
            if r.contains(t) {
                let i = choose|i: int| 0 <= i < r.len() && r[i] == t;
                if i < r0.len() {
                    assert(r0.contains(t));
                    let j = choose|j: int| 0 <= j < t0.len() && t0[j] == t;
                    assert(ts[j] == t);
                } else {
                    assert(ts[ts.len() - 1] == t);
                }
            }
            if ts.contains(t) && target_group != 0 && t.target_group == target_group {
                let j = choose|j: int| 0 <= j < ts.len() && ts[j] == t;
                if j < t0.len() {
                    assert(t0[j] == t);
                    assert(r0.contains(t));
                    let i = choose|i: int| 0 <= i < r0.len() && r0[i] == t;
                    assert(r[i] == t);
                } else {
                    assert(r[r0.len() as int] == t);
                }
            }
        }
    }
}

impl TriggerIndex {
    /// The triggers of a world index; an error names the first trigger id used twice.
    pub fn from_world_index(index: &WorldIndex) -> (res: PackageResult<TriggerIndex>)
        ensures
            match first_duplicate(index.triggers@) {
                Some(j) => res matches Err(LevelPackageError::InvalidData(e)) && e@
                    == duplicate_message(index.triggers@[j].trigger_id),
                None => res matches Ok(t) && t.triggers@ == runtime_entries(index.triggers@),
            },
    {
        proof {
            lemma_u16_keys_ordered();
        }
        let ghost ts = index.triggers@;
        let mut seen: BTreeSet<u16> = BTreeSet::new();
        let mut triggers: Vec<TriggerRuntimeEntry> = Vec::new();
        let mut i: usize = 0;
        while i < index.triggers.len()
            invariant
                ts == index.triggers@,
                u16_keys_ordered(),
                i <= ts.len(),
                first_duplicate(ts.take(i as int)) is None,
                forall|id: u16| #[trigger]
                    seen@.contains(id) == exists|k: int| 0 <= k < i && #[trigger] ts[k].trigger_id == id,
                triggers@ == runtime_entries(ts.take(i as int)),
            decreases ts.len() - i,
        {
            let t = index.triggers[i];
            let ghost tk = ts.take(i + 1);
            assert(tk.drop_last() =~= ts.take(i as int));
            assert(tk.last() == t);
            if !seen.insert(t.trigger_id) {
                proof {
                    let k = choose|k: int| 0 <= k < i && #[trigger] ts[k].trigger_id == t.trigger_id;
                    assert(tk[k].trigger_id == tk.last().trigger_id);
                    assert(first_duplicate(tk) == Some(i as int));
                    lemma_first_duplicate_extends(ts, i + 1);
                }
                let id = format_u64(t.trigger_id as u64);
                let mut message = "duplicate trigger_id ".to_string();
                push_str(&mut message, id.as_str());
                push_str(&mut message, " in world.index");
                return Err(LevelPackageError::InvalidData(message));
            }
            proof {
                assert forall|m: int| 0 <= m < tk.len() - 1 implies #[trigger] tk[m].trigger_id
                    != tk.last().trigger_id by {
                    assert(tk[m] == ts[m]);
                }
            }
            triggers.push(
                TriggerRuntimeEntry {
                    trigger_id: t.trigger_id,
                    source_chunk: t.source_chunk,
                    target_group: t.target_group,
                    kind: t.kind,
                },
            );
            assert(triggers@ =~= runtime_entries(tk));
            i = i + 1;
        }
        assert(ts.take(i as int) =~= ts);
        Ok(TriggerIndex { triggers })
    }

    /// The triggers of a loaded package's index.
    pub fn from_package(package: &LevelPackage) -> (res: PackageResult<TriggerIndex>)
        ensures
            match first_duplicate(package.index.triggers@) {
                Some(j) => res matches Err(LevelPackageError::InvalidData(e)) && e@
                    == duplicate_message(package.index.triggers@[j].trigger_id),
                None => res matches Ok(t) && t.triggers@ == runtime_entries(package.index.triggers@),
            },
    {
        TriggerIndex::from_world_index(&package.index)
    }

    /// The triggers aimed at `target_group`, in order; none for group 0.
    pub fn for_target_group(&self, target_group: u16) -> (res: Vec<TriggerRuntimeEntry>)
        ensures
            res@ == targeting(self.triggers@, target_group),
            res@ == self.triggers@.filter(
                |t: TriggerRuntimeEntry| target_group != 0 && t.target_group == target_group,
            ),
            forall|t: TriggerRuntimeEntry| #[trigger]
                res@.contains(t) <==> (self.triggers@.contains(t) && target_group != 0
                    && t.target_group == target_group),
    {
        proof {
            lemma_targeting_is_filter(self.triggers@, target_group);
        }
        let mut out: Vec<TriggerRuntimeEntry> = Vec::new();
        let mut i: usize = 0;
        while i < self.triggers.len()
            invariant
                i <= self.triggers@.len(),
                out@ == targeting(self.triggers@.take(i as int), target_group),
            decreases self.triggers@.len() - i,
        {
            let t = self.triggers[i];
            assert(self.triggers@.take(i + 1).drop_last() =~= self.triggers@.take(i as int));
            if target_group != 0 && t.target_group == target_group {
                out.push(t);
            }
            assert(out@ =~= targeting(self.triggers@.take(i + 1), target_group));
            i = i + 1;
        }
        assert(self.triggers@.take(i as int) =~= self.triggers@);
        out
    }
}

proof fn lemma_first_duplicate_extends(ts: Seq<TriggerAnchor>, j: int)
    requires
        0 <= j <= ts.len(),
        first_duplicate(ts.take(j)) is Some,
    ensures
        first_duplicate(ts) == first_duplicate(ts.take(j)),
    decreases ts.len() - j,
{
    if j < ts.len() {
        assert(ts.take(j + 1).drop_last() =~= ts.take(j));
        lemma_first_duplicate_extends(ts, j + 1);
    } else {
        assert(ts.take(j) =~= ts);
    }
}

// ---------------------------------------------------------------------------
// Resident chunks.

/// Strictly increasing, hence free of repeats.
pub open spec fn strictly_increasing(s: Seq<u32>) -> bool {
    forall|i: int, j: int| 0 <= i < j < s.len() ==> s[i] < s[j]
}

/// The chunks to keep loaded: those visible and those simulated, each once, in increasing
/// order.
#[derive(Clone, Debug)]
pub struct ChunkResidentSet {
    pub chunks: Vec<u32>,
}

fn insert_sorted(v: &mut Vec<u32>, x: u32)
    requires
        strictly_increasing(old(v)@),
    ensures
        strictly_increasing(final(v)@),
        forall|y: u32| #[trigger] final(v)@.contains(y) == (old(v)@.contains(y) || y == x),
{
    let mut p: usize = 0;
    while p < v.len() && v[p] < x
        invariant
            p <= v@.len(),
            forall|k: int| 0 <= k < p ==> v@[k] < x,
        decreases v@.len() - p,
    {
        p = p + 1;
    }
    if p < v.len() && v[p] == x {
        return;
    }
    let ghost old_v = v@;
    v.insert(p, x);
    assert(v@ == old_v.insert(p as int, x));
    assert forall|y: u32| #[trigger] v@.contains(y) == (old_v.contains(y) || y == x) by {
        if v@.contains(y) {
            let k = choose|k: int| 0 <= k < v@.len() && v@[k] == y;
            if k < p {
                assert(old_v[k] == y);
            } else if k > p {
                assert(old_v[k - 1] == y);
            }
        }
        if old_v.contains(y) {
            let k = choose|k: int| 0 <= k < old_v.len() && old_v[k] == y;
            if k < p {
                assert(v@[k] == y);
            } else {
                assert(v@[k + 1] == y);
            }
        }
        if y == x {
            assert(v@[p as int] == x);
        }
    }
}

impl ChunkResidentSet {
    /// The union of the visible and the simulated chunks, sorted and without repeats.
    pub fn union(render_chunks: &[u32], simulation_chunks: &[u32]) -> (res: Self)
        ensures
            strictly_increasing(res.chunks@),
            forall|c: u32| #[trigger]
                res.chunks@.contains(c) == (render_chunks@.contains(c)
                    || simulation_chunks@.contains(c)),
    {
        let mut chunks: Vec<u32> = Vec::new();
        let mut i: usize = 0;
        while i < render_chunks.len()
            invariant
                i <= render_chunks@.len(),
                strictly_increasing(chunks@),
                forall|c: u32| #[trigger] chunks@.contains(c) == render_chunks@.take(i as int).contains(c),
            decreases render_chunks@.len() - i,
        {
            insert_sorted(&mut chunks, render_chunks[i]);
            proof {
                let t = render_chunks@.take(i + 1);
                assert(t =~= render_chunks@.take(i as int).push(render_chunks@[i as int]));
                assert forall|c: u32| #[trigger] chunks@.contains(c) == t.contains(c) by {
                    if t.contains(c) {
                        let k = choose|k: int| 0 <= k < t.len() && t[k] == c;
                        if k < i {
                            assert(render_chunks@.take(i as int)[k] == c);
                        }
                    }
                    if render_chunks@.take(i as int).contains(c) {
                        let k = choose|k: int| 0 <= k < i && render_chunks@.take(i as int)[k] == c;
                        assert(t[k] == c);
                    }
                    if c == render_chunks@[i as int] {
                        assert(t[i as int] == c);
                    }
                }
            }
            i = i + 1;
        }
        assert(render_chunks@.take(i as int) =~= render_chunks@);
        let mut j: usize = 0;
        while j < simulation_chunks.len()
            invariant
                j <= simulation_chunks@.len(),
                strictly_increasing(chunks@),
                forall|c: u32| #[trigger]
                    chunks@.contains(c) == (render_chunks@.contains(c)
                        || simulation_chunks@.take(j as int).contains(c)),
            decreases simulation_chunks@.len() - j,
        {
            insert_sorted(&mut chunks, simulation_chunks[j]);
            proof {
                let t = simulation_chunks@.take(j + 1);
                let t0 = simulation_chunks@.take(j as int);
                assert forall|c: u32| #[trigger] chunks@.contains(c) == (render_chunks@.contains(c)
                    || t.contains(c)) by {
                    if t.contains(c) {
                        let k = choose|k: int| 0 <= k < t.len() && t[k] == c;
                        if k < j {
                            assert(t0[k] == c);
                        }
                    }
                    if t0.contains(c) {
                        let k = choose|k: int| 0 <= k < j && t0[k] == c;
                        assert(t[k] == c);
                    }
                    if c == simulation_chunks@[j as int] {
                        assert(t[j as int] == c);
                    }
                }
            }
            j = j + 1;
        }
        assert(simulation_chunks@.take(j as int) =~= simulation_chunks@);
        ChunkResidentSet { chunks }
    }
}

// ---------------------------------------------------------------------------
// Authoring and asset records.

/// What a checkpoint keeps of the running level.
#[derive(Clone, Debug, Default)]
pub struct CheckpointSnapshot {
    pub object_state_handles: Vec<u64>,
    pub persistent_flags: BTreeSet<String>,
}

/// The editable source of a level.
#[derive(Clone, Debug, Default)]
pub struct AuthoringWorld {
    pub source_level: String,
}

/// The name of an asset a level refers to.
#[derive(Clone, Debug, PartialEq, Eq, PartialOrd, Ord, Hash)]
pub struct LevelAssetId(pub String);

#[derive(Clone, Debug, PartialEq, Eq)]
pub struct AssetHandle {
    pub id: LevelAssetId,
}

/// The assets of a level by name.
#[derive(Clone, Debug, Default)]
pub struct LevelAssetResolver {
    pub assets: BTreeMap<LevelAssetId, AssetHandle>,
}

#[derive(Clone, Debug, PartialEq, Eq)]
pub struct MusicCue {
    pub id: LevelAssetId,
}

// ---------------------------------------------------------------------------
// World portals.

/// The first chunk with id `id`.
pub open spec fn first_chunk_with_id(chunks: Seq<WorldChunk>, id: u32) -> Option<int>
    decreases chunks.len(),
{
    if chunks.len() == 0 {
        None
    } else {
        match first_chunk_with_id(chunks.drop_last(), id) {
            Some(i) => Some(i),
            None => if chunks.last().chunk_id == id {
                Some(chunks.len() - 1)
            } else {
                None
            },
        }
    }
}

/// The first position in `ids` holding `id`.
pub open spec fn first_position(ids: Seq<u16>, id: u16) -> Option<int>
    decreases ids.len(),
{
    if ids.len() == 0 {
        None
    } else {
        match first_position(ids.drop_last(), id) {
            Some(i) => Some(i),
            None => if ids.last() == id {
                Some(ids.len() - 1)
            } else {
                None
            },
        }
    }
}

pub open spec fn missing_chunk_message(portal_id: u16, source_chunk: u32) -> Seq<char> {
    "world portal "@ + spec_format_int(portal_id as int) + " references missing source chunk "@
        + spec_format_int(source_chunk as int)
}

pub open spec fn missing_portal_message(portal_id: u16, source_chunk: u32) -> Seq<char> {
    "world portal "@ + spec_format_int(portal_id as int) + " not found in source chunk "@
        + spec_format_int(source_chunk as int)
}

proof fn lemma_first_chunk_extends(chunks: Seq<WorldChunk>, id: u32, j: int)
    requires
        0 <= j <= chunks.len(),
        first_chunk_with_id(chunks.take(j), id) is Some,
    ensures
        first_chunk_with_id(chunks, id) == first_chunk_with_id(chunks.take(j), id),
    decreases chunks.len() - j,
{
    if j < chunks.len() {
        assert(chunks.take(j + 1).drop_last() =~= chunks.take(j));
        lemma_first_chunk_extends(chunks, id, j + 1);
    } else {
        assert(chunks.take(j) =~= chunks);
    }
}

proof fn lemma_first_position_extends(ids: Seq<u16>, id: u16, j: int)
    requires
        0 <= j <= ids.len(),
        first_position(ids.take(j), id) is Some,
    ensures
        first_position(ids, id) == first_position(ids.take(j), id),
    decreases ids.len() - j,
{
    if j < ids.len() {
        assert(ids.take(j + 1).drop_last() =~= ids.take(j));
        lemma_first_position_extends(ids, id, j + 1);
    } else {
        assert(ids.take(j) =~= ids);
    }
}

fn portal_message(portal_id: u16, middle: &str, source_chunk: u32) -> (res: String)
    ensures
        res@ == "world portal "@ + spec_format_int(portal_id as int) + middle@ + spec_format_int(
            source_chunk as int,
        ),
{
    let mut out = "world portal ".to_string();
    let a = format_u64(portal_id as u64);
    push_str(&mut out, a.as_str());
    push_str(&mut out, middle);
    let b = format_u64(source_chunk as u64);
    push_str(&mut out, b.as_str());
    out
}

/// Finds a world portal of the index among the loaded chunks: the position of its source
/// chunk (the first with that id) and the position of the portal in that chunk's portal
/// block (the first with that id).
pub fn locate_world_portal(chunks: &[WorldChunk], portal_id: u16, source_chunk: u32) -> (res:
    PackageResult<(usize, usize)>)
    requires
        forall|i: int|
            0 <= i < chunks@.len() ==> (#[trigger] chunks@[i]).world_portals.portal_id@.len()
                == chunks@[i].world_portals.x@.len(),
    ensures
        match first_chunk_with_id(chunks@, source_chunk) {
            None => res matches Err(LevelPackageError::InvalidData(m)) && m@ == missing_chunk_message(
                portal_id,
                source_chunk,
            ),
            Some(ci) => match first_position(chunks@[ci].world_portals.portal_id@, portal_id) {
                None => res matches Err(LevelPackageError::InvalidData(m)) && m@
                    == missing_portal_message(portal_id, source_chunk),
                Some(pi) => res == Ok::<(usize, usize), LevelPackageError>((ci as usize, pi as usize)),
            },
        },
{
    let mut ci: usize = 0;
    while ci < chunks.len()
        invariant
            ci <= chunks@.len(),
            first_chunk_with_id(chunks@.take(ci as int), source_chunk) is None,
            forall|i: int|
                0 <= i < chunks@.len() ==> (#[trigger] chunks@[i]).world_portals.portal_id@.len()
                    == chunks@[i].world_portals.x@.len(),
        decreases chunks@.len() - ci,
    {
        assert(chunks@.take(ci + 1).drop_last() =~= chunks@.take(ci as int));
        if chunks[ci].chunk_id == source_chunk {
            proof {
                lemma_first_chunk_extends(chunks@, source_chunk, ci + 1);
            }
            let ids = &chunks[ci].world_portals.portal_id;
            let n = chunks[ci].world_portals.x.len();
            assert(chunks@[ci as int].world_portals.portal_id@.len() == n);
            assert(first_chunk_with_id(chunks@, source_chunk) == Some(ci as int));
            let mut pi: usize = 0;
            while pi < n
                invariant
                    n == ids@.len(),
                    ids@ == chunks@[ci as int].world_portals.portal_id@,
                    first_chunk_with_id(chunks@, source_chunk) == Some(ci as int),
                    pi <= n,
                    first_position(ids@.take(pi as int), portal_id) is None,
                decreases n - pi,
            {
                assert(ids@.take(pi + 1).drop_last() =~= ids@.take(pi as int));
                if ids[pi] == portal_id {
                    proof {
                        lemma_first_position_extends(ids@, portal_id, pi + 1);
                    }
                    return Ok((ci, pi));
                }
                pi = pi + 1;
            }
            assert(ids@.take(pi as int) =~= ids@);
            return Err(LevelPackageError::InvalidData(
                portal_message(portal_id, " not found in source chunk ", source_chunk),
            ));
        }
        ci = ci + 1;
    }
    assert(chunks@.take(ci as int) =~= chunks@);
    Err(LevelPackageError::InvalidData(
        portal_message(portal_id, " references missing source chunk ", source_chunk),
    ))
}

} // verus!
