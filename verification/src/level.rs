//! Object kinds and per-object editor metadata shared by the level formats.
use vstd::prelude::*;

use crate::decimal::{parse_i16, spec_parse_signed};
use crate::keyed::{KeyValues, lookup};
use crate::text_format::{field_unsigned, field_unsigned_of};

verus! {

/// The kinds of objects a level holds.
#[derive(Clone, Copy, Debug, PartialEq, Eq, Structural)]
pub enum LevelObjectKind {
    Solid,
    Door,
    Hazard,
    Checkpoint,
    Enemy,
    Trigger,
    Text,
    WorldPortal,
}

/// Grouping and editor layer of one object.
#[derive(Clone, Copy, Debug, Default, PartialEq, Eq, Structural)]
pub struct ObjectMeta {
    pub group_id: u16,
    pub editor_layer: i16,
}

/// Metadata attached to the object `index` of kind `kind`.
#[derive(Clone, Copy, Debug, PartialEq, Eq, Structural)]
pub struct LevelObjectMeta {
    pub kind: LevelObjectKind,
    pub index: usize,
    pub meta: ObjectMeta,
}

/// What a level trigger does when the player enters it.
#[derive(Clone, Copy, Debug, PartialEq, Eq, Structural)]
pub enum LevelTriggerKind {
    LevelStart,
    LevelEnd,
    EnemySpawn { enemy_id: u16 },
}

impl ObjectMeta {
    /// The metadata an object has when none is recorded.
    pub fn none() -> (m: ObjectMeta)
        ensures
            m.group_id == 0 && m.editor_layer == 0,
    {
        ObjectMeta { group_id: 0, editor_layer: 0 }
    }

    pub fn is_none(&self) -> (b: bool)
        ensures
            b == (self.group_id == 0 && self.editor_layer == 0),
    {
        self.group_id == 0 && self.editor_layer == 0
    }
}

/// The first entry recorded for object `index` of kind `kind`, if any.
pub open spec fn spec_find_meta(metadata: Seq<LevelObjectMeta>, kind: LevelObjectKind, index: usize) -> Option<int>
    decreases metadata.len(),
{
    if metadata.len() == 0 {
        None
    } else {
        match spec_find_meta(metadata.drop_last(), kind, index) {
            Some(i) => Some(i),
            None => if metadata.last().kind == kind && metadata.last().index == index {
                Some(metadata.len() - 1)
            } else {
                None
            },
        }
    }
}

/// The metadata of object `index` of kind `kind`: the first matching entry, else all zero.
pub open spec fn spec_object_meta(metadata: Seq<LevelObjectMeta>, kind: LevelObjectKind, index: usize) -> ObjectMeta {
    match spec_find_meta(metadata, kind, index) {
        Some(i) => metadata[i].meta,
        None => ObjectMeta { group_id: 0, editor_layer: 0 },
    }
}

proof fn lemma_find_meta_bounds(metadata: Seq<LevelObjectMeta>, kind: LevelObjectKind, index: usize)
    ensures
        spec_find_meta(metadata, kind, index) matches Some(i) ==> 0 <= i < metadata.len()
            && metadata[i].kind == kind && metadata[i].index == index,
    decreases metadata.len(),
{
    if metadata.len() > 0 {
        lemma_find_meta_bounds(metadata.drop_last(), kind, index);
    }
}

/// The metadata recorded for an object, or the default when there is none (the first
/// matching entry wins).
pub fn object_meta_lossy(metadata: &[LevelObjectMeta], kind: LevelObjectKind, index: usize) -> (m: ObjectMeta)
    ensures
        m == spec_object_meta(metadata@, kind, index),
{
    let n = metadata.len();
    let mut i: usize = 0;
    while i < n
        invariant
            n == metadata@.len(),
            i <= n,
            spec_find_meta(metadata@.take(i as int), kind, index) is None,
        decreases n - i,
    {
        let entry = metadata[i];
        assert(metadata@.take(i + 1).drop_last() =~= metadata@.take(i as int));
        if entry.kind == kind && entry.index == index {
            proof {
                lemma_find_meta_prefix(metadata@, kind, index, (i + 1) as int);
            }
            return entry.meta;
        }
        i = i + 1;
    }
    assert(metadata@.take(n as int) =~= metadata@);
    ObjectMeta::none()
}

/// Extending a sequence keeps the first match found in a prefix.
proof fn lemma_find_meta_prefix(s: Seq<LevelObjectMeta>, kind: LevelObjectKind, index: usize, k: int)
    requires
        0 <= k <= s.len(),
        spec_find_meta(s.take(k), kind, index) is Some,
    ensures
        spec_find_meta(s, kind, index) == spec_find_meta(s.take(k), kind, index),
    decreases s.len() - k,
{
    if k < s.len() {
        assert(s.take(k + 1).drop_last() =~= s.take(k));
        lemma_find_meta_prefix(s, kind, index, k + 1);
    } else {
        assert(s.take(k) =~= s);
    }
}

// ---------------------------------------------------------------------------
// Cleaning up metadata.

pub open spec fn is_default_meta(m: ObjectMeta) -> bool {
    m.group_id == 0 && m.editor_layer == 0
}

/// What keeping one more entry does: a default entry changes nothing, an entry for an object
/// already listed replaces that object's metadata in place, a new object is appended.
pub open spec fn prune_step(acc: Seq<LevelObjectMeta>, e: LevelObjectMeta) -> Seq<LevelObjectMeta> {
    if is_default_meta(e.meta) {
        acc
    } else {
        match spec_find_meta(acc, e.kind, e.index) {
            Some(p) => acc.update(p, LevelObjectMeta { meta: e.meta, ..acc[p] }),
            None => acc.push(e),
        }
    }
}

/// The metadata list with default entries dropped and one entry per object.
pub open spec fn spec_prune(m: Seq<LevelObjectMeta>) -> Seq<LevelObjectMeta>
    decreases m.len(),
{
    if m.len() == 0 {
        seq![]
    } else {
        prune_step(spec_prune(m.drop_last()), m.last())
    }
}

/// No two entries are for the same object.
pub open spec fn unique_objects(s: Seq<LevelObjectMeta>) -> bool {
    forall|p: int, q: int|
        0 <= p < q < s.len() ==> !(#[trigger] s[p].kind == #[trigger] s[q].kind && s[p].index
            == s[q].index)
}

/// The metadata last given to an object that is not the default; the default when none is.
pub open spec fn last_meta(m: Seq<LevelObjectMeta>, kind: LevelObjectKind, index: usize) -> ObjectMeta
    decreases m.len(),
{
    if m.len() == 0 {
        ObjectMeta { group_id: 0, editor_layer: 0 }
    } else if m.last().kind == kind && m.last().index == index && !is_default_meta(m.last().meta) {
        m.last().meta
    } else {
        last_meta(m.drop_last(), kind, index)
    }
}

proof fn lemma_find_meta_at(s: Seq<LevelObjectMeta>, kind: LevelObjectKind, index: usize, p: int)
    requires
        0 <= p < s.len(),
        s[p].kind == kind && s[p].index == index,
        forall|q: int| 0 <= q < p ==> !(#[trigger] s[q].kind == kind && s[q].index == index),
    ensures
        spec_find_meta(s, kind, index) == Some(p),
    decreases s.len(),
{
    if p < s.len() - 1 {
        assert forall|q: int| 0 <= q < p implies !(#[trigger] s.drop_last()[q].kind == kind
            && s.drop_last()[q].index == index) by {
            assert(s.drop_last()[q] == s[q]);
        }
        assert(s.drop_last()[p] == s[p]);
        lemma_find_meta_at(s.drop_last(), kind, index, p);
    } else {
        lemma_find_meta_absent(s.drop_last(), kind, index);
    }
}

proof fn lemma_find_meta_absent(s: Seq<LevelObjectMeta>, kind: LevelObjectKind, index: usize)
    requires
        forall|q: int| 0 <= q < s.len() ==> !(#[trigger] s[q].kind == kind && s[q].index == index),
    ensures
        spec_find_meta(s, kind, index) is None,
    decreases s.len(),
{
    if s.len() > 0 {
        assert forall|q: int| 0 <= q < s.drop_last().len() implies !(
        #[trigger] s.drop_last()[q].kind == kind && s.drop_last()[q].index == index) by {
            assert(s.drop_last()[q] == s[q]);
        }
        lemma_find_meta_absent(s.drop_last(), kind, index);
    }
}

/// After pruning, each object has at most one entry, none is the default, and an object's
/// metadata is the last one given to it that is not the default.
#[verifier::spinoff_prover]
#[verifier::rlimit(40)]
pub proof fn lemma_prune_keeps_last(m: Seq<LevelObjectMeta>, kind: LevelObjectKind, index: usize)
    ensures
        unique_objects(spec_prune(m)),
        forall|p: int| 0 <= p < spec_prune(m).len() ==> !is_default_meta(#[trigger] spec_prune(m)[p].meta),
        spec_object_meta(spec_prune(m), kind, index) == last_meta(m, kind, index),
    decreases m.len(),
{
    if m.len() > 0 {
        let pm = spec_prune(m.drop_last());
        let e = m.last();
        lemma_prune_keeps_last(m.drop_last(), kind, index);
        lemma_prune_keeps_last(m.drop_last(), e.kind, e.index);
        lemma_find_meta_bounds(pm, e.kind, e.index);
        lemma_find_meta_bounds(pm, kind, index);
        let r = spec_prune(m);
        assert(r == prune_step(pm, e));
        if !is_default_meta(e.meta) {
            match spec_find_meta(pm, e.kind, e.index) {
                Some(p) => {
                    assert forall|a: int, b: int| 0 <= a < b < r.len() implies !(
                    #[trigger] r[a].kind == #[trigger] r[b].kind && r[a].index == r[b].index) by {
                        assert(r[a].kind == pm[a].kind && r[a].index == pm[a].index);
                        assert(r[b].kind == pm[b].kind && r[b].index == pm[b].index);
                    }
                    if e.kind == kind && e.index == index {
                        assert forall|q: int| 0 <= q < p implies !(#[trigger] r[q].kind == kind
                            && r[q].index == index) by {
                            assert(r[q] == pm[q]);
                        }
                        lemma_find_meta_at(r, kind, index, p);
                    } else {
                        match spec_find_meta(pm, kind, index) {
                            Some(q) => {
                                assert forall|x: int| 0 <= x < q implies !(#[trigger] r[x].kind
                                    == kind && r[x].index == index) by {
                                    assert(r[x].kind == pm[x].kind && r[x].index == pm[x].index);
                                }
                                assert(q != p);
                                lemma_find_meta_at(r, kind, index, q);
                            },
                            None => {
                                assert forall|x: int| 0 <= x < r.len() implies !(#[trigger] r[x].kind
                                    == kind && r[x].index == index) by {
                                    assert(r[x].kind == pm[x].kind && r[x].index == pm[x].index);
                                    if pm[x].kind == kind && pm[x].index == index {
                                        lemma_find_meta_at(pm, kind, index, x);
                                    }
                                }
                                lemma_find_meta_absent(r, kind, index);
                            },
                        }
                    }
                },
                None => {
                    assert forall|x: int| 0 <= x < pm.len() implies !(#[trigger] pm[x].kind
                        == e.kind && pm[x].index == e.index) by {
                        if pm[x].kind == e.kind && pm[x].index == e.index {
                            assert forall|y: int| 0 <= y < x implies !(#[trigger] pm[y].kind
                                == e.kind && pm[y].index == e.index) by {}
                            lemma_find_meta_at(pm, e.kind, e.index, x);
                        }
                    }
                    assert forall|a: int, b: int| 0 <= a < b < r.len() implies !(
                    #[trigger] r[a].kind == #[trigger] r[b].kind && r[a].index == r[b].index) by {
                        if b == pm.len() {
                            assert(r[a] == pm[a]);
                        } else {
                            assert(r[a] == pm[a] && r[b] == pm[b]);
                        }
                    }
                    if e.kind == kind && e.index == index {
                        assert forall|q: int| 0 <= q < pm.len() implies !(#[trigger] r[q].kind
                            == kind && r[q].index == index) by {
                            assert(r[q] == pm[q]);
                        }
                        lemma_find_meta_at(r, kind, index, pm.len() as int);
                    } else {
                        assert(r.drop_last() =~= pm);
                    }
                },
            }
        }
    }
}

fn find_object(list: &Vec<LevelObjectMeta>, kind: LevelObjectKind, index: usize) -> (res: Option<usize>)
    ensures
        res matches Some(p) ==> spec_find_meta(list@, kind, index) == Some(p as int),
        res is None ==> spec_find_meta(list@, kind, index) is None,
{
    let mut i: usize = 0;
    while i < list.len()
        invariant
            i <= list@.len(),
            spec_find_meta(list@.take(i as int), kind, index) is None,
        decreases list@.len() - i,
    {
        assert(list@.take(i + 1).drop_last() =~= list@.take(i as int));
        if list[i].kind == kind && list[i].index == index {
            proof {
                lemma_find_meta_prefix(list@, kind, index, (i + 1) as int);
            }
            return Some(i);
        }
        i = i + 1;
    }
    assert(list@.take(i as int) =~= list@);
    None
}

/// Drops default entries and keeps one entry per object, the last metadata given to it
/// replacing earlier ones in place.
pub fn prune_metadata(metadata: Vec<LevelObjectMeta>) -> (res: Vec<LevelObjectMeta>)
    ensures
        res@ == spec_prune(metadata@),
{
    let mut pruned: Vec<LevelObjectMeta> = Vec::new();
    let mut i: usize = 0;
    while i < metadata.len()
        invariant
            i <= metadata@.len(),
            pruned@ == spec_prune(metadata@.take(i as int)),
        decreases metadata@.len() - i,
    {
        let entry = metadata[i];
        let ghost t = metadata@.take(i + 1);
        assert(t.drop_last() =~= metadata@.take(i as int));
        assert(t.last() == entry);
        assert(spec_prune(t) == prune_step(spec_prune(metadata@.take(i as int)), entry));
        let ghost before = pruned@;
        if !entry.meta.is_none() {
            match find_object(&pruned, entry.kind, entry.index) {
                Some(p) => {
                    proof {
                        lemma_find_meta_bounds(pruned@, entry.kind, entry.index);
                    }
                    let old_entry = pruned[p];
                    pruned.set(
                        p,
                        LevelObjectMeta { kind: old_entry.kind, index: old_entry.index, meta: entry.meta },
                    );
                    assert(spec_find_meta(before, entry.kind, entry.index) == Some(p as int));
                    assert(old_entry == before[p as int]);
                    assert(pruned@ == before.update(
                        p as int,
                        LevelObjectMeta { meta: entry.meta, ..before[p as int] },
                    ));
                    assert(pruned@ =~= prune_step(before, entry));
                },
                None => {
                    pruned.push(entry);
                    assert(pruned@ =~= prune_step(before, entry));
                },
            }
        } else {
            assert(pruned@ =~= prune_step(before, entry));
        }
        i = i + 1;
    }
    assert(metadata@.take(i as int) =~= metadata@);
    pruned
}

// ---------------------------------------------------------------------------
// Metadata written inline on a keyed line.

/// The metadata a keyed line carries: `obj_id` (or `object_id`) and `layer`, each zero when
/// missing or unreadable; none when both are zero.
pub open spec fn spec_field_meta(f: Seq<(Seq<char>, Seq<char>)>) -> Option<ObjectMeta> {
    let id = match field_unsigned(f, "obj_id"@, 65535) {
        Some(v) => v,
        None => match field_unsigned(f, "object_id"@, 65535) {
            Some(v) => v,
            None => 0,
        },
    };
    let layer = match lookup(f, "layer"@) {
        Some(v) => match spec_parse_signed(v, 32768, 32767) {
            Some(l) => l,
            None => 0,
        },
        None => 0,
    };
    if id != 0 || layer != 0 {
        Some(ObjectMeta { group_id: id as u16, editor_layer: layer as i16 })
    } else {
        None
    }
}

/// Reads the inline metadata of a keyed line.
pub fn field_meta(fields: &KeyValues) -> (res: Option<ObjectMeta>)
    ensures
        res == spec_field_meta(fields@),
{
    let id: u16 = match field_unsigned_of(fields, "obj_id", 65535) {
        Some(v) => v as u16,
        None => match field_unsigned_of(fields, "object_id", 65535) {
            Some(v) => v as u16,
            None => 0,
        },
    };
    let layer: i16 = match fields.get("layer") {
        Some(v) => match parse_i16(v.as_str()) {
            Some(l) => l,
            None => 0,
        },
        None => 0,
    };
    if id != 0 || layer != 0 {
        Some(ObjectMeta { group_id: id, editor_layer: layer })
    } else {
        None
    }
}

/// Records the inline metadata of a keyed line for object `index` of kind `kind`, unless it
/// has none.
pub fn push_inline_meta(
    fields: &KeyValues,
    kind: LevelObjectKind,
    index: usize,
    metadata: &mut Vec<LevelObjectMeta>,
)
    ensures
        final(metadata)@ == match spec_field_meta(fields@) {
            Some(meta) => if is_default_meta(meta) {
                old(metadata)@
            } else {
                old(metadata)@.push(LevelObjectMeta { kind, index, meta })
            },
            None => old(metadata)@,
        },
{
    match field_meta(fields) {
        Some(meta) => {
            if !meta.is_none() {
                metadata.push(LevelObjectMeta { kind, index, meta });
            }
        },
        None => {},
    }
}

} // verus!
