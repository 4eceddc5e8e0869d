//! The descriptive files a package carries beside its index: `world.layers`, `world.groups`
//! and `world.triggers`.
use vstd::prelude::*;

use crate::decimal::{format_i64, format_u64, spec_format_int};
use crate::keyed::{quote, spec_quote};
use crate::level::{LevelObjectMeta, LevelTriggerKind};
use crate::strutil::{push_str};

verus! {

/// Strictly increasing, hence free of repeats.
pub open spec fn increasing(s: Seq<i64>) -> bool {
    forall|i: int, j: int| 0 <= i < j < s.len() ==> s[i] < s[j]
}

fn insert_sorted(v: &mut Vec<i64>, x: i64)
    requires
        increasing(old(v)@),
    ensures
        increasing(final(v)@),
        forall|y: i64| #[trigger] final(v)@.contains(y) == (old(v)@.contains(y) || y == x),
{
    let mut p: usize = 0;
    while p < v.len() && v[p] < x
        invariant
            p <= v@.len(),
            forall|k: int| 0 <= k < p ==> v@[k] < x,
        decreases v@.len() - p,
    {
        p = p + 1;
    }
    if p < v.len() && v[p] == x {
        return;
    }
    let ghost old_v = v@;
    v.insert(p, x);
    assert forall|y: i64| #[trigger] v@.contains(y) == (old_v.contains(y) || y == x) by {
        if v@.contains(y) {
            let k = choose|k: int| 0 <= k < v@.len() && v@[k] == y;
            if k < p {
                assert(old_v[k] == y);
            } else if k > p {
                assert(old_v[k - 1] == y);
            }
        }
        if old_v.contains(y) {
            let k = choose|k: int| 0 <= k < old_v.len() && old_v[k] == y;
            if k < p {
                assert(v@[k] == y);
            } else {
                assert(v@[k + 1] == y);
            }
        }
        if y == x {
            assert(v@[p as int] == x);
        }
    }
}

/// The editor layers a level uses: layer 0 and the layer of every metadata entry.
pub open spec fn used_layer(metadata: Seq<LevelObjectMeta>, l: i64) -> bool {
    l == 0 || exists|i: int| 0 <= i < metadata.len() && #[trigger] metadata[i].meta.editor_layer == l
}

/// The groups a level uses: the non-zero group of every metadata entry.
pub open spec fn used_group(metadata: Seq<LevelObjectMeta>, g: i64) -> bool {
    g != 0 && exists|i: int| 0 <= i < metadata.len() && #[trigger] metadata[i].meta.group_id == g
}

pub open spec fn layer_line(l: i64) -> Seq<char> {
    "editor_layer "@ + spec_format_int(l as int) + " name="@ + spec_quote(
        "Layer "@ + spec_format_int(l as int),
    ) + "\n"@
}

pub open spec fn group_line(g: i64) -> Seq<char> {
    "group "@ + spec_format_int(g as int) + " name="@ + spec_quote(
        "Group "@ + spec_format_int(g as int),
    ) + " reset=checkpoint\n"@
}

pub open spec fn layer_lines(ls: Seq<i64>) -> Seq<char>
    decreases ls.len(),
{
    if ls.len() == 0 {
        seq![]
    } else {
        layer_lines(ls.drop_last()) + layer_line(ls.last())
    }
}

pub open spec fn group_lines(gs: Seq<i64>) -> Seq<char>
    decreases gs.len(),
{
    if gs.len() == 0 {
        seq![]
    } else {
        group_lines(gs.drop_last()) + group_line(gs.last())
    }
}

pub open spec fn view_layers_text() -> Seq<char> {
    "view_layer 0 name=\"Back\"\nview_layer 1 name=\"Gameplay\"\nview_layer 2 name=\"Front\"\n"@
}

/// The layers used by `metadata`, each once, in increasing order.
fn used_layers(metadata: &[LevelObjectMeta]) -> (res: Vec<i64>)
    ensures
        increasing(res@),
        forall|l: i64| #[trigger] res@.contains(l) == used_layer(metadata@, l),
{
    let mut out: Vec<i64> = Vec::new();
    insert_sorted(&mut out, 0);
    let mut i: usize = 0;
    while i < metadata.len()
        invariant
            i <= metadata@.len(),
            increasing(out@),
            forall|l: i64| #[trigger]
                out@.contains(l) == (l == 0 || exists|k: int|
                    0 <= k < i && #[trigger] metadata@[k].meta.editor_layer == l),
        decreases metadata@.len() - i,
    {
        let l = metadata[i].meta.editor_layer as i64;
        insert_sorted(&mut out, l);
        proof {
            assert forall|m: i64| #[trigger]
                out@.contains(m) == (m == 0 || exists|k: int|
                    0 <= k < i + 1 && #[trigger] metadata@[k].meta.editor_layer == m) by {
                if m == l {
                    assert(metadata@[i as int].meta.editor_layer == m);
                }
            }
        }
        i = i + 1;
    }
    out
}

/// The non-zero groups used by `metadata`, each once, in increasing order.
fn used_groups(metadata: &[LevelObjectMeta]) -> (res: Vec<i64>)
    ensures
        increasing(res@),
        forall|g: i64| #[trigger] res@.contains(g) == used_group(metadata@, g),
{
    let mut out: Vec<i64> = Vec::new();
    let mut i: usize = 0;
    while i < metadata.len()
        invariant
            i <= metadata@.len(),
            increasing(out@),
            forall|g: i64| #[trigger]
                out@.contains(g) == (g != 0 && exists|k: int|
                    0 <= k < i && #[trigger] metadata@[k].meta.group_id == g),
        decreases metadata@.len() - i,
    {
        let g = metadata[i].meta.group_id as i64;
        if g != 0 {
            insert_sorted(&mut out, g);
        }
        proof {
            assert forall|m: i64| #[trigger]
                out@.contains(m) == (m != 0 && exists|k: int|
                    0 <= k < i + 1 && #[trigger] metadata@[k].meta.group_id == m) by {
                if m == g && g != 0 {
                    assert(metadata@[i as int].meta.group_id == m);
                }
            }
        }
        i = i + 1;
    }
    out
}

fn push_layer_line(out: &mut String, l: i64)
    ensures
        final(out)@ == old(out)@ + layer_line(l),
{
    let digits = format_i64(l);
    push_str(out, "editor_layer ");
    push_str(out, digits.as_str());
    push_str(out, " name=");
    let mut label = "Layer ".to_string();
    push_str(&mut label, digits.as_str());
    let q = quote(label.as_str());
    push_str(out, q.as_str());
    push_str(out, "\n");
}

fn push_group_line(out: &mut String, g: i64)
    ensures
        final(out)@ == old(out)@ + group_line(g),
{
    let digits = format_i64(g);
    push_str(out, "group ");
    push_str(out, digits.as_str());
    push_str(out, " name=");
    let mut label = "Group ".to_string();
    push_str(&mut label, digits.as_str());
    let q = quote(label.as_str());
    push_str(out, q.as_str());
    push_str(out, " reset=checkpoint\n");
}

/// `world.layers`: the three view layers, then one line per editor layer in use, in
/// increasing order.
pub fn format_layers(metadata: &[LevelObjectMeta]) -> (res: String)
    ensures
        exists|ls: Seq<i64>|
            increasing(ls) && (forall|l: i64| #[trigger] ls.contains(l) == used_layer(metadata@, l))
                && res@ == view_layers_text() + layer_lines(ls),
{
    let layers = used_layers(metadata);
    let mut out = String::new();
    push_str(&mut out, "view_layer 0 name=\"Back\"\nview_layer 1 name=\"Gameplay\"\nview_layer 2 name=\"Front\"\n");
    let ghost head = out@;
    let mut i: usize = 0;
    assert(layers@.take(0) =~= Seq::<i64>::empty());
    while i < layers.len()
        invariant
            i <= layers@.len(),
            out@ == head + layer_lines(layers@.take(i as int)),
        decreases layers@.len() - i,
    {
        push_layer_line(&mut out, layers[i]);
        assert(layers@.take(i + 1).drop_last() =~= layers@.take(i as int));
        i = i + 1;
    }
    assert(layers@.take(i as int) =~= layers@);
    out
}

/// `world.groups`: one line per group in use, in increasing order.
pub fn format_groups(metadata: &[LevelObjectMeta]) -> (res: String)
    ensures
        exists|gs: Seq<i64>|
            increasing(gs) && (forall|g: i64| #[trigger] gs.contains(g) == used_group(metadata@, g))
                && res@ == group_lines(gs),
{
    let groups = used_groups(metadata);
    let mut out = String::new();
    let mut i: usize = 0;
    assert(groups@.take(0) =~= Seq::<i64>::empty());
    while i < groups.len()
        invariant
            i <= groups@.len(),
            out@ == group_lines(groups@.take(i as int)),
        decreases groups@.len() - i,
    {
        push_group_line(&mut out, groups[i]);
        assert(groups@.take(i + 1).drop_last() =~= groups@.take(i as int));
        i = i + 1;
    }
    assert(groups@.take(i as int) =~= groups@);
    out
}

/// The word `world.triggers` uses for a trigger kind.
pub open spec fn trigger_kind_word(kind: LevelTriggerKind) -> Seq<char> {
    match kind {
        LevelTriggerKind::LevelStart => "checkpoint"@,
        LevelTriggerKind::LevelEnd => "level_end"@,
        LevelTriggerKind::EnemySpawn { .. } => "spawn"@,
    }
}

pub open spec fn trigger_line(index: int, kind: LevelTriggerKind) -> Seq<char> {
    "trigger trigger_id="@ + spec_format_int(index) + " kind="@ + trigger_kind_word(kind)
        + " source_chunk=0 target_group=0 activation_policy=once payload_offset=0\n"@
}

pub open spec fn trigger_lines_from(kinds: Seq<LevelTriggerKind>) -> Seq<char>
    decreases kinds.len(),
{
    if kinds.len() == 0 {
        seq![]
    } else {
        trigger_lines_from(kinds.drop_last()) + trigger_line(kinds.len() - 1, kinds.last())
    }
}

/// `world.triggers`: one line per trigger, numbered in order.
pub fn format_triggers(kinds: &[LevelTriggerKind]) -> (res: String)
    ensures
        res@ == trigger_lines_from(kinds@),
{
    let mut out = String::new();
    let mut i: usize = 0;
    assert(kinds@.take(0) =~= Seq::<LevelTriggerKind>::empty());
    while i < kinds.len()
        invariant
            i <= kinds@.len(),
            out@ == trigger_lines_from(kinds@.take(i as int)),
        decreases kinds@.len() - i,
    {
        let word = match kinds[i] {
            LevelTriggerKind::LevelStart => "checkpoint",
            LevelTriggerKind::LevelEnd => "level_end",
            LevelTriggerKind::EnemySpawn { .. } => "spawn",
        };
        assert(word@ == trigger_kind_word(kinds@[i as int]));
        let digits = format_u64(i as u64);
        push_str(&mut out, "trigger trigger_id=");
        push_str(&mut out, digits.as_str());
        push_str(&mut out, " kind=");
        push_str(&mut out, word);
        push_str(&mut out, " source_chunk=0 target_group=0 activation_policy=once payload_offset=0\n");
        assert(kinds@.take(i + 1).drop_last() =~= kinds@.take(i as int));
        assert(kinds@.take(i + 1).last() == kinds@[i as int]);
        i = i + 1;
    }
    assert(kinds@.take(i as int) =~= kinds@);
    out
}

} // verus!
