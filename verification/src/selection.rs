//! The editor's selection: the list of selected objects, most recent last, and the rules
//! that keep it to objects the level still has.
use vstd::prelude::*;

use crate::editor::{
    EditorSelection, EditorSelectionKind, selection_sort_key, spec_selection_sort_key,
};

verus! {

/// How many objects of each kind the edited level holds.
#[derive(Clone, Copy, Debug, Default, PartialEq, Eq, Structural)]
pub struct LevelObjectCounts {
    pub solids: usize,
    pub doors: usize,
    pub hazards: usize,
    pub checkpoints: usize,
    pub enemies: usize,
    pub triggers: usize,
    pub texts: usize,
    pub world_portals: usize,
}

/// The selected objects of the editor, in the order they were selected.
#[derive(Clone, Debug, Default)]
pub struct SelectionState {
    pub selected: Vec<EditorSelection>,
}

/// `a` is listed before `b`: a lower kind, or the same kind and a lower index.
pub open spec fn listed_before(a: EditorSelection, b: EditorSelection) -> bool {
    let ka = spec_selection_sort_key(a);
    let kb = spec_selection_sort_key(b);
    ka.0 < kb.0 || (ka.0 == kb.0 && ka.1 < kb.1)
}

/// Every selection is listed strictly before the ones after it (so none occurs twice).
pub open spec fn selection_sorted(s: Seq<EditorSelection>) -> bool {
    forall|i: int, j: int| 0 <= i < j < s.len() ==> listed_before(s[i], s[j])
}

/// The selection names an object that the level has.
pub open spec fn selection_valid(s: EditorSelection, counts: LevelObjectCounts) -> bool {
    match s {
        EditorSelection::Solid(i) => i < counts.solids,
        EditorSelection::Door(i) => i < counts.doors,
        EditorSelection::Hazard(i) => i < counts.hazards,
        EditorSelection::Checkpoint(i) => i < counts.checkpoints,
        EditorSelection::Enemy(i) => i < counts.enemies,
        EditorSelection::Trigger(i) => i < counts.triggers,
        EditorSelection::Text(i) => i < counts.texts,
        EditorSelection::WorldPortal(i) => i < counts.world_portals,
    }
}

/// The kind of a selection, `Empty` for none.
pub open spec fn spec_kind_of(s: Option<EditorSelection>) -> EditorSelectionKind {
    match s {
        Some(EditorSelection::Solid(_)) => EditorSelectionKind::Solid,
        Some(EditorSelection::Door(_)) => EditorSelectionKind::Door,
        Some(EditorSelection::Hazard(_)) => EditorSelectionKind::Hazard,
        Some(EditorSelection::Checkpoint(_)) => EditorSelectionKind::Checkpoint,
        Some(EditorSelection::Enemy(_)) => EditorSelectionKind::Enemy,
        Some(EditorSelection::Trigger(_)) => EditorSelectionKind::Trigger,
        Some(EditorSelection::Text(_)) => EditorSelectionKind::Text,
        Some(EditorSelection::WorldPortal(_)) => EditorSelectionKind::WorldPortal,
        None => EditorSelectionKind::Empty,
    }
}

/// The index of a selection when it is of kind `kind`.
pub open spec fn spec_index_of(s: EditorSelection, kind: EditorSelectionKind) -> Option<usize> {
    if spec_kind_of(Some(s)) == kind {
        Some(spec_selection_sort_key(s).1)
    } else {
        None
    }
}

/// The last selection of a list, if any.
pub open spec fn spec_last(s: Seq<EditorSelection>) -> Option<EditorSelection> {
    if s.len() == 0 {
        None
    } else {
        Some(s.last())
    }
}

/// `i` is the index of some selection of kind `kind` in `s`.
pub open spec fn indices_of(s: Seq<EditorSelection>, kind: EditorSelectionKind, i: usize) -> bool {
    exists|k: int| 0 <= k < s.len() && spec_index_of(#[trigger] s[k], kind) == Some(i)
}

/// Each index is smaller than the ones after it.
pub open spec fn usize_increasing(s: Seq<usize>) -> bool {
    forall|i: int, j: int| 0 <= i < j < s.len() ==> s[i] < s[j]
}

proof fn lemma_key_injective(a: EditorSelection, b: EditorSelection)
    ensures
        spec_selection_sort_key(a) == spec_selection_sort_key(b) ==> a == b,
        !listed_before(a, a),
        !listed_before(a, b) && a != b ==> listed_before(b, a),
{
}

/// A sorted list of selections is determined by which selections it holds.
pub proof fn lemma_sorted_selection_unique(a: Seq<EditorSelection>, b: Seq<EditorSelection>)
    requires
        selection_sorted(a),
        selection_sorted(b),
        forall|s: EditorSelection| #[trigger] a.contains(s) == b.contains(s),
    ensures
        a == b,
    decreases a.len(),
{
    if a.len() == 0 {
        if b.len() > 0 {
            assert(b.contains(b[0]));
            assert(a.contains(b[0]));
            let i = choose|i: int| 0 <= i < a.len() && a[i] == b[0];
            assert(false);
        }
        assert(a =~= b);
    } else {
        assert(a.contains(a[0]));
        let k = choose|k: int| 0 <= k < b.len() && b[k] == a[0];
        assert(b.contains(b[0]));
        assert(a.contains(b[0]));
        let m = choose|m: int| 0 <= m < a.len() && a[m] == b[0];
        if k > 0 {
            assert(listed_before(b[0], b[k]));
            if m > 0 {
                assert(listed_before(a[0], a[m]));
            } else {
                lemma_key_injective(b[0], b[0]);
            }
            assert(false);
        }
        let ta = a.drop_first();
        let tb = b.drop_first();
        assert forall|s: EditorSelection| #[trigger] ta.contains(s) == tb.contains(s) by {
            if ta.contains(s) {
                let i = choose|i: int| 0 <= i < ta.len() && ta[i] == s;
                assert(a[i + 1] == s);
                assert(listed_before(a[0], a[i + 1]));
                lemma_key_injective(s, s);
                assert(a.contains(s));
                let j = choose|j: int| 0 <= j < b.len() && b[j] == s;
                assert(j != 0);
                assert(tb[j - 1] == s);
            }
            if tb.contains(s) {
                let i = choose|i: int| 0 <= i < tb.len() && tb[i] == s;
                assert(b[i + 1] == s);
                assert(listed_before(b[0], b[i + 1]));
                lemma_key_injective(s, s);
                assert(b.contains(s));
                assert(a.contains(s));
                assert(a[0] == b[0]);
                let j = choose|j: int| 0 <= j < a.len() && a[j] == s;
                assert(j != 0);
                assert(ta[j - 1] == s);
            }
        }
        lemma_sorted_selection_unique(ta, tb);
        assert(a =~= b) by {
            assert forall|i: int| 0 <= i < a.len() implies a[i] == b[i] by {
                if i > 0 {
                    assert(a[i] == ta[i - 1]);
                    assert(b[i] == tb[i - 1]);
                }
            }
        }
    }
}

/// Normalizing a selection that was already normalized against the same level changes
/// nothing.
pub proof fn lemma_normalize_idempotent(
    first: Seq<EditorSelection>,
    second: Seq<EditorSelection>,
    counts: LevelObjectCounts,
)
    requires
        selection_sorted(first),
        forall|s: EditorSelection| #[trigger] first.contains(s) ==> selection_valid(s, counts),
        selection_sorted(second),
        forall|s: EditorSelection| #[trigger]
            second.contains(s) == (first.contains(s) && selection_valid(s, counts)),
    ensures
        second == first,
{
    lemma_sorted_selection_unique(second, first);
}

fn listed_before_exec(a: &EditorSelection, b: &EditorSelection) -> (r: bool)
    ensures
        r == listed_before(*a, *b),
{
    let ka = selection_sort_key(a);
    let kb = selection_sort_key(b);
    ka.0 < kb.0 || (ka.0 == kb.0 && ka.1 < kb.1)
}

/// Adds `x` to a sorted list of selections, keeping it sorted; nothing changes when it is
/// already there.
fn insert_listed(v: &mut Vec<EditorSelection>, x: EditorSelection)
    requires
        selection_sorted(old(v)@),
    ensures
        selection_sorted(final(v)@),
        forall|y: EditorSelection| #[trigger]
            final(v)@.contains(y) == (old(v)@.contains(y) || y == x),
{
    let mut p: usize = 0;
    while p < v.len() && listed_before_exec(&v[p], &x)
        invariant
            p <= v@.len(),
            forall|k: int| 0 <= k < p ==> listed_before(#[trigger] v@[k], x),
        decreases v@.len() - p,
    {
        p = p + 1;
    }
    if p < v.len() && v[p] == x {
        return;
    }
    let ghost old_v = v@;
    proof {
        if p < old_v.len() {
            lemma_key_injective(old_v[p as int], x);
        }
    }
    v.insert(p, x);
    assert(v@ == old_v.insert(p as int, x));
    assert forall|i: int, j: int| 0 <= i < j < v@.len() implies listed_before(v@[i], v@[j]) by {
        if j < p {
            assert(v@[i] == old_v[i] && v@[j] == old_v[j]);
        } else if j == p {
            assert(v@[i] == old_v[i]);
        } else if i == p {
            assert(v@[j] == old_v[j - 1]);
            if j - 1 > p {
                assert(listed_before(old_v[p as int], old_v[j - 1]));
            }
        } else if i < p {
            assert(v@[i] == old_v[i] && v@[j] == old_v[j - 1]);
        } else {
            assert(v@[i] == old_v[i - 1] && v@[j] == old_v[j - 1]);
        }
    }
    assert forall|y: EditorSelection| #[trigger] v@.contains(y) == (old_v.contains(y) || y == x) by {
        if v@.contains(y) {
            let k = choose|k: int| 0 <= k < v@.len() && v@[k] == y;
            if k < p {
                assert(old_v[k] == y);
            } else if k > p {
                assert(old_v[k - 1] == y);
            }
        }
        if old_v.contains(y) {
            let k = choose|k: int| 0 <= k < old_v.len() && old_v[k] == y;
            if k < p {
                assert(v@[k] == y);
            } else {
                assert(v@[k + 1] == y);
            }
        }
        if y == x {
            assert(v@[p as int] == x);
        }
    }
}

/// Adds `x` to an increasing list of indices, keeping it increasing.
fn insert_index(v: &mut Vec<usize>, x: usize)
    requires
        usize_increasing(old(v)@),
    ensures
        usize_increasing(final(v)@),
        forall|y: usize| #[trigger] final(v)@.contains(y) == (old(v)@.contains(y) || y == x),
{
    let mut p: usize = 0;
    while p < v.len() && v[p] < x
        invariant
            p <= v@.len(),
            forall|k: int| 0 <= k < p ==> v@[k] < x,
        decreases v@.len() - p,
    {
        p = p + 1;
    }
    if p < v.len() && v[p] == x {
        return;
    }
    let ghost old_v = v@;
    v.insert(p, x);
    assert(v@ == old_v.insert(p as int, x));
    assert forall|y: usize| #[trigger] v@.contains(y) == (old_v.contains(y) || y == x) by {
        if v@.contains(y) {
            let k = choose|k: int| 0 <= k < v@.len() && v@[k] == y;
            if k < p {
                assert(old_v[k] == y);
            } else if k > p {
                assert(old_v[k - 1] == y);
            }
        }
        if old_v.contains(y) {
            let k = choose|k: int| 0 <= k < old_v.len() && old_v[k] == y;
            if k < p {
                assert(v@[k] == y);
            } else {
                assert(v@[k + 1] == y);
            }
        }
        if y == x {
            assert(v@[p as int] == x);
        }
    }
}

fn is_valid(s: EditorSelection, counts: LevelObjectCounts) -> (r: bool)
    ensures
        r == selection_valid(s, counts),
{
    match s {
        EditorSelection::Solid(i) => i < counts.solids,
        EditorSelection::Door(i) => i < counts.doors,
        EditorSelection::Hazard(i) => i < counts.hazards,
        EditorSelection::Checkpoint(i) => i < counts.checkpoints,
        EditorSelection::Enemy(i) => i < counts.enemies,
        EditorSelection::Trigger(i) => i < counts.triggers,
        EditorSelection::Text(i) => i < counts.texts,
        EditorSelection::WorldPortal(i) => i < counts.world_portals,
    }
}

/// The index of `s` when it is of kind `kind`.
pub fn index_of(s: EditorSelection, kind: EditorSelectionKind) -> (r: Option<usize>)
    ensures
        r == spec_index_of(s, kind),
{
    let (_, index) = selection_sort_key(&s);
    if kind_of(Some(s)) == kind {
        Some(index)
    } else {
        None
    }
}

/// The kind of a selection, `Empty` for none.
pub fn kind_of(s: Option<EditorSelection>) -> (r: EditorSelectionKind)
    ensures
        r == spec_kind_of(s),
{
    match s {
        Some(EditorSelection::Solid(_)) => EditorSelectionKind::Solid,
        Some(EditorSelection::Door(_)) => EditorSelectionKind::Door,
        Some(EditorSelection::Hazard(_)) => EditorSelectionKind::Hazard,
        Some(EditorSelection::Checkpoint(_)) => EditorSelectionKind::Checkpoint,
        Some(EditorSelection::Enemy(_)) => EditorSelectionKind::Enemy,
        Some(EditorSelection::Trigger(_)) => EditorSelectionKind::Trigger,
        Some(EditorSelection::Text(_)) => EditorSelectionKind::Text,
        Some(EditorSelection::WorldPortal(_)) => EditorSelectionKind::WorldPortal,
        None => EditorSelectionKind::Empty,
    }
}

impl SelectionState {
    /// Nothing selected.
    pub fn new() -> (s: Self)
        ensures
            s.selected@.len() == 0,
    {
        SelectionState { selected: Vec::new() }
    }

    pub fn selection_count(&self) -> (n: usize)
        ensures
            n == self.selected@.len(),
    {
        self.selected.len()
    }

    /// The most recent selection.
    pub fn primary_selected(&self) -> (r: Option<EditorSelection>)
        ensures
            r == spec_last(self.selected@),
    {
        if self.selected.len() == 0 {
            None
        } else {
            Some(self.selected[self.selected.len() - 1])
        }
    }

    /// The kind of the most recent selection, `Empty` when nothing is selected.
    pub fn primary_selection_kind(&self) -> (k: EditorSelectionKind)
        ensures
            k == spec_kind_of(spec_last(self.selected@)),
    {
        kind_of(self.primary_selected())
    }

    fn primary_index(&self, kind: EditorSelectionKind) -> (r: Option<usize>)
        ensures
            r == (match spec_last(self.selected@) {
                Some(s) => spec_index_of(s, kind),
                None => None,
            }),
    {
        match self.primary_selected() {
            Some(s) => index_of(s, kind),
            None => None,
        }
    }

    /// The index of the most recent selection when it is a door.
    pub fn primary_door_index(&self) -> (r: Option<usize>)
        ensures
            r == (match spec_last(self.selected@) {
                Some(EditorSelection::Door(i)) => Some(i),
                _ => None,
            }),
    {
        self.primary_index(EditorSelectionKind::Door)
    }

    /// The index of the most recent selection when it is a world portal.
    pub fn primary_world_portal_index(&self) -> (r: Option<usize>)
        ensures
            r == (match spec_last(self.selected@) {
                Some(EditorSelection::WorldPortal(i)) => Some(i),
                _ => None,
            }),
    {
        self.primary_index(EditorSelectionKind::WorldPortal)
    }

    /// The index of the most recent selection when it is an enemy.
    pub fn primary_enemy_index(&self) -> (r: Option<usize>)
        ensures
            r == (match spec_last(self.selected@) {
                Some(EditorSelection::Enemy(i)) => Some(i),
                _ => None,
            }),
    {
        self.primary_index(EditorSelectionKind::Enemy)
    }

    /// The index of the most recent selection when it is a trigger.
    pub fn primary_trigger_index(&self) -> (r: Option<usize>)
        ensures
            r == (match spec_last(self.selected@) {
                Some(EditorSelection::Trigger(i)) => Some(i),
                _ => None,
            }),
    {
        self.primary_index(EditorSelectionKind::Trigger)
    }

    pub fn is_selected(&self, selection: EditorSelection) -> (b: bool)
        ensures
            b == self.selected@.contains(selection),
    {
        let mut i: usize = 0;
        while i < self.selected.len()
            invariant
                i <= self.selected@.len(),
                forall|k: int| 0 <= k < i ==> self.selected@[k] != selection,
            decreases self.selected@.len() - i,
        {
            if self.selected[i] == selection {
                return true;
            }
            i = i + 1;
        }
        false
    }

    /// Selects `selection` alone.
    pub fn set_single_selection(&mut self, selection: EditorSelection)
        ensures
            final(self).selected@ == seq![selection],
    {
        self.selected.clear();
        self.selected.push(selection);
    }

    /// Adds `selection` at the end unless it is already selected.
    pub fn add_selection(&mut self, selection: EditorSelection)
        ensures
            old(self).selected@.contains(selection) ==> final(self).selected@ == old(
                self,
            ).selected@,
            !old(self).selected@.contains(selection) ==> final(self).selected@ == old(
                self,
            ).selected@.push(selection),
    {
        if !self.is_selected(selection) {
            self.selected.push(selection);
        }
    }

    /// Removes the first occurrence of `selection`, or adds it at the end when it is not
    /// selected.
    pub fn toggle_selection(&mut self, selection: EditorSelection)
        ensures
            !old(self).selected@.contains(selection) ==> final(self).selected@ == old(
                self,
            ).selected@.push(selection),
            old(self).selected@.contains(selection) ==> exists|p: int|
                0 <= p < old(self).selected@.len() && old(self).selected@[p] == selection
                    && (forall|k: int| 0 <= k < p ==> old(self).selected@[k] != selection)
                    && final(self).selected@ == old(self).selected@.remove(p),
    {
        let mut i: usize = 0;
        while i < self.selected.len()
            invariant
                i <= self.selected@.len(),
                self.selected@ == old(self).selected@,
                forall|k: int| 0 <= k < i ==> self.selected@[k] != selection,
            decreases self.selected@.len() - i,
        {
            if self.selected[i] == selection {
                self.selected.remove(i);
                return;
            }
            i = i + 1;
        }
        self.selected.push(selection);
    }

    pub fn clear_selection(&mut self)
        ensures
            final(self).selected@.len() == 0,
    {
        self.selected.clear();
    }

    /// The selections that name objects the level has, each once, listed by kind and
    /// index.
    pub fn valid_selected(&self, counts: LevelObjectCounts) -> (r: Vec<EditorSelection>)
        ensures
            selection_sorted(r@),
            forall|s: EditorSelection| #[trigger]
                r@.contains(s) == (self.selected@.contains(s) && selection_valid(s, counts)),
    {
        let mut out: Vec<EditorSelection> = Vec::new();
        let mut i: usize = 0;
        while i < self.selected.len()
            invariant
                i <= self.selected@.len(),
                selection_sorted(out@),
                forall|s: EditorSelection| #[trigger]
                    out@.contains(s) == (self.selected@.take(i as int).contains(s)
                        && selection_valid(s, counts)),
            decreases self.selected@.len() - i,
        {
            let s = self.selected[i];
            let ghost before = out@;
            if is_valid(s, counts) {
                insert_listed(&mut out, s);
            }
            proof {
                let t = self.selected@.take(i + 1);
                let t0 = self.selected@.take(i as int);
                assert forall|y: EditorSelection| #[trigger]
                    out@.contains(y) == (t.contains(y) && selection_valid(y, counts)) by {
                    if t.contains(y) {
                        let k = choose|k: int| 0 <= k < t.len() && t[k] == y;
                        if k < i {
                            assert(t0[k] == y);
                        }
                    }
                    if t0.contains(y) {
                        let k = choose|k: int| 0 <= k < i && t0[k] == y;
                        assert(t[k] == y);
                    }
                    if y == s {
                        assert(t[i as int] == y);
                    }
                }
            }
            i = i + 1;
        }
        assert(self.selected@.take(i as int) =~= self.selected@);
        out
    }

    /// Keeps only the selections that name objects the level has, each once, listed by
    /// kind and index.
    pub fn normalize_selection(&mut self, counts: LevelObjectCounts)
        ensures
            selection_sorted(final(self).selected@),
            forall|s: EditorSelection| #[trigger]
                final(self).selected@.contains(s) == (old(self).selected@.contains(s)
                    && selection_valid(s, counts)),
    {
        self.selected = self.valid_selected(counts);
    }

    /// The indices of the selected objects of kind `kind`, each once, in increasing order.
    pub fn selected_indices(&self, kind: EditorSelectionKind) -> (r: Vec<usize>)
        ensures
            usize_increasing(r@),
            forall|i: usize| #[trigger] r@.contains(i) == indices_of(self.selected@, kind, i),
    {
        let mut out: Vec<usize> = Vec::new();
        let mut j: usize = 0;
        while j < self.selected.len()
            invariant
                j <= self.selected@.len(),
                usize_increasing(out@),
                forall|i: usize| #[trigger]
                    out@.contains(i) == indices_of(self.selected@.take(j as int), kind, i),
            decreases self.selected@.len() - j,
        {
            let s = self.selected[j];
            let found = index_of(s, kind);
            if let Some(x) = found {
                insert_index(&mut out, x);
            }
            proof {
                let t = self.selected@.take(j + 1);
                let t0 = self.selected@.take(j as int);
                assert forall|i: usize| #[trigger] out@.contains(i) == indices_of(t, kind, i) by {
                    if indices_of(t, kind, i) {
                        let k = choose|k: int| 0 <= k < t.len() && spec_index_of(#[trigger] t[k], kind) == Some(i);
                        if k < j {
                            assert(t0[k] == t[k]);
                            assert(indices_of(t0, kind, i));
                        }
                    }
                    if indices_of(t0, kind, i) {
                        let k = choose|k: int| 0 <= k < t0.len() && spec_index_of(#[trigger] t0[k], kind) == Some(i);
                        assert(t[k] == t0[k]);
                    }
                    if found == Some(i) {
                        assert(t[j as int] == s);
                    }
                }
            }
            j = j + 1;
        }
        assert(self.selected@.take(j as int) =~= self.selected@);
        out
    }
}

} // verus!
