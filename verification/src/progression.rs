//! The campaign as the level menu shows it: chapters, their layers and levels, and the codes
//! that name levels.
use vstd::prelude::*;

use crate::keyed::{skip_ws, skip_ws_at, token_end, token_end_at};
use crate::text_format::{find_char, lemma_find_char_bounds, lemma_split_nonempty, split_from};
use crate::decimal::{format_u64, spec_format_int};
use crate::strutil::{chars_of, push_chars, push_str, str_eq};

verus! {

/// The chapter that lists the player's own levels.
pub const CUSTOM_LEVELS_CHAPTER_INDEX: usize = 8;

/// The number of chapters.
pub const CHAPTER_COUNT: usize = 9;

/// A level as the menu lists it.
#[derive(Clone, Copy, Debug, PartialEq, Eq)]
pub struct MenuLevelInfo {
    pub code: &'static str,
    pub title: &'static str,
}

/// A layer of a chapter and its levels.
#[derive(Clone, Debug)]
pub struct LayerInfo {
    pub title: &'static str,
    pub levels: Vec<MenuLevelInfo>,
}

/// A chapter of the menu.
#[derive(Clone, Debug)]
pub struct ChapterInfo {
    pub label: &'static str,
    pub section: &'static str,
    pub layers: Vec<LayerInfo>,
}

pub open spec fn level(code: &'static str, title: &'static str) -> MenuLevelInfo {
    MenuLevelInfo { code, title }
}

/// The levels of each layer of chapter `c`, layer by layer.
pub open spec fn spec_chapter_layers(c: int) -> Seq<Seq<MenuLevelInfo>> {
    if c == 0 {
        seq![seq![level("0-1", "INTO THE FIRE"), level("0-2", "THE MEATGRINDER"), level("0-3", "DOUBLE DOWN"), level("0-4", "A ONE-MACHINE ARMY"), level("0-5", "CERBERUS")]]
    } else if c == 1 {
        seq![seq![level("1-1", "HEART OF THE SUNRISE"), level("1-2", "THE BURNING WORLD"), level("1-3", "HALLS OF SACRED REMAINS"), level("1-4", "CLAIR DE LUNE")], seq![level("2-1", "BRIDGEBURNER"), level("2-2", "DEATH AT 20,000 VOLTS"), level("2-3", "SHEER HEART ATTACK"), level("2-4", "COURT OF THE CORPSE KING")], seq![level("3-1", "BELLY OF THE BEAST"), level("3-2", "IN THE FLESH")]]
    } else if c == 2 {
        seq![seq![level("4-1", "SLAVES TO POWER"), level("4-2", "GOD DAMN THE SUN"), level("4-3", "A SHOT IN THE DARK"), level("4-4", "CLAIR DE SOLEIL")], seq![level("5-1", "IN THE WAKE OF POSEIDON"), level("5-2", "WAVES OF THE STARLESS SEA"), level("5-3", "SHIP OF FOOLS"), level("5-4", "LEVIATHAN")], seq![level("6-1", "CRY FOR THE WEEPER"), level("6-2", "AESTHETICS OF HATE")]]
    } else if c == 3 {
        seq![seq![level("7-1", "GARDEN OF FORKING PATHS"), level("7-2", "LIGHT UP THE NIGHT"), level("7-3", "NO SOUND, NO MEMORY"), level("7-4", "...LIKE ANTENNAS TO HEAVEN")], seq![level("8-1", "HURTBREAK WONDERLAND"), level("8-2", "THROUGH THE MIRROR"), level("8-3", "DISINTEGRATION LOOP"), level("8-4", "FINAL FLIGHT")], seq![level("9-1", "???"), level("9-2", "???")]]
    } else if c == 4 {
        Seq::<Seq<MenuLevelInfo>>::empty()
    } else if c == 5 {
        Seq::<Seq<MenuLevelInfo>>::empty()
    } else if c == 6 {
        Seq::<Seq<MenuLevelInfo>>::empty()
    } else if c == 7 {
        Seq::<Seq<MenuLevelInfo>>::empty()
    } else if c == 8 {
        Seq::<Seq<MenuLevelInfo>>::empty()
    } else {
        Seq::<Seq<MenuLevelInfo>>::empty()
    }
}

fn push_level(v: &mut Vec<MenuLevelInfo>, code: &'static str, title: &'static str)
    ensures
        final(v)@ == old(v)@.push(level(code, title)),
{
    v.push(MenuLevelInfo { code, title });
}

fn layer_0_0() -> (res: LayerInfo)
    ensures
        res.title@ == "PRELUDE"@,
        res.levels@ == spec_chapter_layers(0)[0],
{
    let mut v: Vec<MenuLevelInfo> = Vec::new();
    push_level(&mut v, "0-1", "INTO THE FIRE");
    push_level(&mut v, "0-2", "THE MEATGRINDER");
    push_level(&mut v, "0-3", "DOUBLE DOWN");
    push_level(&mut v, "0-4", "A ONE-MACHINE ARMY");
    push_level(&mut v, "0-5", "CERBERUS");
    assert(v@ =~= seq![level("0-1", "INTO THE FIRE"), level("0-2", "THE MEATGRINDER"), level("0-3", "DOUBLE DOWN"), level("0-4", "A ONE-MACHINE ARMY"), level("0-5", "CERBERUS")]);
    LayerInfo { title: "PRELUDE", levels: v }
}

fn layer_1_0() -> (res: LayerInfo)
    ensures
        res.title@ == "LAYER 1: LIMBO"@,
        res.levels@ == spec_chapter_layers(1)[0],
{
    let mut v: Vec<MenuLevelInfo> = Vec::new();
    push_level(&mut v, "1-1", "HEART OF THE SUNRISE");
    push_level(&mut v, "1-2", "THE BURNING WORLD");
    push_level(&mut v, "1-3", "HALLS OF SACRED REMAINS");
    push_level(&mut v, "1-4", "CLAIR DE LUNE");
    assert(v@ =~= seq![level("1-1", "HEART OF THE SUNRISE"), level("1-2", "THE BURNING WORLD"), level("1-3", "HALLS OF SACRED REMAINS"), level("1-4", "CLAIR DE LUNE")]);
    LayerInfo { title: "LAYER 1: LIMBO", levels: v }
}

fn layer_1_1() -> (res: LayerInfo)
    ensures
        res.title@ == "LAYER 2: LUST"@,
        res.levels@ == spec_chapter_layers(1)[1],
{
    let mut v: Vec<MenuLevelInfo> = Vec::new();
    push_level(&mut v, "2-1", "BRIDGEBURNER");
    push_level(&mut v, "2-2", "DEATH AT 20,000 VOLTS");
    push_level(&mut v, "2-3", "SHEER HEART ATTACK");
    push_level(&mut v, "2-4", "COURT OF THE CORPSE KING");
    assert(v@ =~= seq![level("2-1", "BRIDGEBURNER"), level("2-2", "DEATH AT 20,000 VOLTS"), level("2-3", "SHEER HEART ATTACK"), level("2-4", "COURT OF THE CORPSE KING")]);
    LayerInfo { title: "LAYER 2: LUST", levels: v }
}

fn layer_1_2() -> (res: LayerInfo)
    ensures
        res.title@ == "LAYER 3: GLUTTONY"@,
        res.levels@ == spec_chapter_layers(1)[2],
{
    let mut v: Vec<MenuLevelInfo> = Vec::new();
    push_level(&mut v, "3-1", "BELLY OF THE BEAST");
    push_level(&mut v, "3-2", "IN THE FLESH");
    assert(v@ =~= seq![level("3-1", "BELLY OF THE BEAST"), level("3-2", "IN THE FLESH")]);
    LayerInfo { title: "LAYER 3: GLUTTONY", levels: v }
}

fn layer_2_0() -> (res: LayerInfo)
    ensures
        res.title@ == "LAYER 4: GREED"@,
        res.levels@ == spec_chapter_layers(2)[0],
{
    let mut v: Vec<MenuLevelInfo> = Vec::new();
    push_level(&mut v, "4-1", "SLAVES TO POWER");
    push_level(&mut v, "4-2", "GOD DAMN THE SUN");
    push_level(&mut v, "4-3", "A SHOT IN THE DARK");
    push_level(&mut v, "4-4", "CLAIR DE SOLEIL");
    assert(v@ =~= seq![level("4-1", "SLAVES TO POWER"), level("4-2", "GOD DAMN THE SUN"), level("4-3", "A SHOT IN THE DARK"), level("4-4", "CLAIR DE SOLEIL")]);
    LayerInfo { title: "LAYER 4: GREED", levels: v }
}

fn layer_2_1() -> (res: LayerInfo)
    ensures
        res.title@ == "LAYER 5: WRATH"@,
        res.levels@ == spec_chapter_layers(2)[1],
{
    let mut v: Vec<MenuLevelInfo> = Vec::new();
    push_level(&mut v, "5-1", "IN THE WAKE OF POSEIDON");
    push_level(&mut v, "5-2", "WAVES OF THE STARLESS SEA");
    push_level(&mut v, "5-3", "SHIP OF FOOLS");
    push_level(&mut v, "5-4", "LEVIATHAN");
    assert(v@ =~= seq![level("5-1", "IN THE WAKE OF POSEIDON"), level("5-2", "WAVES OF THE STARLESS SEA"), level("5-3", "SHIP OF FOOLS"), level("5-4", "LEVIATHAN")]);
    LayerInfo { title: "LAYER 5: WRATH", levels: v }
}

fn layer_2_2() -> (res: LayerInfo)
    ensures
        res.title@ == "LAYER 6: HERESY"@,
        res.levels@ == spec_chapter_layers(2)[2],
{
    let mut v: Vec<MenuLevelInfo> = Vec::new();
    push_level(&mut v, "6-1", "CRY FOR THE WEEPER");
    push_level(&mut v, "6-2", "AESTHETICS OF HATE");
    assert(v@ =~= seq![level("6-1", "CRY FOR THE WEEPER"), level("6-2", "AESTHETICS OF HATE")]);
    LayerInfo { title: "LAYER 6: HERESY", levels: v }
}

fn layer_3_0() -> (res: LayerInfo)
    ensures
        res.title@ == "LAYER 7: VIOLENCE"@,
        res.levels@ == spec_chapter_layers(3)[0],
{
    let mut v: Vec<MenuLevelInfo> = Vec::new();
    push_level(&mut v, "7-1", "GARDEN OF FORKING PATHS");
    push_level(&mut v, "7-2", "LIGHT UP THE NIGHT");
    push_level(&mut v, "7-3", "NO SOUND, NO MEMORY");
    push_level(&mut v, "7-4", "...LIKE ANTENNAS TO HEAVEN");
    assert(v@ =~= seq![level("7-1", "GARDEN OF FORKING PATHS"), level("7-2", "LIGHT UP THE NIGHT"), level("7-3", "NO SOUND, NO MEMORY"), level("7-4", "...LIKE ANTENNAS TO HEAVEN")]);
    LayerInfo { title: "LAYER 7: VIOLENCE", levels: v }
}

fn layer_3_1() -> (res: LayerInfo)
    ensures
        res.title@ == "LAYER 8: FRAUD"@,
        res.levels@ == spec_chapter_layers(3)[1],
{
    let mut v: Vec<MenuLevelInfo> = Vec::new();
    push_level(&mut v, "8-1", "HURTBREAK WONDERLAND");
    push_level(&mut v, "8-2", "THROUGH THE MIRROR");
    push_level(&mut v, "8-3", "DISINTEGRATION LOOP");
    push_level(&mut v, "8-4", "FINAL FLIGHT");
    assert(v@ =~= seq![level("8-1", "HURTBREAK WONDERLAND"), level("8-2", "THROUGH THE MIRROR"), level("8-3", "DISINTEGRATION LOOP"), level("8-4", "FINAL FLIGHT")]);
    LayerInfo { title: "LAYER 8: FRAUD", levels: v }
}

fn layer_3_2() -> (res: LayerInfo)
    ensures
        res.title@ == "LAYER 9: TREACHERY"@,
        res.levels@ == spec_chapter_layers(3)[2],
{
    let mut v: Vec<MenuLevelInfo> = Vec::new();
    push_level(&mut v, "9-1", "???");
    push_level(&mut v, "9-2", "???");
    assert(v@ =~= seq![level("9-1", "???"), level("9-2", "???")]);
    LayerInfo { title: "LAYER 9: TREACHERY", levels: v }
}

pub open spec fn chapter_label(c: int) -> Seq<char> {
    if c == 0 {
        "PRELUDE"@
    } else if c == 1 {
        "ACT I: INFINITE HYPERDEATH"@
    } else if c == 2 {
        "ACT II: IMPERFECT HATRED"@
    } else if c == 3 {
        "ACT III: GODFIST SUICIDE"@
    } else if c == 4 {
        "ENCORES"@
    } else if c == 5 {
        "PRIME SANCTUMS"@
    } else if c == 6 {
        "THE CYBER GRIND"@
    } else if c == 7 {
        "SANDBOX"@
    } else if c == 8 {
        "CUSTOM LEVELS"@
    } else {
        Seq::<char>::empty()
    }
}

pub open spec fn chapter_section(c: int) -> Seq<char> {
    if c < 4 {
        "PRIMARY"@
    } else {
        "SECONDARY"@
    }
}

pub open spec fn layer_levels(layers: Seq<LayerInfo>) -> Seq<Seq<MenuLevelInfo>> {
    Seq::new(layers.len(), |i: int| layers[i].levels@)
}

/// Chapter `index` of the menu; none past the last.
pub fn chapter(index: usize) -> (res: Option<ChapterInfo>)
    ensures
        index < CHAPTER_COUNT ==> (res matches Some(ch) && ch.label@ == chapter_label(index as int)
            && ch.section@ == chapter_section(index as int) && layer_levels(ch.layers@)
            == spec_chapter_layers(index as int)),
        index >= CHAPTER_COUNT ==> res is None,
        res matches Some(ch) ==> ch.layers@.len() <= 3 && forall|j: int|
            0 <= j < ch.layers@.len() ==> #[trigger] ch.layers@[j].levels@.len() <= 5,
{
    let mut layers: Vec<LayerInfo> = Vec::new();
    if index == 0 {
        layers.push(layer_0_0());
        assert(layer_levels(layers@) =~= spec_chapter_layers(0));
        Some(ChapterInfo { label: "PRELUDE", section: "PRIMARY", layers })
    } else if index == 1 {
        layers.push(layer_1_0());
        layers.push(layer_1_1());
        layers.push(layer_1_2());
        assert(layer_levels(layers@) =~= spec_chapter_layers(1));
        Some(ChapterInfo { label: "ACT I: INFINITE HYPERDEATH", section: "PRIMARY", layers })
    } else if index == 2 {
        layers.push(layer_2_0());
        layers.push(layer_2_1());
        layers.push(layer_2_2());
        assert(layer_levels(layers@) =~= spec_chapter_layers(2));
        Some(ChapterInfo { label: "ACT II: IMPERFECT HATRED", section: "PRIMARY", layers })
    } else if index == 3 {
        layers.push(layer_3_0());
        layers.push(layer_3_1());
        layers.push(layer_3_2());
        assert(layer_levels(layers@) =~= spec_chapter_layers(3));
        Some(ChapterInfo { label: "ACT III: GODFIST SUICIDE", section: "PRIMARY", layers })
    } else if index == 4 {

        assert(layer_levels(layers@) =~= spec_chapter_layers(4));
        Some(ChapterInfo { label: "ENCORES", section: "SECONDARY", layers })
    } else if index == 5 {

        assert(layer_levels(layers@) =~= spec_chapter_layers(5));
        Some(ChapterInfo { label: "PRIME SANCTUMS", section: "SECONDARY", layers })
    } else if index == 6 {

        assert(layer_levels(layers@) =~= spec_chapter_layers(6));
        Some(ChapterInfo { label: "THE CYBER GRIND", section: "SECONDARY", layers })
    } else if index == 7 {

        assert(layer_levels(layers@) =~= spec_chapter_layers(7));
        Some(ChapterInfo { label: "SANDBOX", section: "SECONDARY", layers })
    } else if index == 8 {

        assert(layer_levels(layers@) =~= spec_chapter_layers(8));
        Some(ChapterInfo { label: "CUSTOM LEVELS", section: "SECONDARY", layers })
    } else {
        None
    }
}

/// The levels of the layers one after another.
pub open spec fn flatten(ls: Seq<Seq<MenuLevelInfo>>) -> Seq<MenuLevelInfo>
    decreases ls.len(),
{
    if ls.len() == 0 {
        seq![]
    } else {
        flatten(ls.drop_last()) + ls.last()
    }
}

/// All levels of chapter `c`, in menu order.
pub open spec fn spec_chapter_levels(c: int) -> Seq<MenuLevelInfo> {
    flatten(spec_chapter_layers(c))
}

proof fn lemma_flatten_prefix(ls: Seq<Seq<MenuLevelInfo>>, k: int)
    requires
        0 <= k <= ls.len(),
    ensures
        flatten(ls.take(k)).len() <= flatten(ls).len(),
        forall|i: int| 0 <= i < flatten(ls.take(k)).len() ==> #[trigger] flatten(ls.take(k))[i] == flatten(ls)[i],
    decreases ls.len(),
{
    if k == ls.len() {
        assert(ls.take(k) =~= ls);
    } else {
        assert(ls.drop_last().take(k) =~= ls.take(k));
        lemma_flatten_prefix(ls.drop_last(), k);
    }
}

/// The number of levels of chapter `chapter_index`; zero past the last chapter.
pub fn chapter_level_count(chapter_index: usize) -> (n: usize)
    ensures
        n == spec_chapter_levels(chapter_index as int).len(),
{
    let ch = match chapter(chapter_index) {
        Some(ch) => ch,
        None => return 0,
    };
    let ghost ls = layer_levels(ch.layers@);
    let mut total: usize = 0;
    let mut i: usize = 0;
    assert(ls.take(0) =~= Seq::<Seq<MenuLevelInfo>>::empty());
    while i < ch.layers.len()
        invariant
            ls == layer_levels(ch.layers@),
            ch.layers@.len() <= 3,
            forall|j: int| 0 <= j < ch.layers@.len() ==> #[trigger] ch.layers@[j].levels@.len() <= 5,
            i <= ch.layers@.len(),
            total <= 5 * i,
            total == flatten(ls.take(i as int)).len(),
        decreases ch.layers@.len() - i,
    {
        assert(ls.take(i + 1).drop_last() =~= ls.take(i as int));
        assert(ls[i as int] == ch.layers@[i as int].levels@);
        total = total + ch.layers[i].levels.len();
        i = i + 1;
    }
    assert(ls.take(i as int) =~= ls);
    total
}

/// Level `level_index` of chapter `chapter_index`, counting through its layers in order.
pub fn chapter_level(chapter_index: usize, level_index: usize) -> (res: Option<MenuLevelInfo>)
    ensures
        level_index < spec_chapter_levels(chapter_index as int).len() ==> res == Some(
            spec_chapter_levels(chapter_index as int)[level_index as int],
        ),
        level_index >= spec_chapter_levels(chapter_index as int).len() ==> res is None,
{
    let ch = match chapter(chapter_index) {
        Some(ch) => ch,
        None => return None,
    };
    let ghost ls = layer_levels(ch.layers@);
    let mut remaining = level_index;
    let mut i: usize = 0;
    assert(ls.take(0) =~= Seq::<Seq<MenuLevelInfo>>::empty());
    while i < ch.layers.len()
        invariant
            ls == layer_levels(ch.layers@),
            ls == spec_chapter_layers(chapter_index as int),
            i <= ch.layers@.len(),
            flatten(ls.take(i as int)).len() <= level_index,
            remaining == level_index - flatten(ls.take(i as int)).len(),
        decreases ch.layers@.len() - i,
    {
        let n = ch.layers[i].levels.len();
        let ghost t = ls.take(i + 1);
        assert(t.drop_last() =~= ls.take(i as int));
        assert(ls[i as int] == ch.layers@[i as int].levels@);
        if remaining < n {
            proof {
                lemma_flatten_prefix(ls, i + 1);
                assert(flatten(t)[level_index as int] == ls[i as int][remaining as int]);
            }
            return Some(ch.layers[i].levels[remaining]);
        }
        remaining = remaining - n;
        i = i + 1;
    }
    assert(ls.take(i as int) =~= ls);
    None
}

/// Whether chapter `chapter_index` is the one listing the player's own levels.
pub fn is_custom_chapter(chapter_index: usize) -> (b: bool)
    ensures
        b == (chapter_index == CUSTOM_LEVELS_CHAPTER_INDEX),
{
    chapter_index == CUSTOM_LEVELS_CHAPTER_INDEX
}

// ---------------------------------------------------------------------------
// Level codes.

pub open spec fn all_ascii_digits(s: Seq<char>) -> bool {
    forall|i: int| 0 <= i < s.len() ==> '0' <= #[trigger] s[i] && s[i] <= '9'
}

/// The code that starts a level name, such as `4-2`: the first word, when it is two runs
/// of ASCII digits joined by one `-`.
pub open spec fn spec_level_code(name: Seq<char>) -> Option<Seq<char>> {
    let st = skip_ws(name, 0);
    if st >= name.len() {
        None
    } else {
        let code = name.subrange(st, token_end(name, st));
        let parts = crate::text_format::split_from(code, '-', 0);
        if parts.len() == 2 && parts[0].len() > 0 && parts[1].len() > 0 && all_ascii_digits(
            parts[0],
        ) && all_ascii_digits(parts[1]) {
            Some(code)
        } else {
            None
        }
    }
}

/// The first whitespace-separated word of `name`, if it has one.
pub open spec fn first_word(name: Seq<char>) -> Option<Seq<char>> {
    let st = skip_ws(name, 0);
    if st >= name.len() {
        None
    } else {
        Some(name.subrange(st, token_end(name, st)))
    }
}

/// `t` is a non-empty run of ASCII digits, one `-`, and another non-empty run of ASCII
/// digits.
pub open spec fn is_level_code(t: Seq<char>) -> bool {
    exists|k: int|
        0 < k < t.len() - 1 && #[trigger] t[k] == '-' && all_ascii_digits(t.subrange(0, k))
            && all_ascii_digits(t.subrange(k + 1, t.len() as int))
}

proof fn lemma_code_shape(t: Seq<char>)
    ensures
        ({
            let parts = crate::text_format::split_from(t, '-', 0);
            parts.len() == 2 && parts[0].len() > 0 && parts[1].len() > 0 && all_ascii_digits(
                parts[0],
            ) && all_ascii_digits(parts[1])
        }) == is_level_code(t),
{
    lemma_find_char_bounds(t, '-', 0);
    let k = find_char(t, '-', 0);
    let parts = split_from(t, '-', 0);
    let n = t.len() as int;
    if k >= n {
        assert(parts =~= seq![t.subrange(0, n)]);
        if is_level_code(t) {
            let w = choose|w: int|
                0 < w < t.len() - 1 && #[trigger] t[w] == '-' && all_ascii_digits(t.subrange(0, w))
                    && all_ascii_digits(t.subrange(w + 1, t.len() as int));
            assert(t[w] != '-');
        }
    } else {
        lemma_find_char_bounds(t, '-', k + 1);
        let k2 = find_char(t, '-', k + 1);
        let rest = split_from(t, '-', k + 1);
        assert(parts =~= seq![t.subrange(0, k)] + rest);
        if is_level_code(t) {
            let w = choose|w: int|
                0 < w < t.len() - 1 && #[trigger] t[w] == '-' && all_ascii_digits(t.subrange(0, w))
                    && all_ascii_digits(t.subrange(w + 1, t.len() as int));
            if w < k {
                assert(t[w] != '-');
            }
            if w > k {
                assert(t.subrange(0, w)[k] == t[k]);
            }
            assert(w == k);
            if k2 < n {
                assert(t.subrange(k + 1, n)[k2 - k - 1] == t[k2]);
            }
        }
        if k2 >= n {
            assert(rest =~= seq![t.subrange(k + 1, n)]);
        } else {
            lemma_split_nonempty(t, '-', k2 + 1);
            assert(rest =~= seq![t.subrange(k + 1, k2)] + split_from(t, '-', k2 + 1));
        }
    }
}

/// A level name has a code exactly when its first word is two non-empty runs of ASCII
/// digits joined by one `-`; the code is that word.
pub proof fn lemma_level_code_law(name: Seq<char>)
    ensures
        spec_level_code(name) == match first_word(name) {
            Some(t) => if is_level_code(t) {
                Some(t)
            } else {
                None
            },
            None => None,
        },
{
    let st = skip_ws(name, 0);
    if st < name.len() {
        lemma_code_shape(name.subrange(st, token_end(name, st)));
    }
}

fn digits_only(s: &str) -> (b: bool)
    ensures
        b == all_ascii_digits(s@),
{
    let cs = chars_of(s);
    let mut i: usize = 0;
    while i < cs.len()
        invariant
            cs@ == s@,
            i <= cs@.len(),
            forall|k: int| 0 <= k < i ==> '0' <= #[trigger] cs@[k] && cs@[k] <= '9',
        decreases cs@.len() - i,
    {
        if !('0' <= cs[i] && cs[i] <= '9') {
            return false;
        }
        i = i + 1;
    }
    true
}

/// The code of a level name, if it starts with one.
pub fn level_code(name: &str) -> (res: Option<String>)
    ensures
        match spec_level_code(name@) {
            Some(c) => res matches Some(r) && r@ == c,
            None => res is None,
        },
        match first_word(name@) {
            Some(t) => if is_level_code(t) {
                res matches Some(r) && r@ == t
            } else {
                res is None
            },
            None => res is None,
        },
{
    proof {
        lemma_level_code_law(name@);
    }
    let cs = chars_of(name);
    let st = skip_ws_at(cs.as_slice(), 0);
    if st >= cs.len() {
        return None;
    }
    let e = token_end_at(cs.as_slice(), st);
    proof {
        crate::keyed::lemma_skip_ws_bounds(cs@, 0);
    }
    let mut code = String::new();
    push_chars(&mut code, cs.as_slice(), st, e);
    let parts = crate::text_format::split_char(code.as_str(), '-');
    let ghost pv = crate::chunk::strings_view(parts@);
    if parts.len() != 2 {
        return None;
    }
    assert(pv[0] == parts@[0]@ && pv[1] == parts@[1]@);
    let major = chars_of(parts[0].as_str());
    let minor = chars_of(parts[1].as_str());
    let ok = major.len() > 0 && minor.len() > 0 && digits_only(parts[0].as_str()) && digits_only(
        parts[1].as_str(),
    );
    if ok {
        Some(code)
    } else {
        None
    }
}

/// The first name whose level code is `code`.
pub open spec fn spec_find_level_by_code(names: Seq<Seq<char>>, code: Seq<char>) -> Option<int>
    decreases names.len(),
{
    if names.len() == 0 {
        None
    } else {
        match spec_find_level_by_code(names.drop_last(), code) {
            Some(i) => Some(i),
            None => if spec_level_code(names.last()) == Some(code) {
                Some(names.len() - 1)
            } else {
                None
            },
        }
    }
}

/// The position of the first level named with `code`.
pub fn find_level_by_code(names: &[String], code: &str) -> (res: Option<usize>)
    ensures
        match spec_find_level_by_code(crate::chunk::strings_view(names@), code@) {
            Some(i) => res == Some(i as usize),
            None => res is None,
        },
{
    let ghost nv = crate::chunk::strings_view(names@);
    let mut i: usize = 0;
    assert(nv.take(0) =~= Seq::<Seq<char>>::empty());
    while i < names.len()
        invariant
            nv == crate::chunk::strings_view(names@),
            i <= names@.len(),
            spec_find_level_by_code(nv.take(i as int), code@) is None,
        decreases names@.len() - i,
    {
        let ghost t = nv.take(i + 1);
        assert(t.drop_last() =~= nv.take(i as int));
        assert(t.last() == names@[i as int]@);
        let found = match level_code(names[i].as_str()) {
            Some(c) => str_eq(c.as_str(), code),
            None => false,
        };
        if found {
            proof {
                lemma_find_extends(nv, i + 1, code@);
            }
            return Some(i);
        }
        i = i + 1;
    }
    assert(nv.take(i as int) =~= nv);
    None
}

proof fn lemma_find_extends(names: Seq<Seq<char>>, j: int, code: Seq<char>)
    requires
        0 <= j <= names.len(),
        spec_find_level_by_code(names.take(j), code) is Some,
    ensures
        spec_find_level_by_code(names, code) == spec_find_level_by_code(names.take(j), code),
    decreases names.len() - j,
{
    if j < names.len() {
        assert(names.take(j + 1).drop_last() =~= names.take(j));
        lemma_find_extends(names, j + 1, code);
    } else {
        assert(names.take(j) =~= names);
    }
}

/// The positions of the levels whose names carry no level code, in order.
pub open spec fn spec_custom_level_indices(names: Seq<Seq<char>>) -> Seq<usize>
    decreases names.len(),
{
    if names.len() == 0 {
        seq![]
    } else {
        spec_custom_level_indices(names.drop_last()) + if spec_level_code(names.last()) is None {
            seq![(names.len() - 1) as usize]
        } else {
            seq![]
        }
    }
}

/// The positions of the player's own levels: those without a level code.
pub fn custom_level_indices(names: &[String]) -> (res: Vec<usize>)
    ensures
        res@ == spec_custom_level_indices(crate::chunk::strings_view(names@)),
{
    let ghost nv = crate::chunk::strings_view(names@);
    let mut out: Vec<usize> = Vec::new();
    let mut i: usize = 0;
    assert(nv.take(0) =~= Seq::<Seq<char>>::empty());
    while i < names.len()
        invariant
            nv == crate::chunk::strings_view(names@),
            i <= names@.len(),
            out@ == spec_custom_level_indices(nv.take(i as int)),
        decreases names@.len() - i,
    {
        let ghost t = nv.take(i + 1);
        assert(t.drop_last() =~= nv.take(i as int));
        assert(t.last() == names@[i as int]@);
        if level_code(names[i].as_str()).is_none() {
            out.push(i);
        }
        assert(out@ =~= spec_custom_level_indices(t));
        i = i + 1;
    }
    assert(nv.take(i as int) =~= nv);
    out
}

/// The default name of the `n`-th custom level.
pub open spec fn custom_level_name(n: int) -> Seq<char> {
    "CUSTOM LEVEL "@ + spec_format_int(n)
}

/// The first of `CUSTOM LEVEL 1` .. `CUSTOM LEVEL 9999`, from `n` on, that no level is named;
/// `CUSTOM LEVEL` when all are taken.
pub open spec fn spec_next_custom_name(names: Seq<Seq<char>>, n: int) -> Seq<char>
    decreases 10000 - n,
{
    if n >= 10000 {
        "CUSTOM LEVEL"@
    } else if !names.contains(custom_level_name(n)) {
        custom_level_name(n)
    } else {
        spec_next_custom_name(names, n + 1)
    }
}

fn name_taken(names: &[String], name: &str) -> (b: bool)
    ensures
        b == crate::chunk::strings_view(names@).contains(name@),
{
    let ghost nv = crate::chunk::strings_view(names@);
    let mut i: usize = 0;
    while i < names.len()
        invariant
            nv == crate::chunk::strings_view(names@),
            i <= names@.len(),
            forall|k: int| 0 <= k < i ==> nv[k] != name@,
        decreases names@.len() - i,
    {
        if str_eq(names[i].as_str(), name) {
            assert(nv[i as int] == name@);
            return true;
        }
        i = i + 1;
    }
    false
}

/// The name of a new custom level: the first `CUSTOM LEVEL <n>` that no level has.
pub fn next_custom_level_name(names: &[String]) -> (res: String)
    ensures
        res@ == spec_next_custom_name(crate::chunk::strings_view(names@), 1),
{
    let ghost nv = crate::chunk::strings_view(names@);
    let mut n: u64 = 1;
    while n < 10000
        invariant
            nv == crate::chunk::strings_view(names@),
            1 <= n <= 10000,
            spec_next_custom_name(nv, 1) == spec_next_custom_name(nv, n as int),
        decreases 10000 - n,
    {
        let mut name = "CUSTOM LEVEL ".to_string();
        let digits = format_u64(n);
        push_str(&mut name, digits.as_str());
        proof {
            reveal_strlit("CUSTOM LEVEL ");
        }
        assert(name@ == custom_level_name(n as int));
        if !name_taken(names, name.as_str()) {
            return name;
        }
        n = n + 1;
    }
    "CUSTOM LEVEL".to_string()
}

} // verus!
