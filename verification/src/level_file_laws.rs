//! A level file written by `format_level` reads back, through `parse_level_text`, as the level
//! it was written from, and every object keeps its metadata.
use vstd::prelude::*;

use crate::index_laws::{
    command_ok, lemma_bool_text_round_trip, lemma_content_joined, lemma_line_reads_back,
    lemma_num_shape, lemma_parse_signed_num, lemma_parse_unsigned_num, lemma_trim_self,
    line_ok, line_text,
};
use crate::keyed::{
    bare_ok, field_pairs, fields_ok, is_ws, key_ok, keyed_line, lookup, skip_ws, spec_fields,
    spec_looks_keyed, spec_split_command, spec_trim, token_end,
};
use crate::level::{
    is_default_meta, last_meta, lemma_prune_keeps_last, spec_field_meta, spec_object_meta,
    spec_prune, LevelObjectKind, LevelObjectMeta, LevelTriggerKind, ObjectMeta,
};
use crate::level_file::{
    checkpoint_fields, checkpoint_texts, door_fields, door_row, door_texts, empty_level,
    enemy_fields, enemy_row, enemy_texts, eq_ignore_ascii_case, hazard_fields, hazard_row,
    hazard_texts, header_fields, level_body, level_step, level_texts, name_fields, opt_text,
    opt_x, opt_y, point_of, rect_of, solid_fields, solid_row, solid_texts, spec_format_level,
    spec_level_lines, spec_parse_level, stem_name, text_fields, text_row, text_texts,
    trigger_fields, trigger_row, trigger_texts, trigger_word, with_inline_meta,
    world_portal_fields, world_portal_row, world_portal_texts, DoorRow, EnemyRow, HazardRow,
    LevelDocModel, Point, Rect, SolidRow, TextRow, TriggerRow, WorldPortalRow,
};
use crate::text_format::{bool_text, content_lines, field_unsigned, num};

verus! {

// ---------------------------------------------------------------------------
// Reading fields back from a written row.

pub broadcast proof fn lemma_lookup_push(
    s: Seq<(Seq<char>, Seq<char>)>,
    x: (Seq<char>, Seq<char>),
    k: Seq<char>,
)
    ensures
        #[trigger] lookup(s.push(x), k) == if x.0 == k {
            Some(x.1)
        } else {
            lookup(s, k)
        },
{
    assert(s.push(x).drop_last() =~= s);
}

pub broadcast proof fn lemma_field_pairs_push(
    fs: Seq<(Seq<char>, Seq<char>, bool)>,
    f: (Seq<char>, Seq<char>, bool),
)
    ensures
        #[trigger] field_pairs(fs.push(f)) == field_pairs(fs).push((f.0, f.1)),
{
    assert(field_pairs(fs.push(f)) =~= field_pairs(fs).push((f.0, f.1)));
}

proof fn lemma_fields_ok_at(fs: Seq<(Seq<char>, Seq<char>, bool)>, j: int)
    requires
        fields_ok(fs),
        0 <= j < fs.len(),
    ensures
        key_ok(fs[j].0) && (fs[j].2 || bare_ok(fs[j].1)),
{
}

pub broadcast proof fn lemma_fields_ok_push(
    fs: Seq<(Seq<char>, Seq<char>, bool)>,
    f: (Seq<char>, Seq<char>, bool),
)
    ensures
        #[trigger] fields_ok(fs.push(f)) == (fields_ok(fs) && key_ok(f.0) && (f.2 || bare_ok(f.1))),
{
    let g = fs.push(f);
    let n = fs.len() as int;
    assert(g.len() == n + 1);
    assert(g[n] == f);
    if fields_ok(fs) && key_ok(f.0) && (f.2 || bare_ok(f.1)) {
        assert forall|j: int| 0 <= j < g.len() implies key_ok(#[trigger] g[j].0) && (g[j].2
            || bare_ok(g[j].1)) by {
            if j < n {
                assert(g[j] == fs[j]);
                lemma_fields_ok_at(fs, j);
            }
        }
    }
    if fields_ok(g) {
        lemma_fields_ok_at(g, n);
        assert forall|j: int| 0 <= j < n implies key_ok(#[trigger] fs[j].0) && (fs[j].2
            || bare_ok(fs[j].1)) by {
            assert(g[j] == fs[j]);
            lemma_fields_ok_at(g, j);
        }
    }
}

proof fn lemma_fields_ok_empty()
    ensures
        fields_ok(Seq::<(Seq<char>, Seq<char>, bool)>::empty()),
        field_pairs(Seq::<(Seq<char>, Seq<char>, bool)>::empty()) == Seq::<(Seq<char>, Seq<char>)>::empty(),
{
    assert(field_pairs(Seq::<(Seq<char>, Seq<char>, bool)>::empty()) =~= Seq::<(Seq<char>, Seq<char>)>::empty());
}

/// The keys and commands of the level file: their lengths, that they read back as keys and
/// commands, and which of equal length differ.
proof fn lemma_level_keys()
    ensures
        key_ok("version"@) && "version"@.len() == 7,
        key_ok("name"@) && "name"@.len() == 4,
        key_ok("spawn_x"@) && "spawn_x"@.len() == 7,
        key_ok("spawn_y"@) && "spawn_y"@.len() == 7,
        key_ok("x"@) && "x"@.len() == 1,
        key_ok("y"@) && "y"@.len() == 1,
        key_ok("w"@) && "w"@.len() == 1,
        key_ok("h"@) && "h"@.len() == 1,
        key_ok("portalable"@) && "portalable"@.len() == 10,
        key_ok("rotation"@) && "rotation"@.len() == 8,
        key_ok("radius"@) && "radius"@.len() == 6,
        key_ok("speed"@) && "speed"@.len() == 5,
        key_ok("automatic"@) && "automatic"@.len() == 9,
        key_ok("kind"@) && "kind"@.len() == 4,
        key_ok("spawn_id"@) && "spawn_id"@.len() == 8,
        key_ok("spawn_wave"@) && "spawn_wave"@.len() == 10,
        key_ok("enemy_id"@) && "enemy_id"@.len() == 8,
        key_ok("value"@) && "value"@.len() == 5,
        key_ok("normal_x"@) && "normal_x"@.len() == 8,
        key_ok("normal_y"@) && "normal_y"@.len() == 8,
        key_ok("tangent_x"@) && "tangent_x"@.len() == 9,
        key_ok("tangent_y"@) && "tangent_y"@.len() == 9,
        key_ok("width"@) && "width"@.len() == 5,
        key_ok("portal_id"@) && "portal_id"@.len() == 9,
        key_ok("receiver_id"@) && "receiver_id"@.len() == 11,
        key_ok("priority"@) && "priority"@.len() == 8,
        key_ok("scale"@) && "scale"@.len() == 5,
        key_ok("scale_objects"@) && "scale_objects"@.len() == 13,
        key_ok("seamless"@) && "seamless"@.len() == 8,
        key_ok("seamless_depth"@) && "seamless_depth"@.len() == 14,
        key_ok("seamless_angle"@) && "seamless_angle"@.len() == 14,
        key_ok("seamless_rely_on_walls"@) && "seamless_rely_on_walls"@.len() == 22,
        key_ok("obj_id"@) && "obj_id"@.len() == 6,
        key_ok("layer"@) && "layer"@.len() == 5,
        "object_id"@.len() == 9,
        "x"@ != "y"@ && "x"@ != "w"@ && "x"@ != "h"@ && "y"@ != "w"@ && "y"@ != "h"@ && "w"@ != "h"@,
        "spawn_x"@ != "spawn_y"@,
        "radius"@ != "obj_id"@,
        "speed"@ != "layer"@ && "value"@ != "layer"@ && "width"@ != "layer"@ && "scale"@ != "layer"@
            && "width"@ != "scale"@,
        "normal_x"@ != "normal_y"@ && "normal_x"@ != "priority"@ && "normal_x"@ != "seamless"@
            && "normal_y"@ != "priority"@ && "normal_y"@ != "seamless"@ && "priority"@ != "seamless"@,
        "tangent_x"@ != "tangent_y"@ && "tangent_x"@ != "portal_id"@ && "tangent_y"@ != "portal_id"@,
        "seamless_depth"@ != "seamless_angle"@,
        command_ok("portals_level"@) && "portals_level"@.len() == 13,
        command_ok("level"@) && "level"@.len() == 5,
        command_ok("solid"@) && "solid"@.len() == 5,
        command_ok("door"@) && "door"@.len() == 4,
        command_ok("hazard"@) && "hazard"@.len() == 6,
        command_ok("checkpoint"@) && "checkpoint"@.len() == 10,
        command_ok("enemy"@) && "enemy"@.len() == 5,
        command_ok("trigger"@) && "trigger"@.len() == 7,
        command_ok("text"@) && "text"@.len() == 4,
        command_ok("world_portal"@) && "world_portal"@.len() == 12,
        "meta"@.len() == 4,
        "level"@ != "solid"@ && "level"@ != "enemy"@ && "solid"@ != "enemy"@,
        "door"@ != "text"@ && "door"@ != "meta"@ && "text"@ != "meta"@,
{
    reveal_strlit("version");
    reveal_strlit("name");
    reveal_strlit("spawn_x");
    reveal_strlit("spawn_y");
    reveal_strlit("x");
    reveal_strlit("y");
    reveal_strlit("w");
    reveal_strlit("h");
    reveal_strlit("portalable");
    reveal_strlit("rotation");
    reveal_strlit("radius");
    reveal_strlit("speed");
    reveal_strlit("automatic");
    reveal_strlit("kind");
    reveal_strlit("spawn_id");
    reveal_strlit("spawn_wave");
    reveal_strlit("enemy_id");
    reveal_strlit("value");
    reveal_strlit("normal_x");
    reveal_strlit("normal_y");
    reveal_strlit("tangent_x");
    reveal_strlit("tangent_y");
    reveal_strlit("width");
    reveal_strlit("portal_id");
    reveal_strlit("receiver_id");
    reveal_strlit("priority");
    reveal_strlit("scale");
    reveal_strlit("scale_objects");
    reveal_strlit("seamless");
    reveal_strlit("seamless_depth");
    reveal_strlit("seamless_angle");
    reveal_strlit("seamless_rely_on_walls");
    reveal_strlit("obj_id");
    reveal_strlit("layer");
    reveal_strlit("object_id");
    reveal_strlit("portals_level");
    reveal_strlit("level");
    reveal_strlit("solid");
    reveal_strlit("door");
    reveal_strlit("hazard");
    reveal_strlit("checkpoint");
    reveal_strlit("enemy");
    reveal_strlit("trigger");
    reveal_strlit("text");
    reveal_strlit("world_portal");
    reveal_strlit("meta");
    assert("x"@[0] == 'x' && "y"@[0] == 'y' && "w"@[0] == 'w' && "h"@[0] == 'h');
    assert("spawn_x"@[6] == 'x' && "spawn_y"@[6] == 'y');
    assert("radius"@[0] == 'r' && "obj_id"@[0] == 'o');
    assert("speed"@[0] == 's' && "value"@[0] == 'v' && "width"@[0] == 'w' && "scale"@[0] == 's'
        && "layer"@[0] == 'l');
    assert("speed"@[1] == 'p' && "scale"@[1] == 'c');
    assert("normal_x"@[0] == 'n' && "normal_y"@[0] == 'n' && "priority"@[0] == 'p'
        && "seamless"@[0] == 's');
    assert("normal_x"@[7] == 'x' && "normal_y"@[7] == 'y');
    assert("tangent_x"@[0] == 't' && "tangent_y"@[0] == 't' && "portal_id"@[0] == 'p');
    assert("tangent_x"@[8] == 'x' && "tangent_y"@[8] == 'y');
    assert("seamless_depth"@[9] == 'd' && "seamless_angle"@[9] == 'a');
    assert("level"@[0] == 'l' && "solid"@[0] == 's' && "enemy"@[0] == 'e');
    assert("door"@[0] == 'd' && "text"@[0] == 't' && "meta"@[0] == 'm');
}

/// A position inside a run of non-blank characters is before the end of the run's token.
proof fn lemma_token_end_past(s: Seq<char>, i: int, e: int)
    requires
        0 <= i <= e < s.len(),
        forall|j: int| i <= j <= e ==> !is_ws(#[trigger] s[j]),
    ensures
        token_end(s, i) > e,
    decreases e - i,
{
    if i < e {
        lemma_token_end_past(s, i + 1, e);
    } else {
        crate::keyed::lemma_token_end_bounds(s, e + 1);
    }
}

/// A written row splits into its command and its fields, and looks keyed.
proof fn lemma_keyed_row(command: Seq<char>, fs: Seq<(Seq<char>, Seq<char>, bool)>)
    requires
        command_ok(command),
        fields_ok(fs),
        fs.len() > 0,
    ensures
        line_ok(line_text(command, fs)),
        spec_split_command(line_text(command, fs)) matches Some((c, rest)) && c == command
            && spec_looks_keyed(rest) && spec_fields(rest) == field_pairs(fs),
{
    let l = line_text(command, fs);
    let n = command.len() as int;
    lemma_line_reads_back(command, fs);
    lemma_trim_self(l);
    let kl = keyed_line(fs);
    assert(l.subrange(n, l.len() as int) =~= seq![' '] + kl);
    crate::index_laws::lemma_keyed_line_shape(fs);
    crate::index_laws::lemma_trim_after_space(kl);
    let rest = spec_trim(l.subrange(n, l.len() as int));
    assert(rest == kl);
    // The first field starts the line: its key, then `=`.
    let k = fs[0].0;
    assert(key_ok(k) && (fs[0].2 || bare_ok(fs[0].1)));
    let f0 = crate::keyed::field_text(k, fs[0].1, fs[0].2);
    assert(kl.subrange(0, f0.len() as int) == f0) by {
        if fs.len() == 1 {
            assert(kl == f0);
            assert(kl.subrange(0, f0.len() as int) =~= f0);
        } else {
            assert(kl == f0 + seq![' '] + keyed_line(fs.skip(1)));
            assert(kl.subrange(0, f0.len() as int) =~= f0);
        }
    }
    assert(kl[k.len() as int] == '=') by {
        assert(f0[k.len() as int] == '=');
        assert(kl[k.len() as int] == kl.subrange(0, f0.len() as int)[k.len() as int]);
    }
    assert forall|j: int| 0 <= j <= k.len() implies !is_ws(#[trigger] kl[j]) by {
        assert(kl[j] == kl.subrange(0, f0.len() as int)[j]);
        if j < k.len() {
            assert(f0[j] == k[j]);
        }
    }
    assert(!is_ws(kl[0]));
    assert(skip_ws(kl, 0) == 0);
    lemma_token_end_past(kl, 0, k.len() as int);
    assert(spec_looks_keyed(kl));
}

// ---------------------------------------------------------------------------
// What can be written and read back.

/// A number written bare that reads back as a finite number.
pub open spec fn num_ok(t: Seq<char>, finite: Seq<Seq<char>>) -> bool {
    bare_ok(t) && finite.contains(t)
}

/// A number written bare that reads back as a number above zero.
pub open spec fn pos_ok(t: Seq<char>, finite: Seq<Seq<char>>, positive: Seq<Seq<char>>) -> bool {
    num_ok(t, finite) && positive.contains(t)
}

pub open spec fn some_num_ok(o: Option<Seq<char>>, finite: Seq<Seq<char>>) -> bool {
    o matches Some(t) && num_ok(t, finite)
}

pub open spec fn some_pos_ok(o: Option<Seq<char>>, finite: Seq<Seq<char>>, positive: Seq<Seq<char>>) -> bool {
    o matches Some(t) && pos_ok(t, finite, positive)
}

pub open spec fn point_ok(p: Point<Seq<char>>, finite: Seq<Seq<char>>) -> bool {
    num_ok(p.x, finite) && num_ok(p.y, finite)
}

pub open spec fn rect_ok(r: Rect<Seq<char>>, finite: Seq<Seq<char>>, positive: Seq<Seq<char>>) -> bool {
    num_ok(r.x, finite) && num_ok(r.y, finite) && pos_ok(r.w, finite, positive) && pos_ok(r.h, finite, positive)
}

pub open spec fn solid_ok(r: SolidRow<Seq<char>>, finite: Seq<Seq<char>>, positive: Seq<Seq<char>>) -> bool {
    rect_ok(r.rect, finite, positive) && some_num_ok(r.rotation, finite)
}

pub open spec fn door_ok(r: DoorRow<Seq<char>>, finite: Seq<Seq<char>>, positive: Seq<Seq<char>>) -> bool {
    &&& rect_ok(r.rect, finite, positive)
    &&& some_pos_ok(r.radius, finite, positive)
    &&& some_num_ok(r.rotation, finite)
    &&& some_pos_ok(r.speed, finite, positive)
}

pub open spec fn hazard_ok(r: HazardRow<Seq<char>>, finite: Seq<Seq<char>>, positive: Seq<Seq<char>>) -> bool {
    rect_ok(r.rect, finite, positive) && some_num_ok(r.rotation, finite)
}

/// An enemy present from the start has spawn group and wave zero; a spawned one has both
/// above zero.
pub open spec fn enemy_ok(r: EnemyRow<Seq<char>>, finite: Seq<Seq<char>>) -> bool {
    &&& point_ok(r.spawn, finite)
    &&& r.spawn_wave == 0 ==> r.spawn_id == 0
    &&& r.spawn_wave > 0 ==> r.spawn_id > 0
}

pub open spec fn trigger_ok(r: TriggerRow<Seq<char>>, finite: Seq<Seq<char>>, positive: Seq<Seq<char>>) -> bool {
    &&& rect_ok(r.rect, finite, positive)
    &&& (r.kind matches LevelTriggerKind::EnemySpawn { enemy_id } ==> enemy_id > 0)
}

pub open spec fn text_ok(r: TextRow<Seq<char>>, finite: Seq<Seq<char>>) -> bool {
    point_ok(r.pos, finite) && r.value.len() > 0
}

pub open spec fn world_portal_ok(r: WorldPortalRow<Seq<char>>, finite: Seq<Seq<char>>, positive: Seq<Seq<char>>) -> bool {
    &&& point_ok(r.pos, finite)
    &&& point_ok(r.normal, finite)
    &&& (r.tangent matches Some(t) && point_ok(t, finite))
    &&& some_pos_ok(r.width, finite, positive)
    &&& some_pos_ok(r.scale, finite, positive)
    &&& some_pos_ok(r.seamless_depth, finite, positive)
    &&& some_pos_ok(r.seamless_angle, finite, positive)
}

/// The metadata read back from a row: none when it is the default.
pub open spec fn read_meta(m: ObjectMeta) -> Option<ObjectMeta> {
    if is_default_meta(m) {
        None
    } else {
        Some(m)
    }
}

proof fn lemma_meta_read(f: Seq<(Seq<char>, Seq<char>)>, m: ObjectMeta)
    requires
        lookup(f, "obj_id"@) == Some(num(m.group_id as int)),
        lookup(f, "layer"@) == Some(num(m.editor_layer as int)),
    ensures
        spec_field_meta(f) == read_meta(m),
{
    lemma_parse_unsigned_num(m.group_id as int, 65535);
    lemma_parse_signed_num(m.editor_layer as int, 32768, 32767);
}

proof fn lemma_meta_shape(m: ObjectMeta)
    ensures
        bare_ok(num(m.group_id as int)),
        bare_ok(num(m.editor_layer as int)),
{
    lemma_num_shape(m.group_id as int);
    lemma_num_shape(m.editor_layer as int);
}

proof fn lemma_level_words()
    ensures
        bare_ok("filth"@),
        eq_ignore_ascii_case("filth"@, "filth"@),
        forall|k: LevelTriggerKind| #[trigger] bare_ok(trigger_word(k)),
        "level_start"@ != "level_end"@ && "level_start"@ != "enemy_spawn"@ && "level_end"@
            != "enemy_spawn"@,
{
    reveal_strlit("filth");
    reveal_strlit("level_start");
    reveal_strlit("level_end");
    reveal_strlit("enemy_spawn");
    assert("level_start"@.len() == 11 && "level_end"@.len() == 9 && "enemy_spawn"@.len() == 11);
    assert("level_start"@[0] == 'l' && "enemy_spawn"@[0] == 'e');
    assert forall|k: LevelTriggerKind| #[trigger] bare_ok(trigger_word(k)) by {
        match k {
            LevelTriggerKind::LevelStart => {},
            LevelTriggerKind::LevelEnd => {},
            LevelTriggerKind::EnemySpawn { .. } => {},
        }
    }
}


proof fn lemma_solid_reads_back(r: SolidRow<Seq<char>>, m: ObjectMeta, finite: Seq<Seq<char>>, positive: Seq<Seq<char>>)
    requires
        solid_ok(r, finite, positive),
    ensures
        fields_ok(solid_fields(r, m)),
        solid_fields(r, m).len() > 0,
        solid_row(field_pairs(solid_fields(r, m)), finite, positive) == Some(r),
        spec_field_meta(field_pairs(solid_fields(r, m))) == read_meta(m),
{
    broadcast use {lemma_lookup_push, lemma_field_pairs_push, lemma_fields_ok_push};
    lemma_level_keys();
    lemma_meta_shape(m);
    lemma_fields_ok_empty();
    lemma_bool_text_round_trip(r.portalable);
    let fs = Seq::<(Seq<char>, Seq<char>, bool)>::empty()
        .push(("x"@, r.rect.x, false))
        .push(("y"@, r.rect.y, false))
        .push(("w"@, r.rect.w, false))
        .push(("h"@, r.rect.h, false))
        .push(("portalable"@, bool_text(r.portalable), false))
        .push(("rotation"@, opt_text(r.rotation, "0"@), false))
        .push(("obj_id"@, num(m.group_id as int), false))
        .push(("layer"@, num(m.editor_layer as int), false));
    assert(solid_fields(r, m) =~= fs);
    let f = field_pairs(fs);
    assert(lookup(f, "x"@) == Some(r.rect.x));
    assert(lookup(f, "y"@) == Some(r.rect.y));
    assert(lookup(f, "w"@) == Some(r.rect.w));
    assert(lookup(f, "h"@) == Some(r.rect.h));
    assert(lookup(f, "portalable"@) == Some(bool_text(r.portalable)));
    assert(lookup(f, "rotation"@) == Some(opt_text(r.rotation, "0"@)));
    assert(lookup(f, "obj_id"@) == Some(num(m.group_id as int)));
    assert(lookup(f, "layer"@) == Some(num(m.editor_layer as int)));
    lemma_meta_read(f, m);
}

proof fn lemma_door_reads_back(r: DoorRow<Seq<char>>, m: ObjectMeta, finite: Seq<Seq<char>>, positive: Seq<Seq<char>>)
    requires
        door_ok(r, finite, positive),
    ensures
        fields_ok(door_fields(r, m)),
        door_fields(r, m).len() > 0,
        door_row(field_pairs(door_fields(r, m)), finite, positive) == Some(r),
        spec_field_meta(field_pairs(door_fields(r, m))) == read_meta(m),
{
    broadcast use {lemma_lookup_push, lemma_field_pairs_push, lemma_fields_ok_push};
    lemma_level_keys();
    lemma_meta_shape(m);
    lemma_fields_ok_empty();
    lemma_bool_text_round_trip(r.automatic);
    let fs = Seq::<(Seq<char>, Seq<char>, bool)>::empty()
        .push(("x"@, r.rect.x, false))
        .push(("y"@, r.rect.y, false))
        .push(("w"@, r.rect.w, false))
        .push(("h"@, r.rect.h, false))
        .push(("radius"@, opt_text(r.radius, "112"@), false))
        .push(("rotation"@, opt_text(r.rotation, "0"@), false))
        .push(("speed"@, opt_text(r.speed, "3.6"@), false))
        .push(("automatic"@, bool_text(r.automatic), false))
        .push(("obj_id"@, num(m.group_id as int), false))
        .push(("layer"@, num(m.editor_layer as int), false));
    assert(door_fields(r, m) =~= fs);
    let f = field_pairs(fs);
    assert(lookup(f, "x"@) == Some(r.rect.x));
    assert(lookup(f, "y"@) == Some(r.rect.y));
    assert(lookup(f, "w"@) == Some(r.rect.w));
    assert(lookup(f, "h"@) == Some(r.rect.h));
    assert(lookup(f, "radius"@) == Some(opt_text(r.radius, "112"@)));
    assert(lookup(f, "rotation"@) == Some(opt_text(r.rotation, "0"@)));
    assert(lookup(f, "speed"@) == Some(opt_text(r.speed, "3.6"@)));
    assert(lookup(f, "automatic"@) == Some(bool_text(r.automatic)));
    assert(lookup(f, "obj_id"@) == Some(num(m.group_id as int)));
    assert(lookup(f, "layer"@) == Some(num(m.editor_layer as int)));
    lemma_meta_read(f, m);
}

proof fn lemma_hazard_reads_back(r: HazardRow<Seq<char>>, m: ObjectMeta, finite: Seq<Seq<char>>, positive: Seq<Seq<char>>)
    requires
        hazard_ok(r, finite, positive),
    ensures
        fields_ok(hazard_fields(r, m)),
        hazard_fields(r, m).len() > 0,
        hazard_row(field_pairs(hazard_fields(r, m)), finite, positive) == Some(r),
        spec_field_meta(field_pairs(hazard_fields(r, m))) == read_meta(m),
{
    broadcast use {lemma_lookup_push, lemma_field_pairs_push, lemma_fields_ok_push};
    lemma_level_keys();
    lemma_meta_shape(m);
    lemma_fields_ok_empty();

    let fs = Seq::<(Seq<char>, Seq<char>, bool)>::empty()
        .push(("x"@, r.rect.x, false))
        .push(("y"@, r.rect.y, false))
        .push(("w"@, r.rect.w, false))
        .push(("h"@, r.rect.h, false))
        .push(("rotation"@, opt_text(r.rotation, "0"@), false))
        .push(("obj_id"@, num(m.group_id as int), false))
        .push(("layer"@, num(m.editor_layer as int), false));
    assert(hazard_fields(r, m) =~= fs);
    let f = field_pairs(fs);
    assert(lookup(f, "x"@) == Some(r.rect.x));
    assert(lookup(f, "y"@) == Some(r.rect.y));
    assert(lookup(f, "w"@) == Some(r.rect.w));
    assert(lookup(f, "h"@) == Some(r.rect.h));
    assert(lookup(f, "rotation"@) == Some(opt_text(r.rotation, "0"@)));
    assert(lookup(f, "obj_id"@) == Some(num(m.group_id as int)));
    assert(lookup(f, "layer"@) == Some(num(m.editor_layer as int)));
    lemma_meta_read(f, m);
}

proof fn lemma_checkpoint_reads_back(r: Rect<Seq<char>>, m: ObjectMeta, finite: Seq<Seq<char>>, positive: Seq<Seq<char>>)
    requires
        rect_ok(r, finite, positive),
    ensures
        fields_ok(checkpoint_fields(r, m)),
        checkpoint_fields(r, m).len() > 0,
        rect_of(field_pairs(checkpoint_fields(r, m)), finite, positive) == Some(r),
        spec_field_meta(field_pairs(checkpoint_fields(r, m))) == read_meta(m),
{
    broadcast use {lemma_lookup_push, lemma_field_pairs_push, lemma_fields_ok_push};
    lemma_level_keys();
    lemma_meta_shape(m);
    lemma_fields_ok_empty();

    let fs = Seq::<(Seq<char>, Seq<char>, bool)>::empty()
        .push(("x"@, r.x, false))
        .push(("y"@, r.y, false))
        .push(("w"@, r.w, false))
        .push(("h"@, r.h, false))
        .push(("obj_id"@, num(m.group_id as int), false))
        .push(("layer"@, num(m.editor_layer as int), false));
    assert(checkpoint_fields(r, m) =~= fs);
    let f = field_pairs(fs);
    assert(lookup(f, "x"@) == Some(r.x));
    assert(lookup(f, "y"@) == Some(r.y));
    assert(lookup(f, "w"@) == Some(r.w));
    assert(lookup(f, "h"@) == Some(r.h));
    assert(lookup(f, "obj_id"@) == Some(num(m.group_id as int)));
    assert(lookup(f, "layer"@) == Some(num(m.editor_layer as int)));
    lemma_meta_read(f, m);
}

proof fn lemma_enemy_reads_back(r: EnemyRow<Seq<char>>, m: ObjectMeta, finite: Seq<Seq<char>>, positive: Seq<Seq<char>>)
    requires
        enemy_ok(r, finite),
    ensures
        fields_ok(enemy_fields(r, m)),
        enemy_fields(r, m).len() > 0,
        enemy_row(field_pairs(enemy_fields(r, m)), finite) == Some(r),
        spec_field_meta(field_pairs(enemy_fields(r, m))) == read_meta(m),
{
    broadcast use {lemma_lookup_push, lemma_field_pairs_push, lemma_fields_ok_push};
    lemma_level_keys();
    lemma_meta_shape(m);
    lemma_fields_ok_empty();
    lemma_level_words();
    lemma_num_shape(r.spawn_id as int);
    lemma_num_shape(r.spawn_wave as int);
    lemma_parse_unsigned_num(r.spawn_id as int, 65535);
    lemma_parse_unsigned_num(r.spawn_wave as int, 65535);
    let fs = Seq::<(Seq<char>, Seq<char>, bool)>::empty()
        .push(("kind"@, "filth"@, false))
        .push(("spawn_x"@, r.spawn.x, false))
        .push(("spawn_y"@, r.spawn.y, false))
        .push(("spawn_id"@, num(r.spawn_id as int), false))
        .push(("spawn_wave"@, num(r.spawn_wave as int), false))
        .push(("obj_id"@, num(m.group_id as int), false))
        .push(("layer"@, num(m.editor_layer as int), false));
    assert(enemy_fields(r, m) =~= fs);
    let f = field_pairs(fs);
    assert(lookup(f, "kind"@) == Some("filth"@));
    assert(lookup(f, "spawn_x"@) == Some(r.spawn.x));
    assert(lookup(f, "spawn_y"@) == Some(r.spawn.y));
    assert(lookup(f, "spawn_id"@) == Some(num(r.spawn_id as int)));
    assert(lookup(f, "spawn_wave"@) == Some(num(r.spawn_wave as int)));
    assert(lookup(f, "obj_id"@) == Some(num(m.group_id as int)));
    assert(lookup(f, "layer"@) == Some(num(m.editor_layer as int)));
    lemma_meta_read(f, m);
}

proof fn lemma_text_reads_back(r: TextRow<Seq<char>>, m: ObjectMeta, finite: Seq<Seq<char>>, positive: Seq<Seq<char>>)
    requires
        text_ok(r, finite),
    ensures
        fields_ok(text_fields(r, m)),
        text_fields(r, m).len() > 0,
        text_row(field_pairs(text_fields(r, m)), finite) == Some(r),
        spec_field_meta(field_pairs(text_fields(r, m))) == read_meta(m),
{
    broadcast use {lemma_lookup_push, lemma_field_pairs_push, lemma_fields_ok_push};
    lemma_level_keys();
    lemma_meta_shape(m);
    lemma_fields_ok_empty();

    let fs = Seq::<(Seq<char>, Seq<char>, bool)>::empty()
        .push(("x"@, r.pos.x, false))
        .push(("y"@, r.pos.y, false))
        .push(("obj_id"@, num(m.group_id as int), false))
        .push(("layer"@, num(m.editor_layer as int), false))
        .push(("value"@, r.value, true));
    assert(text_fields(r, m) =~= fs);
    let f = field_pairs(fs);
    assert(lookup(f, "x"@) == Some(r.pos.x));
    assert(lookup(f, "y"@) == Some(r.pos.y));
    assert(lookup(f, "value"@) == Some(r.value));
    assert(lookup(f, "obj_id"@) == Some(num(m.group_id as int)));
    assert(lookup(f, "layer"@) == Some(num(m.editor_layer as int)));
    lemma_meta_read(f, m);
}

proof fn lemma_world_portal_reads_back(r: WorldPortalRow<Seq<char>>, m: ObjectMeta, finite: Seq<Seq<char>>, positive: Seq<Seq<char>>)
    requires
        world_portal_ok(r, finite, positive),
    ensures
        fields_ok(world_portal_fields(r, m)),
        world_portal_fields(r, m).len() > 0,
        world_portal_row(field_pairs(world_portal_fields(r, m)), finite, positive) == Some(r),
        spec_field_meta(field_pairs(world_portal_fields(r, m))) == read_meta(m),
{
    broadcast use {lemma_lookup_push, lemma_field_pairs_push, lemma_fields_ok_push};
    lemma_level_keys();
    lemma_meta_shape(m);
    lemma_fields_ok_empty();
    lemma_num_shape(r.portal_id as int);
    lemma_num_shape(r.receiver_id as int);
    lemma_num_shape(r.priority as int);
    lemma_parse_unsigned_num(r.portal_id as int, 65535);
    lemma_parse_unsigned_num(r.receiver_id as int, 65535);
    lemma_parse_signed_num(r.priority as int, 32768, 32767);
    lemma_bool_text_round_trip(r.scale_objects);
    lemma_bool_text_round_trip(r.seamless);
    lemma_bool_text_round_trip(r.seamless_rely_on_walls);
    let fs = Seq::<(Seq<char>, Seq<char>, bool)>::empty()
        .push(("x"@, r.pos.x, false))
        .push(("y"@, r.pos.y, false))
        .push(("normal_x"@, r.normal.x, false))
        .push(("normal_y"@, r.normal.y, false))
        .push(("tangent_x"@, opt_x(r.tangent, ""@), false))
        .push(("tangent_y"@, opt_y(r.tangent, ""@), false))
        .push(("width"@, opt_text(r.width, ""@), false))
        .push(("portal_id"@, num(r.portal_id as int), false))
        .push(("receiver_id"@, num(r.receiver_id as int), false))
        .push(("priority"@, num(r.priority as int), false))
        .push(("scale"@, opt_text(r.scale, "1"@), false))
        .push(("scale_objects"@, bool_text(r.scale_objects), false))
        .push(("seamless"@, bool_text(r.seamless), false))
        .push(("seamless_depth"@, opt_text(r.seamless_depth, "256"@), false))
        .push(("seamless_angle"@, opt_text(r.seamless_angle, "180"@), false))
        .push(("seamless_rely_on_walls"@, bool_text(r.seamless_rely_on_walls), false))
        .push(("obj_id"@, num(m.group_id as int), false))
        .push(("layer"@, num(m.editor_layer as int), false));
    assert(world_portal_fields(r, m) =~= fs);
    let f = field_pairs(fs);
    assert(lookup(f, "x"@) == Some(r.pos.x));
    assert(lookup(f, "y"@) == Some(r.pos.y));
    assert(lookup(f, "normal_x"@) == Some(r.normal.x));
    assert(lookup(f, "normal_y"@) == Some(r.normal.y));
    assert(lookup(f, "tangent_x"@) == Some(opt_x(r.tangent, ""@)));
    assert(lookup(f, "tangent_y"@) == Some(opt_y(r.tangent, ""@)));
    assert(lookup(f, "width"@) == Some(opt_text(r.width, ""@)));
    assert(lookup(f, "portal_id"@) == Some(num(r.portal_id as int)));
    assert(lookup(f, "receiver_id"@) == Some(num(r.receiver_id as int)));
    assert(lookup(f, "priority"@) == Some(num(r.priority as int)));
    assert(lookup(f, "scale"@) == Some(opt_text(r.scale, "1"@)));
    assert(lookup(f, "scale_objects"@) == Some(bool_text(r.scale_objects)));
    assert(lookup(f, "seamless"@) == Some(bool_text(r.seamless)));
    assert(lookup(f, "seamless_depth"@) == Some(opt_text(r.seamless_depth, "256"@)));
    assert(lookup(f, "seamless_angle"@) == Some(opt_text(r.seamless_angle, "180"@)));
    assert(lookup(f, "seamless_rely_on_walls"@) == Some(bool_text(r.seamless_rely_on_walls)));
    assert(lookup(f, "obj_id"@) == Some(num(m.group_id as int)));
    assert(lookup(f, "layer"@) == Some(num(m.editor_layer as int)));
    lemma_meta_read(f, m);
}

proof fn lemma_trigger_reads_back(r: TriggerRow<Seq<char>>, m: ObjectMeta, finite: Seq<Seq<char>>, positive: Seq<Seq<char>>)
    requires
        trigger_ok(r, finite, positive),
    ensures
        fields_ok(trigger_fields(r, m)),
        trigger_fields(r, m).len() > 0,
        trigger_row(field_pairs(trigger_fields(r, m)), finite, positive) == Some(r),
        spec_field_meta(field_pairs(trigger_fields(r, m))) == read_meta(m),
{
    broadcast use {lemma_lookup_push, lemma_field_pairs_push, lemma_fields_ok_push};
    lemma_level_keys();
    lemma_level_words();
    lemma_meta_shape(m);
    lemma_fields_ok_empty();
    let head = Seq::<(Seq<char>, Seq<char>, bool)>::empty()
        .push(("kind"@, trigger_word(r.kind), false))
        .push(("x"@, r.rect.x, false))
        .push(("y"@, r.rect.y, false))
        .push(("w"@, r.rect.w, false))
        .push(("h"@, r.rect.h, false));
    assert(bare_ok(trigger_word(r.kind)));
    match r.kind {
        LevelTriggerKind::EnemySpawn { enemy_id } => {
            lemma_num_shape(enemy_id as int);
            lemma_parse_unsigned_num(enemy_id as int, 65535);
            let fs = head.push(("enemy_id"@, num(enemy_id as int), false))
                .push(("obj_id"@, num(m.group_id as int), false))
                .push(("layer"@, num(m.editor_layer as int), false));
            assert(trigger_fields(r, m) =~= fs);
            let f = field_pairs(fs);
            assert(lookup(f, "kind"@) == Some(trigger_word(r.kind)));
            assert(lookup(f, "x"@) == Some(r.rect.x));
            assert(lookup(f, "y"@) == Some(r.rect.y));
            assert(lookup(f, "w"@) == Some(r.rect.w));
            assert(lookup(f, "h"@) == Some(r.rect.h));
            assert(lookup(f, "enemy_id"@) == Some(num(enemy_id as int)));
            assert(lookup(f, "obj_id"@) == Some(num(m.group_id as int)));
            assert(lookup(f, "layer"@) == Some(num(m.editor_layer as int)));
            lemma_meta_read(f, m);
        },
        _ => {
            let fs = head.push(("obj_id"@, num(m.group_id as int), false))
                .push(("layer"@, num(m.editor_layer as int), false));
            assert(trigger_fields(r, m) =~= fs);
            let f = field_pairs(fs);
            assert(lookup(f, "kind"@) == Some(trigger_word(r.kind)));
            assert(lookup(f, "x"@) == Some(r.rect.x));
            assert(lookup(f, "y"@) == Some(r.rect.y));
            assert(lookup(f, "w"@) == Some(r.rect.w));
            assert(lookup(f, "h"@) == Some(r.rect.h));
            assert(lookup(f, "obj_id"@) == Some(num(m.group_id as int)));
            assert(lookup(f, "layer"@) == Some(num(m.editor_layer as int)));
            lemma_meta_read(f, m);
        },
    }
}

proof fn lemma_name_reads_back(m: LevelDocModel, finite: Seq<Seq<char>>)
    requires
        m.spawn matches Some(p) && point_ok(p, finite),
    ensures
        fields_ok(name_fields(m)),
        name_fields(m).len() > 0,
        lookup(field_pairs(name_fields(m)), "name"@) == Some(m.name),
        point_of(field_pairs(name_fields(m)), "spawn_x"@, "spawn_y"@, finite) == m.spawn,
{
    broadcast use {lemma_lookup_push, lemma_field_pairs_push, lemma_fields_ok_push};
    lemma_level_keys();
    lemma_fields_ok_empty();
    let fs = Seq::<(Seq<char>, Seq<char>, bool)>::empty()
        .push(("name"@, m.name, true))
        .push(("spawn_x"@, opt_x(m.spawn, "110"@), false))
        .push(("spawn_y"@, opt_y(m.spawn, "480"@), false));
    assert(name_fields(m) =~= fs);
    let f = field_pairs(fs);
    assert(lookup(f, "name"@) == Some(m.name));
    assert(lookup(f, "spawn_x"@) == Some(opt_x(m.spawn, "110"@)));
    assert(lookup(f, "spawn_y"@) == Some(opt_y(m.spawn, "480"@)));
}

proof fn lemma_header_reads_back()
    ensures
        fields_ok(header_fields()),
        header_fields().len() > 0,
        field_unsigned(field_pairs(header_fields()), "version"@, 255) == Some(3int),
{
    broadcast use {lemma_lookup_push, lemma_field_pairs_push, lemma_fields_ok_push};
    lemma_level_keys();
    lemma_fields_ok_empty();
    lemma_num_shape(3);
    lemma_parse_unsigned_num(3, 255);
    let fs = Seq::<(Seq<char>, Seq<char>, bool)>::empty().push(("version"@, num(3), false));
    assert(header_fields() =~= fs);
    let f = field_pairs(fs);
    assert(lookup(f, "version"@) == Some(num(3)));
}

// ---------------------------------------------------------------------------
// Reading back the rows of each kind.

/// The metadata entry a row adds: none for the default.
pub open spec fn meta_entry(kind: LevelObjectKind, index: int, m: ObjectMeta) -> Seq<LevelObjectMeta> {
    if is_default_meta(m) {
        seq![]
    } else {
        seq![LevelObjectMeta { kind, index: index as usize, meta: m }]
    }
}

/// The metadata entries the first `n` rows of a kind add, each with the metadata `md` gives
/// its object.
pub open spec fn meta_entries(kind: LevelObjectKind, n: nat, md: Seq<LevelObjectMeta>) -> Seq<LevelObjectMeta>
    decreases n,
{
    if n == 0 {
        seq![]
    } else {
        meta_entries(kind, (n - 1) as nat, md) + meta_entry(
            kind,
            n - 1,
            spec_object_meta(md, kind, (n - 1) as usize),
        )
    }
}

proof fn lemma_inline_meta(md0: Seq<LevelObjectMeta>, f: Seq<(Seq<char>, Seq<char>)>, kind: LevelObjectKind, index: int, m: ObjectMeta)
    requires
        spec_field_meta(f) == read_meta(m),
        0 <= index,
    ensures
        with_inline_meta(md0, f, kind, index as usize) == md0 + meta_entry(kind, index, m),
{
    if is_default_meta(m) {
        assert(md0 + Seq::<LevelObjectMeta>::empty() =~= md0);
    } else {
        assert(md0.push(LevelObjectMeta { kind, index: index as usize, meta: m }) =~= md0 + meta_entry(kind, index, m));
    }
}

proof fn lemma_name_step(acc: LevelDocModel, m: LevelDocModel, finite: Seq<Seq<char>>, positive: Seq<Seq<char>>)
    requires
        m.spawn matches Some(p) && point_ok(p, finite),
    ensures
        level_step(acc, line_text("level"@, name_fields(m)), finite, positive) == Ok::<LevelDocModel, Seq<char>>(
            LevelDocModel { name: m.name, spawn: m.spawn, ..acc },
        ),
{
    lemma_level_keys();
    lemma_name_reads_back(m, finite);
    lemma_keyed_row("level"@, name_fields(m));
}

proof fn lemma_solid_step(acc: LevelDocModel, r: SolidRow<Seq<char>>, m: ObjectMeta, finite: Seq<Seq<char>>, positive: Seq<Seq<char>>)
    requires
        solid_ok(r, finite, positive),
    ensures
        level_step(acc, line_text("solid"@, solid_fields(r, m)), finite, positive) == Ok::<LevelDocModel, Seq<char>>(
            LevelDocModel {
                solids: acc.solids.push(r),
                metadata: acc.metadata + meta_entry(LevelObjectKind::Solid, acc.solids.len() as int, m),
                ..acc
            },
        ),
{
    lemma_level_keys();
    lemma_solid_reads_back(r, m, finite, positive);
    lemma_keyed_row("solid"@, solid_fields(r, m));
    lemma_inline_meta(acc.metadata, field_pairs(solid_fields(r, m)), LevelObjectKind::Solid, acc.solids.len() as int, m);
}

proof fn lemma_solid_body(
    acc: LevelDocModel,
    rows: Seq<SolidRow<Seq<char>>>,
    md: Seq<LevelObjectMeta>,
    finite: Seq<Seq<char>>,
    positive: Seq<Seq<char>>,
)
    requires
        acc.solids.len() == 0,
        forall|i: int| 0 <= i < rows.len() ==> solid_ok(#[trigger] rows[i], finite, positive),
    ensures
        level_body(acc, solid_texts(rows, md), finite, positive) == Ok::<LevelDocModel, Seq<char>>(
            LevelDocModel {
                solids: rows,
                metadata: acc.metadata + meta_entries(LevelObjectKind::Solid, rows.len(), md),
                ..acc
            },
        ),
    decreases rows.len(),
{
    if rows.len() == 0 {
        assert(solid_texts(rows, md) =~= Seq::<Seq<char>>::empty());
        assert(acc.metadata + meta_entries(LevelObjectKind::Solid, 0, md) =~= acc.metadata);
        assert(rows =~= acc.solids);
    } else {
        let n = rows.len() - 1;
        let prev = rows.drop_last();
        assert forall|i: int| 0 <= i < prev.len() implies solid_ok(#[trigger] prev[i], finite, positive) by {
            assert(prev[i] == rows[i]);
        }
        lemma_solid_body(acc, prev, md, finite, positive);
        assert(solid_texts(rows, md).drop_last() =~= solid_texts(prev, md));
        let mid = LevelDocModel {
            solids: prev,
            metadata: acc.metadata + meta_entries(LevelObjectKind::Solid, prev.len(), md),
            ..acc
        };
        let mt = spec_object_meta(md, LevelObjectKind::Solid, n as usize);
        assert(solid_texts(rows, md).last() == line_text("solid"@, solid_fields(rows[n], mt)));
        assert(solid_ok(rows[n], finite, positive));
        lemma_solid_step(mid, rows[n], mt, finite, positive);
        assert(prev.push(rows[n]) =~= rows);
        assert(acc.metadata + meta_entries(LevelObjectKind::Solid, prev.len(), md) + meta_entry(
            LevelObjectKind::Solid,
            n,
            mt,
        ) =~= acc.metadata + meta_entries(LevelObjectKind::Solid, rows.len(), md));
    }
}

proof fn lemma_door_step(acc: LevelDocModel, r: DoorRow<Seq<char>>, m: ObjectMeta, finite: Seq<Seq<char>>, positive: Seq<Seq<char>>)
    requires
        door_ok(r, finite, positive),
    ensures
        level_step(acc, line_text("door"@, door_fields(r, m)), finite, positive) == Ok::<LevelDocModel, Seq<char>>(
            LevelDocModel {
                doors: acc.doors.push(r),
                metadata: acc.metadata + meta_entry(LevelObjectKind::Door, acc.doors.len() as int, m),
                ..acc
            },
        ),
{
    lemma_level_keys();
    lemma_door_reads_back(r, m, finite, positive);
    lemma_keyed_row("door"@, door_fields(r, m));
    lemma_inline_meta(acc.metadata, field_pairs(door_fields(r, m)), LevelObjectKind::Door, acc.doors.len() as int, m);
}

proof fn lemma_door_body(
    acc: LevelDocModel,
    rows: Seq<DoorRow<Seq<char>>>,
    md: Seq<LevelObjectMeta>,
    finite: Seq<Seq<char>>,
    positive: Seq<Seq<char>>,
)
    requires
        acc.doors.len() == 0,
        forall|i: int| 0 <= i < rows.len() ==> door_ok(#[trigger] rows[i], finite, positive),
    ensures
        level_body(acc, door_texts(rows, md), finite, positive) == Ok::<LevelDocModel, Seq<char>>(
            LevelDocModel {
                doors: rows,
                metadata: acc.metadata + meta_entries(LevelObjectKind::Door, rows.len(), md),
                ..acc
            },
        ),
    decreases rows.len(),
{
    if rows.len() == 0 {
        assert(door_texts(rows, md) =~= Seq::<Seq<char>>::empty());
        assert(acc.metadata + meta_entries(LevelObjectKind::Door, 0, md) =~= acc.metadata);
        assert(rows =~= acc.doors);
    } else {
        let n = rows.len() - 1;
        let prev = rows.drop_last();
        assert forall|i: int| 0 <= i < prev.len() implies door_ok(#[trigger] prev[i], finite, positive) by {
            assert(prev[i] == rows[i]);
        }
        lemma_door_body(acc, prev, md, finite, positive);
        assert(door_texts(rows, md).drop_last() =~= door_texts(prev, md));
        let mid = LevelDocModel {
            doors: prev,
            metadata: acc.metadata + meta_entries(LevelObjectKind::Door, prev.len(), md),
            ..acc
        };
        let mt = spec_object_meta(md, LevelObjectKind::Door, n as usize);
        assert(door_texts(rows, md).last() == line_text("door"@, door_fields(rows[n], mt)));
        assert(door_ok(rows[n], finite, positive));
        lemma_door_step(mid, rows[n], mt, finite, positive);
        assert(prev.push(rows[n]) =~= rows);
        assert(acc.metadata + meta_entries(LevelObjectKind::Door, prev.len(), md) + meta_entry(
            LevelObjectKind::Door,
            n,
            mt,
        ) =~= acc.metadata + meta_entries(LevelObjectKind::Door, rows.len(), md));
    }
}

proof fn lemma_hazard_step(acc: LevelDocModel, r: HazardRow<Seq<char>>, m: ObjectMeta, finite: Seq<Seq<char>>, positive: Seq<Seq<char>>)
    requires
        hazard_ok(r, finite, positive),
    ensures
        level_step(acc, line_text("hazard"@, hazard_fields(r, m)), finite, positive) == Ok::<LevelDocModel, Seq<char>>(
            LevelDocModel {
                hazards: acc.hazards.push(r),
                metadata: acc.metadata + meta_entry(LevelObjectKind::Hazard, acc.hazards.len() as int, m),
                ..acc
            },
        ),
{
    lemma_level_keys();
    lemma_hazard_reads_back(r, m, finite, positive);
    lemma_keyed_row("hazard"@, hazard_fields(r, m));
    lemma_inline_meta(acc.metadata, field_pairs(hazard_fields(r, m)), LevelObjectKind::Hazard, acc.hazards.len() as int, m);
}

proof fn lemma_hazard_body(
    acc: LevelDocModel,
    rows: Seq<HazardRow<Seq<char>>>,
    md: Seq<LevelObjectMeta>,
    finite: Seq<Seq<char>>,
    positive: Seq<Seq<char>>,
)
    requires
        acc.hazards.len() == 0,
        forall|i: int| 0 <= i < rows.len() ==> hazard_ok(#[trigger] rows[i], finite, positive),
    ensures
        level_body(acc, hazard_texts(rows, md), finite, positive) == Ok::<LevelDocModel, Seq<char>>(
            LevelDocModel {
                hazards: rows,
                metadata: acc.metadata + meta_entries(LevelObjectKind::Hazard, rows.len(), md),
                ..acc
            },
        ),
    decreases rows.len(),
{
    if rows.len() == 0 {
        assert(hazard_texts(rows, md) =~= Seq::<Seq<char>>::empty());
        assert(acc.metadata + meta_entries(LevelObjectKind::Hazard, 0, md) =~= acc.metadata);
        assert(rows =~= acc.hazards);
    } else {
        let n = rows.len() - 1;
        let prev = rows.drop_last();
        assert forall|i: int| 0 <= i < prev.len() implies hazard_ok(#[trigger] prev[i], finite, positive) by {
            assert(prev[i] == rows[i]);
        }
        lemma_hazard_body(acc, prev, md, finite, positive);
        assert(hazard_texts(rows, md).drop_last() =~= hazard_texts(prev, md));
        let mid = LevelDocModel {
            hazards: prev,
            metadata: acc.metadata + meta_entries(LevelObjectKind::Hazard, prev.len(), md),
            ..acc
        };
        let mt = spec_object_meta(md, LevelObjectKind::Hazard, n as usize);
        assert(hazard_texts(rows, md).last() == line_text("hazard"@, hazard_fields(rows[n], mt)));
        assert(hazard_ok(rows[n], finite, positive));
        lemma_hazard_step(mid, rows[n], mt, finite, positive);
        assert(prev.push(rows[n]) =~= rows);
        assert(acc.metadata + meta_entries(LevelObjectKind::Hazard, prev.len(), md) + meta_entry(
            LevelObjectKind::Hazard,
            n,
            mt,
        ) =~= acc.metadata + meta_entries(LevelObjectKind::Hazard, rows.len(), md));
    }
}

proof fn lemma_checkpoint_step(acc: LevelDocModel, r: Rect<Seq<char>>, m: ObjectMeta, finite: Seq<Seq<char>>, positive: Seq<Seq<char>>)
    requires
        rect_ok(r, finite, positive),
    ensures
        level_step(acc, line_text("checkpoint"@, checkpoint_fields(r, m)), finite, positive) == Ok::<LevelDocModel, Seq<char>>(
            LevelDocModel {
                checkpoints: acc.checkpoints.push(r),
                metadata: acc.metadata + meta_entry(LevelObjectKind::Checkpoint, acc.checkpoints.len() as int, m),
                ..acc
            },
        ),
{
    lemma_level_keys();
    lemma_checkpoint_reads_back(r, m, finite, positive);
    lemma_keyed_row("checkpoint"@, checkpoint_fields(r, m));
    lemma_inline_meta(acc.metadata, field_pairs(checkpoint_fields(r, m)), LevelObjectKind::Checkpoint, acc.checkpoints.len() as int, m);
}

proof fn lemma_checkpoint_body(
    acc: LevelDocModel,
    rows: Seq<Rect<Seq<char>>>,
    md: Seq<LevelObjectMeta>,
    finite: Seq<Seq<char>>,
    positive: Seq<Seq<char>>,
)
    requires
        acc.checkpoints.len() == 0,
        forall|i: int| 0 <= i < rows.len() ==> rect_ok(#[trigger] rows[i], finite, positive),
    ensures
        level_body(acc, checkpoint_texts(rows, md), finite, positive) == Ok::<LevelDocModel, Seq<char>>(
            LevelDocModel {
                checkpoints: rows,
                metadata: acc.metadata + meta_entries(LevelObjectKind::Checkpoint, rows.len(), md),
                ..acc
            },
        ),
    decreases rows.len(),
{
    if rows.len() == 0 {
        assert(checkpoint_texts(rows, md) =~= Seq::<Seq<char>>::empty());
        assert(acc.metadata + meta_entries(LevelObjectKind::Checkpoint, 0, md) =~= acc.metadata);
        assert(rows =~= acc.checkpoints);
    } else {
        let n = rows.len() - 1;
        let prev = rows.drop_last();
        assert forall|i: int| 0 <= i < prev.len() implies rect_ok(#[trigger] prev[i], finite, positive) by {
            assert(prev[i] == rows[i]);
        }
        lemma_checkpoint_body(acc, prev, md, finite, positive);
        assert(checkpoint_texts(rows, md).drop_last() =~= checkpoint_texts(prev, md));
        let mid = LevelDocModel {
            checkpoints: prev,
            metadata: acc.metadata + meta_entries(LevelObjectKind::Checkpoint, prev.len(), md),
            ..acc
        };
        let mt = spec_object_meta(md, LevelObjectKind::Checkpoint, n as usize);
        assert(checkpoint_texts(rows, md).last() == line_text("checkpoint"@, checkpoint_fields(rows[n], mt)));
        assert(rect_ok(rows[n], finite, positive));
        lemma_checkpoint_step(mid, rows[n], mt, finite, positive);
        assert(prev.push(rows[n]) =~= rows);
        assert(acc.metadata + meta_entries(LevelObjectKind::Checkpoint, prev.len(), md) + meta_entry(
            LevelObjectKind::Checkpoint,
            n,
            mt,
        ) =~= acc.metadata + meta_entries(LevelObjectKind::Checkpoint, rows.len(), md));
    }
}

proof fn lemma_enemy_step(acc: LevelDocModel, r: EnemyRow<Seq<char>>, m: ObjectMeta, finite: Seq<Seq<char>>, positive: Seq<Seq<char>>)
    requires
        enemy_ok(r, finite),
    ensures
        level_step(acc, line_text("enemy"@, enemy_fields(r, m)), finite, positive) == Ok::<LevelDocModel, Seq<char>>(
            LevelDocModel {
                enemies: acc.enemies.push(r),
                metadata: acc.metadata + meta_entry(LevelObjectKind::Enemy, acc.enemies.len() as int, m),
                ..acc
            },
        ),
{
    lemma_level_keys();
    lemma_enemy_reads_back(r, m, finite, positive);
    lemma_keyed_row("enemy"@, enemy_fields(r, m));
    lemma_inline_meta(acc.metadata, field_pairs(enemy_fields(r, m)), LevelObjectKind::Enemy, acc.enemies.len() as int, m);
}

proof fn lemma_enemy_body(
    acc: LevelDocModel,
    rows: Seq<EnemyRow<Seq<char>>>,
    md: Seq<LevelObjectMeta>,
    finite: Seq<Seq<char>>,
    positive: Seq<Seq<char>>,
)
    requires
        acc.enemies.len() == 0,
        forall|i: int| 0 <= i < rows.len() ==> enemy_ok(#[trigger] rows[i], finite),
    ensures
        level_body(acc, enemy_texts(rows, md), finite, positive) == Ok::<LevelDocModel, Seq<char>>(
            LevelDocModel {
                enemies: rows,
                metadata: acc.metadata + meta_entries(LevelObjectKind::Enemy, rows.len(), md),
                ..acc
            },
        ),
    decreases rows.len(),
{
    if rows.len() == 0 {
        assert(enemy_texts(rows, md) =~= Seq::<Seq<char>>::empty());
        assert(acc.metadata + meta_entries(LevelObjectKind::Enemy, 0, md) =~= acc.metadata);
        assert(rows =~= acc.enemies);
    } else {
        let n = rows.len() - 1;
        let prev = rows.drop_last();
        assert forall|i: int| 0 <= i < prev.len() implies enemy_ok(#[trigger] prev[i], finite) by {
            assert(prev[i] == rows[i]);
        }
        lemma_enemy_body(acc, prev, md, finite, positive);
        assert(enemy_texts(rows, md).drop_last() =~= enemy_texts(prev, md));
        let mid = LevelDocModel {
            enemies: prev,
            metadata: acc.metadata + meta_entries(LevelObjectKind::Enemy, prev.len(), md),
            ..acc
        };
        let mt = spec_object_meta(md, LevelObjectKind::Enemy, n as usize);
        assert(enemy_texts(rows, md).last() == line_text("enemy"@, enemy_fields(rows[n], mt)));
        assert(enemy_ok(rows[n], finite));
        lemma_enemy_step(mid, rows[n], mt, finite, positive);
        assert(prev.push(rows[n]) =~= rows);
        assert(acc.metadata + meta_entries(LevelObjectKind::Enemy, prev.len(), md) + meta_entry(
            LevelObjectKind::Enemy,
            n,
            mt,
        ) =~= acc.metadata + meta_entries(LevelObjectKind::Enemy, rows.len(), md));
    }
}

proof fn lemma_trigger_step(acc: LevelDocModel, r: TriggerRow<Seq<char>>, m: ObjectMeta, finite: Seq<Seq<char>>, positive: Seq<Seq<char>>)
    requires
        trigger_ok(r, finite, positive),
    ensures
        level_step(acc, line_text("trigger"@, trigger_fields(r, m)), finite, positive) == Ok::<LevelDocModel, Seq<char>>(
            LevelDocModel {
                triggers: acc.triggers.push(r),
                metadata: acc.metadata + meta_entry(LevelObjectKind::Trigger, acc.triggers.len() as int, m),
                ..acc
            },
        ),
{
    lemma_level_keys();
    lemma_trigger_reads_back(r, m, finite, positive);
    lemma_keyed_row("trigger"@, trigger_fields(r, m));
    lemma_inline_meta(acc.metadata, field_pairs(trigger_fields(r, m)), LevelObjectKind::Trigger, acc.triggers.len() as int, m);
}

proof fn lemma_trigger_body(
    acc: LevelDocModel,
    rows: Seq<TriggerRow<Seq<char>>>,
    md: Seq<LevelObjectMeta>,
    finite: Seq<Seq<char>>,
    positive: Seq<Seq<char>>,
)
    requires
        acc.triggers.len() == 0,
        forall|i: int| 0 <= i < rows.len() ==> trigger_ok(#[trigger] rows[i], finite, positive),
    ensures
        level_body(acc, trigger_texts(rows, md), finite, positive) == Ok::<LevelDocModel, Seq<char>>(
            LevelDocModel {
                triggers: rows,
                metadata: acc.metadata + meta_entries(LevelObjectKind::Trigger, rows.len(), md),
                ..acc
            },
        ),
    decreases rows.len(),
{
    if rows.len() == 0 {
        assert(trigger_texts(rows, md) =~= Seq::<Seq<char>>::empty());
        assert(acc.metadata + meta_entries(LevelObjectKind::Trigger, 0, md) =~= acc.metadata);
        assert(rows =~= acc.triggers);
    } else {
        let n = rows.len() - 1;
        let prev = rows.drop_last();
        assert forall|i: int| 0 <= i < prev.len() implies trigger_ok(#[trigger] prev[i], finite, positive) by {
            assert(prev[i] == rows[i]);
        }
        lemma_trigger_body(acc, prev, md, finite, positive);
        assert(trigger_texts(rows, md).drop_last() =~= trigger_texts(prev, md));
        let mid = LevelDocModel {
            triggers: prev,
            metadata: acc.metadata + meta_entries(LevelObjectKind::Trigger, prev.len(), md),
            ..acc
        };
        let mt = spec_object_meta(md, LevelObjectKind::Trigger, n as usize);
        assert(trigger_texts(rows, md).last() == line_text("trigger"@, trigger_fields(rows[n], mt)));
        assert(trigger_ok(rows[n], finite, positive));
        lemma_trigger_step(mid, rows[n], mt, finite, positive);
        assert(prev.push(rows[n]) =~= rows);
        assert(acc.metadata + meta_entries(LevelObjectKind::Trigger, prev.len(), md) + meta_entry(
            LevelObjectKind::Trigger,
            n,
            mt,
        ) =~= acc.metadata + meta_entries(LevelObjectKind::Trigger, rows.len(), md));
    }
}

proof fn lemma_text_step(acc: LevelDocModel, r: TextRow<Seq<char>>, m: ObjectMeta, finite: Seq<Seq<char>>, positive: Seq<Seq<char>>)
    requires
        text_ok(r, finite),
    ensures
        level_step(acc, line_text("text"@, text_fields(r, m)), finite, positive) == Ok::<LevelDocModel, Seq<char>>(
            LevelDocModel {
                texts: acc.texts.push(r),
                metadata: acc.metadata + meta_entry(LevelObjectKind::Text, acc.texts.len() as int, m),
                ..acc
            },
        ),
{
    lemma_level_keys();
    lemma_text_reads_back(r, m, finite, positive);
    lemma_keyed_row("text"@, text_fields(r, m));
    lemma_inline_meta(acc.metadata, field_pairs(text_fields(r, m)), LevelObjectKind::Text, acc.texts.len() as int, m);
}

proof fn lemma_text_body(
    acc: LevelDocModel,
    rows: Seq<TextRow<Seq<char>>>,
    md: Seq<LevelObjectMeta>,
    finite: Seq<Seq<char>>,
    positive: Seq<Seq<char>>,
)
    requires
        acc.texts.len() == 0,
        forall|i: int| 0 <= i < rows.len() ==> text_ok(#[trigger] rows[i], finite),
    ensures
        level_body(acc, text_texts(rows, md), finite, positive) == Ok::<LevelDocModel, Seq<char>>(
            LevelDocModel {
                texts: rows,
                metadata: acc.metadata + meta_entries(LevelObjectKind::Text, rows.len(), md),
                ..acc
            },
        ),
    decreases rows.len(),
{
    if rows.len() == 0 {
        assert(text_texts(rows, md) =~= Seq::<Seq<char>>::empty());
        assert(acc.metadata + meta_entries(LevelObjectKind::Text, 0, md) =~= acc.metadata);
        assert(rows =~= acc.texts);
    } else {
        let n = rows.len() - 1;
        let prev = rows.drop_last();
        assert forall|i: int| 0 <= i < prev.len() implies text_ok(#[trigger] prev[i], finite) by {
            assert(prev[i] == rows[i]);
        }
        lemma_text_body(acc, prev, md, finite, positive);
        assert(text_texts(rows, md).drop_last() =~= text_texts(prev, md));
        let mid = LevelDocModel {
            texts: prev,
            metadata: acc.metadata + meta_entries(LevelObjectKind::Text, prev.len(), md),
            ..acc
        };
        let mt = spec_object_meta(md, LevelObjectKind::Text, n as usize);
        assert(text_texts(rows, md).last() == line_text("text"@, text_fields(rows[n], mt)));
        assert(text_ok(rows[n], finite));
        lemma_text_step(mid, rows[n], mt, finite, positive);
        assert(prev.push(rows[n]) =~= rows);
        assert(acc.metadata + meta_entries(LevelObjectKind::Text, prev.len(), md) + meta_entry(
            LevelObjectKind::Text,
            n,
            mt,
        ) =~= acc.metadata + meta_entries(LevelObjectKind::Text, rows.len(), md));
    }
}

proof fn lemma_world_portal_step(acc: LevelDocModel, r: WorldPortalRow<Seq<char>>, m: ObjectMeta, finite: Seq<Seq<char>>, positive: Seq<Seq<char>>)
    requires
        world_portal_ok(r, finite, positive),
    ensures
        level_step(acc, line_text("world_portal"@, world_portal_fields(r, m)), finite, positive) == Ok::<LevelDocModel, Seq<char>>(
            LevelDocModel {
                world_portals: acc.world_portals.push(r),
                metadata: acc.metadata + meta_entry(LevelObjectKind::WorldPortal, acc.world_portals.len() as int, m),
                ..acc
            },
        ),
{
    lemma_level_keys();
    lemma_world_portal_reads_back(r, m, finite, positive);
    lemma_keyed_row("world_portal"@, world_portal_fields(r, m));
    lemma_inline_meta(acc.metadata, field_pairs(world_portal_fields(r, m)), LevelObjectKind::WorldPortal, acc.world_portals.len() as int, m);
}

proof fn lemma_world_portal_body(
    acc: LevelDocModel,
    rows: Seq<WorldPortalRow<Seq<char>>>,
    md: Seq<LevelObjectMeta>,
    finite: Seq<Seq<char>>,
    positive: Seq<Seq<char>>,
)
    requires
        acc.world_portals.len() == 0,
        forall|i: int| 0 <= i < rows.len() ==> world_portal_ok(#[trigger] rows[i], finite, positive),
    ensures
        level_body(acc, world_portal_texts(rows, md), finite, positive) == Ok::<LevelDocModel, Seq<char>>(
            LevelDocModel {
                world_portals: rows,
                metadata: acc.metadata + meta_entries(LevelObjectKind::WorldPortal, rows.len(), md),
                ..acc
            },
        ),
    decreases rows.len(),
{
    if rows.len() == 0 {
        assert(world_portal_texts(rows, md) =~= Seq::<Seq<char>>::empty());
        assert(acc.metadata + meta_entries(LevelObjectKind::WorldPortal, 0, md) =~= acc.metadata);
        assert(rows =~= acc.world_portals);
    } else {
        let n = rows.len() - 1;
        let prev = rows.drop_last();
        assert forall|i: int| 0 <= i < prev.len() implies world_portal_ok(#[trigger] prev[i], finite, positive) by {
            assert(prev[i] == rows[i]);
        }
        lemma_world_portal_body(acc, prev, md, finite, positive);
        assert(world_portal_texts(rows, md).drop_last() =~= world_portal_texts(prev, md));
        let mid = LevelDocModel {
            world_portals: prev,
            metadata: acc.metadata + meta_entries(LevelObjectKind::WorldPortal, prev.len(), md),
            ..acc
        };
        let mt = spec_object_meta(md, LevelObjectKind::WorldPortal, n as usize);
        assert(world_portal_texts(rows, md).last() == line_text("world_portal"@, world_portal_fields(rows[n], mt)));
        assert(world_portal_ok(rows[n], finite, positive));
        lemma_world_portal_step(mid, rows[n], mt, finite, positive);
        assert(prev.push(rows[n]) =~= rows);
        assert(acc.metadata + meta_entries(LevelObjectKind::WorldPortal, prev.len(), md) + meta_entry(
            LevelObjectKind::WorldPortal,
            n,
            mt,
        ) =~= acc.metadata + meta_entries(LevelObjectKind::WorldPortal, rows.len(), md));
    }
}


// ---------------------------------------------------------------------------
// Lines and the whole file.

pub open spec fn lines_ok(ls: Seq<Seq<char>>) -> bool {
    forall|i: int| 0 <= i < ls.len() ==> line_ok(#[trigger] ls[i])
}

proof fn lemma_lines_ok_append(a: Seq<Seq<char>>, b: Seq<Seq<char>>)
    requires
        lines_ok(a),
        lines_ok(b),
    ensures
        lines_ok(a + b),
{
    assert forall|i: int| 0 <= i < (a + b).len() implies line_ok(#[trigger] (a + b)[i]) by {
        if i < a.len() {
            assert((a + b)[i] == a[i]);
        } else {
            assert((a + b)[i] == b[i - a.len()]);
        }
    }
}

/// Reading lines `a` then `b` is reading `a`, then reading `b` from where `a` left off.
proof fn lemma_level_body_append(
    acc: LevelDocModel,
    a: Seq<Seq<char>>,
    b: Seq<Seq<char>>,
    finite: Seq<Seq<char>>,
    positive: Seq<Seq<char>>,
)
    ensures
        level_body(acc, a + b, finite, positive) == match level_body(acc, a, finite, positive) {
            Ok(x) => level_body(x, b, finite, positive),
            Err(e) => Err(e),
        },
    decreases b.len(),
{
    if b.len() == 0 {
        assert(a + b =~= a);
    } else {
        assert((a + b).drop_last() =~= a + b.drop_last());
        assert((a + b).last() == b.last());
        lemma_level_body_append(acc, a, b.drop_last(), finite, positive);
    }
}

proof fn lemma_solid_lines_ok(rows: Seq<SolidRow<Seq<char>>>, md: Seq<LevelObjectMeta>, finite: Seq<Seq<char>>, positive: Seq<Seq<char>>)
    requires
        forall|i: int| 0 <= i < rows.len() ==> solid_ok(#[trigger] rows[i], finite, positive),
    ensures
        lines_ok(solid_texts(rows, md)),
{
    assert forall|i: int| 0 <= i < solid_texts(rows, md).len() implies line_ok(#[trigger] solid_texts(rows, md)[i]) by {
        let mt = spec_object_meta(md, LevelObjectKind::Solid, i as usize);
        assert(solid_ok(rows[i], finite, positive));
        lemma_level_keys();
        lemma_solid_reads_back(rows[i], mt, finite, positive);
        lemma_keyed_row("solid"@, solid_fields(rows[i], mt));
    }
}

proof fn lemma_door_lines_ok(rows: Seq<DoorRow<Seq<char>>>, md: Seq<LevelObjectMeta>, finite: Seq<Seq<char>>, positive: Seq<Seq<char>>)
    requires
        forall|i: int| 0 <= i < rows.len() ==> door_ok(#[trigger] rows[i], finite, positive),
    ensures
        lines_ok(door_texts(rows, md)),
{
    assert forall|i: int| 0 <= i < door_texts(rows, md).len() implies line_ok(#[trigger] door_texts(rows, md)[i]) by {
        let mt = spec_object_meta(md, LevelObjectKind::Door, i as usize);
        assert(door_ok(rows[i], finite, positive));
        lemma_level_keys();
        lemma_door_reads_back(rows[i], mt, finite, positive);
        lemma_keyed_row("door"@, door_fields(rows[i], mt));
    }
}

proof fn lemma_hazard_lines_ok(rows: Seq<HazardRow<Seq<char>>>, md: Seq<LevelObjectMeta>, finite: Seq<Seq<char>>, positive: Seq<Seq<char>>)
    requires
        forall|i: int| 0 <= i < rows.len() ==> hazard_ok(#[trigger] rows[i], finite, positive),
    ensures
        lines_ok(hazard_texts(rows, md)),
{
    assert forall|i: int| 0 <= i < hazard_texts(rows, md).len() implies line_ok(#[trigger] hazard_texts(rows, md)[i]) by {
        let mt = spec_object_meta(md, LevelObjectKind::Hazard, i as usize);
        assert(hazard_ok(rows[i], finite, positive));
        lemma_level_keys();
        lemma_hazard_reads_back(rows[i], mt, finite, positive);
        lemma_keyed_row("hazard"@, hazard_fields(rows[i], mt));
    }
}

proof fn lemma_checkpoint_lines_ok(rows: Seq<Rect<Seq<char>>>, md: Seq<LevelObjectMeta>, finite: Seq<Seq<char>>, positive: Seq<Seq<char>>)
    requires
        forall|i: int| 0 <= i < rows.len() ==> rect_ok(#[trigger] rows[i], finite, positive),
    ensures
        lines_ok(checkpoint_texts(rows, md)),
{
    assert forall|i: int| 0 <= i < checkpoint_texts(rows, md).len() implies line_ok(#[trigger] checkpoint_texts(rows, md)[i]) by {
        let mt = spec_object_meta(md, LevelObjectKind::Checkpoint, i as usize);
        assert(rect_ok(rows[i], finite, positive));
        lemma_level_keys();
        lemma_checkpoint_reads_back(rows[i], mt, finite, positive);
        lemma_keyed_row("checkpoint"@, checkpoint_fields(rows[i], mt));
    }
}

proof fn lemma_enemy_lines_ok(rows: Seq<EnemyRow<Seq<char>>>, md: Seq<LevelObjectMeta>, finite: Seq<Seq<char>>, positive: Seq<Seq<char>>)
    requires
        forall|i: int| 0 <= i < rows.len() ==> enemy_ok(#[trigger] rows[i], finite),
    ensures
        lines_ok(enemy_texts(rows, md)),
{
    assert forall|i: int| 0 <= i < enemy_texts(rows, md).len() implies line_ok(#[trigger] enemy_texts(rows, md)[i]) by {
        let mt = spec_object_meta(md, LevelObjectKind::Enemy, i as usize);
        assert(enemy_ok(rows[i], finite));
        lemma_level_keys();
        lemma_enemy_reads_back(rows[i], mt, finite, positive);
        lemma_keyed_row("enemy"@, enemy_fields(rows[i], mt));
    }
}

proof fn lemma_trigger_lines_ok(rows: Seq<TriggerRow<Seq<char>>>, md: Seq<LevelObjectMeta>, finite: Seq<Seq<char>>, positive: Seq<Seq<char>>)
    requires
        forall|i: int| 0 <= i < rows.len() ==> trigger_ok(#[trigger] rows[i], finite, positive),
    ensures
        lines_ok(trigger_texts(rows, md)),
{
    assert forall|i: int| 0 <= i < trigger_texts(rows, md).len() implies line_ok(#[trigger] trigger_texts(rows, md)[i]) by {
        let mt = spec_object_meta(md, LevelObjectKind::Trigger, i as usize);
        assert(trigger_ok(rows[i], finite, positive));
        lemma_level_keys();
        lemma_trigger_reads_back(rows[i], mt, finite, positive);
        lemma_keyed_row("trigger"@, trigger_fields(rows[i], mt));
    }
}

proof fn lemma_text_lines_ok(rows: Seq<TextRow<Seq<char>>>, md: Seq<LevelObjectMeta>, finite: Seq<Seq<char>>, positive: Seq<Seq<char>>)
    requires
        forall|i: int| 0 <= i < rows.len() ==> text_ok(#[trigger] rows[i], finite),
    ensures
        lines_ok(text_texts(rows, md)),
{
    assert forall|i: int| 0 <= i < text_texts(rows, md).len() implies line_ok(#[trigger] text_texts(rows, md)[i]) by {
        let mt = spec_object_meta(md, LevelObjectKind::Text, i as usize);
        assert(text_ok(rows[i], finite));
        lemma_level_keys();
        lemma_text_reads_back(rows[i], mt, finite, positive);
        lemma_keyed_row("text"@, text_fields(rows[i], mt));
    }
}

proof fn lemma_world_portal_lines_ok(rows: Seq<WorldPortalRow<Seq<char>>>, md: Seq<LevelObjectMeta>, finite: Seq<Seq<char>>, positive: Seq<Seq<char>>)
    requires
        forall|i: int| 0 <= i < rows.len() ==> world_portal_ok(#[trigger] rows[i], finite, positive),
    ensures
        lines_ok(world_portal_texts(rows, md)),
{
    assert forall|i: int| 0 <= i < world_portal_texts(rows, md).len() implies line_ok(#[trigger] world_portal_texts(rows, md)[i]) by {
        let mt = spec_object_meta(md, LevelObjectKind::WorldPortal, i as usize);
        assert(world_portal_ok(rows[i], finite, positive));
        lemma_level_keys();
        lemma_world_portal_reads_back(rows[i], mt, finite, positive);
        lemma_keyed_row("world_portal"@, world_portal_fields(rows[i], mt));
    }
}

// ---------------------------------------------------------------------------
// Metadata read back.

proof fn lemma_last_meta_concat(a: Seq<LevelObjectMeta>, b: Seq<LevelObjectMeta>, kind: LevelObjectKind, index: usize)
    ensures
        last_meta(a + b, kind, index) == if is_default_meta(last_meta(b, kind, index)) {
            last_meta(a, kind, index)
        } else {
            last_meta(b, kind, index)
        },
    decreases b.len(),
{
    if b.len() == 0 {
        assert(a + b =~= a);
    } else {
        assert((a + b).drop_last() =~= a + b.drop_last());
        assert((a + b).last() == b.last());
        lemma_last_meta_concat(a, b.drop_last(), kind, index);
    }
}

proof fn lemma_last_meta_entries(k: LevelObjectKind, n: nat, md: Seq<LevelObjectMeta>, kind: LevelObjectKind, index: usize)
    requires
        n <= usize::MAX + 1,
    ensures
        last_meta(meta_entries(k, n, md), kind, index) == if k == kind && index < n {
            spec_object_meta(md, k, index)
        } else {
            ObjectMeta { group_id: 0, editor_layer: 0 }
        },
    decreases n,
{
    if n > 0 {
        let prev = meta_entries(k, (n - 1) as nat, md);
        let mt = spec_object_meta(md, k, (n - 1) as usize);
        let e = meta_entry(k, n - 1, mt);
        lemma_last_meta_entries(k, (n - 1) as nat, md, kind, index);
        lemma_last_meta_concat(prev, e, kind, index);
        assert(meta_entries(k, n, md) == prev + e);
        assert((n - 1) as usize == n - 1);
        if is_default_meta(mt) {
            assert(e =~= Seq::<LevelObjectMeta>::empty());
            assert(is_default_meta(last_meta(e, kind, index)));
        } else {
            assert(e.len() == 1);
            assert(e.last() == LevelObjectMeta { kind: k, index: (n - 1) as usize, meta: mt });
            assert(e.drop_last() =~= Seq::<LevelObjectMeta>::empty());
            if k == kind && index == n - 1 {
                assert(last_meta(e, kind, index) == mt);
            } else {
                assert(last_meta(e, kind, index) == last_meta(e.drop_last(), kind, index));
                assert(is_default_meta(last_meta(e, kind, index)));
            }
        }
    }
}

pub open spec fn object_count(m: LevelDocModel, kind: LevelObjectKind) -> nat {
    match kind {
        LevelObjectKind::Solid => m.solids.len(),
        LevelObjectKind::Door => m.doors.len(),
        LevelObjectKind::Hazard => m.hazards.len(),
        LevelObjectKind::Checkpoint => m.checkpoints.len(),
        LevelObjectKind::Enemy => m.enemies.len(),
        LevelObjectKind::Trigger => m.triggers.len(),
        LevelObjectKind::Text => m.texts.len(),
        LevelObjectKind::WorldPortal => m.world_portals.len(),
    }
}

/// The metadata a written level carries inline: one entry per object whose metadata is not
/// the default, kind by kind.
pub open spec fn written_metadata(m: LevelDocModel) -> Seq<LevelObjectMeta> {
    let md = m.metadata;
    meta_entries(LevelObjectKind::Solid, m.solids.len(), md) + meta_entries(LevelObjectKind::Door, m.doors.len(), md)
        + meta_entries(LevelObjectKind::Hazard, m.hazards.len(), md) + meta_entries(LevelObjectKind::Checkpoint, m.checkpoints.len(), md)
        + meta_entries(LevelObjectKind::Enemy, m.enemies.len(), md) + meta_entries(LevelObjectKind::Trigger, m.triggers.len(), md)
        + meta_entries(LevelObjectKind::Text, m.texts.len(), md) + meta_entries(LevelObjectKind::WorldPortal, m.world_portals.len(), md)
}

/// The metadata an object has: what `md` gives it, for an object of the level; the default
/// past the last object of its kind.
pub open spec fn object_meta_of(m: LevelDocModel, kind: LevelObjectKind, index: usize) -> ObjectMeta {
    if index < object_count(m, kind) {
        spec_object_meta(m.metadata, kind, index)
    } else {
        ObjectMeta { group_id: 0, editor_layer: 0 }
    }
}

pub open spec fn counts_fit(m: LevelDocModel) -> bool {
    forall|k: LevelObjectKind| #[trigger] object_count(m, k) <= usize::MAX
}

proof fn lemma_written_lookup(m: LevelDocModel, kind: LevelObjectKind, index: usize)
    requires
        counts_fit(m),
    ensures
        last_meta(written_metadata(m), kind, index) == object_meta_of(m, kind, index),
{
    let md = m.metadata;
    let e0 = meta_entries(LevelObjectKind::Solid, m.solids.len(), md);
    let e1 = meta_entries(LevelObjectKind::Door, m.doors.len(), md);
    let e2 = meta_entries(LevelObjectKind::Hazard, m.hazards.len(), md);
    let e3 = meta_entries(LevelObjectKind::Checkpoint, m.checkpoints.len(), md);
    let e4 = meta_entries(LevelObjectKind::Enemy, m.enemies.len(), md);
    let e5 = meta_entries(LevelObjectKind::Trigger, m.triggers.len(), md);
    let e6 = meta_entries(LevelObjectKind::Text, m.texts.len(), md);
    let e7 = meta_entries(LevelObjectKind::WorldPortal, m.world_portals.len(), md);
    assert(object_count(m, LevelObjectKind::Solid) <= usize::MAX);
    assert(object_count(m, LevelObjectKind::Door) <= usize::MAX);
    assert(object_count(m, LevelObjectKind::Hazard) <= usize::MAX);
    assert(object_count(m, LevelObjectKind::Checkpoint) <= usize::MAX);
    assert(object_count(m, LevelObjectKind::Enemy) <= usize::MAX);
    assert(object_count(m, LevelObjectKind::Trigger) <= usize::MAX);
    assert(object_count(m, LevelObjectKind::Text) <= usize::MAX);
    assert(object_count(m, LevelObjectKind::WorldPortal) <= usize::MAX);
    lemma_last_meta_entries(LevelObjectKind::Solid, m.solids.len(), md, kind, index);
    lemma_last_meta_entries(LevelObjectKind::Door, m.doors.len(), md, kind, index);
    lemma_last_meta_entries(LevelObjectKind::Hazard, m.hazards.len(), md, kind, index);
    lemma_last_meta_entries(LevelObjectKind::Checkpoint, m.checkpoints.len(), md, kind, index);
    lemma_last_meta_entries(LevelObjectKind::Enemy, m.enemies.len(), md, kind, index);
    lemma_last_meta_entries(LevelObjectKind::Trigger, m.triggers.len(), md, kind, index);
    lemma_last_meta_entries(LevelObjectKind::Text, m.texts.len(), md, kind, index);
    lemma_last_meta_entries(LevelObjectKind::WorldPortal, m.world_portals.len(), md, kind, index);
    lemma_last_meta_concat(e0, e1, kind, index);
    lemma_last_meta_concat(e0 + e1, e2, kind, index);
    lemma_last_meta_concat(e0 + e1 + e2, e3, kind, index);
    lemma_last_meta_concat(e0 + e1 + e2 + e3, e4, kind, index);
    lemma_last_meta_concat(e0 + e1 + e2 + e3 + e4, e5, kind, index);
    lemma_last_meta_concat(e0 + e1 + e2 + e3 + e4 + e5, e6, kind, index);
    lemma_last_meta_concat(e0 + e1 + e2 + e3 + e4 + e5 + e6, e7, kind, index);
}


// ---------------------------------------------------------------------------
// The law.

/// A level whose file reads back as itself: its spawn point is set, every number is written
/// bare and reads as a finite number (sizes, radii, speeds, widths, scales and seamless
/// settings above zero), every optional number is set, enemies present from the start have
/// spawn group and wave zero while spawned ones have both above zero, enemy-spawn triggers name
/// an enemy above zero, texts are not empty, and the counts of objects fit in `usize`.
pub open spec fn level_writable(m: LevelDocModel, finite: Seq<Seq<char>>, positive: Seq<Seq<char>>) -> bool {
    &&& m.spawn matches Some(p) && point_ok(p, finite)
    &&& forall|i: int| 0 <= i < m.solids.len() ==> solid_ok(#[trigger] m.solids[i], finite, positive)
    &&& forall|i: int| 0 <= i < m.doors.len() ==> door_ok(#[trigger] m.doors[i], finite, positive)
    &&& forall|i: int| 0 <= i < m.hazards.len() ==> hazard_ok(#[trigger] m.hazards[i], finite, positive)
    &&& forall|i: int| 0 <= i < m.checkpoints.len() ==> rect_ok(#[trigger] m.checkpoints[i], finite, positive)
    &&& forall|i: int| 0 <= i < m.enemies.len() ==> enemy_ok(#[trigger] m.enemies[i], finite)
    &&& forall|i: int| 0 <= i < m.triggers.len() ==> trigger_ok(#[trigger] m.triggers[i], finite, positive)
    &&& forall|i: int| 0 <= i < m.texts.len() ==> text_ok(#[trigger] m.texts[i], finite)
    &&& forall|i: int| 0 <= i < m.world_portals.len() ==> world_portal_ok(#[trigger] m.world_portals[i], finite, positive)
    &&& counts_fit(m)
}

proof fn lemma_level_lines(m: LevelDocModel, stem: Seq<char>, finite: Seq<Seq<char>>, positive: Seq<Seq<char>>)
    requires
        level_writable(m, finite, positive),
    ensures
        lines_ok(level_texts(m)),
        spec_level_lines(level_texts(m), stem, finite, positive) == Ok::<LevelDocModel, Seq<char>>(
            LevelDocModel { metadata: spec_prune(written_metadata(m)), ..m },
        ),
{
    let md = m.metadata;
    let h = line_text("portals_level"@, header_fields());
    let n = line_text("level"@, name_fields(m));
    let ls = level_texts(m);
    lemma_level_keys();
    lemma_header_reads_back();
    lemma_name_reads_back(m, finite);
    lemma_keyed_row("portals_level"@, header_fields());
    lemma_keyed_row("level"@, name_fields(m));
    let head = seq![h, n];
    assert(lines_ok(head)) by {
        assert forall|i: int| 0 <= i < head.len() implies line_ok(#[trigger] head[i]) by {
            if i == 0 {
                assert(head[0] == h);
            } else {
                assert(head[1] == n);
            }
        }
    }
    let s0 = solid_texts(m.solids, md);
    let s1 = door_texts(m.doors, md);
    let s2 = hazard_texts(m.hazards, md);
    let s3 = checkpoint_texts(m.checkpoints, md);
    let s4 = enemy_texts(m.enemies, md);
    let s5 = trigger_texts(m.triggers, md);
    let s6 = text_texts(m.texts, md);
    let s7 = world_portal_texts(m.world_portals, md);
    lemma_solid_lines_ok(m.solids, md, finite, positive);
    lemma_door_lines_ok(m.doors, md, finite, positive);
    lemma_hazard_lines_ok(m.hazards, md, finite, positive);
    lemma_checkpoint_lines_ok(m.checkpoints, md, finite, positive);
    lemma_enemy_lines_ok(m.enemies, md, finite, positive);
    lemma_trigger_lines_ok(m.triggers, md, finite, positive);
    lemma_text_lines_ok(m.texts, md, finite, positive);
    lemma_world_portal_lines_ok(m.world_portals, md, finite, positive);
    lemma_lines_ok_append(head, s0);
    lemma_lines_ok_append(head + s0, s1);
    lemma_lines_ok_append(head + s0 + s1, s2);
    lemma_lines_ok_append(head + s0 + s1 + s2, s3);
    lemma_lines_ok_append(head + s0 + s1 + s2 + s3, s4);
    lemma_lines_ok_append(head + s0 + s1 + s2 + s3 + s4, s5);
    lemma_lines_ok_append(head + s0 + s1 + s2 + s3 + s4 + s5, s6);
    lemma_lines_ok_append(head + s0 + s1 + s2 + s3 + s4 + s5 + s6, s7);
    assert(ls == head + s0 + s1 + s2 + s3 + s4 + s5 + s6 + s7);
    // The header.
    assert(ls[0] == h);
    // The body, block by block.
    let body = ls.skip(1);
    assert(body =~= seq![n] + s0 + s1 + s2 + s3 + s4 + s5 + s6 + s7);
    let d0 = empty_level(stem_name(stem));
    let d1 = LevelDocModel { name: m.name, spawn: m.spawn, ..d0 };
    lemma_name_step(d0, m, finite, positive);
    assert(seq![n].drop_last() =~= Seq::<Seq<char>>::empty());
    assert(seq![n].last() == n);
    assert(level_body(d0, Seq::<Seq<char>>::empty(), finite, positive) == Ok::<LevelDocModel, Seq<char>>(d0));
    assert(level_body(d0, seq![n], finite, positive) == Ok::<LevelDocModel, Seq<char>>(d1));
    let d2 = LevelDocModel { solids: m.solids, metadata: d1.metadata + meta_entries(LevelObjectKind::Solid, m.solids.len(), md), ..d1 };
    lemma_solid_body(d1, m.solids, md, finite, positive);
    lemma_level_body_append(d0, seq![n], s0, finite, positive);
    let d3 = LevelDocModel { doors: m.doors, metadata: d2.metadata + meta_entries(LevelObjectKind::Door, m.doors.len(), md), ..d2 };
    lemma_door_body(d2, m.doors, md, finite, positive);
    lemma_level_body_append(d0, seq![n] + s0, s1, finite, positive);
    let d4 = LevelDocModel { hazards: m.hazards, metadata: d3.metadata + meta_entries(LevelObjectKind::Hazard, m.hazards.len(), md), ..d3 };
    lemma_hazard_body(d3, m.hazards, md, finite, positive);
    lemma_level_body_append(d0, seq![n] + s0 + s1, s2, finite, positive);
    let d5 = LevelDocModel { checkpoints: m.checkpoints, metadata: d4.metadata + meta_entries(LevelObjectKind::Checkpoint, m.checkpoints.len(), md), ..d4 };
    lemma_checkpoint_body(d4, m.checkpoints, md, finite, positive);
    lemma_level_body_append(d0, seq![n] + s0 + s1 + s2, s3, finite, positive);
    let d6 = LevelDocModel { enemies: m.enemies, metadata: d5.metadata + meta_entries(LevelObjectKind::Enemy, m.enemies.len(), md), ..d5 };
    lemma_enemy_body(d5, m.enemies, md, finite, positive);
    lemma_level_body_append(d0, seq![n] + s0 + s1 + s2 + s3, s4, finite, positive);
    let d7 = LevelDocModel { triggers: m.triggers, metadata: d6.metadata + meta_entries(LevelObjectKind::Trigger, m.triggers.len(), md), ..d6 };
    lemma_trigger_body(d6, m.triggers, md, finite, positive);
    lemma_level_body_append(d0, seq![n] + s0 + s1 + s2 + s3 + s4, s5, finite, positive);
    let d8 = LevelDocModel { texts: m.texts, metadata: d7.metadata + meta_entries(LevelObjectKind::Text, m.texts.len(), md), ..d7 };
    lemma_text_body(d7, m.texts, md, finite, positive);
    lemma_level_body_append(d0, seq![n] + s0 + s1 + s2 + s3 + s4 + s5, s6, finite, positive);
    let d9 = LevelDocModel { world_portals: m.world_portals, metadata: d8.metadata + meta_entries(LevelObjectKind::WorldPortal, m.world_portals.len(), md), ..d8 };
    lemma_world_portal_body(d8, m.world_portals, md, finite, positive);
    lemma_level_body_append(d0, seq![n] + s0 + s1 + s2 + s3 + s4 + s5 + s6, s7, finite, positive);
    assert(level_body(d0, body, finite, positive) == Ok::<LevelDocModel, Seq<char>>(d9));
    assert(d9.metadata =~= written_metadata(m));
    assert(LevelDocModel { metadata: spec_prune(d9.metadata), ..d9 } =~= LevelDocModel { metadata: spec_prune(written_metadata(m)), ..m });
}

/// The law of the level file: the text `format_level` writes for a level reads back, through
/// `parse_level_text` (whatever the file is named), as that level, and every object of it has
/// the metadata the level gave it, while positions past the last object of a kind have none.
/// Holds for every level whose values read back (`level_writable`).
pub proof fn lemma_level_round_trip(m: LevelDocModel, stem: Seq<char>, finite: Seq<Seq<char>>, positive: Seq<Seq<char>>)
    requires
        level_writable(m, finite, positive),
    ensures
        spec_parse_level(spec_format_level(m), stem, finite, positive) matches Ok(r) && r == (LevelDocModel {
            metadata: r.metadata,
            ..m
        }) && forall|kind: LevelObjectKind, index: usize| #[trigger] spec_object_meta(r.metadata, kind, index) == object_meta_of(m, kind, index),
{
    lemma_level_lines(m, stem, finite, positive);
    lemma_content_joined(level_texts(m));
    assert(content_lines(spec_format_level(m)) == level_texts(m));
    let r = LevelDocModel { metadata: spec_prune(written_metadata(m)), ..m };
    assert forall|kind: LevelObjectKind, index: usize| #[trigger] spec_object_meta(r.metadata, kind, index) == object_meta_of(m, kind, index) by {
        lemma_prune_keeps_last(written_metadata(m), kind, index);
        lemma_written_lookup(m, kind, index);
    }
}

} // verus!
