//! The `world.index` text that `format_world_index` writes reads back, through
//! `parse_world_index`, as the index it was written from.
use vstd::prelude::*;

use crate::keyed::{
    bare_ok, escape, escape_char, field_pairs, field_text, fields_ok, is_ws, key_ok, keyed_line,
    lemma_keyed_line_round_trip, lemma_token_end_run, skip_ws, spec_fields, spec_quote, spec_trim,
    token_end, trim_end_pos,
};
use crate::decimal::{
    digits_value, is_digit, lemma_format_int_parses, lemma_format_nat_parses,
    spec_format_nat, spec_parse_signed, spec_parse_unsigned,
};
use crate::keyed::{lookup, spec_parse_bool};
use crate::text_format::{
    CheckpointAnchorModel, ChunkEntryModel, TriggerAnchor, WorldIndexModel, WorldPortalAnchor,
    bool_text, checkpoint_fields, checkpoint_lines, chunk_fields, chunk_lines, content_from,
    content_lines, count_field, field_i32, field_unsigned, find_char, header_fields,
    header_prefix, index_body, index_step, initial_index, join_commas, lemma_find_char_bounds,
    level_fields, num, portal_fields, portal_lines, spec_checkpoint, spec_chunk_entry,
    spec_float_list, spec_format_trigger_kind, spec_format_world_index, spec_i32_pair,
    spec_level_line, spec_parse_trigger_kind, spec_parse_world_index,
    spec_portal, spec_trigger, split_commas, split_from, text_line, trigger_fields, trigger_lines,
};

verus! {

// ---------------------------------------------------------------------------
// Lines of text.

pub open spec fn no_newline(s: Seq<char>) -> bool {
    forall|j: int| 0 <= j < s.len() ==> #[trigger] s[j] != '\n'
}

/// A line that reads back as itself: not blank, not a comment, no newline, no white space at
/// either end.
pub open spec fn line_ok(l: Seq<char>) -> bool {
    &&& l.len() > 0
    &&& no_newline(l)
    &&& !is_ws(l[0])
    &&& !is_ws(l.last())
    &&& l[0] != '#'
}

/// Lines, each followed by a newline.
pub open spec fn joined(ls: Seq<Seq<char>>) -> Seq<char>
    decreases ls.len(),
{
    if ls.len() == 0 {
        seq![]
    } else {
        ls[0] + seq!['\n'] + joined(ls.skip(1))
    }
}

proof fn lemma_find_char_shift(a: Seq<char>, b: Seq<char>, c: char, j: int)
    requires
        0 <= j <= b.len(),
    ensures
        find_char(a + b, c, a.len() + j) == a.len() + find_char(b, c, j),
    decreases b.len() - j,
{
    if j < b.len() {
        assert((a + b)[a.len() + j] == b[j]);
        if b[j] != c {
            lemma_find_char_shift(a, b, c, j + 1);
        }
    }
}

proof fn lemma_content_shift(a: Seq<char>, b: Seq<char>, j: int)
    requires
        0 <= j <= b.len(),
    ensures
        content_from(a + b, a.len() + j) == content_from(b, j),
    decreases b.len() - j,
{
    let s = a + b;
    let o = a.len() as int;
    lemma_find_char_shift(a, b, '\n', j);
    lemma_find_char_bounds(b, '\n', j);
    let kb = find_char(b, '\n', j);
    assert(s.subrange(o + j, o + kb) =~= b.subrange(j, kb));
    if kb < b.len() {
        lemma_content_shift(a, b, kb + 1);
    }
}

proof fn lemma_find_char_run(s: Seq<char>, c: char, i: int, e: int)
    requires
        0 <= i <= e < s.len(),
        s[e] == c,
        forall|j: int| i <= j < e ==> #[trigger] s[j] != c,
    ensures
        find_char(s, c, i) == e,
    decreases e - i,
{
    if i < e {
        lemma_find_char_run(s, c, i + 1, e);
    }
}

/// A line with no white space at its ends is its own trim.
pub proof fn lemma_trim_self(l: Seq<char>)
    requires
        l.len() > 0,
        !is_ws(l[0]),
        !is_ws(l.last()),
    ensures
        spec_trim(l) == l,
{
    assert(skip_ws(l, 0) == 0);
    assert(trim_end_pos(l, l.len() as int) == l.len());
    assert(l.subrange(0, l.len() as int) =~= l);
}

/// A space followed by such a line trims to the line.
pub proof fn lemma_trim_after_space(l: Seq<char>)
    requires
        l.len() > 0,
        !is_ws(l[0]),
        !is_ws(l.last()),
    ensures
        spec_trim(seq![' '] + l) == l,
{
    let s = seq![' '] + l;
    assert(s[0] == ' ');
    assert(s[1] == l[0]);
    assert(skip_ws(s, 1) == 1);
    assert(skip_ws(s, 0) == 1);
    assert(s.last() == l.last());
    assert(trim_end_pos(s, s.len() as int) == s.len());
    assert(s.subrange(1, s.len() as int) =~= l);
}

/// The content lines of lines joined by newlines are those lines.
pub proof fn lemma_content_joined(ls: Seq<Seq<char>>)
    requires
        forall|i: int| 0 <= i < ls.len() ==> line_ok(#[trigger] ls[i]),
    ensures
        content_from(joined(ls), 0) == ls,
    decreases ls.len(),
{
    if ls.len() == 0 {
        assert(find_char(Seq::<char>::empty(), '\n', 0) == 0);
        assert(Seq::<char>::empty().subrange(0, 0) =~= Seq::<char>::empty());
        assert(spec_trim(Seq::<char>::empty()) =~= Seq::<char>::empty());
    } else {
        let l = ls[0];
        let rest = ls.skip(1);
        assert forall|i: int| 0 <= i < rest.len() implies line_ok(#[trigger] rest[i]) by {
            assert(rest[i] == ls[i + 1]);
        }
        lemma_content_joined(rest);
        assert(line_ok(l));
        let r = joined(rest);
        let s = l + seq!['\n'] + r;
        assert(s == joined(ls));
        assert forall|j: int| 0 <= j < l.len() implies #[trigger] s[j] != '\n' by {
            assert(s[j] == l[j]);
        }
        assert(s[l.len() as int] == '\n');
        lemma_find_char_run(s, '\n', 0, l.len() as int);
        assert(s.subrange(0, l.len() as int) =~= l);
        lemma_trim_self(l);
        assert(s =~= (l + seq!['\n']) + r);
        lemma_content_shift(l + seq!['\n'], r, 0);
        assert(content_from(s, 0) == seq![l] + content_from(s, l.len() as int + 1));
        assert(seq![l] + rest =~= ls);
    }
}

/// Joining two lists of lines joins their texts.
pub proof fn lemma_joined_append(a: Seq<Seq<char>>, b: Seq<Seq<char>>)
    ensures
        joined(a + b) == joined(a) + joined(b),
    decreases a.len(),
{
    if a.len() == 0 {
        assert(a + b =~= b);
        assert(Seq::<char>::empty() + joined(b) =~= joined(b));
    } else {
        assert((a + b).skip(1) =~= a.skip(1) + b);
        lemma_joined_append(a.skip(1), b);
        assert((a + b)[0] == a[0]);
        assert(a[0] + seq!['\n'] + (joined(a.skip(1)) + joined(b)) =~= (a[0] + seq!['\n']
            + joined(a.skip(1))) + joined(b));
    }
}

/// A list of one line joins to the line and a newline.
pub proof fn lemma_joined_one(l: Seq<char>)
    ensures
        joined(seq![l]) == l + seq!['\n'],
{
    assert(seq![l].skip(1) =~= Seq::<Seq<char>>::empty());
    assert(joined(Seq::<Seq<char>>::empty()) =~= Seq::<char>::empty());
    assert(seq![l][0] == l);
    assert(l + seq!['\n'] + Seq::<char>::empty() =~= l + seq!['\n']);
}

// ---------------------------------------------------------------------------
// Lines of fields.

proof fn lemma_escape_no_newline(v: Seq<char>)
    ensures
        no_newline(escape(v)),
    decreases v.len(),
{
    if v.len() > 0 {
        lemma_escape_no_newline(v.skip(1));
        let e = escape_char(v[0]);
        assert(no_newline(e));
        assert forall|j: int| 0 <= j < escape(v).len() implies #[trigger] escape(v)[j] != '\n' by {
            if j < e.len() {
                assert(escape(v)[j] == e[j]);
            } else {
                assert(escape(v)[j] == escape(v.skip(1))[j - e.len()]);
            }
        }
    }
}

proof fn lemma_field_text_shape(k: Seq<char>, v: Seq<char>, q: bool)
    requires
        key_ok(k),
        q || bare_ok(v),
    ensures
        field_text(k, v, q).len() > 0,
        field_text(k, v, q)[0] == k[0],
        !is_ws(field_text(k, v, q).last()),
        no_newline(field_text(k, v, q)),
{
    let f = field_text(k, v, q);
    assert(f[0] == k[0]);
    assert(!is_ws(k[0]));
    if q {
        lemma_escape_no_newline(v);
        let w = spec_quote(v);
        assert(f == k + seq!['='] + w);
        assert(f.last() == '"');
        assert forall|j: int| 0 <= j < f.len() implies #[trigger] f[j] != '\n' by {
            if j < k.len() {
                assert(f[j] == k[j]);
                assert(!is_ws(k[j]));
            } else if j > k.len() {
                let x = j - k.len() - 1;
                assert(f[j] == w[x]);
                if 0 < x < w.len() - 1 {
                    assert(w[x] == escape(v)[x - 1]);
                }
            }
        }
    } else {
        assert(f.last() == v.last());
        assert(!is_ws(v[v.len() - 1]));
        assert forall|j: int| 0 <= j < f.len() implies #[trigger] f[j] != '\n' by {
            if j < k.len() {
                assert(f[j] == k[j]);
                assert(!is_ws(k[j]));
            } else if j > k.len() {
                assert(f[j] == v[j - k.len() - 1]);
                assert(!is_ws(v[j - k.len() - 1]));
            }
        }
    }
}

/// A written line of fields starts and ends with a non-blank character and holds no newline.
pub proof fn lemma_keyed_line_shape(fs: Seq<(Seq<char>, Seq<char>, bool)>)
    requires
        fields_ok(fs),
        fs.len() > 0,
    ensures
        keyed_line(fs).len() > 0,
        !is_ws(keyed_line(fs)[0]),
        !is_ws(keyed_line(fs).last()),
        no_newline(keyed_line(fs)),
    decreases fs.len(),
{
    assert(key_ok(fs[0].0) && (fs[0].2 || bare_ok(fs[0].1)));
    lemma_field_text_shape(fs[0].0, fs[0].1, fs[0].2);
    let f = field_text(fs[0].0, fs[0].1, fs[0].2);
    if fs.len() > 1 {
        let rest = fs.skip(1);
        assert(fields_ok(rest)) by {
            assert forall|j: int| 0 <= j < rest.len() implies key_ok(#[trigger] rest[j].0) && (
            rest[j].2 || bare_ok(rest[j].1)) by {
                assert(rest[j] == fs[j + 1]);
            }
        }
        lemma_keyed_line_shape(rest);
        let r = keyed_line(rest);
        let l = f + seq![' '] + r;
        assert(l == keyed_line(fs));
        assert(l[0] == f[0]);
        assert(l.last() == r.last());
        assert forall|j: int| 0 <= j < l.len() implies #[trigger] l[j] != '\n' by {
            if j < f.len() {
                assert(l[j] == f[j]);
            } else if j > f.len() {
                assert(l[j] == r[j - f.len() - 1]);
            }
        }
    }
}

/// The text of a line without its newline: the command, a space, the fields.
pub open spec fn line_text(command: Seq<char>, fs: Seq<(Seq<char>, Seq<char>, bool)>) -> Seq<char> {
    command + seq![' '] + keyed_line(fs)
}

/// A command word: non-empty, no white space, not a comment mark.
pub open spec fn command_ok(c: Seq<char>) -> bool {
    c.len() > 0 && c[0] != '#' && forall|j: int| 0 <= j < c.len() ==> !is_ws(#[trigger] c[j])
}

/// A written line reads back as its command and its fields.
pub proof fn lemma_line_reads_back(command: Seq<char>, fs: Seq<(Seq<char>, Seq<char>, bool)>)
    requires
        command_ok(command),
        fields_ok(fs),
        fs.len() > 0,
    ensures
        line_ok(line_text(command, fs)),
        token_end(line_text(command, fs), 0) == command.len(),
        line_text(command, fs).subrange(0, command.len() as int) == command,
        spec_fields(
            spec_trim(
                line_text(command, fs).subrange(
                    command.len() as int,
                    line_text(command, fs).len() as int,
                ),
            ),
        ) == field_pairs(fs),
{
    let l = line_text(command, fs);
    let kl = keyed_line(fs);
    let n = command.len() as int;
    lemma_keyed_line_shape(fs);
    assert(l[0] == command[0]);
    assert(l.last() == kl.last());
    assert forall|j: int| 0 <= j < l.len() implies #[trigger] l[j] != '\n' by {
        if j < n {
            assert(l[j] == command[j]);
        } else if j > n {
            assert(l[j] == kl[j - n - 1]);
        }
    }
    assert forall|j: int| 0 <= j < n implies !is_ws(#[trigger] l[j]) by {
        assert(l[j] == command[j]);
    }
    assert(l[n] == ' ');
    lemma_token_end_run(l, 0, n);
    assert(l.subrange(0, n) =~= command);
    assert(l.subrange(n, l.len() as int) =~= seq![' '] + kl);
    lemma_trim_after_space(kl);
    lemma_keyed_line_round_trip(fs);
}

// ---------------------------------------------------------------------------
// Looking up written fields.

/// The value of a key is the one at the last position holding it.
pub proof fn lemma_lookup_at(f: Seq<(Seq<char>, Seq<char>)>, j: int, k: Seq<char>)
    requires
        0 <= j < f.len(),
        f[j].0 == k,
        forall|i: int| j < i < f.len() ==> #[trigger] f[i].0 != k,
    ensures
        lookup(f, k) == Some(f[j].1),
    decreases f.len(),
{
    if j < f.len() - 1 {
        assert(f[f.len() - 1].0 != k);
        let g = f.drop_last();
        assert forall|i: int| j < i < g.len() implies #[trigger] g[i].0 != k by {
            assert(g[i] == f[i]);
        }
        lemma_lookup_at(g, j, k);
    }
}

proof fn lemma_header_lookups(m: WorldIndexModel)
    ensures
        lookup(field_pairs(header_fields(m)), "version"@) == Some(num(m.schema as int)),
        lookup(field_pairs(header_fields(m)), "coord_scale"@) == Some(num(m.coord_scale as int)),
        lookup(field_pairs(header_fields(m)), "chunk_size_units"@) == Some(num(m.chunk_size_units as int)),
        lookup(field_pairs(header_fields(m)), "encoding"@) == Some("typed_bitpacked_soa"@),
{
    reveal_strlit("version");
    reveal_strlit("endian");
    reveal_strlit("coord_scale");
    reveal_strlit("chunk_size_units");
    reveal_strlit("encoding");
    assert("version"@.len() == 7);
    assert("endian"@.len() == 6);
    assert("coord_scale"@.len() == 11);
    assert("chunk_size_units"@.len() == 16);
    assert("encoding"@.len() == 8);
    let f = field_pairs(header_fields(m));
    assert(f =~= seq![
        ("version"@, num(m.schema as int)),
        ("endian"@, "little"@),
        ("coord_scale"@, num(m.coord_scale as int)),
        ("chunk_size_units"@, num(m.chunk_size_units as int)),
        ("encoding"@, "typed_bitpacked_soa"@),
    ]);
    assert forall|i: int| 0 < i < 5 implies #[trigger] f[i].0 != "version"@ by {
        if i == 1 {
            assert(f[1].0 == "endian"@);
        } else if i == 2 {
            assert(f[2].0 == "coord_scale"@);
        } else if i == 3 {
            assert(f[3].0 == "chunk_size_units"@);
        } else {
            assert(f[4].0 == "encoding"@);
        }
    }
    lemma_lookup_at(f, 0, "version"@);
    assert forall|i: int| 2 < i < 5 implies #[trigger] f[i].0 != "coord_scale"@ by {
        if i == 3 {
            assert(f[3].0 == "chunk_size_units"@);
        } else {
            assert(f[4].0 == "encoding"@);
        }
    }
    lemma_lookup_at(f, 2, "coord_scale"@);
    assert forall|i: int| 3 < i < 5 implies #[trigger] f[i].0 != "chunk_size_units"@ by {
        assert(f[4].0 == "encoding"@);
    }
    lemma_lookup_at(f, 3, "chunk_size_units"@);
    lemma_lookup_at(f, 4, "encoding"@);
}

// ---------------------------------------------------------------------------
// Written values.

pub open spec fn no_comma(t: Seq<char>) -> bool {
    forall|j: int| 0 <= j < t.len() ==> #[trigger] t[j] != ','
}

/// Decimal text is digits with at most a leading minus sign: it reads as a bare value and
/// holds no comma.
pub proof fn lemma_num_shape(v: int)
    ensures
        bare_ok(num(v)),
        no_comma(num(v)),
        no_newline(num(v)),
{
    let t = num(v);
    if v < 0 {
        let d = spec_format_nat((-v) as nat);
        lemma_format_nat_parses((-v) as nat);
        assert(t == seq!['-'] + d);
        assert(t[0] == '-');
        assert forall|j: int| 0 <= j < t.len() implies !is_ws(#[trigger] t[j]) && t[j] != ','
            && t[j] != '\n' by {
            if j > 0 {
                assert(t[j] == d[j - 1]);
                assert(is_digit(d[j - 1]));
            }
        }
    } else {
        let d = spec_format_nat(v as nat);
        lemma_format_nat_parses(v as nat);
        assert(is_digit(d[0]));
        assert forall|j: int| 0 <= j < t.len() implies !is_ws(#[trigger] t[j]) && t[j] != ','
            && t[j] != '\n' by {
            assert(is_digit(d[j]));
        }
    }
}

pub proof fn lemma_parse_unsigned_num(v: int, max: int)
    requires
        0 <= v <= max,
    ensures
        spec_parse_unsigned(num(v), max) == Some(v),
{
    lemma_format_int_parses(v);
}

pub proof fn lemma_parse_signed_num(v: int, min_mag: int, max: int)
    requires
        -min_mag <= v <= max,
    ensures
        spec_parse_signed(num(v), min_mag, max) == Some(v),
{
    lemma_format_int_parses(v);
}

proof fn lemma_split_shift(a: Seq<char>, b: Seq<char>, c: char, j: int)
    requires
        0 <= j <= b.len(),
    ensures
        split_from(a + b, c, a.len() + j) == split_from(b, c, j),
    decreases b.len() - j,
{
    let s = a + b;
    let o = a.len() as int;
    lemma_find_char_shift(a, b, c, j);
    lemma_find_char_bounds(b, c, j);
    let kb = find_char(b, c, j);
    assert(s.subrange(o + j, o + kb) =~= b.subrange(j, kb));
    assert(s.subrange(o + j, s.len() as int) =~= b.subrange(j, b.len() as int));
    if kb < b.len() {
        lemma_split_shift(a, b, c, kb + 1);
    }
}

proof fn lemma_find_char_absent(s: Seq<char>, c: char, i: int)
    requires
        0 <= i <= s.len(),
        forall|j: int| i <= j < s.len() ==> #[trigger] s[j] != c,
    ensures
        find_char(s, c, i) == s.len(),
    decreases s.len() - i,
{
    if i < s.len() {
        lemma_find_char_absent(s, c, i + 1);
    }
}

/// Texts without commas joined by commas split back into those texts.
pub proof fn lemma_split_join(parts: Seq<Seq<char>>)
    requires
        parts.len() >= 1,
        forall|j: int| 0 <= j < parts.len() ==> no_comma(#[trigger] parts[j]),
    ensures
        split_commas(join_commas(parts)) == parts,
    decreases parts.len(),
{
    let p0 = parts[0];
    assert(no_comma(p0));
    if parts.len() == 1 {
        lemma_find_char_absent(p0, ',', 0);
        assert(join_commas(parts) == p0);
        assert(p0.subrange(0, p0.len() as int) =~= p0);
        assert(seq![p0] =~= parts);
    } else {
        let rest = parts.skip(1);
        assert forall|j: int| 0 <= j < rest.len() implies no_comma(#[trigger] rest[j]) by {
            assert(rest[j] == parts[j + 1]);
        }
        lemma_split_join(rest);
        let s = join_commas(parts);
        assert(s == p0 + seq![','] + join_commas(rest));
        assert forall|j: int| 0 <= j < p0.len() implies #[trigger] s[j] != ',' by {
            assert(s[j] == p0[j]);
        }
        assert(s[p0.len() as int] == ',');
        lemma_find_char_run(s, ',', 0, p0.len() as int);
        assert(s.subrange(0, p0.len() as int) =~= p0);
        assert(s =~= (p0 + seq![',']) + join_commas(rest));
        lemma_split_shift(p0 + seq![','], join_commas(rest), ',', 0);
        assert(seq![p0] + rest =~= parts);
    }
}

/// Two integers written as `x,y` split back into their texts, and the text reads as a bare
/// value.
pub proof fn lemma_pair_text(x: int, y: int)
    ensures
        num(x) + seq![','] + num(y) == join_commas(seq![num(x), num(y)]),
        split_commas(num(x) + seq![','] + num(y)) == seq![num(x), num(y)],
        bare_ok(num(x) + seq![','] + num(y)),
{
    lemma_num_shape(x);
    lemma_num_shape(y);
    let ps = seq![num(x), num(y)];
    assert(ps.skip(1) =~= seq![num(y)]);
    assert(join_commas(seq![num(y)]) == num(y));
    assert(join_commas(ps) == num(x) + seq![','] + num(y));
    lemma_split_join(ps);
    let t = num(x) + seq![','] + num(y);
    assert forall|j: int| 0 <= j < t.len() implies !is_ws(#[trigger] t[j]) by {
        if j < num(x).len() {
            assert(t[j] == num(x)[j]);
        } else if j > num(x).len() {
            assert(t[j] == num(y)[j - num(x).len() - 1]);
        }
    }
    assert(t[0] == num(x)[0]);
}

/// The word written for a trigger kind reads back as that kind.
pub proof fn lemma_trigger_kind_round_trip(k: u8)
    ensures
        spec_parse_trigger_kind(spec_format_trigger_kind(k)) == Some(k),
        bare_ok(spec_format_trigger_kind(k)),
{
    reveal_strlit("0");
    reveal_strlit("1");
    reveal_strlit("2");
    reveal_strlit("level_start");
    reveal_strlit("checkpoint");
    reveal_strlit("level_end");
    reveal_strlit("enemy_spawn");
    reveal_strlit("spawn");
    if k >= 3 {
        let t = num(k as int);
        lemma_num_shape(k as int);
        lemma_format_nat_parses(k as nat);
        lemma_parse_unsigned_num(k as int, 255);
        assert(is_digit(t[0]));
        if t.len() == 1 {
            assert(t.drop_last() =~= Seq::<char>::empty());
            assert(digits_value(Seq::<char>::empty()) == 0);
            assert(t.last() == t[0]);
            assert(digits_value(t) == digits_value(t.drop_last()) * 10 + (t[0] as int - '0' as int));
        }
        assert(t != "0"@ && t != "1"@ && t != "2"@);
    }
}

/// The word written for a flag reads back as that flag.
pub proof fn lemma_bool_text_round_trip(b: bool)
    ensures
        spec_parse_bool(bool_text(b)) == b,
        bare_ok(bool_text(b)),
{
    reveal_strlit("true");
    reveal_strlit("false");
    reveal_strlit("1");
    reveal_strlit("yes");
    reveal_strlit("on");
}

// ---------------------------------------------------------------------------
// What can be written and read back.

/// Parts of a comma list that read back: `n` of them, none holding a comma, all listed as
/// finite numbers, and their joined text a bare value.
pub open spec fn list_ok(parts: Seq<Seq<char>>, n: nat, finite: Seq<Seq<char>>) -> bool {
    &&& parts.len() == n
    &&& bare_ok(join_commas(parts))
    &&& forall|j: int| 0 <= j < n ==> no_comma(#[trigger] parts[j]) && finite.contains(parts[j])
}

pub open spec fn chunk_writable(c: ChunkEntryModel, finite: Seq<Seq<char>>) -> bool {
    list_ok(c.bbox_units, 4, finite) && bare_ok(c.sha256)
}

pub open spec fn checkpoint_writable(c: CheckpointAnchorModel, finite: Seq<Seq<char>>) -> bool {
    list_ok(c.anchor, 2, finite)
}

/// An index that its written text describes exactly: the spawn texts and the parts of every
/// bounding box and anchor are listed numbers that can stand bare, the checksums can stand
/// bare, and there is at least one chunk.
pub open spec fn index_writable(m: WorldIndexModel, finite: Seq<Seq<char>>) -> bool {
    &&& m.spawn.len() == 2
    &&& bare_ok(m.spawn[0]) && finite.contains(m.spawn[0])
    &&& bare_ok(m.spawn[1]) && finite.contains(m.spawn[1])
    &&& m.chunks.len() > 0
    &&& forall|i: int| 0 <= i < m.chunks.len() ==> chunk_writable(#[trigger] m.chunks[i], finite)
    &&& forall|i: int|
        0 <= i < m.checkpoints.len() ==> checkpoint_writable(#[trigger] m.checkpoints[i], finite)
}

pub proof fn lemma_float_list_reads_back(parts: Seq<Seq<char>>, n: nat, finite: Seq<Seq<char>>)
    requires
        list_ok(parts, n, finite),
        n >= 1,
    ensures
        spec_float_list(join_commas(parts), n, finite) == Some(parts),
{
    assert forall|j: int| 0 <= j < parts.len() implies no_comma(#[trigger] parts[j]) by {}
    lemma_split_join(parts);
}

pub proof fn lemma_i32_pair_reads_back(x: i32, y: i32)
    ensures
        spec_i32_pair(num(x as int) + seq![','] + num(y as int)) == Ok::<(i32, i32), Seq<char>>((x, y)),
{
    lemma_pair_text(x as int, y as int);
    lemma_parse_signed_num(x as int, 2147483648, 2147483647);
    lemma_parse_signed_num(y as int, 2147483648, 2147483647);
    let parts = split_commas(num(x as int) + seq![','] + num(y as int));
    assert(parts == seq![num(x as int), num(y as int)]);
    assert forall|j: int| 0 <= j < parts.len() implies (#[trigger] spec_parse_signed(
        parts[j],
        2147483648,
        2147483647,
    )) is Some by {
        if j == 0 {
            assert(parts[0] == num(x as int));
        } else {
            assert(parts[1] == num(y as int));
        }
    }
}

proof fn lemma_level_lookups(m: WorldIndexModel)
    ensures
        lookup(field_pairs(level_fields(m)), "name"@) == Some(m.level_name),
        lookup(field_pairs(level_fields(m)), "spawn_x"@) == Some(m.spawn[0]),
        lookup(field_pairs(level_fields(m)), "spawn_y"@) == Some(m.spawn[1]),
{
    reveal_strlit("name");
    reveal_strlit("spawn_x");
    reveal_strlit("spawn_y");
    assert("name"@.len() == 4);
    assert("spawn_x"@.len() == 7);
    assert("spawn_y"@.len() == 7);
    assert("spawn_x"@[6] == 'x' && "spawn_y"@[6] == 'y');
    let f = field_pairs(level_fields(m));
    assert(f =~= seq![
        ("name"@, m.level_name),
        ("spawn_x"@, m.spawn[0]),
        ("spawn_y"@, m.spawn[1]),
    ]);
    assert forall|i: int| 0 < i < 3 implies #[trigger] f[i].0 != "name"@ by {
        if i == 1 {
            assert(f[1].0 == "spawn_x"@);
        } else {
            assert(f[2].0 == "spawn_y"@);
        }
    }
    lemma_lookup_at(f, 0, "name"@);
    assert forall|i: int| 1 < i < 3 implies #[trigger] f[i].0 != "spawn_x"@ by {
        assert(f[2].0 == "spawn_y"@);
    }
    lemma_lookup_at(f, 1, "spawn_x"@);
    lemma_lookup_at(f, 2, "spawn_y"@);
}

proof fn lemma_chunk_lookups(c: ChunkEntryModel)
    ensures
        lookup(field_pairs(chunk_fields(c)), "id"@) == Some(num(c.id as int)),
        lookup(field_pairs(chunk_fields(c)), "origin_q"@) == Some(num(c.origin_q.0 as int) + seq![','] + num(c.origin_q.1 as int)),
        lookup(field_pairs(chunk_fields(c)), "bbox_units"@) == Some(join_commas(c.bbox_units)),
        lookup(field_pairs(chunk_fields(c)), "path"@) == Some(c.path),
        lookup(field_pairs(chunk_fields(c)), "bytes"@) == Some(num(c.bytes as int)),
        lookup(field_pairs(chunk_fields(c)), "sha256"@) == Some(c.sha256),
        lookup(field_pairs(chunk_fields(c)), "static_rects"@) == Some(num(c.counts.static_rects as int)),
        lookup(field_pairs(chunk_fields(c)), "hazard_rects"@) == Some(num(c.counts.hazard_rects as int)),
        lookup(field_pairs(chunk_fields(c)), "doors"@) == Some(num(c.counts.doors as int)),
        lookup(field_pairs(chunk_fields(c)), "checkpoints"@) == Some(num(c.counts.checkpoints as int)),
        lookup(field_pairs(chunk_fields(c)), "triggers"@) == Some(num(c.counts.triggers as int)),
        lookup(field_pairs(chunk_fields(c)), "enemy_spawns"@) == Some(num(c.counts.enemy_spawns as int)),
        lookup(field_pairs(chunk_fields(c)), "text_points"@) == Some(num(c.counts.text_points as int)),
        lookup(field_pairs(chunk_fields(c)), "world_portals"@) == Some(num(c.counts.world_portals as int)),
{
    reveal_strlit("id");
    reveal_strlit("origin_q");
    reveal_strlit("bbox_units");
    reveal_strlit("path");
    reveal_strlit("bytes");
    reveal_strlit("sha256");
    reveal_strlit("static_rects");
    reveal_strlit("hazard_rects");
    reveal_strlit("doors");
    reveal_strlit("checkpoints");
    reveal_strlit("triggers");
    reveal_strlit("enemy_spawns");
    reveal_strlit("text_points");
    reveal_strlit("world_portals");
    assert("id"@.len() == 2);
    assert("origin_q"@.len() == 8);
    assert("bbox_units"@.len() == 10);
    assert("path"@.len() == 4);
    assert("bytes"@.len() == 5);
    assert("sha256"@.len() == 6);
    assert("static_rects"@.len() == 12);
    assert("hazard_rects"@.len() == 12);
    assert("doors"@.len() == 5);
    assert("checkpoints"@.len() == 11);
    assert("triggers"@.len() == 8);
    assert("enemy_spawns"@.len() == 12);
    assert("text_points"@.len() == 11);
    assert("world_portals"@.len() == 13);
    assert("origin_q"@[0] == 'o' && "triggers"@[0] == 't');
    assert("bytes"@[0] == 'b' && "doors"@[0] == 'd');
    assert("static_rects"@[0] == 's' && "hazard_rects"@[0] == 'h');
    assert("static_rects"@[0] == 's' && "enemy_spawns"@[0] == 'e');
    assert("hazard_rects"@[0] == 'h' && "enemy_spawns"@[0] == 'e');
    assert("checkpoints"@[0] == 'c' && "text_points"@[0] == 't');
    let f = field_pairs(chunk_fields(c));
    assert(f =~= seq![
        ("id"@, num(c.id as int)),
        ("origin_q"@, num(c.origin_q.0 as int) + seq![','] + num(c.origin_q.1 as int)),
        ("bbox_units"@, join_commas(c.bbox_units)),
        ("path"@, c.path),
        ("bytes"@, num(c.bytes as int)),
        ("sha256"@, c.sha256),
        ("static_rects"@, num(c.counts.static_rects as int)),
        ("hazard_rects"@, num(c.counts.hazard_rects as int)),
        ("doors"@, num(c.counts.doors as int)),
        ("checkpoints"@, num(c.counts.checkpoints as int)),
        ("triggers"@, num(c.counts.triggers as int)),
        ("enemy_spawns"@, num(c.counts.enemy_spawns as int)),
        ("text_points"@, num(c.counts.text_points as int)),
        ("world_portals"@, num(c.counts.world_portals as int)),
    ]);
    assert forall|i: int| 0 < i < 14 implies #[trigger] f[i].0 != "id"@ by {
        if i == 1 {
            assert(f[1].0 == "origin_q"@);
        } else if i == 2 {
            assert(f[2].0 == "bbox_units"@);
        } else if i == 3 {
            assert(f[3].0 == "path"@);
        } else if i == 4 {
            assert(f[4].0 == "bytes"@);
        } else if i == 5 {
            assert(f[5].0 == "sha256"@);
        } else if i == 6 {
            assert(f[6].0 == "static_rects"@);
        } else if i == 7 {
            assert(f[7].0 == "hazard_rects"@);
        } else if i == 8 {
            assert(f[8].0 == "doors"@);
        } else if i == 9 {
            assert(f[9].0 == "checkpoints"@);
        } else if i == 10 {
            assert(f[10].0 == "triggers"@);
        } else if i == 11 {
            assert(f[11].0 == "enemy_spawns"@);
        } else if i == 12 {
            assert(f[12].0 == "text_points"@);
        } else {
            assert(f[13].0 == "world_portals"@);
        }
    }
    lemma_lookup_at(f, 0, "id"@);
    assert forall|i: int| 1 < i < 14 implies #[trigger] f[i].0 != "origin_q"@ by {
        if i == 2 {
            assert(f[2].0 == "bbox_units"@);
        } else if i == 3 {
            assert(f[3].0 == "path"@);
        } else if i == 4 {
            assert(f[4].0 == "bytes"@);
        } else if i == 5 {
            assert(f[5].0 == "sha256"@);
        } else if i == 6 {
            assert(f[6].0 == "static_rects"@);
        } else if i == 7 {
            assert(f[7].0 == "hazard_rects"@);
        } else if i == 8 {
            assert(f[8].0 == "doors"@);
        } else if i == 9 {
            assert(f[9].0 == "checkpoints"@);
        } else if i == 10 {
            assert(f[10].0 == "triggers"@);
        } else if i == 11 {
            assert(f[11].0 == "enemy_spawns"@);
        } else if i == 12 {
            assert(f[12].0 == "text_points"@);
        } else {
            assert(f[13].0 == "world_portals"@);
        }
    }
    lemma_lookup_at(f, 1, "origin_q"@);
    assert forall|i: int| 2 < i < 14 implies #[trigger] f[i].0 != "bbox_units"@ by {
        if i == 3 {
            assert(f[3].0 == "path"@);
        } else if i == 4 {
            assert(f[4].0 == "bytes"@);
        } else if i == 5 {
            assert(f[5].0 == "sha256"@);
        } else if i == 6 {
            assert(f[6].0 == "static_rects"@);
        } else if i == 7 {
            assert(f[7].0 == "hazard_rects"@);
        } else if i == 8 {
            assert(f[8].0 == "doors"@);
        } else if i == 9 {
            assert(f[9].0 == "checkpoints"@);
        } else if i == 10 {
            assert(f[10].0 == "triggers"@);
        } else if i == 11 {
            assert(f[11].0 == "enemy_spawns"@);
        } else if i == 12 {
            assert(f[12].0 == "text_points"@);
        } else {
            assert(f[13].0 == "world_portals"@);
        }
    }
    lemma_lookup_at(f, 2, "bbox_units"@);
    assert forall|i: int| 3 < i < 14 implies #[trigger] f[i].0 != "path"@ by {
        if i == 4 {
            assert(f[4].0 == "bytes"@);
        } else if i == 5 {
            assert(f[5].0 == "sha256"@);
        } else if i == 6 {
            assert(f[6].0 == "static_rects"@);
        } else if i == 7 {
            assert(f[7].0 == "hazard_rects"@);
        } else if i == 8 {
            assert(f[8].0 == "doors"@);
        } else if i == 9 {
            assert(f[9].0 == "checkpoints"@);
        } else if i == 10 {
            assert(f[10].0 == "triggers"@);
        } else if i == 11 {
            assert(f[11].0 == "enemy_spawns"@);
        } else if i == 12 {
            assert(f[12].0 == "text_points"@);
        } else {
            assert(f[13].0 == "world_portals"@);
        }
    }
    lemma_lookup_at(f, 3, "path"@);
    assert forall|i: int| 4 < i < 14 implies #[trigger] f[i].0 != "bytes"@ by {
        if i == 5 {
            assert(f[5].0 == "sha256"@);
        } else if i == 6 {
            assert(f[6].0 == "static_rects"@);
        } else if i == 7 {
            assert(f[7].0 == "hazard_rects"@);
        } else if i == 8 {
            assert(f[8].0 == "doors"@);
        } else if i == 9 {
            assert(f[9].0 == "checkpoints"@);
        } else if i == 10 {
            assert(f[10].0 == "triggers"@);
        } else if i == 11 {
            assert(f[11].0 == "enemy_spawns"@);
        } else if i == 12 {
            assert(f[12].0 == "text_points"@);
        } else {
            assert(f[13].0 == "world_portals"@);
        }
    }
    lemma_lookup_at(f, 4, "bytes"@);
    assert forall|i: int| 5 < i < 14 implies #[trigger] f[i].0 != "sha256"@ by {
        if i == 6 {
            assert(f[6].0 == "static_rects"@);
        } else if i == 7 {
            assert(f[7].0 == "hazard_rects"@);
        } else if i == 8 {
            assert(f[8].0 == "doors"@);
        } else if i == 9 {
            assert(f[9].0 == "checkpoints"@);
        } else if i == 10 {
            assert(f[10].0 == "triggers"@);
        } else if i == 11 {
            assert(f[11].0 == "enemy_spawns"@);
        } else if i == 12 {
            assert(f[12].0 == "text_points"@);
        } else {
            assert(f[13].0 == "world_portals"@);
        }
    }
    lemma_lookup_at(f, 5, "sha256"@);
    assert forall|i: int| 6 < i < 14 implies #[trigger] f[i].0 != "static_rects"@ by {
        if i == 7 {
            assert(f[7].0 == "hazard_rects"@);
        } else if i == 8 {
            assert(f[8].0 == "doors"@);
        } else if i == 9 {
            assert(f[9].0 == "checkpoints"@);
        } else if i == 10 {
            assert(f[10].0 == "triggers"@);
        } else if i == 11 {
            assert(f[11].0 == "enemy_spawns"@);
        } else if i == 12 {
            assert(f[12].0 == "text_points"@);
        } else {
            assert(f[13].0 == "world_portals"@);
        }
    }
    lemma_lookup_at(f, 6, "static_rects"@);
    assert forall|i: int| 7 < i < 14 implies #[trigger] f[i].0 != "hazard_rects"@ by {
        if i == 8 {
            assert(f[8].0 == "doors"@);
        } else if i == 9 {
            assert(f[9].0 == "checkpoints"@);
        } else if i == 10 {
            assert(f[10].0 == "triggers"@);
        } else if i == 11 {
            assert(f[11].0 == "enemy_spawns"@);
        } else if i == 12 {
            assert(f[12].0 == "text_points"@);
        } else {
            assert(f[13].0 == "world_portals"@);
        }
    }
    lemma_lookup_at(f, 7, "hazard_rects"@);
    assert forall|i: int| 8 < i < 14 implies #[trigger] f[i].0 != "doors"@ by {
        if i == 9 {
            assert(f[9].0 == "checkpoints"@);
        } else if i == 10 {
            assert(f[10].0 == "triggers"@);
        } else if i == 11 {
            assert(f[11].0 == "enemy_spawns"@);
        } else if i == 12 {
            assert(f[12].0 == "text_points"@);
        } else {
            assert(f[13].0 == "world_portals"@);
        }
    }
    lemma_lookup_at(f, 8, "doors"@);
    assert forall|i: int| 9 < i < 14 implies #[trigger] f[i].0 != "checkpoints"@ by {
        if i == 10 {
            assert(f[10].0 == "triggers"@);
        } else if i == 11 {
            assert(f[11].0 == "enemy_spawns"@);
        } else if i == 12 {
            assert(f[12].0 == "text_points"@);
        } else {
            assert(f[13].0 == "world_portals"@);
        }
    }
    lemma_lookup_at(f, 9, "checkpoints"@);
    assert forall|i: int| 10 < i < 14 implies #[trigger] f[i].0 != "triggers"@ by {
        if i == 11 {
            assert(f[11].0 == "enemy_spawns"@);
        } else if i == 12 {
            assert(f[12].0 == "text_points"@);
        } else {
            assert(f[13].0 == "world_portals"@);
        }
    }
    lemma_lookup_at(f, 10, "triggers"@);
    assert forall|i: int| 11 < i < 14 implies #[trigger] f[i].0 != "enemy_spawns"@ by {
        if i == 12 {
            assert(f[12].0 == "text_points"@);
        } else {
            assert(f[13].0 == "world_portals"@);
        }
    }
    lemma_lookup_at(f, 11, "enemy_spawns"@);
    assert forall|i: int| 12 < i < 14 implies #[trigger] f[i].0 != "text_points"@ by {
        assert(f[13].0 == "world_portals"@);
    }
    lemma_lookup_at(f, 12, "text_points"@);
    lemma_lookup_at(f, 13, "world_portals"@);
}

proof fn lemma_checkpoint_lookups(c: CheckpointAnchorModel)
    ensures
        lookup(field_pairs(checkpoint_fields(c)), "index"@) == Some(num(c.index as int)),
        lookup(field_pairs(checkpoint_fields(c)), "anchor"@) == Some(join_commas(c.anchor)),
        lookup(field_pairs(checkpoint_fields(c)), "restart_chunks"@) == Some(num(c.chunk_id as int)),
{
    reveal_strlit("index");
    reveal_strlit("anchor");
    reveal_strlit("restart_chunks");
    assert("index"@.len() == 5);
    assert("anchor"@.len() == 6);
    assert("restart_chunks"@.len() == 14);
    let f = field_pairs(checkpoint_fields(c));
    assert(f =~= seq![
        ("index"@, num(c.index as int)),
        ("anchor"@, join_commas(c.anchor)),
        ("restart_chunks"@, num(c.chunk_id as int)),
    ]);
    assert forall|i: int| 0 < i < 3 implies #[trigger] f[i].0 != "index"@ by {
        if i == 1 {
            assert(f[1].0 == "anchor"@);
        } else {
            assert(f[2].0 == "restart_chunks"@);
        }
    }
    lemma_lookup_at(f, 0, "index"@);
    assert forall|i: int| 1 < i < 3 implies #[trigger] f[i].0 != "anchor"@ by {
        assert(f[2].0 == "restart_chunks"@);
    }
    lemma_lookup_at(f, 1, "anchor"@);
    lemma_lookup_at(f, 2, "restart_chunks"@);
}

proof fn lemma_trigger_lookups(t: TriggerAnchor)
    ensures
        lookup(field_pairs(trigger_fields(t)), "trigger_id"@) == Some(num(t.trigger_id as int)),
        lookup(field_pairs(trigger_fields(t)), "kind"@) == Some(spec_format_trigger_kind(t.kind)),
        lookup(field_pairs(trigger_fields(t)), "source_chunk"@) == Some(num(t.source_chunk as int)),
        lookup(field_pairs(trigger_fields(t)), "target_group"@) == Some(num(t.target_group as int)),
{
    reveal_strlit("trigger_id");
    reveal_strlit("kind");
    reveal_strlit("source_chunk");
    reveal_strlit("target_group");
    reveal_strlit("activation_policy");
    reveal_strlit("payload_offset");
    assert("trigger_id"@.len() == 10);
    assert("kind"@.len() == 4);
    assert("source_chunk"@.len() == 12);
    assert("target_group"@.len() == 12);
    assert("activation_policy"@.len() == 17);
    assert("payload_offset"@.len() == 14);
    assert("source_chunk"@[0] == 's' && "target_group"@[0] == 't');
    let f = field_pairs(trigger_fields(t));
    assert(f =~= seq![
        ("trigger_id"@, num(t.trigger_id as int)),
        ("kind"@, spec_format_trigger_kind(t.kind)),
        ("source_chunk"@, num(t.source_chunk as int)),
        ("target_group"@, num(t.target_group as int)),
        ("activation_policy"@, "once"@),
        ("payload_offset"@, "0"@),
    ]);
    assert forall|i: int| 0 < i < 6 implies #[trigger] f[i].0 != "trigger_id"@ by {
        if i == 1 {
            assert(f[1].0 == "kind"@);
        } else if i == 2 {
            assert(f[2].0 == "source_chunk"@);
        } else if i == 3 {
            assert(f[3].0 == "target_group"@);
        } else if i == 4 {
            assert(f[4].0 == "activation_policy"@);
        } else {
            assert(f[5].0 == "payload_offset"@);
        }
    }
    lemma_lookup_at(f, 0, "trigger_id"@);
    assert forall|i: int| 1 < i < 6 implies #[trigger] f[i].0 != "kind"@ by {
        if i == 2 {
            assert(f[2].0 == "source_chunk"@);
        } else if i == 3 {
            assert(f[3].0 == "target_group"@);
        } else if i == 4 {
            assert(f[4].0 == "activation_policy"@);
        } else {
            assert(f[5].0 == "payload_offset"@);
        }
    }
    lemma_lookup_at(f, 1, "kind"@);
    assert forall|i: int| 2 < i < 6 implies #[trigger] f[i].0 != "source_chunk"@ by {
        if i == 3 {
            assert(f[3].0 == "target_group"@);
        } else if i == 4 {
            assert(f[4].0 == "activation_policy"@);
        } else {
            assert(f[5].0 == "payload_offset"@);
        }
    }
    lemma_lookup_at(f, 2, "source_chunk"@);
    assert forall|i: int| 3 < i < 6 implies #[trigger] f[i].0 != "target_group"@ by {
        if i == 4 {
            assert(f[4].0 == "activation_policy"@);
        } else {
            assert(f[5].0 == "payload_offset"@);
        }
    }
    lemma_lookup_at(f, 3, "target_group"@);
}

proof fn lemma_portal_lookups(p: WorldPortalAnchor)
    ensures
        lookup(field_pairs(portal_fields(p)), "id"@) == Some(num(p.portal_id as int)),
        lookup(field_pairs(portal_fields(p)), "source_chunk"@) == Some(num(p.source_chunk as int)),
        lookup(field_pairs(portal_fields(p)), "receiver"@) == Some(num(p.receiver_id as int)),
        lookup(field_pairs(portal_fields(p)), "render"@) == Some(bool_text(p.render)),
        lookup(field_pairs(portal_fields(p)), "lighting"@) == Some(bool_text(p.lighting)),
        lookup(field_pairs(portal_fields(p)), "physics"@) == Some(bool_text(p.physics)),
{
    reveal_strlit("id");
    reveal_strlit("kind");
    reveal_strlit("source_chunk");
    reveal_strlit("receiver");
    reveal_strlit("render");
    reveal_strlit("lighting");
    reveal_strlit("physics");
    assert("id"@.len() == 2);
    assert("kind"@.len() == 4);
    assert("source_chunk"@.len() == 12);
    assert("receiver"@.len() == 8);
    assert("render"@.len() == 6);
    assert("lighting"@.len() == 8);
    assert("physics"@.len() == 7);
    assert("receiver"@[0] == 'r' && "lighting"@[0] == 'l');
    let f = field_pairs(portal_fields(p));
    assert(f =~= seq![
        ("id"@, num(p.portal_id as int)),
        ("kind"@, "world"@),
        ("source_chunk"@, num(p.source_chunk as int)),
        ("receiver"@, num(p.receiver_id as int)),
        ("render"@, bool_text(p.render)),
        ("lighting"@, bool_text(p.lighting)),
        ("physics"@, bool_text(p.physics)),
    ]);
    assert forall|i: int| 0 < i < 7 implies #[trigger] f[i].0 != "id"@ by {
        if i == 1 {
            assert(f[1].0 == "kind"@);
        } else if i == 2 {
            assert(f[2].0 == "source_chunk"@);
        } else if i == 3 {
            assert(f[3].0 == "receiver"@);
        } else if i == 4 {
            assert(f[4].0 == "render"@);
        } else if i == 5 {
            assert(f[5].0 == "lighting"@);
        } else {
            assert(f[6].0 == "physics"@);
        }
    }
    lemma_lookup_at(f, 0, "id"@);
    assert forall|i: int| 2 < i < 7 implies #[trigger] f[i].0 != "source_chunk"@ by {
        if i == 3 {
            assert(f[3].0 == "receiver"@);
        } else if i == 4 {
            assert(f[4].0 == "render"@);
        } else if i == 5 {
            assert(f[5].0 == "lighting"@);
        } else {
            assert(f[6].0 == "physics"@);
        }
    }
    lemma_lookup_at(f, 2, "source_chunk"@);
    assert forall|i: int| 3 < i < 7 implies #[trigger] f[i].0 != "receiver"@ by {
        if i == 4 {
            assert(f[4].0 == "render"@);
        } else if i == 5 {
            assert(f[5].0 == "lighting"@);
        } else {
            assert(f[6].0 == "physics"@);
        }
    }
    lemma_lookup_at(f, 3, "receiver"@);
    assert forall|i: int| 4 < i < 7 implies #[trigger] f[i].0 != "render"@ by {
        if i == 5 {
            assert(f[5].0 == "lighting"@);
        } else {
            assert(f[6].0 == "physics"@);
        }
    }
    lemma_lookup_at(f, 4, "render"@);
    assert forall|i: int| 5 < i < 7 implies #[trigger] f[i].0 != "lighting"@ by {
        assert(f[6].0 == "physics"@);
    }
    lemma_lookup_at(f, 5, "lighting"@);
    lemma_lookup_at(f, 6, "physics"@);
}

proof fn lemma_header_fields_ok(m: WorldIndexModel)
    ensures
        fields_ok(header_fields(m)),
        header_fields(m).len() > 0,
{
    reveal_strlit("version");
    reveal_strlit("endian");
    reveal_strlit("coord_scale");
    reveal_strlit("chunk_size_units");
    reveal_strlit("encoding");
    reveal_strlit("little");
    reveal_strlit("typed_bitpacked_soa");
    lemma_num_shape(m.schema as int);
    lemma_num_shape(m.coord_scale as int);
    lemma_num_shape(m.chunk_size_units as int);
    let fs = header_fields(m);
    assert forall|j: int| 0 <= j < 5 implies key_ok(#[trigger] fs[j].0) && (fs[j].2 || bare_ok(fs[j].1)) by {
        if j == 0 {
            assert(fs[0] == ("version"@, num(m.schema as int), false));
            assert(key_ok("version"@));
            assert(bare_ok(num(m.schema as int)));
        } else if j == 1 {
            assert(fs[1] == ("endian"@, "little"@, false));
            assert(key_ok("endian"@));
            assert(bare_ok("little"@));
        } else if j == 2 {
            assert(fs[2] == ("coord_scale"@, num(m.coord_scale as int), false));
            assert(key_ok("coord_scale"@));
            assert(bare_ok(num(m.coord_scale as int)));
        } else if j == 3 {
            assert(fs[3] == ("chunk_size_units"@, num(m.chunk_size_units as int), false));
            assert(key_ok("chunk_size_units"@));
            assert(bare_ok(num(m.chunk_size_units as int)));
        } else {
            assert(fs[4] == ("encoding"@, "typed_bitpacked_soa"@, false));
            assert(key_ok("encoding"@));
            assert(bare_ok("typed_bitpacked_soa"@));
        }
    }
}

proof fn lemma_level_fields_ok(m: WorldIndexModel, finite: Seq<Seq<char>>)
    requires
        m.spawn.len() == 2 && bare_ok(m.spawn[0]) && bare_ok(m.spawn[1]),
    ensures
        fields_ok(level_fields(m)),
        level_fields(m).len() > 0,
{
    reveal_strlit("name");
    reveal_strlit("spawn_x");
    reveal_strlit("spawn_y");
    let fs = level_fields(m);
    assert forall|j: int| 0 <= j < 3 implies key_ok(#[trigger] fs[j].0) && (fs[j].2 || bare_ok(fs[j].1)) by {
        if j == 0 {
            assert(fs[0] == ("name"@, m.level_name, true));
            assert(key_ok("name"@));
        } else if j == 1 {
            assert(fs[1] == ("spawn_x"@, m.spawn[0], false));
            assert(key_ok("spawn_x"@));
            assert(bare_ok(m.spawn[0]));
        } else {
            assert(fs[2] == ("spawn_y"@, m.spawn[1], false));
            assert(key_ok("spawn_y"@));
            assert(bare_ok(m.spawn[1]));
        }
    }
}

proof fn lemma_chunk_fields_ok(c: ChunkEntryModel, finite: Seq<Seq<char>>)
    requires
        chunk_writable(c, finite),
    ensures
        fields_ok(chunk_fields(c)),
        chunk_fields(c).len() > 0,
{
    reveal_strlit("id");
    reveal_strlit("origin_q");
    reveal_strlit("bbox_units");
    reveal_strlit("path");
    reveal_strlit("bytes");
    reveal_strlit("sha256");
    reveal_strlit("static_rects");
    reveal_strlit("hazard_rects");
    reveal_strlit("doors");
    reveal_strlit("checkpoints");
    reveal_strlit("triggers");
    reveal_strlit("enemy_spawns");
    reveal_strlit("text_points");
    reveal_strlit("world_portals");
    lemma_num_shape(c.id as int);
    lemma_pair_text(c.origin_q.0 as int, c.origin_q.1 as int);
    lemma_num_shape(c.bytes as int);
    lemma_num_shape(c.counts.static_rects as int);
    lemma_num_shape(c.counts.hazard_rects as int);
    lemma_num_shape(c.counts.doors as int);
    lemma_num_shape(c.counts.checkpoints as int);
    lemma_num_shape(c.counts.triggers as int);
    lemma_num_shape(c.counts.enemy_spawns as int);
    lemma_num_shape(c.counts.text_points as int);
    lemma_num_shape(c.counts.world_portals as int);
    let fs = chunk_fields(c);
    assert forall|j: int| 0 <= j < 14 implies key_ok(#[trigger] fs[j].0) && (fs[j].2 || bare_ok(fs[j].1)) by {
        if j == 0 {
            assert(fs[0] == ("id"@, num(c.id as int), false));
            assert(key_ok("id"@));
            assert(bare_ok(num(c.id as int)));
        } else if j == 1 {
            assert(fs[1] == ("origin_q"@, num(c.origin_q.0 as int) + seq![','] + num(c.origin_q.1 as int), false));
            assert(key_ok("origin_q"@));
            assert(bare_ok(num(c.origin_q.0 as int) + seq![','] + num(c.origin_q.1 as int)));
        } else if j == 2 {
            assert(fs[2] == ("bbox_units"@, join_commas(c.bbox_units), false));
            assert(key_ok("bbox_units"@));
            assert(bare_ok(join_commas(c.bbox_units)));
        } else if j == 3 {
            assert(fs[3] == ("path"@, c.path, true));
            assert(key_ok("path"@));
        } else if j == 4 {
            assert(fs[4] == ("bytes"@, num(c.bytes as int), false));
            assert(key_ok("bytes"@));
            assert(bare_ok(num(c.bytes as int)));
        } else if j == 5 {
            assert(fs[5] == ("sha256"@, c.sha256, false));
            assert(key_ok("sha256"@));
            assert(bare_ok(c.sha256));
        } else if j == 6 {
            assert(fs[6] == ("static_rects"@, num(c.counts.static_rects as int), false));
            assert(key_ok("static_rects"@));
            assert(bare_ok(num(c.counts.static_rects as int)));
        } else if j == 7 {
            assert(fs[7] == ("hazard_rects"@, num(c.counts.hazard_rects as int), false));
            assert(key_ok("hazard_rects"@));
            assert(bare_ok(num(c.counts.hazard_rects as int)));
        } else if j == 8 {
            assert(fs[8] == ("doors"@, num(c.counts.doors as int), false));
            assert(key_ok("doors"@));
            assert(bare_ok(num(c.counts.doors as int)));
        } else if j == 9 {
            assert(fs[9] == ("checkpoints"@, num(c.counts.checkpoints as int), false));
            assert(key_ok("checkpoints"@));
            assert(bare_ok(num(c.counts.checkpoints as int)));
        } else if j == 10 {
            assert(fs[10] == ("triggers"@, num(c.counts.triggers as int), false));
            assert(key_ok("triggers"@));
            assert(bare_ok(num(c.counts.triggers as int)));
        } else if j == 11 {
            assert(fs[11] == ("enemy_spawns"@, num(c.counts.enemy_spawns as int), false));
            assert(key_ok("enemy_spawns"@));
            assert(bare_ok(num(c.counts.enemy_spawns as int)));
        } else if j == 12 {
            assert(fs[12] == ("text_points"@, num(c.counts.text_points as int), false));
            assert(key_ok("text_points"@));
            assert(bare_ok(num(c.counts.text_points as int)));
        } else {
            assert(fs[13] == ("world_portals"@, num(c.counts.world_portals as int), false));
            assert(key_ok("world_portals"@));
            assert(bare_ok(num(c.counts.world_portals as int)));
        }
    }
}

proof fn lemma_checkpoint_fields_ok(c: CheckpointAnchorModel, finite: Seq<Seq<char>>)
    requires
        checkpoint_writable(c, finite),
    ensures
        fields_ok(checkpoint_fields(c)),
        checkpoint_fields(c).len() > 0,
{
    reveal_strlit("index");
    reveal_strlit("anchor");
    reveal_strlit("restart_chunks");
    lemma_num_shape(c.index as int);
    lemma_num_shape(c.chunk_id as int);
    let fs = checkpoint_fields(c);
    assert forall|j: int| 0 <= j < 3 implies key_ok(#[trigger] fs[j].0) && (fs[j].2 || bare_ok(fs[j].1)) by {
        if j == 0 {
            assert(fs[0] == ("index"@, num(c.index as int), false));
            assert(key_ok("index"@));
            assert(bare_ok(num(c.index as int)));
        } else if j == 1 {
            assert(fs[1] == ("anchor"@, join_commas(c.anchor), false));
            assert(key_ok("anchor"@));
            assert(bare_ok(join_commas(c.anchor)));
        } else {
            assert(fs[2] == ("restart_chunks"@, num(c.chunk_id as int), false));
            assert(key_ok("restart_chunks"@));
            assert(bare_ok(num(c.chunk_id as int)));
        }
    }
}

proof fn lemma_trigger_fields_ok(t: TriggerAnchor)
    ensures
        fields_ok(trigger_fields(t)),
        trigger_fields(t).len() > 0,
{
    reveal_strlit("trigger_id");
    reveal_strlit("kind");
    reveal_strlit("source_chunk");
    reveal_strlit("target_group");
    reveal_strlit("activation_policy");
    reveal_strlit("payload_offset");
    reveal_strlit("once");
    reveal_strlit("0");
    lemma_num_shape(t.trigger_id as int);
    lemma_trigger_kind_round_trip(t.kind);
    lemma_num_shape(t.source_chunk as int);
    lemma_num_shape(t.target_group as int);
    let fs = trigger_fields(t);
    assert forall|j: int| 0 <= j < 6 implies key_ok(#[trigger] fs[j].0) && (fs[j].2 || bare_ok(fs[j].1)) by {
        if j == 0 {
            assert(fs[0] == ("trigger_id"@, num(t.trigger_id as int), false));
            assert(key_ok("trigger_id"@));
            assert(bare_ok(num(t.trigger_id as int)));
        } else if j == 1 {
            assert(fs[1] == ("kind"@, spec_format_trigger_kind(t.kind), false));
            assert(key_ok("kind"@));
            assert(bare_ok(spec_format_trigger_kind(t.kind)));
        } else if j == 2 {
            assert(fs[2] == ("source_chunk"@, num(t.source_chunk as int), false));
            assert(key_ok("source_chunk"@));
            assert(bare_ok(num(t.source_chunk as int)));
        } else if j == 3 {
            assert(fs[3] == ("target_group"@, num(t.target_group as int), false));
            assert(key_ok("target_group"@));
            assert(bare_ok(num(t.target_group as int)));
        } else if j == 4 {
            assert(fs[4] == ("activation_policy"@, "once"@, false));
            assert(key_ok("activation_policy"@));
            assert(bare_ok("once"@));
        } else {
            assert(fs[5] == ("payload_offset"@, "0"@, false));
            assert(key_ok("payload_offset"@));
            assert(bare_ok("0"@));
        }
    }
}

proof fn lemma_portal_fields_ok(p: WorldPortalAnchor)
    ensures
        fields_ok(portal_fields(p)),
        portal_fields(p).len() > 0,
{
    reveal_strlit("id");
    reveal_strlit("kind");
    reveal_strlit("source_chunk");
    reveal_strlit("receiver");
    reveal_strlit("render");
    reveal_strlit("lighting");
    reveal_strlit("physics");
    reveal_strlit("world");
    lemma_num_shape(p.portal_id as int);
    lemma_num_shape(p.source_chunk as int);
    lemma_num_shape(p.receiver_id as int);
    lemma_bool_text_round_trip(p.render);
    lemma_bool_text_round_trip(p.lighting);
    lemma_bool_text_round_trip(p.physics);
    let fs = portal_fields(p);
    assert forall|j: int| 0 <= j < 7 implies key_ok(#[trigger] fs[j].0) && (fs[j].2 || bare_ok(fs[j].1)) by {
        if j == 0 {
            assert(fs[0] == ("id"@, num(p.portal_id as int), false));
            assert(key_ok("id"@));
            assert(bare_ok(num(p.portal_id as int)));
        } else if j == 1 {
            assert(fs[1] == ("kind"@, "world"@, false));
            assert(key_ok("kind"@));
            assert(bare_ok("world"@));
        } else if j == 2 {
            assert(fs[2] == ("source_chunk"@, num(p.source_chunk as int), false));
            assert(key_ok("source_chunk"@));
            assert(bare_ok(num(p.source_chunk as int)));
        } else if j == 3 {
            assert(fs[3] == ("receiver"@, num(p.receiver_id as int), false));
            assert(key_ok("receiver"@));
            assert(bare_ok(num(p.receiver_id as int)));
        } else if j == 4 {
            assert(fs[4] == ("render"@, bool_text(p.render), false));
            assert(key_ok("render"@));
            assert(bare_ok(bool_text(p.render)));
        } else if j == 5 {
            assert(fs[5] == ("lighting"@, bool_text(p.lighting), false));
            assert(key_ok("lighting"@));
            assert(bare_ok(bool_text(p.lighting)));
        } else {
            assert(fs[6] == ("physics"@, bool_text(p.physics), false));
            assert(key_ok("physics"@));
            assert(bare_ok(bool_text(p.physics)));
        }
    }
}

// ---------------------------------------------------------------------------
// Reading back one line of each kind.

proof fn lemma_chunk_reads_back(c: ChunkEntryModel, finite: Seq<Seq<char>>)
    requires
        chunk_writable(c, finite),
    ensures
        spec_chunk_entry(field_pairs(chunk_fields(c)), finite) == Ok::<ChunkEntryModel, Seq<char>>(c),
{
    lemma_chunk_lookups(c);
    lemma_parse_unsigned_num(c.id as int, 4294967295);
    lemma_i32_pair_reads_back(c.origin_q.0, c.origin_q.1);
    lemma_float_list_reads_back(c.bbox_units, 4, finite);
    lemma_parse_unsigned_num(c.bytes as int, 18446744073709551615);
    lemma_parse_unsigned_num(c.counts.static_rects as int, 4294967295);
    lemma_parse_unsigned_num(c.counts.hazard_rects as int, 4294967295);
    lemma_parse_unsigned_num(c.counts.doors as int, 4294967295);
    lemma_parse_unsigned_num(c.counts.checkpoints as int, 4294967295);
    lemma_parse_unsigned_num(c.counts.triggers as int, 4294967295);
    lemma_parse_unsigned_num(c.counts.enemy_spawns as int, 4294967295);
    lemma_parse_unsigned_num(c.counts.text_points as int, 4294967295);
    lemma_parse_unsigned_num(c.counts.world_portals as int, 4294967295);
    let f = field_pairs(chunk_fields(c));
    assert(count_field(f, "static_rects"@) == c.counts.static_rects);
    assert(count_field(f, "world_portals"@) == c.counts.world_portals);
    let r = spec_chunk_entry(f, finite);
    assert(r is Ok);
    assert(r->Ok_0 =~= c);
}

proof fn lemma_checkpoint_reads_back(c: CheckpointAnchorModel, finite: Seq<Seq<char>>)
    requires
        checkpoint_writable(c, finite),
    ensures
        spec_checkpoint(field_pairs(checkpoint_fields(c)), finite) == Ok::<
            Option<CheckpointAnchorModel>,
            Seq<char>,
        >(Some(c)),
{
    lemma_checkpoint_lookups(c);
    lemma_parse_unsigned_num(c.index as int, 4294967295);
    lemma_parse_unsigned_num(c.chunk_id as int, 4294967295);
    lemma_float_list_reads_back(c.anchor, 2, finite);
    lemma_num_shape(c.chunk_id as int);
    lemma_split_join(seq![num(c.chunk_id as int)]);
    assert(join_commas(seq![num(c.chunk_id as int)]) == num(c.chunk_id as int));
    let r = spec_checkpoint(field_pairs(checkpoint_fields(c)), finite);
    assert(r is Ok);
    assert(r->Ok_0 is Some);
    assert(r->Ok_0->Some_0 =~= c);
}

proof fn lemma_trigger_reads_back(t: TriggerAnchor)
    ensures
        spec_trigger(field_pairs(trigger_fields(t))) == Ok::<TriggerAnchor, Seq<char>>(t),
{
    lemma_trigger_lookups(t);
    lemma_parse_unsigned_num(t.trigger_id as int, 65535);
    lemma_parse_unsigned_num(t.source_chunk as int, 4294967295);
    lemma_parse_unsigned_num(t.target_group as int, 65535);
    lemma_trigger_kind_round_trip(t.kind);
}

proof fn lemma_portal_reads_back(p: WorldPortalAnchor)
    ensures
        spec_portal(field_pairs(portal_fields(p))) == Some(p),
{
    lemma_portal_lookups(p);
    lemma_parse_unsigned_num(p.portal_id as int, 65535);
    lemma_parse_unsigned_num(p.source_chunk as int, 4294967295);
    lemma_parse_unsigned_num(p.receiver_id as int, 65535);
    lemma_bool_text_round_trip(p.render);
    lemma_bool_text_round_trip(p.lighting);
    lemma_bool_text_round_trip(p.physics);
}

proof fn lemma_commands()
    ensures
        command_ok("level"@),
        command_ok("chunk"@),
        command_ok("checkpoint"@),
        command_ok("trigger"@),
        command_ok("portal"@),
        command_ok("portals_world_index"@),
        "chunk"@ != "level"@,
        "checkpoint"@ != "level"@,
        "checkpoint"@ != "chunk"@,
        "trigger"@ != "level"@,
        "trigger"@ != "chunk"@,
        "trigger"@ != "checkpoint"@,
        "portal"@ != "level"@,
        "portal"@ != "chunk"@,
        "portal"@ != "checkpoint"@,
        "portal"@ != "trigger"@,
{
    reveal_strlit("level");
    reveal_strlit("chunk");
    reveal_strlit("checkpoint");
    reveal_strlit("trigger");
    reveal_strlit("portal");
    reveal_strlit("portals_world_index");
    assert("level"@.len() == 5);
    assert("chunk"@.len() == 5);
    assert("checkpoint"@.len() == 10);
    assert("trigger"@.len() == 7);
    assert("portal"@.len() == 6);
    assert("level"@[0] == 'l' && "chunk"@[0] == 'c');
}

proof fn lemma_level_step(acc: WorldIndexModel, m: WorldIndexModel, finite: Seq<Seq<char>>)
    requires
        index_writable(m, finite),
    ensures
        index_step(acc, line_text("level"@, level_fields(m)), finite) == Ok::<
            WorldIndexModel,
            Seq<char>,
        >(WorldIndexModel { level_name: m.level_name, spawn: m.spawn, ..acc }),
{
    lemma_commands();
    lemma_level_fields_ok(m, finite);
    lemma_line_reads_back("level"@, level_fields(m));
    lemma_level_lookups(m);
    let f = field_pairs(level_fields(m));
    assert(spec_level_line(acc, f, finite).spawn =~= m.spawn);
}

proof fn lemma_chunk_step(acc: WorldIndexModel, c: ChunkEntryModel, finite: Seq<Seq<char>>)
    requires
        chunk_writable(c, finite),
    ensures
        index_step(acc, line_text("chunk"@, chunk_fields(c)), finite) == Ok::<
            WorldIndexModel,
            Seq<char>,
        >(WorldIndexModel { chunks: acc.chunks.push(c), ..acc }),
{
    lemma_commands();
    lemma_chunk_fields_ok(c, finite);
    lemma_line_reads_back("chunk"@, chunk_fields(c));
    lemma_chunk_reads_back(c, finite);
}

proof fn lemma_checkpoint_step(acc: WorldIndexModel, c: CheckpointAnchorModel, finite: Seq<Seq<char>>)
    requires
        checkpoint_writable(c, finite),
    ensures
        index_step(acc, line_text("checkpoint"@, checkpoint_fields(c)), finite) == Ok::<
            WorldIndexModel,
            Seq<char>,
        >(WorldIndexModel { checkpoints: acc.checkpoints.push(c), ..acc }),
{
    lemma_commands();
    lemma_checkpoint_fields_ok(c, finite);
    lemma_line_reads_back("checkpoint"@, checkpoint_fields(c));
    lemma_checkpoint_reads_back(c, finite);
}

proof fn lemma_trigger_step(acc: WorldIndexModel, t: TriggerAnchor, finite: Seq<Seq<char>>)
    ensures
        index_step(acc, line_text("trigger"@, trigger_fields(t)), finite) == Ok::<
            WorldIndexModel,
            Seq<char>,
        >(WorldIndexModel { triggers: acc.triggers.push(t), ..acc }),
{
    lemma_commands();
    lemma_trigger_fields_ok(t);
    lemma_line_reads_back("trigger"@, trigger_fields(t));
    lemma_trigger_reads_back(t);
}

proof fn lemma_portal_step(acc: WorldIndexModel, p: WorldPortalAnchor, finite: Seq<Seq<char>>)
    ensures
        index_step(acc, line_text("portal"@, portal_fields(p)), finite) == Ok::<
            WorldIndexModel,
            Seq<char>,
        >(WorldIndexModel { portals: acc.portals.push(p), ..acc }),
{
    lemma_commands();
    lemma_portal_fields_ok(p);
    lemma_line_reads_back("portal"@, portal_fields(p));
    lemma_portal_reads_back(p);
}

// ---------------------------------------------------------------------------
// Reading back the lines of each kind.

/// Reading lines `a` then `b` is reading `a`, then reading `b` from where `a` left off.
pub proof fn lemma_index_body_append(
    acc: WorldIndexModel,
    a: Seq<Seq<char>>,
    b: Seq<Seq<char>>,
    finite: Seq<Seq<char>>,
)
    ensures
        index_body(acc, a + b, finite) == match index_body(acc, a, finite) {
            Ok(x) => index_body(x, b, finite),
            Err(e) => Err(e),
        },
    decreases b.len(),
{
    if b.len() == 0 {
        assert(a + b =~= a);
    } else {
        assert((a + b).drop_last() =~= a + b.drop_last());
        assert((a + b).last() == b.last());
        lemma_index_body_append(acc, a, b.drop_last(), finite);
    }
}

pub open spec fn chunk_texts(cs: Seq<ChunkEntryModel>) -> Seq<Seq<char>> {
    Seq::new(cs.len(), |i: int| line_text("chunk"@, chunk_fields(cs[i])))
}

proof fn lemma_chunk_lines_joined(cs: Seq<ChunkEntryModel>)
    ensures
        chunk_lines(cs) == joined(chunk_texts(cs)),
    decreases cs.len(),
{
    if cs.len() == 0 {
        assert(chunk_texts(cs) =~= Seq::<Seq<char>>::empty());
        assert(joined(Seq::<Seq<char>>::empty()) =~= Seq::<char>::empty());
    } else {
        lemma_chunk_lines_joined(cs.drop_last());
        let t = line_text("chunk"@, chunk_fields(cs.last()));
        assert(chunk_texts(cs) =~= chunk_texts(cs.drop_last()) + seq![t]);
        lemma_joined_append(chunk_texts(cs.drop_last()), seq![t]);
        lemma_joined_one(t);
        assert(text_line("chunk"@, chunk_fields(cs.last())) =~= t + seq!['\n']);
    }
}

proof fn lemma_chunk_body(acc: WorldIndexModel, cs: Seq<ChunkEntryModel>, finite: Seq<Seq<char>>)
    requires
        forall|i: int| 0 <= i < cs.len() ==> chunk_writable(cs[i], finite),
    ensures
        index_body(acc, chunk_texts(cs), finite) == Ok::<WorldIndexModel, Seq<char>>(
            WorldIndexModel { chunks: acc.chunks + cs, ..acc },
        ),
    decreases cs.len(),
{
    if cs.len() == 0 {
        assert(chunk_texts(cs) =~= Seq::<Seq<char>>::empty());
        assert(acc.chunks + cs =~= acc.chunks);
    } else {
        assert forall|i: int| 0 <= i < cs.drop_last().len() implies chunk_writable(#[trigger] cs.drop_last()[i], finite) by {
            assert(cs.drop_last()[i] == cs[i]);
        }
        assert(chunk_writable(cs[cs.len() - 1], finite));
        lemma_chunk_body(acc, cs.drop_last(), finite);
        assert(chunk_texts(cs).drop_last() =~= chunk_texts(cs.drop_last()));
        let mid = WorldIndexModel { chunks: acc.chunks + cs.drop_last(), ..acc };
        lemma_chunk_step(mid, cs.last(), finite);
        assert(mid.chunks.push(cs.last()) =~= acc.chunks + cs);
    }
}

pub open spec fn checkpoint_texts(cs: Seq<CheckpointAnchorModel>) -> Seq<Seq<char>> {
    Seq::new(cs.len(), |i: int| line_text("checkpoint"@, checkpoint_fields(cs[i])))
}

proof fn lemma_checkpoint_lines_joined(cs: Seq<CheckpointAnchorModel>)
    ensures
        checkpoint_lines(cs) == joined(checkpoint_texts(cs)),
    decreases cs.len(),
{
    if cs.len() == 0 {
        assert(checkpoint_texts(cs) =~= Seq::<Seq<char>>::empty());
        assert(joined(Seq::<Seq<char>>::empty()) =~= Seq::<char>::empty());
    } else {
        lemma_checkpoint_lines_joined(cs.drop_last());
        let t = line_text("checkpoint"@, checkpoint_fields(cs.last()));
        assert(checkpoint_texts(cs) =~= checkpoint_texts(cs.drop_last()) + seq![t]);
        lemma_joined_append(checkpoint_texts(cs.drop_last()), seq![t]);
        lemma_joined_one(t);
        assert(text_line("checkpoint"@, checkpoint_fields(cs.last())) =~= t + seq!['\n']);
    }
}

proof fn lemma_checkpoint_body(acc: WorldIndexModel, cs: Seq<CheckpointAnchorModel>, finite: Seq<Seq<char>>)
    requires
        forall|i: int| 0 <= i < cs.len() ==> checkpoint_writable(cs[i], finite),
    ensures
        index_body(acc, checkpoint_texts(cs), finite) == Ok::<WorldIndexModel, Seq<char>>(
            WorldIndexModel { checkpoints: acc.checkpoints + cs, ..acc },
        ),
    decreases cs.len(),
{
    if cs.len() == 0 {
        assert(checkpoint_texts(cs) =~= Seq::<Seq<char>>::empty());
        assert(acc.checkpoints + cs =~= acc.checkpoints);
    } else {
        assert forall|i: int| 0 <= i < cs.drop_last().len() implies checkpoint_writable(#[trigger] cs.drop_last()[i], finite) by {
            assert(cs.drop_last()[i] == cs[i]);
        }
        assert(checkpoint_writable(cs[cs.len() - 1], finite));
        lemma_checkpoint_body(acc, cs.drop_last(), finite);
        assert(checkpoint_texts(cs).drop_last() =~= checkpoint_texts(cs.drop_last()));
        let mid = WorldIndexModel { checkpoints: acc.checkpoints + cs.drop_last(), ..acc };
        lemma_checkpoint_step(mid, cs.last(), finite);
        assert(mid.checkpoints.push(cs.last()) =~= acc.checkpoints + cs);
    }
}

pub open spec fn trigger_texts(cs: Seq<TriggerAnchor>) -> Seq<Seq<char>> {
    Seq::new(cs.len(), |i: int| line_text("trigger"@, trigger_fields(cs[i])))
}

proof fn lemma_trigger_lines_joined(cs: Seq<TriggerAnchor>)
    ensures
        trigger_lines(cs) == joined(trigger_texts(cs)),
    decreases cs.len(),
{
    if cs.len() == 0 {
        assert(trigger_texts(cs) =~= Seq::<Seq<char>>::empty());
        assert(joined(Seq::<Seq<char>>::empty()) =~= Seq::<char>::empty());
    } else {
        lemma_trigger_lines_joined(cs.drop_last());
        let t = line_text("trigger"@, trigger_fields(cs.last()));
        assert(trigger_texts(cs) =~= trigger_texts(cs.drop_last()) + seq![t]);
        lemma_joined_append(trigger_texts(cs.drop_last()), seq![t]);
        lemma_joined_one(t);
        assert(text_line("trigger"@, trigger_fields(cs.last())) =~= t + seq!['\n']);
    }
}

proof fn lemma_trigger_body(acc: WorldIndexModel, cs: Seq<TriggerAnchor>, finite: Seq<Seq<char>>)
    requires
    ensures
        index_body(acc, trigger_texts(cs), finite) == Ok::<WorldIndexModel, Seq<char>>(
            WorldIndexModel { triggers: acc.triggers + cs, ..acc },
        ),
    decreases cs.len(),
{
    if cs.len() == 0 {
        assert(trigger_texts(cs) =~= Seq::<Seq<char>>::empty());
        assert(acc.triggers + cs =~= acc.triggers);
    } else {
        lemma_trigger_body(acc, cs.drop_last(), finite);
        assert(trigger_texts(cs).drop_last() =~= trigger_texts(cs.drop_last()));
        let mid = WorldIndexModel { triggers: acc.triggers + cs.drop_last(), ..acc };
        lemma_trigger_step(mid, cs.last(), finite);
        assert(mid.triggers.push(cs.last()) =~= acc.triggers + cs);
    }
}

pub open spec fn portal_texts(cs: Seq<WorldPortalAnchor>) -> Seq<Seq<char>> {
    Seq::new(cs.len(), |i: int| line_text("portal"@, portal_fields(cs[i])))
}

proof fn lemma_portal_lines_joined(cs: Seq<WorldPortalAnchor>)
    ensures
        portal_lines(cs) == joined(portal_texts(cs)),
    decreases cs.len(),
{
    if cs.len() == 0 {
        assert(portal_texts(cs) =~= Seq::<Seq<char>>::empty());
        assert(joined(Seq::<Seq<char>>::empty()) =~= Seq::<char>::empty());
    } else {
        lemma_portal_lines_joined(cs.drop_last());
        let t = line_text("portal"@, portal_fields(cs.last()));
        assert(portal_texts(cs) =~= portal_texts(cs.drop_last()) + seq![t]);
        lemma_joined_append(portal_texts(cs.drop_last()), seq![t]);
        lemma_joined_one(t);
        assert(text_line("portal"@, portal_fields(cs.last())) =~= t + seq!['\n']);
    }
}

proof fn lemma_portal_body(acc: WorldIndexModel, cs: Seq<WorldPortalAnchor>, finite: Seq<Seq<char>>)
    requires
    ensures
        index_body(acc, portal_texts(cs), finite) == Ok::<WorldIndexModel, Seq<char>>(
            WorldIndexModel { portals: acc.portals + cs, ..acc },
        ),
    decreases cs.len(),
{
    if cs.len() == 0 {
        assert(portal_texts(cs) =~= Seq::<Seq<char>>::empty());
        assert(acc.portals + cs =~= acc.portals);
    } else {
        lemma_portal_body(acc, cs.drop_last(), finite);
        assert(portal_texts(cs).drop_last() =~= portal_texts(cs.drop_last()));
        let mid = WorldIndexModel { portals: acc.portals + cs.drop_last(), ..acc };
        lemma_portal_step(mid, cs.last(), finite);
        assert(mid.portals.push(cs.last()) =~= acc.portals + cs);
    }
}

// ---------------------------------------------------------------------------
// The law.

/// The lines after the header, as written.
pub open spec fn body_lines(m: WorldIndexModel) -> Seq<Seq<char>> {
    seq![line_text("level"@, level_fields(m))] + chunk_texts(m.chunks) + checkpoint_texts(
        m.checkpoints,
    ) + trigger_texts(m.triggers) + portal_texts(m.portals)
}

/// All lines as written, without their newlines.
pub open spec fn index_lines(m: WorldIndexModel) -> Seq<Seq<char>> {
    seq![line_text("portals_world_index"@, header_fields(m))] + body_lines(m)
}

proof fn lemma_format_is_joined(m: WorldIndexModel)
    ensures
        spec_format_world_index(m) == joined(index_lines(m)),
{
    let hl = line_text("portals_world_index"@, header_fields(m));
    let ll = line_text("level"@, level_fields(m));
    let ct = chunk_texts(m.chunks);
    let kt = checkpoint_texts(m.checkpoints);
    let tt = trigger_texts(m.triggers);
    let pt = portal_texts(m.portals);
    lemma_joined_one(hl);
    lemma_joined_one(ll);
    lemma_chunk_lines_joined(m.chunks);
    lemma_checkpoint_lines_joined(m.checkpoints);
    lemma_trigger_lines_joined(m.triggers);
    lemma_portal_lines_joined(m.portals);
    lemma_joined_append(seq![ll] + ct + kt + tt, pt);
    lemma_joined_append(seq![ll] + ct + kt, tt);
    lemma_joined_append(seq![ll] + ct, kt);
    lemma_joined_append(seq![ll], ct);
    lemma_joined_append(seq![hl], body_lines(m));
    assert(text_line("portals_world_index"@, header_fields(m)) =~= hl + seq!['\n']);
    assert(text_line("level"@, level_fields(m)) =~= ll + seq!['\n']);
    assert(spec_format_world_index(m) =~= joined(index_lines(m)));
}

proof fn lemma_index_lines_ok(m: WorldIndexModel, finite: Seq<Seq<char>>)
    requires
        index_writable(m, finite),
    ensures
        forall|i: int| 0 <= i < index_lines(m).len() ==> line_ok(#[trigger] index_lines(m)[i]),
{
    lemma_commands();
    let hl = line_text("portals_world_index"@, header_fields(m));
    let ll = line_text("level"@, level_fields(m));
    let ct = chunk_texts(m.chunks);
    let kt = checkpoint_texts(m.checkpoints);
    let tt = trigger_texts(m.triggers);
    let pt = portal_texts(m.portals);
    let lines = index_lines(m);
    lemma_header_fields_ok(m);
    lemma_level_fields_ok(m, finite);
    lemma_line_reads_back("portals_world_index"@, header_fields(m));
    lemma_line_reads_back("level"@, level_fields(m));
    assert forall|i: int| 0 <= i < ct.len() implies line_ok(#[trigger] ct[i]) by {
        assert(chunk_writable(m.chunks[i], finite));
        lemma_chunk_fields_ok(m.chunks[i], finite);
        lemma_line_reads_back("chunk"@, chunk_fields(m.chunks[i]));
    }
    assert forall|i: int| 0 <= i < kt.len() implies line_ok(#[trigger] kt[i]) by {
        assert(checkpoint_writable(m.checkpoints[i], finite));
        lemma_checkpoint_fields_ok(m.checkpoints[i], finite);
        lemma_line_reads_back("checkpoint"@, checkpoint_fields(m.checkpoints[i]));
    }
    assert forall|i: int| 0 <= i < tt.len() implies line_ok(#[trigger] tt[i]) by {
        lemma_trigger_fields_ok(m.triggers[i]);
        lemma_line_reads_back("trigger"@, trigger_fields(m.triggers[i]));
    }
    assert forall|i: int| 0 <= i < pt.len() implies line_ok(#[trigger] pt[i]) by {
        lemma_portal_fields_ok(m.portals[i]);
        lemma_line_reads_back("portal"@, portal_fields(m.portals[i]));
    }
    assert forall|i: int| 0 <= i < lines.len() implies line_ok(#[trigger] lines[i]) by {
        let n1 = 2 + ct.len();
        let n2 = n1 + kt.len();
        let n3 = n2 + tt.len();
        if i == 0 {
            assert(lines[i] == hl);
        } else if i == 1 {
            assert(lines[i] == ll);
        } else if i < n1 {
            assert(lines[i] == ct[i - 2]);
        } else if i < n2 {
            assert(lines[i] == kt[i - n1]);
        } else if i < n3 {
            assert(lines[i] == tt[i - n2]);
        } else {
            assert(lines[i] == pt[i - n3]);
        }
    }
}

proof fn lemma_body_reads_back(m: WorldIndexModel, finite: Seq<Seq<char>>)
    requires
        index_writable(m, finite),
    ensures
        index_body(initial_index(m.schema, m.coord_scale, m.chunk_size_units), body_lines(m), finite)
            == Ok::<WorldIndexModel, Seq<char>>(m),
{
    let init = initial_index(m.schema, m.coord_scale, m.chunk_size_units);
    let ll = line_text("level"@, level_fields(m));
    let ct = chunk_texts(m.chunks);
    let kt = checkpoint_texts(m.checkpoints);
    let tt = trigger_texts(m.triggers);
    let pt = portal_texts(m.portals);
    lemma_index_body_append(init, seq![ll] + ct + kt + tt, pt, finite);
    lemma_index_body_append(init, seq![ll] + ct + kt, tt, finite);
    lemma_index_body_append(init, seq![ll] + ct, kt, finite);
    lemma_index_body_append(init, seq![ll], ct, finite);
    assert(seq![ll].drop_last() =~= Seq::<Seq<char>>::empty());
    assert(seq![ll].last() == ll);
    assert(index_body(init, Seq::<Seq<char>>::empty(), finite) == Ok::<WorldIndexModel, Seq<char>>(
        init,
    ));
    lemma_level_step(init, m, finite);
    let a1 = WorldIndexModel { level_name: m.level_name, spawn: m.spawn, ..init };
    assert(index_body(init, seq![ll], finite) == Ok::<WorldIndexModel, Seq<char>>(a1));
    assert forall|i: int| 0 <= i < m.chunks.len() implies chunk_writable(
        #[trigger] m.chunks[i],
        finite,
    ) by {}
    lemma_chunk_body(a1, m.chunks, finite);
    let a2 = WorldIndexModel { chunks: a1.chunks + m.chunks, ..a1 };
    lemma_checkpoint_body(a2, m.checkpoints, finite);
    let a3 = WorldIndexModel { checkpoints: a2.checkpoints + m.checkpoints, ..a2 };
    lemma_trigger_body(a3, m.triggers, finite);
    let a4 = WorldIndexModel { triggers: a3.triggers + m.triggers, ..a3 };
    lemma_portal_body(a4, m.portals, finite);
    let a5 = WorldIndexModel { portals: a4.portals + m.portals, ..a4 };
    assert(a5 =~= m);
}

/// A `world.index` written by `format_world_index` reads back, through `parse_world_index`,
/// as the index it was written from, whenever the spawn texts and the parts of every bounding
/// box and anchor are listed numbers that can stand bare, the checksums can stand bare and
/// there is at least one chunk.
pub proof fn lemma_world_index_round_trip(m: WorldIndexModel, finite: Seq<Seq<char>>)
    requires
        index_writable(m, finite),
    ensures
        spec_parse_world_index(spec_format_world_index(m), finite) == Ok::<
            WorldIndexModel,
            Seq<char>,
        >(m),
{
    let lines = index_lines(m);
    let hl = line_text("portals_world_index"@, header_fields(m));
    lemma_format_is_joined(m);
    lemma_index_lines_ok(m, finite);
    lemma_content_joined(lines);
    assert(content_lines(spec_format_world_index(m)) == lines);
    reveal_strlit("portals_world_index");
    reveal_strlit("portals_world_index ");
    let p = header_prefix();
    assert(p =~= "portals_world_index"@ + seq![' ']);
    assert(lines[0] == hl);
    assert(hl.subrange(0, p.len() as int) =~= p);
    assert(hl.skip(p.len() as int) =~= keyed_line(header_fields(m)));
    lemma_header_fields_ok(m);
    lemma_keyed_line_round_trip(header_fields(m));
    lemma_header_lookups(m);
    lemma_parse_unsigned_num(m.schema as int, 255);
    lemma_parse_signed_num(m.coord_scale as int, 2147483648, 2147483647);
    lemma_parse_signed_num(m.chunk_size_units as int, 2147483648, 2147483647);
    let hf = field_pairs(header_fields(m));
    assert(field_unsigned(hf, "version"@, 255) == Some(m.schema as int));
    assert(field_i32(hf, "coord_scale"@) == Some(m.coord_scale as int));
    assert(field_i32(hf, "chunk_size_units"@) == Some(m.chunk_size_units as int));
    assert(lines.skip(1) =~= body_lines(m));
    lemma_body_reads_back(m, finite);
}

} // verus!
