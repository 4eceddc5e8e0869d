//! The keyed line syntax shared by the level text formats: `command key=value key="quoted"`.
use vstd::prelude::*;

use crate::strutil::{chars_of, push_char, push_chars, push_str, str_eq};

verus! {

// ---------------------------------------------------------------------------
// Characters and scanners.

/// The Unicode `White_Space` property, which `char::is_whitespace` tests.
pub open spec fn is_ws(c: char) -> bool {
    ||| ('\u{9}' <= c && c <= '\u{d}')
    ||| c == ' '
    ||| c == '\u{85}'
    ||| c == '\u{a0}'
    ||| c == '\u{1680}'
    ||| ('\u{2000}' <= c && c <= '\u{200a}')
    ||| c == '\u{2028}'
    ||| c == '\u{2029}'
    ||| c == '\u{202f}'
    ||| c == '\u{205f}'
    ||| c == '\u{3000}'
}

/// Whether `c` is white space.
pub fn is_whitespace(c: char) -> (b: bool)
    ensures
        b == is_ws(c),
{
    ('\u{9}' <= c && c <= '\u{d}') || c == ' ' || c == '\u{85}' || c == '\u{a0}' || c
        == '\u{1680}' || ('\u{2000}' <= c && c <= '\u{200a}') || c == '\u{2028}' || c
        == '\u{2029}' || c == '\u{202f}' || c == '\u{205f}' || c == '\u{3000}'
}

/// The first position at or after `i` that does not hold white space.
pub open spec fn skip_ws(s: Seq<char>, i: int) -> int
    decreases s.len() - i,
{
    if 0 <= i < s.len() && is_ws(s[i]) {
        skip_ws(s, i + 1)
    } else {
        i
    }
}

/// The first position at or after `i` holding white space or `=`.
pub open spec fn key_end(s: Seq<char>, i: int) -> int
    decreases s.len() - i,
{
    if 0 <= i < s.len() && !is_ws(s[i]) && s[i] != '=' {
        key_end(s, i + 1)
    } else {
        i
    }
}

/// The first position at or after `i` holding white space.
pub open spec fn token_end(s: Seq<char>, i: int) -> int
    decreases s.len() - i,
{
    if 0 <= i < s.len() && !is_ws(s[i]) {
        token_end(s, i + 1)
    } else {
        i
    }
}

/// The character an escape `\c` stands for.
pub open spec fn unescape(c: char) -> char {
    if c == 'n' {
        '\n'
    } else if c == 'r' {
        '\r'
    } else if c == 't' {
        '\t'
    } else {
        c
    }
}

/// The body of a quoted value that starts at `i` (just after the opening quote), with escapes
/// resolved, and the position after the closing quote (the end of `s` when it is missing).
pub open spec fn quoted_from(s: Seq<char>, i: int) -> (Seq<char>, int)
    decreases s.len() - i,
{
    if !(0 <= i < s.len()) {
        (seq![], s.len() as int)
    } else if s[i] == '"' {
        (seq![], i + 1)
    } else if s[i] == '\\' {
        if i + 1 >= s.len() {
            (seq![], s.len() as int)
        } else {
            let r = quoted_from(s, i + 2);
            (seq![unescape(s[i + 1])] + r.0, r.1)
        }
    } else {
        let r = quoted_from(s, i + 1);
        (seq![s[i]] + r.0, r.1)
    }
}

pub proof fn lemma_skip_ws_bounds(s: Seq<char>, i: int)
    requires
        0 <= i <= s.len(),
    ensures
        i <= skip_ws(s, i) <= s.len(),
        skip_ws(s, i) < s.len() ==> !is_ws(s[skip_ws(s, i)]),
    decreases s.len() - i,
{
    if i < s.len() && is_ws(s[i]) {
        lemma_skip_ws_bounds(s, i + 1);
    }
}

pub proof fn lemma_key_end_bounds(s: Seq<char>, i: int)
    requires
        0 <= i <= s.len(),
    ensures
        i <= key_end(s, i) <= s.len(),
    decreases s.len() - i,
{
    if i < s.len() && !is_ws(s[i]) && s[i] != '=' {
        lemma_key_end_bounds(s, i + 1);
    }
}

pub proof fn lemma_token_end_bounds(s: Seq<char>, i: int)
    requires
        0 <= i <= s.len(),
    ensures
        i <= token_end(s, i) <= s.len(),
    decreases s.len() - i,
{
    if i < s.len() && !is_ws(s[i]) {
        lemma_token_end_bounds(s, i + 1);
    }
}

pub proof fn lemma_quoted_from_bounds(s: Seq<char>, i: int)
    requires
        0 <= i <= s.len(),
    ensures
        i <= quoted_from(s, i).1 <= s.len(),
    decreases s.len() - i,
{
    if i < s.len() && s[i] != '"' {
        if s[i] == '\\' {
            if i + 1 < s.len() {
                lemma_quoted_from_bounds(s, i + 2);
            }
        } else {
            lemma_quoted_from_bounds(s, i + 1);
        }
    }
}

/// The `key=value` fields of `s` read from position `i` on, in order of appearance.
///
/// A key runs from a non-blank character up to white space or `=`. A word not followed by
/// `=` is skipped. A value is either a quoted string with escapes or a run of non-blank
/// characters; `key=` at the very end has the empty value.
pub open spec fn fields_from(s: Seq<char>, i: int) -> Seq<(Seq<char>, Seq<char>)>
    decreases s.len() - i,
{
    if !(0 <= i < s.len()) {
        seq![]
    } else {
        let st = skip_ws(s, i);
        if st >= s.len() {
            seq![]
        } else {
            proof {
                lemma_skip_ws_bounds(s, i);
                lemma_key_end_bounds(s, st + 1);
            }
            let ke = key_end(s, st + 1);
            let key = s.subrange(st, ke);
            proof {
                lemma_skip_ws_bounds(s, ke);
            }
            let p = skip_ws(s, ke);
            if p >= s.len() || s[p] != '=' {
                proof {
                    lemma_token_end_bounds(s, p);
                }
                fields_from(s, token_end(s, p))
            } else {
                proof {
                    lemma_skip_ws_bounds(s, p + 1);
                }
                let v0 = skip_ws(s, p + 1);
                if v0 >= s.len() {
                    seq![(key, Seq::<char>::empty())]
                } else if s[v0] == '"' {
                    proof {
                        lemma_quoted_from_bounds(s, v0 + 1);
                    }
                    let q = quoted_from(s, v0 + 1);
                    seq![(key, q.0)] + fields_from(s, q.1)
                } else {
                    proof {
                        lemma_token_end_bounds(s, v0 + 1);
                    }
                    let ve = token_end(s, v0 + 1);
                    seq![(key, s.subrange(v0, ve))] + fields_from(s, ve)
                }
            }
        }
    }
}

/// The fields of a whole line.
pub open spec fn spec_fields(s: Seq<char>) -> Seq<(Seq<char>, Seq<char>)> {
    fields_from(s, 0)
}

/// The value recorded last for `key`: a later field replaces an earlier one with the same key.
pub open spec fn lookup(pairs: Seq<(Seq<char>, Seq<char>)>, key: Seq<char>) -> Option<Seq<char>>
    decreases pairs.len(),
{
    if pairs.len() == 0 {
        None
    } else if pairs.last().0 == key {
        Some(pairs.last().1)
    } else {
        lookup(pairs.drop_last(), key)
    }
}

// ---------------------------------------------------------------------------
// Executable scanners.

pub fn skip_ws_at(cs: &[char], i: usize) -> (j: usize)
    requires
        i <= cs@.len(),
    ensures
        j == skip_ws(cs@, i as int),
        i <= j <= cs@.len(),
{
    let mut j = i;
    while j < cs.len() && is_whitespace(cs[j])
        invariant
            i <= j <= cs@.len(),
            skip_ws(cs@, j as int) == skip_ws(cs@, i as int),
        decreases cs@.len() - j,
    {
        j = j + 1;
    }
    j
}

fn key_end_at(cs: &[char], i: usize) -> (j: usize)
    requires
        i <= cs@.len(),
    ensures
        j == key_end(cs@, i as int),
        i <= j <= cs@.len(),
{
    let mut j = i;
    while j < cs.len() && !is_whitespace(cs[j]) && cs[j] != '='
        invariant
            i <= j <= cs@.len(),
            key_end(cs@, j as int) == key_end(cs@, i as int),
        decreases cs@.len() - j,
    {
        j = j + 1;
    }
    j
}

pub fn token_end_at(cs: &[char], i: usize) -> (j: usize)
    requires
        i <= cs@.len(),
    ensures
        j == token_end(cs@, i as int),
        i <= j <= cs@.len(),
{
    let mut j = i;
    while j < cs.len() && !is_whitespace(cs[j])
        invariant
            i <= j <= cs@.len(),
            token_end(cs@, j as int) == token_end(cs@, i as int),
        decreases cs@.len() - j,
    {
        j = j + 1;
    }
    j
}

fn unescape_char(c: char) -> (r: char)
    ensures
        r == unescape(c),
{
    if c == 'n' {
        '\n'
    } else if c == 'r' {
        '\r'
    } else if c == 't' {
        '\t'
    } else {
        c
    }
}

fn quoted_at(cs: &[char], i: usize) -> (res: (String, usize))
    requires
        i <= cs@.len(),
    ensures
        res.0@ == quoted_from(cs@, i as int).0,
        res.1 == quoted_from(cs@, i as int).1,
        i <= res.1 <= cs@.len(),
{
    let mut out = String::new();
    let mut j = i;
    loop
        invariant
            i <= j <= cs@.len(),
            out@ + quoted_from(cs@, j as int).0 == quoted_from(cs@, i as int).0,
            quoted_from(cs@, j as int).1 == quoted_from(cs@, i as int).1,
        decreases cs@.len() - j,
    {
        if j >= cs.len() {
            assert(out@ + Seq::<char>::empty() =~= out@);
            return (out, cs.len());
        }
        let c = cs[j];
        if c == '"' {
            assert(out@ + Seq::<char>::empty() =~= out@);
            return (out, j + 1);
        } else if c == '\\' {
            if j + 1 >= cs.len() {
                assert(out@ + Seq::<char>::empty() =~= out@);
                return (out, cs.len());
            }
            let e = unescape_char(cs[j + 1]);
            proof {
                let r = quoted_from(cs@, j + 2);
                assert(out@.push(e) + r.0 =~= out@ + (seq![e] + r.0));
            }
            push_char(&mut out, e);
            j = j + 2;
        } else {
            proof {
                let r = quoted_from(cs@, j + 1);
                assert(out@.push(c) + r.0 =~= out@ + (seq![c] + r.0));
            }
            push_char(&mut out, c);
            j = j + 1;
        }
    }
}

// ---------------------------------------------------------------------------
// Parsed fields.

/// The fields of one keyed line, in the order they appear.
#[derive(Clone, Debug)]
pub struct KeyValues {
    pub pairs: Vec<(String, String)>,
}

pub open spec fn pairs_view(v: Seq<(String, String)>) -> Seq<(Seq<char>, Seq<char>)> {
    Seq::new(v.len(), |i: int| (v[i].0@, v[i].1@))
}

impl View for KeyValues {
    type V = Seq<(Seq<char>, Seq<char>)>;

    open spec fn view(&self) -> Seq<(Seq<char>, Seq<char>)> {
        pairs_view(self.pairs@)
    }
}

impl KeyValues {
    /// The value of `key`; the last one where the line repeats the key.
    pub fn get(&self, key: &str) -> (res: Option<&String>)
        ensures
            lookup(self@, key@) == (match res {
                Some(v) => Some(v@),
                None => None::<Seq<char>>,
            }),
    {
        let mut i = self.pairs.len();
        assert(self@.take(i as int) =~= self@);
        while i > 0
            invariant
                i <= self.pairs@.len(),
                lookup(self@, key@) == lookup(self@.take(i as int), key@),
            decreases i,
        {
            let ghost t = self@.take(i as int);
            assert(t.drop_last() =~= self@.take(i - 1));
            if str_eq(self.pairs[i - 1].0.as_str(), key) {
                return Some(&self.pairs[i - 1].1);
            }
            i = i - 1;
        }
        None
    }

    /// Whether the line has a field `key`.
    pub fn contains_key(&self, key: &str) -> (b: bool)
        ensures
            b == lookup(self@, key@).is_some(),
    {
        self.get(key).is_some()
    }
}

/// Reads the `key=value` fields of `rest`.
pub fn parse_key_values(rest: &str) -> (res: KeyValues)
    ensures
        res@ == spec_fields(rest@),
{
    let cs = chars_of(rest);
    let n = cs.len();
    let mut pairs: Vec<(String, String)> = Vec::new();
    let mut i: usize = 0;
    while i < n
        invariant
            cs@ == rest@,
            n == cs@.len(),
            i <= n,
            pairs_view(pairs@) + fields_from(cs@, i as int) == fields_from(cs@, 0),
        decreases n - i,
    {
        let ghost s = cs@;
        let st = skip_ws_at(cs.as_slice(), i);
        if st >= n {
            assert(fields_from(s, i as int) =~= Seq::<(Seq<char>, Seq<char>)>::empty());
            assert(pairs_view(pairs@) + Seq::<(Seq<char>, Seq<char>)>::empty() =~= pairs_view(
                pairs@,
            ));
            i = n;
        } else {
        let ke = key_end_at(cs.as_slice(), st + 1);
        let p = skip_ws_at(cs.as_slice(), ke);
        if p >= n || cs[p] != '=' {
            let next = token_end_at(cs.as_slice(), p);
            i = next;
        } else {
            let mut key = String::new();
            push_chars(&mut key, cs.as_slice(), st, ke);
            assert(key@ =~= s.subrange(st as int, ke as int));
            let v0 = skip_ws_at(cs.as_slice(), p + 1);
            let ghost old_pairs = pairs@;
            if v0 >= n {
                let value = String::new();
                pairs.push((key, value));
                proof {
                    let pv = pairs_view(old_pairs);
                    let x = (s.subrange(st as int, ke as int), Seq::<char>::empty());
                    assert(pairs_view(pairs@) =~= pv.push(x));
                    assert(fields_from(s, i as int) =~= seq![x]);
                    assert(pv + seq![x] =~= pv.push(x));
                    assert(pairs_view(pairs@) + fields_from(s, n as int) =~= pairs_view(pairs@));
                }
                i = n;
            } else if cs[v0] == '"' {
                let (value, e) = quoted_at(cs.as_slice(), v0 + 1);
                pairs.push((key, value));
                proof {
                    let pv = pairs_view(old_pairs);
                    let q = quoted_from(s, v0 + 1);
                    let x = (s.subrange(st as int, ke as int), q.0);
                    assert(pairs_view(pairs@) =~= pv.push(x));
                    assert(fields_from(s, i as int) == seq![x] + fields_from(s, e as int));
                    assert(pv + (seq![x] + fields_from(s, e as int)) =~= pv.push(x) + fields_from(
                        s,
                        e as int,
                    ));
                }
                i = e;
            } else {
                let ve = token_end_at(cs.as_slice(), v0 + 1);
                let mut value = String::new();
                push_chars(&mut value, cs.as_slice(), v0, ve);
                pairs.push((key, value));
                proof {
                    let pv = pairs_view(old_pairs);
                    let x = (s.subrange(st as int, ke as int), s.subrange(v0 as int, ve as int));
                    assert(pairs_view(pairs@) =~= pv.push(x));
                    assert(fields_from(s, i as int) == seq![x] + fields_from(s, ve as int));
                    assert(pv + (seq![x] + fields_from(s, ve as int)) =~= pv.push(x)
                        + fields_from(s, ve as int));
                }
                i = ve;
            }
        }
        }
    }
    assert(fields_from(cs@, i as int) =~= Seq::<(Seq<char>, Seq<char>)>::empty());
    assert(pairs_view(pairs@) + Seq::<(Seq<char>, Seq<char>)>::empty() =~= pairs_view(pairs@));
    KeyValues { pairs }
}

// ---------------------------------------------------------------------------
// Quoting.

/// How `quote` writes one character.
pub open spec fn escape_char(c: char) -> Seq<char> {
    if c == '\\' {
        seq!['\\', '\\']
    } else if c == '"' {
        seq!['\\', '"']
    } else if c == '\n' {
        seq!['\\', 'n']
    } else if c == '\r' {
        seq!['\\', 'r']
    } else if c == '\t' {
        seq!['\\', 't']
    } else {
        seq![c]
    }
}

/// The escaped body of a quoted value.
pub open spec fn escape(s: Seq<char>) -> Seq<char>
    decreases s.len(),
{
    if s.len() == 0 {
        seq![]
    } else {
        escape_char(s[0]) + escape(s.skip(1))
    }
}

/// `s` between double quotes, with backslash, quote and the control characters escaped.
pub open spec fn spec_quote(s: Seq<char>) -> Seq<char> {
    seq!['"'] + escape(s) + seq!['"']
}

proof fn lemma_escape_push(t: Seq<char>, c: char)
    ensures
        escape(t.push(c)) == escape(t) + escape_char(c),
    decreases t.len(),
{
    if t.len() == 0 {
        assert(t.push(c).skip(1) =~= Seq::<char>::empty());
        assert(escape(Seq::<char>::empty()) =~= Seq::<char>::empty());
        assert(escape(t) =~= Seq::<char>::empty());
        assert(escape_char(c) + Seq::<char>::empty() =~= escape_char(c));
        assert(Seq::<char>::empty() + escape_char(c) =~= escape_char(c));
    } else {
        assert(t.push(c).skip(1) =~= t.skip(1).push(c));
        lemma_escape_push(t.skip(1), c);
        assert(escape_char(t[0]) + (escape(t.skip(1)) + escape_char(c)) =~= (escape_char(t[0])
            + escape(t.skip(1))) + escape_char(c));
    }
}

/// Writes `value` as a quoted string that `parse_key_values` reads back unchanged.
pub fn quote(value: &str) -> (res: String)
    ensures
        res@ == spec_quote(value@),
{
    let cs = chars_of(value);
    let mut out = String::new();
    push_char(&mut out, '"');
    assert(cs@.take(0) =~= Seq::<char>::empty());
    assert(escape(Seq::<char>::empty()) =~= Seq::<char>::empty());
    assert(out@ =~= seq!['"'] + escape(cs@.take(0)));
    let mut i: usize = 0;
    while i < cs.len()
        invariant
            cs@ == value@,
            i <= cs@.len(),
            out@ == seq!['"'] + escape(cs@.take(i as int)),
        decreases cs@.len() - i,
    {
        let c = cs[i];
        proof {
            lemma_escape_push(cs@.take(i as int), c);
            assert(cs@.take(i + 1) =~= cs@.take(i as int).push(c));
        }
        if c == '\\' {
            push_char(&mut out, '\\');
            push_char(&mut out, '\\');
        } else if c == '"' {
            push_char(&mut out, '\\');
            push_char(&mut out, '"');
        } else if c == '\n' {
            push_char(&mut out, '\\');
            push_char(&mut out, 'n');
        } else if c == '\r' {
            push_char(&mut out, '\\');
            push_char(&mut out, 'r');
        } else if c == '\t' {
            push_char(&mut out, '\\');
            push_char(&mut out, 't');
        } else {
            push_char(&mut out, c);
        }
        assert(out@ =~= seq!['"'] + escape(cs@.take(i + 1)));
        i = i + 1;
    }
    assert(cs@.take(cs@.len() as int) =~= cs@);
    push_char(&mut out, '"');
    assert(out@ =~= spec_quote(value@));
    out
}

// ---------------------------------------------------------------------------
// Reading back what was written.

/// A key that reads back as itself: non-empty, without white space or `=`.
pub open spec fn key_ok(k: Seq<char>) -> bool {
    k.len() > 0 && forall|j: int| 0 <= j < k.len() ==> !is_ws(#[trigger] k[j]) && k[j] != '='
}

/// A value that can be written without quotes: non-empty, without white space, not starting
/// with a quote.
pub open spec fn bare_ok(v: Seq<char>) -> bool {
    v.len() > 0 && v[0] != '"' && forall|j: int| 0 <= j < v.len() ==> !is_ws(#[trigger] v[j])
}

/// One field as written: `key=value`, the value quoted or bare.
pub open spec fn field_text(key: Seq<char>, value: Seq<char>, quoted: bool) -> Seq<char> {
    key + seq!['='] + if quoted {
        spec_quote(value)
    } else {
        value
    }
}

/// Fields written one after another, separated by single spaces.
pub open spec fn keyed_line(fields: Seq<(Seq<char>, Seq<char>, bool)>) -> Seq<char>
    decreases fields.len(),
{
    if fields.len() == 0 {
        seq![]
    } else if fields.len() == 1 {
        field_text(fields[0].0, fields[0].1, fields[0].2)
    } else {
        field_text(fields[0].0, fields[0].1, fields[0].2) + seq![' '] + keyed_line(fields.skip(1))
    }
}

/// Whether every field of the list reads back as itself.
pub open spec fn fields_ok(fields: Seq<(Seq<char>, Seq<char>, bool)>) -> bool {
    forall|j: int|
        0 <= j < fields.len() ==> key_ok(#[trigger] fields[j].0) && (fields[j].2 || bare_ok(
            fields[j].1,
        ))
}

/// The key and value of each field.
pub open spec fn field_pairs(fields: Seq<(Seq<char>, Seq<char>, bool)>) -> Seq<
    (Seq<char>, Seq<char>),
> {
    Seq::new(fields.len(), |j: int| (fields[j].0, fields[j].1))
}

proof fn lemma_skip_ws_shift(a: Seq<char>, b: Seq<char>, j: int)
    requires
        0 <= j <= b.len(),
    ensures
        skip_ws(a + b, a.len() + j) == a.len() + skip_ws(b, j),
    decreases b.len() - j,
{
    if j < b.len() {
        assert((a + b)[a.len() + j] == b[j]);
        if is_ws(b[j]) {
            lemma_skip_ws_shift(a, b, j + 1);
        }
    }
}

proof fn lemma_key_end_shift(a: Seq<char>, b: Seq<char>, j: int)
    requires
        0 <= j <= b.len(),
    ensures
        key_end(a + b, a.len() + j) == a.len() + key_end(b, j),
    decreases b.len() - j,
{
    if j < b.len() {
        assert((a + b)[a.len() + j] == b[j]);
        if !is_ws(b[j]) && b[j] != '=' {
            lemma_key_end_shift(a, b, j + 1);
        }
    }
}

proof fn lemma_token_end_shift(a: Seq<char>, b: Seq<char>, j: int)
    requires
        0 <= j <= b.len(),
    ensures
        token_end(a + b, a.len() + j) == a.len() + token_end(b, j),
    decreases b.len() - j,
{
    if j < b.len() {
        assert((a + b)[a.len() + j] == b[j]);
        if !is_ws(b[j]) {
            lemma_token_end_shift(a, b, j + 1);
        }
    }
}

proof fn lemma_quoted_from_shift(a: Seq<char>, b: Seq<char>, j: int)
    requires
        0 <= j <= b.len(),
    ensures
        quoted_from(a + b, a.len() + j).0 == quoted_from(b, j).0,
        quoted_from(a + b, a.len() + j).1 == a.len() + quoted_from(b, j).1,
    decreases b.len() - j,
{
    if j < b.len() {
        assert((a + b)[a.len() + j] == b[j]);
        if b[j] != '"' {
            if b[j] == '\\' {
                if j + 1 < b.len() {
                    assert((a + b)[a.len() + j + 1] == b[j + 1]);
                    lemma_quoted_from_shift(a, b, j + 2);
                }
            } else {
                lemma_quoted_from_shift(a, b, j + 1);
            }
        }
    }
}

/// The fields read from inside `b` do not depend on what stands before it.
proof fn lemma_fields_shift(a: Seq<char>, b: Seq<char>, j: int)
    requires
        0 <= j <= b.len(),
    ensures
        fields_from(a + b, a.len() + j) == fields_from(b, j),
    decreases b.len() - j,
{
    let s = a + b;
    let o = a.len() as int;
    if j < b.len() {
        lemma_skip_ws_shift(a, b, j);
        lemma_skip_ws_bounds(b, j);
        let st = skip_ws(b, j);
        if st < b.len() {
            lemma_key_end_shift(a, b, st + 1);
            lemma_key_end_bounds(b, st + 1);
            let ke = key_end(b, st + 1);
            assert(s.subrange(o + st, o + ke) =~= b.subrange(st, ke));
            lemma_skip_ws_shift(a, b, ke);
            lemma_skip_ws_bounds(b, ke);
            let p = skip_ws(b, ke);
            if p < b.len() {
                assert(s[o + p] == b[p]);
            }
            if p >= b.len() || b[p] != '=' {
                lemma_token_end_shift(a, b, p);
                lemma_token_end_bounds(b, p);
                lemma_fields_shift(a, b, token_end(b, p));
            } else {
                lemma_skip_ws_shift(a, b, p + 1);
                lemma_skip_ws_bounds(b, p + 1);
                let v0 = skip_ws(b, p + 1);
                if v0 < b.len() {
                    assert(s[o + v0] == b[v0]);
                    if b[v0] == '"' {
                        lemma_quoted_from_shift(a, b, v0 + 1);
                        lemma_quoted_from_bounds(b, v0 + 1);
                        lemma_fields_shift(a, b, quoted_from(b, v0 + 1).1);
                    } else {
                        lemma_token_end_shift(a, b, v0 + 1);
                        lemma_token_end_bounds(b, v0 + 1);
                        let ve = token_end(b, v0 + 1);
                        assert(s.subrange(o + v0, o + ve) =~= b.subrange(v0, ve));
                        lemma_fields_shift(a, b, ve);
                    }
                }
            }
        }
    }
}

/// Leading white space does not change the fields read.
proof fn lemma_fields_after_space(b: Seq<char>)
    ensures
        fields_from(seq![' '] + b, 0) == fields_from(b, 0),
{
    let s = seq![' '] + b;
    assert(s[0] == ' ');
    assert(skip_ws(s, 0) == skip_ws(s, 1));
    if b.len() == 0 {
        assert(skip_ws(s, 1) == 1);
    }
    assert(fields_from(s, 0) == fields_from(s, 1));
    lemma_fields_shift(seq![' '], b, 0);
}

/// A quoted body written by `escape` and closed by a quote reads back as the original text.
proof fn lemma_quoted_reads_escape(s: Seq<char>, i: int, w: Seq<char>)
    requires
        0 <= i,
        i + escape(w).len() < s.len(),
        s.subrange(i, i + escape(w).len() + 1) == escape(w).push('"'),
    ensures
        quoted_from(s, i) == (w, i + escape(w).len() + 1),
    decreases w.len(),
{
    let e = escape(w);
    let x = e.push('"');
    assert(s[i] == s.subrange(i, i + e.len() + 1)[0]);
    if w.len() == 0 {
        assert(e =~= Seq::<char>::empty());
        assert(x[0] == '"');
    } else {
        let c = w[0];
        let rest = w.skip(1);
        let ec = escape_char(c);
        let er = escape(rest);
        let k = ec.len() as int;
        assert(e == ec + er);
        assert forall|j: int| 0 <= j < er.len() + 1 implies s.subrange(
            i + k,
            i + k + er.len() + 1,
        )[j] == er.push('"')[j] by {
            assert(s[i + k + j] == s.subrange(i, i + e.len() + 1)[k + j]);
            if j < er.len() {
                assert(x[k + j] == er[j]);
            } else {
                assert(x[k + j] == '"');
            }
        }
        assert(s.subrange(i + k, i + k + er.len() + 1) =~= er.push('"'));
        lemma_quoted_reads_escape(s, i + k, rest);
        assert(x[0] == ec[0]);
        if k == 2 {
            assert(s[i + 1] == s.subrange(i, i + e.len() + 1)[1]);
            assert(x[1] == ec[1]);
        }
        assert(seq![c] + rest =~= w);
    }
}

pub proof fn lemma_key_end_run(s: Seq<char>, i: int, e: int)
    requires
        0 <= i <= e < s.len(),
        is_ws(s[e]) || s[e] == '=',
        forall|j: int| i <= j < e ==> !is_ws(#[trigger] s[j]) && s[j] != '=',
    ensures
        key_end(s, i) == e,
    decreases e - i,
{
    if i < e {
        lemma_key_end_run(s, i + 1, e);
    }
}

pub proof fn lemma_token_end_run(s: Seq<char>, i: int, e: int)
    requires
        0 <= i <= e <= s.len(),
        e == s.len() || is_ws(s[e]),
        forall|j: int| i <= j < e ==> !is_ws(#[trigger] s[j]),
    ensures
        token_end(s, i) == e,
    decreases e - i,
{
    if i < e {
        lemma_token_end_run(s, i + 1, e);
    }
}

/// Reads one written field at the start of `s`: its key and value, and where reading goes on.
proof fn lemma_field_at_start(key: Seq<char>, value: Seq<char>, quoted: bool, s: Seq<char>)
    requires
        key_ok(key),
        quoted || bare_ok(value),
        s.len() >= field_text(key, value, quoted).len(),
        s.subrange(0, field_text(key, value, quoted).len() as int) == field_text(key, value, quoted),
        s.len() > field_text(key, value, quoted).len() ==> is_ws(
            s[field_text(key, value, quoted).len() as int],
        ),
    ensures
        fields_from(s, 0) == seq![(key, value)] + fields_from(
            s,
            field_text(key, value, quoted).len() as int,
        ),
{
    let f = field_text(key, value, quoted);
    let kl = key.len() as int;
    let sp = f.len() as int;
    assert forall|j: int| 0 <= j < sp implies s[j] == f[j] by {
        assert(s[j] == s.subrange(0, sp)[j]);
    }
    assert forall|j: int| 0 <= j < kl implies s[j] == key[j] by {
        assert(f[j] == key[j]);
    }
    assert(s[kl] == '=') by {
        assert(f[kl] == '=');
    }
    assert(!is_ws(s[0]));
    assert(skip_ws(s, 0) == 0);
    assert forall|j: int| 1 <= j < kl implies !is_ws(#[trigger] s[j]) && s[j] != '=' by {
        assert(s[j] == key[j]);
    }
    lemma_key_end_run(s, 1, kl);
    assert(s.subrange(0, kl) =~= key);
    assert(skip_ws(s, kl) == kl);
    let v0 = kl + 1;
    if quoted {
        let e = escape(value);
        assert(s[v0] == '"') by {
            assert(f[v0] == '"');
        }
        assert(skip_ws(s, v0) == v0);
        assert forall|j: int| 0 <= j < e.len() + 1 implies s.subrange(v0 + 1, v0 + 1 + e.len() + 1)[
            j] == e.push('"')[j] by {
            assert(s[v0 + 1 + j] == f[v0 + 1 + j]);
        }
        assert(s.subrange(v0 + 1, v0 + 1 + e.len() + 1) =~= e.push('"'));
        lemma_quoted_reads_escape(s, v0 + 1, value);
        assert(v0 + 1 + e.len() + 1 == sp);
    } else {
        let vl = value.len() as int;
        assert forall|j: int| 0 <= j < vl implies s[v0 + j] == value[j] by {
            assert(f[v0 + j] == value[j]);
        }
        assert(s[v0] == value[0]);
        assert(skip_ws(s, v0) == v0);
        assert forall|j: int| v0 + 1 <= j < sp implies !is_ws(#[trigger] s[j]) by {
            assert(s[j] == value[j - v0]);
        }
        lemma_token_end_run(s, v0 + 1, sp);
        assert(s.subrange(v0, sp) =~= value);
    }
}

/// One written field followed by a space reads back as its key and value, and reading goes
/// on right after the space.
proof fn lemma_field_reads_back(key: Seq<char>, value: Seq<char>, quoted: bool, tail: Seq<char>)
    requires
        key_ok(key),
        quoted || bare_ok(value),
    ensures
        fields_from(field_text(key, value, quoted) + seq![' '] + tail, 0) == seq![(key, value)]
            + fields_from(tail, 0),
{
    let f = field_text(key, value, quoted);
    let s = f + seq![' '] + tail;
    assert(s.subrange(0, f.len() as int) =~= f);
    assert(s[f.len() as int] == ' ');
    lemma_field_at_start(key, value, quoted, s);
    assert(s =~= f + (seq![' '] + tail));
    lemma_fields_shift(f, seq![' '] + tail, 0);
    lemma_fields_after_space(tail);
}

/// A field written alone reads back as its key and value.
proof fn lemma_field_alone(key: Seq<char>, value: Seq<char>, quoted: bool)
    requires
        key_ok(key),
        quoted || bare_ok(value),
    ensures
        fields_from(field_text(key, value, quoted), 0) == seq![(key, value)],
{
    let f = field_text(key, value, quoted);
    assert(f.subrange(0, f.len() as int) =~= f);
    lemma_field_at_start(key, value, quoted, f);
    assert(seq![(key, value)] + Seq::<(Seq<char>, Seq<char>)>::empty() =~= seq![(key, value)]);
}

/// A line of written fields reads back as exactly those keys and values, in order.
pub proof fn lemma_keyed_line_round_trip(fields: Seq<(Seq<char>, Seq<char>, bool)>)
    requires
        fields_ok(fields),
    ensures
        spec_fields(keyed_line(fields)) == field_pairs(fields),
    decreases fields.len(),
{
    if fields.len() == 0 {
        assert(field_pairs(fields) =~= Seq::<(Seq<char>, Seq<char>)>::empty());
    } else {
        let rest = fields.skip(1);
        assert(fields_ok(rest)) by {
            assert forall|j: int| 0 <= j < rest.len() implies key_ok(#[trigger] rest[j].0) && (
            rest[j].2 || bare_ok(rest[j].1)) by {
                assert(rest[j] == fields[j + 1]);
            }
        }
        lemma_keyed_line_round_trip(rest);
        assert(key_ok(fields[0].0) && (fields[0].2 || bare_ok(fields[0].1)));
        if fields.len() == 1 {
            lemma_field_alone(fields[0].0, fields[0].1, fields[0].2);
        } else {
            lemma_field_reads_back(fields[0].0, fields[0].1, fields[0].2, keyed_line(rest));
        }
        assert(field_pairs(fields) =~= seq![(fields[0].0, fields[0].1)] + field_pairs(rest));
    }
}

/// The value of each key of a written line is the one written last for it.
pub proof fn lemma_keyed_line_lookup(fields: Seq<(Seq<char>, Seq<char>, bool)>, key: Seq<char>)
    requires
        fields_ok(fields),
    ensures
        lookup(spec_fields(keyed_line(fields)), key) == lookup(field_pairs(fields), key),
{
    lemma_keyed_line_round_trip(fields);
}

// ---------------------------------------------------------------------------
// Lines and commands.

/// The position just after the last non-blank character before `j`.
pub open spec fn trim_end_pos(s: Seq<char>, j: int) -> int
    decreases j,
{
    if 0 < j <= s.len() && is_ws(s[j - 1]) {
        trim_end_pos(s, j - 1)
    } else {
        j
    }
}

/// `s` without leading and trailing white space (`str::trim`).
pub open spec fn spec_trim(s: Seq<char>) -> Seq<char> {
    let a = skip_ws(s, 0);
    if a >= s.len() {
        seq![]
    } else {
        s.subrange(a, trim_end_pos(s, s.len() as int))
    }
}

proof fn lemma_trim_end_bounds(s: Seq<char>, a: int, j: int)
    requires
        0 <= a < j <= s.len(),
        !is_ws(s[a]),
    ensures
        a < trim_end_pos(s, j) <= j,
        !is_ws(s[trim_end_pos(s, j) - 1]),
    decreases j,
{
    if is_ws(s[j - 1]) {
        lemma_trim_end_bounds(s, a, j - 1);
    }
}

pub fn trim_chars(cs: &[char], start: usize, end: usize) -> (res: String)
    requires
        start <= end <= cs@.len(),
    ensures
        res@ == spec_trim(cs@.subrange(start as int, end as int)),
{
    let ghost t = cs@.subrange(start as int, end as int);
    let mut a = start;
    while a < end && is_whitespace(cs[a])
        invariant
            start <= a <= end <= cs@.len(),
            t == cs@.subrange(start as int, end as int),
            skip_ws(t, a - start) == skip_ws(t, 0),
        decreases end - a,
    {
        assert(t[a - start] == cs@[a as int]);
        a = a + 1;
    }
    if a < end {
        assert(t[a - start] == cs@[a as int]);
    }
    if a >= end {
        return String::new();
    }
    let mut b = end;
    proof {
        lemma_trim_end_bounds(t, a - start, t.len() as int);
    }
    while b > a && is_whitespace(cs[b - 1])
        invariant
            start <= a < end <= cs@.len(),
            a < b <= end,
            t == cs@.subrange(start as int, end as int),
            !is_ws(t[a - start]),
            trim_end_pos(t, b - start) == trim_end_pos(t, t.len() as int),
        decreases b,
    {
        assert(t[b - 1 - start] == cs@[b - 1]);
        b = b - 1;
    }
    assert(b - start > a - start ==> t[b - 1 - start] == cs@[b - 1]);
    let mut out = String::new();
    push_chars(&mut out, cs, a, b);
    assert(out@ =~= t.subrange(a - start, b - start));
    out
}

/// `s` without leading and trailing white space.
pub fn trim(s: &str) -> (res: String)
    ensures
        res@ == spec_trim(s@),
{
    let cs = chars_of(s);
    assert(cs@.subrange(0, cs@.len() as int) =~= s@);
    trim_chars(cs.as_slice(), 0, cs.len())
}

/// The first word of a line and the rest of it, both trimmed; `None` for a blank line.
pub open spec fn spec_split_command(line: Seq<char>) -> Option<(Seq<char>, Seq<char>)> {
    let t = spec_trim(line);
    if t.len() == 0 {
        None
    } else {
        let k = token_end(t, 0);
        if k < t.len() {
            Some((t.subrange(0, k), spec_trim(t.subrange(k, t.len() as int))))
        } else {
            Some((t, seq![]))
        }
    }
}

/// Splits a line into its command word and the rest.
pub fn split_command(line: &str) -> (res: Option<(String, String)>)
    ensures
        match res {
            Some((c, r)) => spec_split_command(line@) == Some((c@, r@)),
            None => spec_split_command(line@) is None,
        },
{
    let t = trim(line);
    let cs = chars_of(t.as_str());
    if cs.len() == 0 {
        return None;
    }
    let k = token_end_at(cs.as_slice(), 0);
    if k < cs.len() {
        let mut command = String::new();
        push_chars(&mut command, cs.as_slice(), 0, k);
        let rest = trim_chars(cs.as_slice(), k, cs.len());
        Some((command, rest))
    } else {
        Some((t, String::new()))
    }
}

/// Whether the first word of `rest` holds a `=`, which marks the keyed syntax.
pub open spec fn spec_looks_keyed(rest: Seq<char>) -> bool {
    let st = skip_ws(rest, 0);
    st < rest.len() && exists|j: int| st <= j < token_end(rest, st) && rest[j] == '='
}

pub fn looks_keyed(rest: &str) -> (b: bool)
    ensures
        b == spec_looks_keyed(rest@),
{
    let cs = chars_of(rest);
    let st = skip_ws_at(cs.as_slice(), 0);
    if st >= cs.len() {
        return false;
    }
    let e = token_end_at(cs.as_slice(), st);
    let mut j = st;
    while j < e
        invariant
            cs@ == rest@,
            st <= j <= e <= cs@.len(),
            st == skip_ws(cs@, 0),
            e == token_end(cs@, st as int),
            forall|m: int| st <= m < j ==> cs@[m] != '=',
        decreases e - j,
    {
        if cs[j] == '=' {
            assert(rest@[j as int] == '=');
            return true;
        }
        j = j + 1;
    }
    false
}

/// The words accepted as a true flag.
pub open spec fn spec_parse_bool(value: Seq<char>) -> bool {
    value == "true"@ || value == "1"@ || value == "yes"@ || value == "on"@
}

/// `true` for `true`, `1`, `yes` and `on`; `false` for anything else.
pub fn parse_bool(value: &str) -> (b: bool)
    ensures
        b == spec_parse_bool(value@),
{
    str_eq(value, "true") || str_eq(value, "1") || str_eq(value, "yes") || str_eq(value, "on")
}

// ---------------------------------------------------------------------------
// Writing fields.

/// Appending a field to a non-empty line adds a space and the field.
pub proof fn lemma_keyed_line_push(
    fields: Seq<(Seq<char>, Seq<char>, bool)>,
    f: (Seq<char>, Seq<char>, bool),
)
    ensures
        fields.len() == 0 ==> keyed_line(fields.push(f)) == field_text(f.0, f.1, f.2),
        fields.len() > 0 ==> keyed_line(fields.push(f)) == keyed_line(fields) + seq![' ']
            + field_text(f.0, f.1, f.2),
    decreases fields.len(),
{
    let g = fields.push(f);
    if fields.len() == 1 {
        assert(g.skip(1) =~= seq![f]);
        assert(keyed_line(g.skip(1)) == field_text(f.0, f.1, f.2));
    } else if fields.len() > 1 {
        assert(g.skip(1) =~= fields.skip(1).push(f));
        lemma_keyed_line_push(fields.skip(1), f);
        let h = field_text(fields[0].0, fields[0].1, fields[0].2);
        assert(h + seq![' '] + (keyed_line(fields.skip(1)) + seq![' '] + field_text(f.0, f.1, f.2))
            =~= (h + seq![' '] + keyed_line(fields.skip(1))) + seq![' '] + field_text(
            f.0,
            f.1,
            f.2,
        ));
    }
}

/// Appends `key=value` (the value quoted when asked), preceded by a space unless it is the
/// first field of the line.
pub fn push_field(out: &mut String, first: bool, key: &str, value: &str, quoted: bool)
    ensures
        final(out)@ == old(out)@ + (if first {
            Seq::<char>::empty()
        } else {
            seq![' ']
        }) + field_text(key@, value@, quoted),
{
    let ghost start = out@;
    if !first {
        push_char(out, ' ');
    }
    let ghost sep = out@;
    push_str(out, key);
    push_char(out, '=');
    if quoted {
        let q = quote(value);
        push_str(out, q.as_str());
    } else {
        push_str(out, value);
    }
    assert(out@ =~= start + (if first {
        Seq::<char>::empty()
    } else {
        seq![' ']
    }) + field_text(key@, value@, quoted));
}

} // verus!
