//! File and package names derived from a level's display name.
use vstd::prelude::*;

use crate::strutil::{chars_of, push_char, push_str};

verus! {

pub open spec fn is_ascii_alnum(c: char) -> bool {
    ('a' <= c && c <= 'z') || ('A' <= c && c <= 'Z') || ('0' <= c && c <= '9')
}

pub open spec fn ascii_lower(c: char) -> char {
    if 'A' <= c && c <= 'Z' {
        ((c as int) + 32) as char
    } else {
        c
    }
}

/// An ASCII letter or digit in lower case, anything else replaced by `sep`.
pub open spec fn slug_char(c: char, sep: char) -> char {
    if is_ascii_alnum(c) {
        ascii_lower(c)
    } else {
        sep
    }
}

pub open spec fn map_slug(s: Seq<char>, sep: char) -> Seq<char> {
    Seq::new(s.len(), |i: int| slug_char(s[i], sep))
}

/// The first position at or after `i` not holding `c`.
pub open spec fn skip_char(s: Seq<char>, c: char, i: int) -> int
    decreases s.len() - i,
{
    if 0 <= i < s.len() && s[i] == c {
        skip_char(s, c, i + 1)
    } else {
        i
    }
}

/// The position just after the last character before `j` that is not `c`.
pub open spec fn skip_char_back(s: Seq<char>, c: char, j: int) -> int
    decreases j,
{
    if 0 < j <= s.len() && s[j - 1] == c {
        skip_char_back(s, c, j - 1)
    } else {
        j
    }
}

/// `s` without leading and trailing `c` (`str::trim_matches` with one character).
pub open spec fn trim_char(s: Seq<char>, c: char) -> Seq<char> {
    let a = skip_char(s, c, 0);
    if a >= s.len() {
        seq![]
    } else {
        s.subrange(a, skip_char_back(s, c, s.len() as int))
    }
}

/// Every `..` replaced by `.`, scanning from the left without overlaps (`str::replace`).
pub open spec fn collapse_dots(s: Seq<char>) -> Seq<char>
    decreases s.len(),
{
    if s.len() == 0 {
        seq![]
    } else if s.len() >= 2 && s[0] == '.' && s[1] == '.' {
        seq!['.'] + collapse_dots(s.skip(2))
    } else {
        seq![s[0]] + collapse_dots(s.skip(1))
    }
}

/// The file stem of a level: its name in lower-case letters and digits joined by `_`.
pub open spec fn spec_slug(name: Seq<char>) -> Seq<char> {
    let t = trim_char(map_slug(name, '_'), '_');
    if t.len() == 0 {
        "untitled_level"@
    } else {
        t
    }
}

/// The package id of a level: `author.level.` and its name in lower-case letters and digits
/// joined by dots.
pub open spec fn spec_stable_level_id(name: Seq<char>) -> Seq<char> {
    "author.level."@ + collapse_dots(trim_char(map_slug(name, '.'), '.'))
}

fn slug_char_exec(c: char, sep: char) -> (r: char)
    ensures
        r == slug_char(c, sep),
{
    if 'A' <= c && c <= 'Z' {
        let lower = ((c as u8) + 32) as char;
        assert(lower == ((c as int) + 32) as char) by {
            vstd::utf8::char_u32_cast(c, c as u32);
        }
        lower
    } else if ('a' <= c && c <= 'z') || ('0' <= c && c <= '9') {
        c
    } else {
        sep
    }
}

proof fn lemma_skip_char_back_bounds(s: Seq<char>, c: char, a: int, j: int)
    requires
        0 <= a < j <= s.len(),
        s[a] != c,
    ensures
        a < skip_char_back(s, c, j) <= j,
    decreases j,
{
    if s[j - 1] == c {
        lemma_skip_char_back_bounds(s, c, a, j - 1);
    }
}

/// `name` mapped by `slug_char` and trimmed of `sep` at both ends.
fn trimmed_slug(name: &str, sep: char) -> (res: Vec<char>)
    ensures
        res@ == trim_char(map_slug(name@, sep), sep),
{
    let cs = chars_of(name);
    let mut mapped: Vec<char> = Vec::new();
    let mut i: usize = 0;
    while i < cs.len()
        invariant
            cs@ == name@,
            i <= cs@.len(),
            mapped@ == map_slug(name@, sep).take(i as int),
        decreases cs@.len() - i,
    {
        let m = slug_char_exec(cs[i], sep);
        mapped.push(m);
        i = i + 1;
        assert(mapped@ =~= map_slug(name@, sep).take(i as int));
    }
    let ghost t = map_slug(name@, sep);
    assert(mapped@ =~= t);
    let n = mapped.len();
    let mut a: usize = 0;
    while a < n && mapped[a] == sep
        invariant
            mapped@ == t,
            n == t.len(),
            a <= n,
            skip_char(t, sep, a as int) == skip_char(t, sep, 0),
        decreases n - a,
    {
        a = a + 1;
    }
    let mut out: Vec<char> = Vec::new();
    if a >= n {
        assert(out@ =~= trim_char(t, sep));
        return out;
    }
    proof {
        lemma_skip_char_back_bounds(t, sep, a as int, n as int);
    }
    let mut b = n;
    while b > a && mapped[b - 1] == sep
        invariant
            mapped@ == t,
            n == t.len(),
            a < b <= n,
            t[a as int] != sep,
            skip_char_back(t, sep, b as int) == skip_char_back(t, sep, n as int),
        decreases b,
    {
        b = b - 1;
    }
    let mut k = a;
    while k < b
        invariant
            mapped@ == t,
            a <= k <= b <= n == t.len(),
            out@ == t.subrange(a as int, k as int),
        decreases b - k,
    {
        out.push(mapped[k]);
        k = k + 1;
        assert(out@ =~= t.subrange(a as int, k as int));
    }
    out
}

/// The name of a level's file: lower-case letters and digits, other runs replaced by `_`.
pub fn slug(name: &str) -> (res: String)
    ensures
        res@ == spec_slug(name@),
{
    let t = trimmed_slug(name, '_');
    if t.len() == 0 {
        return "untitled_level".to_string();
    }
    let mut out = String::new();
    let mut i: usize = 0;
    while i < t.len()
        invariant
            i <= t@.len(),
            out@ == t@.take(i as int),
        decreases t@.len() - i,
    {
        push_char(&mut out, t[i]);
        i = i + 1;
        assert(out@ =~= t@.take(i as int));
    }
    assert(t@.take(t@.len() as int) =~= t@);
    out
}

/// The id a package gets for a level of this name.
pub fn stable_level_id(name: &str) -> (res: String)
    ensures
        res@ == spec_stable_level_id(name@),
{
    let t = trimmed_slug(name, '.');
    let mut out = String::new();
    push_str(&mut out, "author.level.");
    let ghost prefix = out@;
    assert(prefix =~= "author.level."@);
    assert(t@.skip(0) =~= t@);
    let mut i: usize = 0;
    while i < t.len()
        invariant
            i <= t@.len(),
            prefix == "author.level."@,
            out@ + collapse_dots(t@.skip(i as int)) == prefix + collapse_dots(t@),
        decreases t@.len() - i,
    {
        let ghost rest = t@.skip(i as int);
        if i + 1 < t.len() && t[i] == '.' && t[i + 1] == '.' {
            assert(rest.skip(2) =~= t@.skip(i + 2));
            assert(out@.push('.') + collapse_dots(rest.skip(2)) =~= out@ + (seq!['.']
                + collapse_dots(rest.skip(2))));
            push_char(&mut out, '.');
            i = i + 2;
        } else {
            let c = t[i];
            assert(rest.skip(1) =~= t@.skip(i + 1));
            assert(rest[0] == c);
            assert(out@.push(c) + collapse_dots(rest.skip(1)) =~= out@ + (seq![c] + collapse_dots(
                rest.skip(1),
            )));
            push_char(&mut out, c);
            i = i + 1;
        }
    }
    assert(t@.skip(i as int) =~= Seq::<char>::empty());
    assert(out@ + collapse_dots(Seq::<char>::empty()) =~= out@);
    out
}

} // verus!
