//! Decimal integers in text: the grammar `str::parse` accepts for integer types, and the
//! digits `Display` writes for them.
use vstd::prelude::*;

use crate::strutil::{chars_of, push_char};

verus! {

pub open spec fn is_digit(c: char) -> bool {
    '0' <= c && c <= '9'
}

pub open spec fn digit_val(c: char) -> int {
    c as int - '0' as int
}

pub open spec fn digit_char(d: int) -> char {
    (d + 48) as char
}

pub open spec fn all_digits(s: Seq<char>) -> bool {
    forall|i: int| 0 <= i < s.len() ==> #[trigger] is_digit(s[i])
}

/// Value of a sequence of decimal digits, most significant first.
pub open spec fn digits_value(s: Seq<char>) -> int
    decreases s.len(),
{
    if s.len() == 0 {
        0
    } else {
        digits_value(s.drop_last()) * 10 + digit_val(s.last())
    }
}

/// A non-empty run of ASCII digits, and its value.
pub open spec fn spec_parse_digits(s: Seq<char>) -> Option<int> {
    if s.len() > 0 && all_digits(s) {
        Some(digits_value(s))
    } else {
        None
    }
}

/// The integer `str::parse` reads from `s` before the range check of the target type: an
/// optional `+` (or, for a signed type, `-`) followed by at least one ASCII digit.
pub open spec fn spec_parse_int(s: Seq<char>, signed: bool) -> Option<int> {
    if s.len() > 1 && s[0] == '+' {
        spec_parse_digits(s.skip(1))
    } else if signed && s.len() > 1 && s[0] == '-' {
        match spec_parse_digits(s.skip(1)) {
            Some(v) => Some(-v),
            None => None,
        }
    } else {
        spec_parse_digits(s)
    }
}

/// `spec_parse_int` restricted to the range `lo..=hi` of a target type.
pub open spec fn spec_parse_in_range(s: Seq<char>, signed: bool, lo: int, hi: int) -> Option<int> {
    match spec_parse_int(s, signed) {
        Some(v) => if lo <= v && v <= hi {
            Some(v)
        } else {
            None
        },
        None => None,
    }
}

/// The digits of a natural number, without leading zeros.
pub open spec fn spec_format_nat(n: nat) -> Seq<char>
    decreases n,
{
    if n < 10 {
        seq![digit_char(n as int)]
    } else {
        spec_format_nat(n / 10).push(digit_char((n % 10) as int))
    }
}

/// The text `Display` writes for an integer.
pub open spec fn spec_format_int(v: int) -> Seq<char> {
    if v < 0 {
        seq!['-'] + spec_format_nat((-v) as nat)
    } else {
        spec_format_nat(v as nat)
    }
}

pub proof fn lemma_digits_value_prefix(s: Seq<char>, i: int)
    requires
        all_digits(s),
        0 <= i <= s.len(),
    ensures
        0 <= digits_value(s.take(i)) <= digits_value(s),
    decreases s.len() - i,
{
    if i < s.len() {
        lemma_digits_value_prefix(s, i + 1);
        assert(s.take(i + 1).drop_last() =~= s.take(i));
        assert(is_digit(s[i]));
    } else {
        assert(s.take(i) =~= s);
        lemma_digits_value_nonneg(s);
    }
}

pub proof fn lemma_digits_value_nonneg(s: Seq<char>)
    requires
        all_digits(s),
    ensures
        digits_value(s) >= 0,
    decreases s.len(),
{
    if s.len() > 0 {
        assert(is_digit(s[s.len() - 1]));
        lemma_digits_value_nonneg(s.drop_last());
    }
}

proof fn lemma_digit_char(d: int)
    requires
        0 <= d < 10,
    ensures
        is_digit(digit_char(d)),
        digit_val(digit_char(d)) == d,
{
    assert(((d + 48) as char) as int == d + 48) by {
        vstd::utf8::char_u32_cast((d + 48) as char, (d + 48) as u32);
    }
}

/// Formatting then reading back gives the same number.
pub proof fn lemma_format_nat_parses(n: nat)
    ensures
        spec_format_nat(n).len() > 0,
        all_digits(spec_format_nat(n)),
        digits_value(spec_format_nat(n)) == n,
        spec_parse_digits(spec_format_nat(n)) == Some(n as int),
    decreases n,
{
    let s = spec_format_nat(n);
    if n < 10 {
        lemma_digit_char(n as int);
        assert(s.drop_last() =~= Seq::<char>::empty());
        assert(digits_value(s.drop_last()) == 0);
        assert(s.last() == digit_char(n as int));
        assert(digits_value(s) == n);
    } else {
        lemma_format_nat_parses(n / 10);
        lemma_digit_char((n % 10) as int);
        assert(s.drop_last() =~= spec_format_nat(n / 10));
        assert(s.last() == digit_char((n % 10) as int));
        assert(digits_value(s) == (n / 10) * 10 + n % 10);
        assert forall|i: int| 0 <= i < s.len() implies #[trigger] is_digit(s[i]) by {
            if i < s.len() - 1 {
                assert(s[i] == spec_format_nat(n / 10)[i]);
            }
        }
    }
}

/// A formatted integer reads back as itself, as signed or (when non-negative) unsigned.
pub proof fn lemma_format_int_parses(v: int)
    ensures
        spec_parse_int(spec_format_int(v), true) == Some(v),
        v >= 0 ==> spec_parse_int(spec_format_int(v), false) == Some(v),
{
    if v < 0 {
        let d = spec_format_nat((-v) as nat);
        lemma_format_nat_parses((-v) as nat);
        assert((seq!['-'] + d).skip(1) =~= d);
        assert((seq!['-'] + d)[0] == '-');
    } else {
        let d = spec_format_nat(v as nat);
        lemma_format_nat_parses(v as nat);
        assert(is_digit(d[0]));
    }
}

/// Reads the digits `s[start..]` as a value no larger than `max`; `None` when a character is
/// not a digit, when there are no digits, or when the value exceeds `max`.
pub fn parse_digits_bounded(s: &[char], start: usize, max: u64) -> (res: Option<u64>)
    requires
        start <= s@.len(),
        max >= 9,
    ensures
        spec_parse_digits(s@.skip(start as int)) matches Some(v) ==> v >= 0,
        res == (match spec_parse_digits(s@.skip(start as int)) {
            Some(v) => if v <= max {
                Some(v as u64)
            } else {
                None::<u64>
            },
            None => None::<u64>,
        }),
{
    let n = s.len();
    let ghost t = s@.skip(start as int);
    proof {
        if all_digits(t) {
            lemma_digits_value_nonneg(t);
        }
    }
    if start == n {
        return None;
    }
    let mut acc: u64 = 0;
    let mut i: usize = start;
    while i < n
        invariant
            start < n,
            n == s@.len(),
            start <= i <= n,
            t == s@.skip(start as int),
            all_digits(t.take(i - start)),
            acc == digits_value(t.take(i - start)),
            acc <= max,
            max >= 9,
        decreases n - i,
    {
        let c = s[i];
        if !(c >= '0' && c <= '9') {
            assert(t[i - start] == c);
            assert(!is_digit(t[i - start]));
            return None;
        }
        let d: u64 = (c as u32 - '0' as u32) as u64;
        assert(t.take(i - start + 1).drop_last() =~= t.take(i - start));
        assert(t[i - start] == c);
        if acc > (max - d) / 10 {
            assert(acc * 10 + d > max) by (nonlinear_arith)
                requires
                    acc > (max - d) / 10,
                    d <= 9,
                    max >= 9,
            ;
            proof {
                if all_digits(t) {
                    lemma_digits_value_prefix(t, i - start + 1);
                }
            }
            return None;
        }
        assert(acc * 10 + d <= max) by (nonlinear_arith)
            requires
                acc <= (max - d) / 10,
                d <= max,
        ;
        acc = acc * 10 + d;
        i = i + 1;
        assert forall|j: int| 0 <= j < i - start implies #[trigger] is_digit(t.take(i - start)[j]) by {
            if j < i - start - 1 {
                assert(t.take(i - start)[j] == t.take(i - start - 1)[j]);
            }
        }
    }
    assert(t.take(n - start) =~= t);
    Some(acc)
}

/// `spec_parse_int` for an unsigned type whose largest value is `max`.
pub open spec fn spec_parse_unsigned(s: Seq<char>, max: int) -> Option<int> {
    spec_parse_in_range(s, false, 0, max)
}

/// `spec_parse_int` for a signed type with range `-min_mag..=max`.
pub open spec fn spec_parse_signed(s: Seq<char>, min_mag: int, max: int) -> Option<int> {
    spec_parse_in_range(s, true, -min_mag, max)
}

/// Reads an unsigned integer no larger than `max` from `s` as `str::parse` does.
pub fn parse_unsigned(s: &[char], max: u64) -> (res: Option<u64>)
    requires
        max >= 9,
    ensures
        res matches Some(v) ==> spec_parse_unsigned(s@, max as int) == Some(v as int),
        res is None ==> spec_parse_unsigned(s@, max as int) is None,
{
    if s.len() > 1 && s[0] == '+' {
        parse_digits_bounded(s, 1, max)
    } else {
        let r = parse_digits_bounded(s, 0, max);
        assert(s@.skip(0) =~= s@);
        proof {
            if s@.len() > 1 && s@[0] == '-' {
                assert(!is_digit(s@[0]));
            }
        }
        r
    }
}

/// Reads a signed integer in `-min_mag..=max` from `s` as `str::parse` does.
pub fn parse_signed(s: &[char], min_mag: u64, max: u64) -> (res: Option<i64>)
    requires
        max >= 9,
        min_mag >= 9,
        min_mag <= 0x4000_0000_0000_0000,
        max <= 0x4000_0000_0000_0000,
    ensures
        res matches Some(v) ==> spec_parse_signed(s@, min_mag as int, max as int) == Some(v as int),
        res is None ==> spec_parse_signed(s@, min_mag as int, max as int) is None,
{
    if s.len() > 1 && s[0] == '-' {
        match parse_digits_bounded(s, 1, min_mag) {
            Some(m) => Some(0i64 - (m as i64)),
            None => None,
        }
    } else if s.len() > 1 && s[0] == '+' {
        match parse_digits_bounded(s, 1, max) {
            Some(m) => Some(m as i64),
            None => None,
        }
    } else {
        assert(s@.skip(0) =~= s@);
        match parse_digits_bounded(s, 0, max) {
            Some(m) => Some(m as i64),
            None => None,
        }
    }
}

pub fn parse_u8(s: &str) -> (res: Option<u8>)
    ensures
        res matches Some(v) ==> spec_parse_unsigned(s@, 255) == Some(v as int),
        res is None ==> spec_parse_unsigned(s@, 255) is None,
{
    let c = chars_of(s);
    match parse_unsigned(c.as_slice(), 255) {
        Some(v) => Some(v as u8),
        None => None,
    }
}

pub fn parse_u16(s: &str) -> (res: Option<u16>)
    ensures
        res matches Some(v) ==> spec_parse_unsigned(s@, 65535) == Some(v as int),
        res is None ==> spec_parse_unsigned(s@, 65535) is None,
{
    let c = chars_of(s);
    match parse_unsigned(c.as_slice(), 65535) {
        Some(v) => Some(v as u16),
        None => None,
    }
}

pub fn parse_u32(s: &str) -> (res: Option<u32>)
    ensures
        res matches Some(v) ==> spec_parse_unsigned(s@, 4294967295) == Some(v as int),
        res is None ==> spec_parse_unsigned(s@, 4294967295) is None,
{
    let c = chars_of(s);
    match parse_unsigned(c.as_slice(), 4294967295) {
        Some(v) => Some(v as u32),
        None => None,
    }
}

pub fn parse_u64(s: &str) -> (res: Option<u64>)
    ensures
        res matches Some(v) ==> spec_parse_unsigned(s@, u64::MAX as int) == Some(v as int),
        res is None ==> spec_parse_unsigned(s@, u64::MAX as int) is None,
{
    let c = chars_of(s);
    parse_unsigned(c.as_slice(), u64::MAX)
}

pub fn parse_usize(s: &str) -> (res: Option<usize>)
    ensures
        res matches Some(v) ==> spec_parse_unsigned(s@, usize::MAX as int) == Some(v as int),
        res is None ==> spec_parse_unsigned(s@, usize::MAX as int) is None,
{
    let c = chars_of(s);
    match parse_unsigned(c.as_slice(), usize::MAX as u64) {
        Some(v) => Some(v as usize),
        None => None,
    }
}

pub fn parse_i16(s: &str) -> (res: Option<i16>)
    ensures
        res matches Some(v) ==> spec_parse_signed(s@, 32768, 32767) == Some(v as int),
        res is None ==> spec_parse_signed(s@, 32768, 32767) is None,
{
    let c = chars_of(s);
    match parse_signed(c.as_slice(), 32768, 32767) {
        Some(v) => Some(v as i16),
        None => None,
    }
}

pub fn parse_i32(s: &str) -> (res: Option<i32>)
    ensures
        res matches Some(v) ==> spec_parse_signed(s@, 2147483648, 2147483647) == Some(v as int),
        res is None ==> spec_parse_signed(s@, 2147483648, 2147483647) is None,
{
    let c = chars_of(s);
    match parse_signed(c.as_slice(), 2147483648, 2147483647) {
        Some(v) => Some(v as i32),
        None => None,
    }
}

fn push_nat_digits(out: &mut String, v: u64)
    ensures
        final(out)@ == old(out)@ + spec_format_nat(v as nat),
    decreases v,
{
    if v < 10 {
        push_char(out, ((v as u8) + 48) as char);
        assert(spec_format_nat(v as nat) =~= seq![digit_char(v as int)]);
    } else {
        push_nat_digits(out, v / 10);
        push_char(out, (((v % 10) as u8) + 48) as char);
        assert(spec_format_nat(v as nat) =~= spec_format_nat((v / 10) as nat).push(
            digit_char((v % 10) as int),
        ));
    }
}

/// Decimal text of an unsigned value, as `Display` writes it.
pub fn format_u64(v: u64) -> (res: String)
    ensures
        res@ == spec_format_int(v as int),
{
    let mut out = String::new();
    push_nat_digits(&mut out, v);
    out
}

/// Decimal text of a signed value, as `Display` writes it.
pub fn format_i64(v: i64) -> (res: String)
    ensures
        res@ == spec_format_int(v as int),
{
    let mut out = String::new();
    if v < 0 {
        push_char(&mut out, '-');
        push_nat_digits(&mut out, (0 - (v as i128)) as u64);
    } else {
        push_nat_digits(&mut out, v as u64);
    }
    out
}

} // verus!
