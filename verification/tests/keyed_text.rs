use aperture_kill::decimal::{
    format_i64, format_u64, parse_i16, parse_i32, parse_u16, parse_u32, parse_u64, parse_u8,
    parse_usize,
};
use aperture_kill::keyed::{
    is_whitespace, looks_keyed, parse_bool, parse_key_values, quote, split_command, trim,
};
use aperture_kill::naming::{slug, stable_level_id};

#[test]
fn decimal_parsing_follows_integer_from_str() {
    assert_eq!(parse_u8("255"), Some(255));
    assert_eq!(parse_u8("256"), None);
    assert_eq!(parse_u8("+7"), Some(7));
    assert_eq!(parse_u8("-0"), None);
    assert_eq!(parse_u8(""), None);
    assert_eq!(parse_u8("+"), None);
    assert_eq!(parse_u16("65535"), Some(65535));
    assert_eq!(parse_u32("4294967296"), None);
    assert_eq!(parse_u64("18446744073709551615"), Some(u64::MAX));
    assert_eq!(parse_usize("12"), Some(12));
    assert_eq!(parse_i16("-32768"), Some(i16::MIN));
    assert_eq!(parse_i16("32768"), None);
    assert_eq!(parse_i32("-2147483648"), Some(i32::MIN));
    assert_eq!(parse_i32("1e3"), None);
    assert_eq!(parse_i32(" 1"), None);
}

#[test]
fn decimal_formatting_matches_display() {
    assert_eq!(format_u64(0), "0");
    assert_eq!(format_u64(u64::MAX), u64::MAX.to_string());
    assert_eq!(format_i64(-42), "-42");
    assert_eq!(format_i64(i64::MIN), i64::MIN.to_string());
}

#[test]
fn formatted_numbers_parse_back() {
    for v in [0i64, 1, -1, 9, 10, -32768, 32767, 2147483647, -2147483648] {
        assert_eq!(parse_i32(&format_i64(v)), Some(v as i32));
    }
}

#[test]
fn whitespace_is_the_unicode_set() {
    for c in ['\t', '\n', '\u{b}', '\u{c}', '\r', ' ', '\u{85}', '\u{a0}', '\u{1680}', '\u{2000}', '\u{200a}', '\u{2028}', '\u{2029}', '\u{202f}', '\u{205f}', '\u{3000}'] {
        assert!(is_whitespace(c), "{c:?}");
        assert!(c.is_whitespace());
    }
    for c in ['a', '=', '"', '\u{200b}', '\u{feff}', '0'] {
        assert!(!is_whitespace(c), "{c:?}");
        assert_eq!(c.is_whitespace(), false);
    }
}

#[test]
fn key_values_read_bare_and_quoted_fields() {
    let fields = parse_key_values("id=3 path=\"world chunks/a b.wchunk\" note=\"a=b\\nquoted \\\"text\\\"\"");
    assert_eq!(fields.get("id").map(String::as_str), Some("3"));
    assert_eq!(fields.get("path").map(String::as_str), Some("world chunks/a b.wchunk"));
    assert_eq!(fields.get("note").map(String::as_str), Some("a=b\nquoted \"text\""));
    assert!(fields.get("missing").is_none());
}

#[test]
fn later_fields_replace_earlier_ones() {
    let fields = parse_key_values("a=1 b=2 a=3");
    assert_eq!(fields.get("a").map(String::as_str), Some("3"));
    assert_eq!(fields.get("b").map(String::as_str), Some("2"));
    assert_eq!(fields.pairs.len(), 3);
}

#[test]
fn words_without_equals_are_skipped() {
    let fields = parse_key_values("loose a b=c  d = e key=");
    assert!(!fields.contains_key("loose"));
    assert!(!fields.contains_key("a"));
    assert_eq!(fields.get("b").map(String::as_str), Some("c"));
    assert_eq!(fields.get("d").map(String::as_str), Some("e"));
    assert_eq!(fields.get("key").map(String::as_str), Some(""));
}

#[test]
fn unterminated_quote_runs_to_the_end() {
    let fields = parse_key_values("name=\"open ended\\");
    assert_eq!(fields.get("name").map(String::as_str), Some("open ended"));
}

#[test]
fn quote_escapes_and_reads_back() {
    assert_eq!(quote("plain"), "\"plain\"");
    assert_eq!(quote("a\"b\\c\nd\re\tf"), "\"a\\\"b\\\\c\\nd\\re\\tf\"");
    for value in ["", "x", "HELLO \"V4\"", "tab\there", "back\\slash", "a=b\nquoted \"text\""] {
        let line = format!("text={} other=1", quote(value));
        let fields = parse_key_values(&line);
        assert_eq!(fields.get("text").map(String::as_str), Some(value));
        assert_eq!(fields.get("other").map(String::as_str), Some("1"));
    }
}

#[test]
fn commands_split_off_and_trim() {
    assert_eq!(split_command("  chunk id=1  path=x  "), Some(("chunk".to_string(), "id=1  path=x".to_string())));
    assert_eq!(split_command("level"), Some(("level".to_string(), String::new())));
    assert_eq!(split_command(" \t "), None);
    assert_eq!(trim("\u{3000} a b \r\n"), "a b");
    assert_eq!(trim("   "), "");
}

#[test]
fn keyed_lines_are_recognized_by_their_first_word() {
    assert!(looks_keyed("x=1 y=2"));
    assert!(looks_keyed("  a=b"));
    assert!(!looks_keyed("1 2 3 a=b"));
    assert!(!looks_keyed("   "));
}

#[test]
fn flag_words() {
    for word in ["true", "1", "yes", "on"] {
        assert!(parse_bool(word));
    }
    for word in ["false", "0", "no", "off", "TRUE", ""] {
        assert!(!parse_bool(word));
    }
}

#[test]
fn level_file_names() {
    assert_eq!(slug("Meta Test Chamber"), "meta_test_chamber");
    assert_eq!(slug("  --Hello, World!--  "), "hello__world");
    assert_eq!(slug("ÅÄÖ"), "untitled_level");
    assert_eq!(slug(""), "untitled_level");
}

#[test]
fn package_ids() {
    assert_eq!(stable_level_id("V4 Test"), "author.level.v4.test");
    assert_eq!(stable_level_id("a...b"), "author.level.a..b");
    assert_eq!(stable_level_id("a....b"), "author.level.a..b");
    assert_eq!(stable_level_id("!!"), "author.level.");
    assert_eq!(stable_level_id("Cerberus"), "author.level.cerberus");
}
