use codex_tamer::digest::ContentDigest;
use codex_tamer::errors::{app_server_error, Failure};
use codex_tamer::json::{serialized_json_bytes, Json};
use codex_tamer::parse::parse_json;
use codex_tamer::paths::{join_path, parent_path, same_path};
use codex_tamer::text::{
    after_prefix, decimal_text, digits_text, same_bytes, same_text, starts_with, tail_from,
};
use codex_tamer::turns::overlap::{
    overlap_hash_base, random_overlap_hash_base, replayed_prefix_len, rolling_overlap_candidate,
};
use codex_tamer::words::{
    contains, parse_u64, rsplit_once, split_words, text_before, trim,
};
use serde_json::Value;
use std::path::Path;

fn all_characters() -> String {
    let mut text: String = (0u32..0x80).filter_map(char::from_u32).collect();
    text.push_str("é\u{85}\u{2028}\u{ffff}😀");
    text
}

#[test]
fn json_text_is_what_the_serializer_writes() {
    for text in [
        "null",
        "true",
        "false",
        "-12",
        "18446744073709551615",
        "1.5e300",
        "\"\"",
        "[]",
        "{}",
        r#"[1, [2, {"a": null}], "x\ny"]"#,
        r#"{"a": {"b": [true, false]}, "c": "\"\\/\u0001"}"#,
    ] {
        let value: Value = serde_json::from_str(text).unwrap();
        let json = parse_json(text).unwrap();
        assert_eq!(json.to_text(), value.to_string());
        assert_eq!(serialized_json_bytes(&json), value.to_string().len());
    }
}

#[test]
fn json_strings_are_escaped_like_the_serializer_escapes_them() {
    let text = all_characters();
    let json = Json::string(&text);
    assert_eq!(json.to_text(), Value::String(text.clone()).to_string());
    assert_eq!(Json::string("\u{1f}\u{7f}\"").to_text(), "\"\\u001f\u{7f}\\\"\"");
    let object = Json::object().with(&text, Json::Null);
    assert_eq!(
        object.to_text(),
        format!("{{{}:null}}", serde_json::to_string(&text).unwrap())
    );
}

#[test]
fn json_members_are_replaced_in_place_or_added_at_the_end() {
    let mut object = Json::object()
        .with("a", Json::integer(1))
        .with("b", Json::integer(2));
    object.set("a", Json::integer(-3));
    object.set("c", Json::Bool(true));
    assert_eq!(object.to_text(), r#"{"a":-3,"b":2,"c":true}"#);
    assert_eq!(object.get("b").and_then(|b| b.as_i64()), Some(2));
    assert!(object.get("d").is_none());
    assert!(object.field("d").is_null());
    assert!(object.field("a").field("x").is_null());
    let mut null = Json::Null;
    null.set("k", Json::string("v"));
    assert!(null.is_object());
    assert!(null.field("k").is_text("v"));
    assert!(!null.field("k").is_text("V"));
    let copy = object.duplicate();
    assert_eq!(copy.to_text(), object.to_text());
    assert_eq!(Json::integer(i64::MIN).as_i64(), Some(i64::MIN));
    assert_eq!(Json::string("x").as_str(), Some("x"));
    assert!(Json::Null.as_array().is_none());
}

#[test]
fn numbers_are_written_in_decimal() {
    for n in [0i64, 9, 10, 100, -1, i64::MAX, i64::MIN] {
        assert_eq!(decimal_text(n), n.to_string());
    }
    assert_eq!(digits_text(u64::MAX), u64::MAX.to_string());
}

#[test]
fn texts_are_told_apart_and_cut_at_characters() {
    assert!(same_text("é", "é"));
    assert!(!same_text("e", "é"));
    assert!(same_bytes(b"ab", b"ab"));
    assert!(!same_bytes(b"ab", b"abc"));
    assert!(starts_with("héllo", "hé"));
    assert!(!starts_with("h", "hé"));
    assert!(!starts_with("hello", "hé"));
    assert_eq!(after_prefix("héllo", "hé"), "llo");
    assert_eq!(tail_from("héllo", 1), "éllo");
    assert_eq!(tail_from("héllo", 2), "");
    assert_eq!(tail_from("héllo", 3), "llo");
    assert_eq!(tail_from("héllo", 6), "");
    assert_eq!(tail_from("héllo", 7), "");
}

#[test]
fn white_space_is_that_of_unicode() {
    for n in 0..=0x10ffffu32 {
        if let Some(c) = char::from_u32(n) {
            if c.is_whitespace() || n < 0x3100 {
                let text = c.to_string();
                assert_eq!(trim(&text), text.trim(), "{n:x}");
            }
        }
    }
    assert_eq!(trim("\u{a0} a b \n"), "a b");
    assert_eq!(trim(" \t"), "");
    assert_eq!(split_words("  a\tbc \u{2003}d"), vec!["a", "bc", "d"]);
    assert!(split_words(" \n").is_empty());
}

#[test]
fn numbers_are_read_like_the_standard_library_reads_them() {
    for text in [
        "", "+", "-", "0", "+0", "007", "-1", "1a", "٣", "18446744073709551615",
        "18446744073709551616", "99999999999999999999999", " 1", "+18446744073709551615", "++1",
    ] {
        assert_eq!(parse_u64(text), text.parse::<u64>().ok(), "{text}");
    }
}

#[test]
fn parts_are_found_in_texts() {
    assert!(contains("an experimentalApi thing", "experimentalApi"));
    assert!(contains("abc", ""));
    assert!(contains("abc", "bc"));
    assert!(!contains("abc", "abcd"));
    assert!(!contains("aab", "aba"));
    assert_eq!(rsplit_once("a/b/c", '/'), Some(("a/b", "c")));
    assert_eq!(rsplit_once("é/", '/'), Some(("é", "")));
    assert_eq!(rsplit_once("abc", '/'), None);
    for (a, b) in [("a", "b"), ("", "a"), ("a", "aa"), ("z", "é"), ("\u{ffff}", "😀")] {
        assert!(text_before(a, b));
        assert!(!text_before(b, a));
        assert!(a < b);
    }
    assert!(!text_before("same", "same"));
}

#[test]
fn paths_are_handled_like_the_standard_library_handles_them() {
    let paths = [
        "", "/", "//", ".", "./", "..", "a", "a/", "/a", "/a/", "a/b", "a//b", "a/./b", "./a",
        "./a/b", "/a/b/", "/a/./", "/./a", "a/..", "../a", "/.", "/..", ".a", "./.", "a/.",
        "/a/b/./.", "é/ü", "..a/b",
    ];
    for a in paths {
        let expected = Path::new(a)
            .parent()
            .map(|parent| parent.to_str().unwrap().to_string());
        assert_eq!(parent_path(a), expected, "parent of `{a}`");
        let joined = Path::new(a).join("x.json");
        assert_eq!(join_path(a, "x.json"), joined.to_str().unwrap(), "`{a}`");
        for b in paths {
            assert_eq!(
                same_path(a, b),
                Path::new(a) == Path::new(b),
                "`{a}` and `{b}`"
            );
        }
    }
}

#[test]
fn failures_are_rendered_from_the_outside_in() {
    let failure = Failure::new("cause").context("step").context("whole");
    assert_eq!(failure.chain, vec!["whole", "step", "cause"]);
    assert_eq!(failure.render(), "whole: step: cause");
    assert_eq!(failure.duplicate().chain, failure.chain);
    assert_eq!(Failure { chain: Vec::new() }.render(), "");
    assert_eq!(app_server_error("m").message, "m");
}

#[test]
fn digests_stand_for_texts() {
    let mut digest = ContentDigest::new();
    assert!(digest.matches(""));
    digest.append("par");
    digest.append("tial é");
    assert!(digest.matches("partial é"));
    assert!(!digest.matches("partial e"));
    assert!(!digest.matches("par"));
}

#[test]
fn overlaps_are_the_longest_and_end_between_characters() {
    assert_eq!(replayed_prefix_len("", ""), 0);
    assert_eq!(replayed_prefix_len("abc", ""), 0);
    assert_eq!(replayed_prefix_len("", "abc"), 0);
    assert_eq!(replayed_prefix_len("xabab", "abab"), 4);
    assert_eq!(replayed_prefix_len("xab", "abab"), 2);
    assert_eq!(replayed_prefix_len("aaa", "aaaaa"), 3);
    assert_eq!(replayed_prefix_len("hé", "é!"), 2);
    // The last byte of one character is not the first of another.
    assert_eq!(replayed_prefix_len("a\u{c9}", "\u{89}"), 0);
    assert_eq!(replayed_prefix_len("abc", "xyz"), 0);
}

#[test]
fn overlap_candidates_are_never_too_short() {
    let texts = ["", "a", "ab", "aba", "abab", "bababa", "éaé", "aé", "é"];
    for existing in texts {
        for replayed in texts {
            let exact = replayed_prefix_len(existing, replayed);
            for base in [1u128, 2, 257, random_overlap_hash_base()] {
                assert!(rolling_overlap_candidate(existing, replayed, base) >= exact);
            }
        }
    }
    assert_eq!(overlap_hash_base(0), 257);
    assert_eq!(overlap_hash_base(300), 301);
    assert_eq!(overlap_hash_base(u64::MAX), u64::MAX as u128);
    assert_eq!(random_overlap_hash_base() % 2, 1);
}
