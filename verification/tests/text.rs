use omni_stream::decimal::{parse_port, push_decimal};
use omni_stream::frame::frame;
use omni_stream::rewrite::{rewrite, Rule};
use omni_stream::text::{
    chars_of, contains, ends_with, find, pieces, replace, same, space, string_of, trimmed,
    truncate_for_error, without_leading, without_trailing,
};

fn replaced(s: &str, from: &str, to: &str) -> String {
    string_of(&replace(&chars_of(s), &chars_of(from), &chars_of(to)))
}

#[test]
fn replace_agrees_with_std() {
    let cases = [
        ("", "a", "b"),
        ("aaa", "aa", "b"),
        ("aXbXc", "X", ""),
        ("abab", "ab", "abab"),
        ("http://h/http://", "http://", "ws://"),
        ("none of it", "zz", "y"),
        ("käse/käse", "ä", "ae"),
        ("aab", "ab", ""),
    ];
    for (s, from, to) in cases {
        assert_eq!(replaced(s, from, to), s.replace(from, to));
    }
}

#[test]
fn replace_takes_matches_from_the_left() {
    assert_eq!(replaced("aaaa!", "aaa", "b"), "ba!");
    assert_eq!(replaced("aabb", "ab", ""), "ab");
}

#[test]
fn find_gives_the_first_position() {
    let s = chars_of("héllo hello");
    assert_eq!(find(&s, &chars_of("llo")), Some(2));
    assert_eq!(find(&s, &chars_of("hello")), Some(6));
    assert_eq!(find(&s, &chars_of("xyz")), None);
    assert_eq!(find(&s, &chars_of("")), Some(0));
}

#[test]
fn contains_and_ends_with() {
    assert!(contains("text/html; charset=utf-8", "html"));
    assert!(!contains("text/plain", "html"));
    assert!(ends_with("a/b.js", ".js"));
    assert!(!ends_with("js", ".js"));
    assert!(ends_with("", ""));
    assert!(same("abc", "abc"));
    assert!(!same("abc", "abd"));
    assert!(!same("abc", "ab"));
}

#[test]
fn slashes_are_trimmed_on_one_side() {
    assert_eq!(without_leading("///a/b/", '/'), "a/b/");
    assert_eq!(without_leading("///", '/'), "");
    assert_eq!(without_trailing("http://h///", '/'), "http://h");
    assert_eq!(without_trailing("/", '/'), "");
    assert_eq!(without_trailing("abc", '/'), "abc");
}

#[test]
fn whitespace_is_that_of_unicode() {
    for u in 0..=0x10ffffu32 {
        if let Some(c) = char::from_u32(u) {
            assert_eq!(space(c), c.is_whitespace(), "{u:x}");
        }
    }
}

#[test]
fn trimmed_agrees_with_std() {
    for s in ["", " ", " a b ", "\t\u{3000}x\u{85}\n", "x"] {
        assert_eq!(string_of(&trimmed(&chars_of(s))), s.trim());
    }
}

#[test]
fn pieces_agree_with_std() {
    for s in ["", ",", "a,b", ",a,,b,", "abc"] {
        let got: Vec<String> = pieces(s, ',').iter().map(string_of).collect();
        let want: Vec<String> = s.split(',').map(|p| p.to_string()).collect();
        assert_eq!(got, want);
    }
}

#[test]
fn truncation_keeps_four_hundred_characters() {
    let long: String = "é".repeat(401);
    assert_eq!(truncate_for_error(&long), "é".repeat(400));
    assert_eq!(truncate_for_error("short"), "short");
    let exact = "x".repeat(400);
    assert_eq!(truncate_for_error(&exact), exact);
    let once = truncate_for_error(&long);
    assert_eq!(truncate_for_error(&once), once);
}

#[test]
fn decimals_are_written_as_std_writes_them() {
    for n in [0u128, 7, 10, 99, 100, 1768000000000, u64::MAX as u128, u128::MAX] {
        let mut s = String::from("n=");
        push_decimal(&mut s, n);
        assert_eq!(s, format!("n={n}"));
    }
}

#[test]
fn ports_are_read_as_std_reads_them() {
    for s in [
        "", "+", "-", "0", "00080", "+80", "-1", "65535", "65536", "3000 ", "12a", "99999999999999",
        "１２", "++1", "+65535",
    ] {
        assert_eq!(parse_port(s), s.parse::<u16>().ok(), "{s}");
    }
}

#[test]
fn every_port_reads_back() {
    for p in [0u16, 1, 80, 3000, 10000, 65535] {
        let mut s = String::new();
        push_decimal(&mut s, p as u128);
        assert_eq!(parse_port(&s), Some(p));
    }
}

#[test]
fn frames_count_bytes() {
    assert_eq!(frame("{}"), "~m~2~m~{}");
    assert_eq!(frame(""), "~m~0~m~");
    assert_eq!(frame("é⚠"), "~m~5~m~é⚠");
    assert_eq!(frame("0123456789"), "~m~10~m~0123456789");
}

#[test]
fn frames_are_read_by_their_length() {
    let stream = (frame("é⚠{}") + "~m~9").into_bytes();
    assert!(stream.starts_with(b"~m~7~m~"));
    assert_eq!(&stream[7..14], "é⚠{}".as_bytes());
}

#[test]
fn streams_of_frames_can_be_told_apart() {
    let a = frame("ab") + &frame("c");
    let b = frame("a") + &frame("bc");
    assert_ne!(a, b);
    assert!(a.starts_with("~m~2~m~ab"));
}

#[test]
fn rules_run_in_order() {
    let rules = vec![
        Rule { from: "a".to_string(), to: "b".to_string() },
        Rule { from: "b".to_string(), to: "c".to_string() },
    ];
    assert_eq!(string_of(&rewrite(chars_of("ab-d"), &rules)), "cc-d");
    assert_eq!(string_of(&rewrite(chars_of("xyz"), &rules)), "xyz");
    assert_eq!(string_of(&rewrite(chars_of("xyz"), &Vec::new())), "xyz");
}
