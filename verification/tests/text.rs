use twba_downloader::decimal::read_u32;
use twba_downloader::text::{
    chars_eq, count_of, find_in, from_chars, includes, index_after_last, matches_at, split_lines,
    subvec, to_chars, trimmed, trimmed_by, without_all, without_prefix, Cut,
};

fn chars(s: &str) -> Vec<char> {
    s.chars().collect()
}

fn text(v: &Vec<char>) -> String {
    v.iter().collect()
}

#[test]
fn chars_and_strings_convert_both_ways() {
    assert_eq!(to_chars("a\u{e9}b\u{1F600}"), vec!['a', '\u{e9}', 'b', '\u{1F600}']);
    assert_eq!(from_chars(&vec!['a', '\u{e9}', 'b']), "a\u{e9}b");
    assert_eq!(from_chars(&Vec::new()), "");
    assert_eq!(to_chars(""), Vec::<char>::new());
}

#[test]
fn chars_eq_compares_contents() {
    assert!(chars_eq(&chars("abc"), &chars("abc")));
    assert!(!chars_eq(&chars("abc"), &chars("abd")));
    assert!(!chars_eq(&chars("abc"), &chars("ab")));
    assert!(chars_eq(&chars(""), &chars("")));
}

#[test]
fn whitespace_is_what_std_calls_whitespace() {
    let mut n: u32 = 0;
    while n <= 0x10FFFF {
        if let Some(c) = char::from_u32(n) {
            assert_eq!(Cut::Whitespace.cuts(c), c.is_whitespace(), "U+{:04X}", n);
        }
        n += 1;
    }
}

#[test]
fn cut_char_takes_only_that_char() {
    assert!(Cut::Char('"').cuts('"'));
    assert!(!Cut::Char('"').cuts('\''));
    assert!(!Cut::Char(',').cuts(' '));
}

#[test]
fn trimmed_agrees_with_std_trim() {
    for s in ["", " ", "  a b  ", "\t\r\nx\n", "x", " \u{3000}y\u{a0}", "a  ", "  a"] {
        assert_eq!(text(&trimmed(&chars(s))), s.trim(), "{:?}", s);
    }
}

#[test]
fn trimmed_by_char_agrees_with_std_trim_matches() {
    for s in ["", "\"", "\"\"", "\"a\"", "\"\"a\"b\"\"", "a\"", "a", ",9.009,", ",,"] {
        assert_eq!(text(&trimmed_by(&chars(s), Cut::Char('"'))), s.trim_matches('"'), "{:?}", s);
        assert_eq!(text(&trimmed_by(&chars(s), Cut::Char(','))), s.trim_matches(','), "{:?}", s);
    }
}

#[test]
fn split_lines_agrees_with_std_lines() {
    for s in [
        "",
        "\n",
        "a",
        "a\n",
        "a\nb",
        "a\r\nb\r\n",
        "a\r",
        "a\r\n\r\n",
        "\r\n",
        "a\n\nb\n\n",
        "a\rb\nc",
        "x\r\r\ny",
    ] {
        let ours: Vec<String> = split_lines(&chars(s)).iter().map(text).collect();
        let theirs: Vec<String> = s.lines().map(str::to_string).collect();
        assert_eq!(ours, theirs, "{:?}", s);
    }
}

#[test]
fn find_in_gives_the_first_index() {
    assert_eq!(find_in(&chars("abcabc"), &chars("bc"), 0), Some(1));
    assert_eq!(find_in(&chars("abcabc"), &chars("bc"), 2), Some(4));
    assert_eq!(find_in(&chars("abcabc"), &chars("bc"), 5), None);
    assert_eq!(find_in(&chars("abc"), &chars("abcd"), 0), None);
    assert_eq!(find_in(&chars("abc"), &chars("c"), 0), Some(2));
    assert_eq!(find_in(&chars("abc"), &chars("x"), 0), None);
    assert_eq!(find_in(&chars("aaa"), &chars("aa"), 1), Some(1));
    assert_eq!(find_in(&chars(""), &chars("a"), 0), None);
}

#[test]
fn includes_agrees_with_std_contains() {
    for (s, p) in [("1-muted.ts", "-muted"), ("1-unmuted.ts", "-muted"), ("", "x"), ("xx", "x")] {
        assert_eq!(includes(&chars(s), &chars(p)), s.contains(p), "{:?} {:?}", s, p);
    }
}

#[test]
fn matches_at_checks_one_place() {
    assert!(matches_at(&chars("#EXTINF:1"), &chars("#EXTINF:"), 0));
    assert!(!matches_at(&chars(" #EXTINF:1"), &chars("#EXTINF:"), 0));
    assert!(matches_at(&chars(" #EXTINF:1"), &chars("#EXTINF:"), 1));
    assert!(!matches_at(&chars("ab"), &chars("abc"), 0));
    assert!(!matches_at(&chars("ab"), &chars("b"), 5));
}

#[test]
fn without_prefix_strips_or_gives_none() {
    assert_eq!(without_prefix(&chars("#EXTINF:9.0,"), &chars("#EXTINF:")), Some(chars("9.0,")));
    assert_eq!(without_prefix(&chars("x#EXTINF:9.0,"), &chars("#EXTINF:")), None);
    assert_eq!(without_prefix(&chars("ab"), &chars("ab")), Some(chars("")));
}

#[test]
fn without_all_agrees_with_std_replace() {
    for (s, p) in [
        ("1-muted", "-muted"),
        ("1-unmuted", "-muted"),
        ("1-unmuted", "-unmuted"),
        ("aaa", "aa"),
        ("abab", "ab"),
        ("-mu-mutedted", "-muted"),
        ("", "x"),
        ("abc", ""),
    ] {
        assert_eq!(text(&without_all(&chars(s), &chars(p))), s.replace(p, ""), "{:?} {:?}", s, p);
    }
}

#[test]
fn subvec_takes_a_range() {
    assert_eq!(subvec(&chars("hello"), 1, 3), chars("el"));
    assert_eq!(subvec(&chars("hello"), 5, 5), chars(""));
    assert_eq!(subvec(&chars("hello"), 0, 5), chars("hello"));
}

#[test]
fn index_after_last_and_count() {
    assert_eq!(index_after_last(&chars("a/b/c"), '/'), 4);
    assert_eq!(index_after_last(&chars("abc"), '/'), 0);
    assert_eq!(index_after_last(&chars("abc/"), '/'), 4);
    assert_eq!(count_of(&chars("a-b-c"), '-'), 2);
    assert_eq!(count_of(&chars("abc"), '-'), 0);
}

#[test]
fn read_u32_agrees_with_std_parse() {
    for s in [
        "0", "7", "42", "+5", "-1", "", "+", "-", "4294967295", "4294967296", "99999999999999999999",
        "12a", " 1", "1 ", "00012", "++1", "1+", "\u{661}",
    ] {
        assert_eq!(read_u32(&chars(s)), s.parse::<u32>().ok(), "{:?}", s);
    }
}
