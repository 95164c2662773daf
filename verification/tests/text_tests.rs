use asset_resolver::text::{
    chars_of, find_text, lowercase_chars, matches_at, prefix_before, same_text,
    strip_leading_slash, to_ascii_lower,
};

fn chars(s: &str) -> Vec<char> {
    s.chars().collect()
}

#[test]
fn chars_of_keeps_every_character() {
    assert_eq!(chars_of(""), Vec::<char>::new());
    assert_eq!(chars_of("a/b"), vec!['a', '/', 'b']);
    assert_eq!(chars_of("h\u{e9}!"), vec!['h', '\u{e9}', '!']);
}

#[test]
fn same_text_compares_whole_strings() {
    assert!(same_text("", ""));
    assert!(same_text("html", "html"));
    assert!(!same_text("html", "htm"));
    assert!(!same_text("html", "htmx"));
    assert!(!same_text("HTML", "html"));
    assert!(same_text("\u{e9}t\u{e9}", "\u{e9}t\u{e9}"));
}

#[test]
fn matches_at_checks_position_and_bounds() {
    let hay = chars("squoosh://localhost");
    let needle = chars("://");
    assert!(matches_at(&hay, &needle, 7));
    assert!(!matches_at(&hay, &needle, 6));
    assert!(!matches_at(&hay, &needle, 17));
    assert!(!matches_at(&hay, &needle, 100));
    assert!(matches_at(&hay, &Vec::new(), 19));
    assert!(!matches_at(&hay, &Vec::new(), 20));
    assert!(!matches_at(&needle, &hay, 0));
}

#[test]
fn find_text_gives_the_first_occurrence() {
    let hay = chars("a/b/c");
    let slash = chars("/");
    assert_eq!(find_text(&hay, &slash, 0), 1);
    assert_eq!(find_text(&hay, &slash, 1), 1);
    assert_eq!(find_text(&hay, &slash, 2), 3);
    assert_eq!(find_text(&hay, &slash, 4), 5);
    assert_eq!(find_text(&hay, &slash, 5), 5);
}

#[test]
fn find_text_gives_the_length_when_absent() {
    let hay = chars("abc");
    assert_eq!(find_text(&hay, &chars("x"), 0), 3);
    assert_eq!(find_text(&hay, &chars("abcd"), 0), 3);
    assert_eq!(find_text(&Vec::new(), &chars("x"), 0), 0);
    assert_eq!(find_text(&hay, &chars("a"), 7), 3);
}

#[test]
fn ascii_lowercase_leaves_other_characters() {
    assert_eq!(to_ascii_lower('A'), 'a');
    assert_eq!(to_ascii_lower('Z'), 'z');
    assert_eq!(to_ascii_lower('m'), 'm');
    assert_eq!(to_ascii_lower('@'), '@');
    assert_eq!(to_ascii_lower('['), '[');
    assert_eq!(to_ascii_lower('/'), '/');
    assert_eq!(to_ascii_lower('\u{c9}'), '\u{c9}');
    assert_eq!(lowercase_chars(&chars("Text/HTML, */*")), chars("text/html, */*"));
}

#[test]
fn prefix_before_cuts_at_the_first_stop() {
    assert_eq!(prefix_before("/a?b?c", "?"), "/a");
    assert_eq!(prefix_before("?x", "?"), "");
    assert_eq!(prefix_before("abc", "?"), "abc");
    assert_eq!(prefix_before("", "?"), "");
    assert_eq!(prefix_before("a::b::c", "::"), "a");
    assert_eq!(prefix_before("caf\u{e9};x", ";"), "caf\u{e9}");
}

#[test]
fn prefix_before_an_empty_stop_is_empty() {
    assert_eq!(prefix_before("abc", ""), "");
    assert_eq!(prefix_before("", ""), "");
}

#[test]
fn one_leading_slash_is_stripped() {
    assert_eq!(strip_leading_slash("/a/b"), "a/b");
    assert_eq!(strip_leading_slash("//a"), "/a");
    assert_eq!(strip_leading_slash("a/b"), "a/b");
    assert_eq!(strip_leading_slash("/"), "");
    assert_eq!(strip_leading_slash(""), "");
    assert_eq!(strip_leading_slash("/\u{e9}"), "\u{e9}");
}
