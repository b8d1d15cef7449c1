use arxos::text::{
    after_last, before, contains, count_inked, ends_with, find_after, following, join, lines, replace,
    rsplit_once, split_char, split_once, split_text, split_words, starts_with, strip_prefix, to_lower,
    trim, trim_of, trim_start_of, Class,
};

fn strings(v: &[&str]) -> Vec<String> {
    v.iter().map(|s| s.to_string()).collect()
}

#[test]
fn words_are_split_at_white_space() {
    assert_eq!(split_words("  a bc\td\n"), strings(&["a", "bc", "d"]));
    assert_eq!(split_words(" \n"), Vec::<String>::new());
    for s in ["", " a", "a\u{a0}b", "x\u{2028}y z", "\u{85}q", "a\u{200b}b"] {
        let want: Vec<String> = s.split_whitespace().map(String::from).collect();
        assert_eq!(split_words(s), want, "{s:?}");
    }
}

#[test]
fn trimming_takes_all_white_space() {
    assert_eq!(trim(" \u{3000}x y\n"), "x y");
    for s in ["", "  ", "a", "\u{feff}a ", "\u{1680}b\u{2009}", "\u{180e}c"] {
        assert_eq!(trim(s), s.trim(), "{s:?}");
    }
    assert_eq!(trim_of(Class::Quote, "\"Arx\"\"OS\""), "Arx\"\"OS");
    assert_eq!(trim_of(Class::Bracket, "[::1]"), "::1");
    assert_eq!(trim_start_of(Class::ColonOrSpace, ": : Intel: x "), "Intel: x ");
}

#[test]
fn lines_end_at_line_feeds() {
    for s in ["", "a", "a\n", "a\nb", "a\r\nb\r\n", "\n\n", "a\n\nb", "a\rb\n", "x\r"] {
        let want: Vec<String> = s.lines().map(String::from).collect();
        assert_eq!(lines(s), want, "{s:?}");
    }
}

#[test]
fn pieces_stand_between_separators() {
    assert_eq!(split_char("a|b||c", '|'), strings(&["a", "b", "", "c"]));
    assert_eq!(split_char("", '|'), strings(&[""]));
    assert_eq!(split_text("users:xpid=12pid=3", "pid="), strings(&["users:x", "12", "3"]));
    assert_eq!(split_text("aaa", "aa"), strings(&["", "a"]));
    assert_eq!(split_once("eth0: 1 2", ':'), Some(("eth0".to_string(), " 1 2".to_string())));
    assert_eq!(split_once("eth0", ':'), None);
    assert_eq!(rsplit_once("[::1]:22", ':'), Some(("[::1]".to_string(), "22".to_string())));
}

#[test]
fn searching_finds_the_first_or_the_last() {
    assert!(contains("x Caught signal 11", "Caught signal"));
    assert!(!contains("Caught", "Caught signal"));
    assert!(starts_with("wg0", "wg"));
    assert!(!starts_with("w", "wg"));
    assert!(ends_with("6.1-arxos-rt", "-arxos-rt"));
    assert_eq!(strip_prefix("nameserver 1.1.1.1", "nameserver"), Some(" 1.1.1.1".to_string()));
    assert_eq!(after_last("a=1 a=2", "a="), Some("2".to_string()));
    assert_eq!(after_last("aaa", "aa"), Some("".to_string()));
    assert_eq!(after_last("b", "a="), None);
    assert_eq!(find_after("A=1\nB=2\nB=3\n", "B="), Some("2".to_string()));
    assert_eq!(find_after("A=1", "C="), None);
    assert_eq!(following("default via 10.0.0.1 dev eth0", "dev"), "eth0");
    assert_eq!(following("default dev", "dev"), "");
    assert_eq!(following("default", "dev"), "");
}

#[test]
fn joining_and_replacing() {
    assert_eq!(join(&strings(&["a", "b", "c"]), ", "), "a, b, c");
    assert_eq!(join(&[], ", "), "");
    assert_eq!(replace("a*running b*running", "*running", ""), "a b");
    assert_eq!(replace("x\ny\n", "\n", "/"), "x/y/");
    assert_eq!(to_lower("WEB-Ä9"), "web-Ä9");
}

#[test]
fn texts_are_ordered_by_their_characters() {
    assert!(before("a", "b"));
    assert!(before("a", "aa"));
    assert!(before("", "a"));
    assert!(!before("a", "a"));
    assert!(!before("b", "aa"));
    assert!(before("Z", "a"));
    assert!(before("é", "\u{10000}"));
}

#[test]
fn only_lines_with_ink_are_counted() {
    assert_eq!(count_inked("a\n\n  \nb\n"), 2);
    assert_eq!(count_inked(""), 0);
}
