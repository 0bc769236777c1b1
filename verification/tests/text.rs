use multicall::text::{fragments, is_cut, is_whitespace, split, trim, words, Cut};

#[test]
fn whitespace_is_the_unicode_property() {
    let mut n: u32 = 0;
    while n <= 0x10FFFF {
        if let Some(c) = char::from_u32(n) {
            assert_eq!(is_whitespace(c), c.is_whitespace(), "U+{:04X}", n);
        }
        n += 1;
    }
}

#[test]
fn cuts_are_breaks_or_spaces() {
    assert!(is_cut(Cut::Breaks, '\n'));
    assert!(is_cut(Cut::Breaks, ';'));
    assert!(!is_cut(Cut::Breaks, ' '));
    assert!(!is_cut(Cut::Breaks, '\r'));
    assert!(is_cut(Cut::Lines, '\n'));
    assert!(!is_cut(Cut::Lines, ';'));
    assert!(is_cut(Cut::Semicolons, ';'));
    assert!(!is_cut(Cut::Semicolons, '\n'));
    assert!(is_cut(Cut::Spaces, ' '));
    assert!(is_cut(Cut::Spaces, '\n'));
    assert!(is_cut(Cut::Spaces, '\u{3000}'));
    assert!(!is_cut(Cut::Spaces, ';'));
}

#[test]
fn split_keeps_empty_pieces() {
    assert_eq!(split("", Cut::Breaks), vec![""]);
    assert_eq!(split("a", Cut::Breaks), vec!["a"]);
    assert_eq!(split(";", Cut::Breaks), vec!["", ""]);
    assert_eq!(split("a;b\nc", Cut::Breaks), vec!["a", "b", "c"]);
    assert_eq!(split(";a;;b;", Cut::Breaks), vec!["", "a", "", "b", ""]);
    assert_eq!(split("a  b", Cut::Spaces), vec!["a", "", "b"]);
    assert_eq!(split("a;b\nc;d", Cut::Lines), vec!["a;b", "c;d"]);
    assert_eq!(split("a;b\nc;d", Cut::Semicolons), vec!["a", "b\nc", "d"]);
    assert_eq!(split("h\u{e9}; \u{4e16}\u{754c}", Cut::Breaks), vec!["h\u{e9}", " \u{4e16}\u{754c}"]);
}

#[test]
fn split_agrees_with_the_standard_split() {
    for s in ["", "a x; b y\nc z", ";;\n;", "no cut", "\n", "x;\ny;"] {
        let expected: Vec<String> =
            s.split(|c| c == '\n' || c == ';').map(|p| p.to_string()).collect();
        assert_eq!(split(s, Cut::Breaks), expected);
    }
}

#[test]
fn trim_removes_surrounding_whitespace_only() {
    assert_eq!(trim(""), "");
    assert_eq!(trim("   "), "");
    assert_eq!(trim("a"), "a");
    assert_eq!(trim("  a b \t\n"), "a b");
    assert_eq!(trim("\u{a0}\u{2003}x y\u{3000}"), "x y");
    assert_eq!(trim(";"), ";");
    for s in ["", " ", " a", "a ", " a  b ", "\t\r\n", "\u{85}z\u{1680}", "ab"] {
        assert_eq!(trim(s), s.trim());
    }
}

#[test]
fn fragments_cut_at_breaks_and_semicolons_and_trim() {
    assert_eq!(fragments("a x; b y\nc z"), vec!["a x", "b y", "c z"]);
    assert_eq!(fragments(""), vec![""]);
    assert_eq!(fragments("  a  "), vec!["a"]);
    assert_eq!(fragments(" a ;; b \n"), vec!["a", "", "b", ""]);
    assert_eq!(fragments("a\r\nb"), vec!["a", "b"]);
}

#[test]
fn fragments_agree_with_cutting_lines_first() {
    for s in ["a x; b y\nc z", "  a ; b  \n  c;d ;\n\n e ", ";\n;", " \n ", "x"] {
        let expected: Vec<String> = s
            .split('\n')
            .map(|l| l.trim())
            .flat_map(|l| l.split(';').map(|f| f.trim()))
            .map(|f| f.to_string())
            .collect();
        assert_eq!(fragments(s), expected);
    }
}

#[test]
fn words_are_the_runs_between_whitespace() {
    assert_eq!(words(""), Vec::<String>::new());
    assert_eq!(words("  \t\n"), Vec::<String>::new());
    assert_eq!(words("deploy"), vec!["deploy"]);
    assert_eq!(words("  deploy   --ba\t x "), vec!["deploy", "--ba", "x"]);
    for s in ["", " a", "a b", " a\u{2003}b  c ", "a;b c\nd"] {
        let expected: Vec<String> = s.split_whitespace().map(|w| w.to_string()).collect();
        assert_eq!(words(s), expected);
    }
}
