use q3a_muncher::text::{find, matches_at, scan_run, str_eq, str_to_chars, CharClass};

fn chars(text: &str) -> Vec<char> {
    text.chars().collect()
}

#[test]
fn characters_of_a_string() {
    assert_eq!(str_to_chars(""), Vec::<char>::new());
    assert_eq!(str_to_chars("a-b"), vec!['a', '-', 'b']);
    assert_eq!(str_to_chars("Z\u{e9}\u{1f600}!"), vec!['Z', '\u{e9}', '\u{1f600}', '!']);
}

#[test]
fn strings_are_equal_by_their_characters() {
    assert!(str_eq("", ""));
    assert!(str_eq("<world>", "<world>"));
    assert!(str_eq("Z\u{e9}", "Z\u{e9}"));
    assert!(!str_eq("<world>", "<World>"));
    assert!(!str_eq("<world>", "<world> "));
    assert!(!str_eq("", " "));
    assert!(!str_eq("Ze", "Z\u{e9}"));
}

#[test]
fn character_classes() {
    for c in [' ', '\t', '\n', '\x0C', '\r'] {
        assert!(CharClass::Blank.contains(c));
        assert!(!CharClass::Token.contains(c));
    }
    for c in ['\x0B', '\u{a0}', '\u{2003}', 'a', '-', '0', ':'] {
        assert!(!CharClass::Blank.contains(c));
        assert!(CharClass::Token.contains(c));
    }
    for c in '0'..='9' {
        assert!(CharClass::Digit.contains(c));
    }
    for c in ['/', ':', 'a', ' ', '\u{663}', '\u{ff11}'] {
        assert!(!CharClass::Digit.contains(c));
    }
    assert!(CharClass::Hyphen.contains('-'));
    for c in ['\u{2010}', '\u{2013}', '_', ' '] {
        assert!(!CharClass::Hyphen.contains(c));
    }
}

#[test]
fn runs_end_at_the_first_character_outside_the_class() {
    let text = chars("  12:30 --x");
    assert_eq!(scan_run(&text, CharClass::Blank, 0), 2);
    assert_eq!(scan_run(&text, CharClass::Digit, 0), 0);
    assert_eq!(scan_run(&text, CharClass::Digit, 2), 4);
    assert_eq!(scan_run(&text, CharClass::Digit, 5), 7);
    assert_eq!(scan_run(&text, CharClass::Token, 2), 7);
    assert_eq!(scan_run(&text, CharClass::Hyphen, 8), 10);
    assert_eq!(scan_run(&text, CharClass::Token, 8), 11);
    assert_eq!(scan_run(&text, CharClass::Token, 11), 11);
    assert_eq!(scan_run(&text, CharClass::Token, 40), 40);
}

#[test]
fn patterns_are_found_where_they_first_stand() {
    let text = chars("a killed b killed c");
    let killed = chars(" killed ");

    assert!(matches_at(&text, &killed, 1));
    assert!(matches_at(&text, &killed, 10));
    assert!(!matches_at(&text, &killed, 0));
    assert!(!matches_at(&text, &killed, 2));
    assert!(!matches_at(&text, &killed, 12));
    assert!(!matches_at(&text, &killed, 19));
    assert!(!matches_at(&text, &killed, usize::MAX));

    assert_eq!(find(&text, &killed, 0), Some(1));
    assert_eq!(find(&text, &killed, 1), Some(1));
    assert_eq!(find(&text, &killed, 2), Some(10));
    assert_eq!(find(&text, &killed, 11), None);
    assert_eq!(find(&text, &killed, 100), None);
    assert_eq!(find(&text, &chars("killed"), 0), Some(2));
    assert_eq!(find(&text, &chars("kills"), 0), None);
    assert_eq!(find(&chars("ab"), &chars("abc"), 0), None);
    assert_eq!(find(&text, &[], 19), Some(19));
    assert_eq!(find(&text, &[], 20), None);
}
