use gandi_dyndns::text::{chars_of, contains, ends_with, split, trim_end_matches};

#[test]
fn chars_come_in_order() {
    assert_eq!(chars_of("a.b"), vec!['a', '.', 'b']);
    assert_eq!(chars_of(""), Vec::<char>::new());
    assert_eq!(chars_of("\u{e9}t\u{e9}"), vec!['\u{e9}', 't', '\u{e9}']);
}

#[test]
fn ends_with_looks_at_the_last_character_only() {
    assert!(ends_with("example.com.", '.'));
    assert!(!ends_with("example.com", '.'));
    assert!(!ends_with(".example", '.'));
    assert!(!ends_with("", '.'));
    assert!(ends_with(".", '.'));
}

#[test]
fn contains_finds_a_character_anywhere() {
    assert!(contains("a.b", '.'));
    assert!(contains(".ab", '.'));
    assert!(contains("ab.", '.'));
    assert!(!contains("ab", '.'));
    assert!(!contains("", '.'));
}

#[test]
fn trimming_takes_every_trailing_occurrence() {
    assert_eq!(trim_end_matches("example.com.", '.'), "example.com");
    assert_eq!(trim_end_matches("example.com...", '.'), "example.com");
    assert_eq!(trim_end_matches("example.com", '.'), "example.com");
    assert_eq!(trim_end_matches(".example.com.", '.'), ".example.com");
    assert_eq!(trim_end_matches("...", '.'), "");
    assert_eq!(trim_end_matches("", '.'), "");
}

#[test]
fn trimming_agrees_with_the_standard_library() {
    for s in ["a.", "a..", ".a", "a.b.", "", ".", "caf\u{e9}.", "x"] {
        assert_eq!(trim_end_matches(s, '.'), s.trim_end_matches('.'));
    }
}

#[test]
fn splitting_keeps_empty_pieces() {
    assert_eq!(split("home,www", ','), vec!["home", "www"]);
    assert_eq!(split("home", ','), vec!["home"]);
    assert_eq!(split("", ','), vec![""]);
    assert_eq!(split(",", ','), vec!["", ""]);
    assert_eq!(split("a,,b", ','), vec!["a", "", "b"]);
    assert_eq!(split(",a,", ','), vec!["", "a", ""]);
}

#[test]
fn splitting_agrees_with_the_standard_library() {
    for s in ["a,b,c", "", ",", ",,", "a", "a,", ",a", "home, www", "\u{e9},\u{e8}"] {
        let expected: Vec<String> = s.split(',').map(|p| p.to_string()).collect();
        assert_eq!(split(s, ','), expected);
    }
}

#[test]
fn joining_the_pieces_gives_the_text_back() {
    for s in ["a,b,c", "", ",", "a,,b", "home"] {
        assert_eq!(split(s, ',').join(","), s);
    }
}
