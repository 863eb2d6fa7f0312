use edit_core::ansi_truncate::{frame, AnsiTruncate};

fn at_strings(v: &[&str]) -> Vec<String> {
    v.iter().map(|s| s.to_string()).collect()
}

#[test]
fn new_starts_without_extra_length() {
    let t = AnsiTruncate::new("<", ">");
    assert_eq!(t.left, "<");
    assert_eq!(t.right, ">");
    assert_eq!(t.extra_length, 0);
}

#[test]
fn trim_pads_short_text_with_blanks() {
    let mut t = AnsiTruncate::new("\u{1b}[0m", "\u{1b}[1m");
    assert_eq!(t.trim("abc".to_string(), 5), "\u{1b}[0mabc  \u{1b}[1m");
    assert_eq!(t.left, "\u{1b}[0m");
    assert_eq!(t.right, "\u{1b}[1m");
}

#[test]
fn trim_cuts_long_text() {
    let mut t = AnsiTruncate::new("<", ">");
    assert_eq!(t.trim("abcdef".to_string(), 3), "<abc>");
    assert_eq!(t.trim("abcdef".to_string(), 6), "<abcdef>");
}

#[test]
fn trim_to_width_zero_keeps_only_the_frame() {
    let mut t = AnsiTruncate::new("<", ">");
    assert_eq!(t.trim("abc".to_string(), 0), "<>");
    assert_eq!(t.trim(String::new(), 0), "<>");
}

#[test]
fn trim_of_empty_text_is_all_blanks() {
    let mut t = AnsiTruncate::new("[", "]");
    assert_eq!(t.trim(String::new(), 3), "[   ]");
}

#[test]
fn trim_counts_grapheme_clusters_not_characters() {
    let mut t = AnsiTruncate::new("<", ">");
    // e + combining acute accent is one cluster of two characters
    assert_eq!(t.trim("e\u{301}xy".to_string(), 1), "<e\u{301}>");
    assert_eq!(t.trim("e\u{301}xy".to_string(), 2), "<e\u{301}x>");
    assert_eq!(t.trim("e\u{301}xy".to_string(), 4), "<e\u{301}xy >");
    // carriage return and line feed together are one cluster
    assert_eq!(t.trim("a\r\nb".to_string(), 2), "<a\r\n>");
    // a pair of regional indicators is one cluster
    assert_eq!(t.trim("🇷🇺🇸🇹!".to_string(), 1), "<🇷🇺>");
}

#[test]
fn trim_grants_the_extra_length_once() {
    let mut t = AnsiTruncate::new("<", ">");
    t.extra_length = 2;
    assert_eq!(t.trim("abcdef".to_string(), 3), "<abcde>");
    assert_eq!(t.extra_length, 0);
    assert_eq!(t.trim("abcdef".to_string(), 3), "<abc>");
    t.extra_length = 4;
    assert_eq!(t.trim("ab".to_string(), 1), "<ab   >");
    assert_eq!(t.extra_length, 0);
}

#[test]
fn frame_takes_cells_in_order() {
    let clusters = at_strings(&["a", "bc", "d"]);
    assert_eq!(frame("<", &clusters, 0, ">"), "<>");
    assert_eq!(frame("<", &clusters, 1, ">"), "<a>");
    assert_eq!(frame("<", &clusters, 2, ">"), "<abc>");
    assert_eq!(frame("<", &clusters, 3, ">"), "<abcd>");
    assert_eq!(frame("<", &clusters, 5, ">"), "<abcd  >");
    assert_eq!(frame("", &clusters, 2, ""), "abc");
    assert_eq!(frame("L", &Vec::new(), 2, "R"), "L  R");
}
