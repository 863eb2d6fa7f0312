use edit_core::word::{kind, scan_left, scan_right, ALPHABETIC, NUMERIC, OTHER, PUNCTUATION, WHITESPACE};

fn word_line(s: &str) -> Vec<char> {
    s.chars().collect()
}

#[test]
fn kind_masks_have_their_values() {
    assert_eq!(ALPHABETIC, 0b0001);
    assert_eq!(NUMERIC, 0b0010);
    assert_eq!(PUNCTUATION, 0b0100);
    assert_eq!(OTHER, 0b1000);
    assert_eq!(WHITESPACE, 0b1111);
}

#[test]
fn kind_of_letters() {
    assert_eq!(kind('a'), 1);
    assert_eq!(kind('z'), 1);
    assert_eq!(kind('A'), 1);
    assert_eq!(kind('Z'), 1);
}

#[test]
fn kind_of_digits() {
    assert_eq!(kind('0'), 2);
    assert_eq!(kind('5'), 2);
    assert_eq!(kind('9'), 2);
}

#[test]
fn kind_of_punctuation() {
    for c in ['!', '/', ':', '@', '[', '`', '{', '~', '.', '_', '-'] {
        assert_eq!(kind(c), 4, "{:?}", c);
    }
}

#[test]
fn kind_of_whitespace() {
    for c in [' ', '\t', '\n', '\x0C', '\r'] {
        assert_eq!(kind(c), 15, "{:?}", c);
    }
}

#[test]
fn kind_of_everything_else() {
    for c in ['\x0B', '\x00', '\x7F', 'é', 'ß', '日', '\u{A0}'] {
        assert_eq!(kind(c), 8, "{:?}", c);
    }
}

#[test]
fn kind_is_one_of_five_for_all_ascii() {
    for b in 0u8..128 {
        let k = kind(b as char);
        assert!(k == 1 || k == 2 || k == 4 || k == 8 || k == 15);
    }
}

#[test]
fn scan_right_takes_one_word() {
    let line = word_line("hello world");
    assert_eq!(scan_right(&line, 0), 5);
    assert_eq!(scan_right(&line, 2), 3);
    assert_eq!(scan_right(&line, 6), 5);
}

#[test]
fn scan_right_at_end_of_line_is_one() {
    let line = word_line("hello");
    assert_eq!(scan_right(&line, 5), 1);
    let empty: Vec<char> = Vec::new();
    assert_eq!(scan_right(&empty, 0), 1);
}

#[test]
fn scan_right_stops_at_class_change() {
    assert_eq!(scan_right(&word_line("foo123"), 0), 3);
    assert_eq!(scan_right(&word_line("123foo"), 0), 3);
    assert_eq!(scan_right(&word_line("a.b"), 0), 1);
    assert_eq!(scan_right(&word_line("...abc"), 0), 3);
    assert_eq!(scan_right(&word_line("ééx"), 0), 2);
}

#[test]
fn scan_right_white_space_is_a_word_of_its_own() {
    let line = word_line("hello  world!");
    // from the gap before the blanks: the blanks and no more
    assert_eq!(scan_right(&line, 5), 2);
    assert_eq!(scan_right(&line, 6), 1);
    // a word does not take the blanks after it
    assert_eq!(scan_right(&line, 0), 5);
    assert_eq!(scan_right(&line, 7), 5);
    // two blanks, then a word
    let line = word_line("  ab");
    assert_eq!(scan_right(&line, 0), 2);
    assert_eq!(scan_right(&line, 1), 1);
    assert_eq!(scan_right(&line, 2), 2);
    // mixed white space is one run
    assert_eq!(scan_right(&word_line(" \t x"), 0), 3);
}

#[test]
fn scan_left_takes_one_word() {
    let line = word_line("hello world");
    assert_eq!(scan_left(&line, 11), 5);
    assert_eq!(scan_left(&line, 5), 5);
    assert_eq!(scan_left(&line, 3), 3);
}

#[test]
fn scan_left_at_gaps_zero_and_one_is_one() {
    let line = word_line("hello");
    assert_eq!(scan_left(&line, 0), 1);
    assert_eq!(scan_left(&line, 1), 1);
}

#[test]
fn scan_left_white_space_is_a_word_of_its_own() {
    let line = word_line("hello world");
    // from the gap after the blank: the blank and no more
    assert_eq!(scan_left(&line, 6), 1);
    let line = word_line("ab  ");
    assert_eq!(scan_left(&line, 4), 2);
    assert_eq!(scan_left(&line, 3), 1);
    assert_eq!(scan_left(&line, 2), 2);
    let line = word_line("ab  cd");
    assert_eq!(scan_left(&line, 6), 2);
    assert_eq!(scan_left(&line, 4), 2);
}

#[test]
fn scan_left_stops_at_class_change() {
    assert_eq!(scan_left(&word_line("foo123"), 6), 3);
    assert_eq!(scan_left(&word_line("foo.."), 5), 2);
}

#[test]
fn a_word_is_the_longest_run_of_one_class() {
    let line = word_line("ab  cd.e9 \t x");
    for x in 0..line.len() {
        let n = scan_right(&line, x);
        let first = kind(line[x]);
        assert!(line[x..x + n].iter().all(|c| kind(*c) == first));
        assert!(x + n == line.len() || kind(line[x + n]) != first);
    }
    for x in 2..=line.len() {
        let n = scan_left(&line, x);
        let first = kind(line[x - 1]);
        assert!(line[x - n..x].iter().all(|c| kind(*c) == first));
        assert!(x == n || kind(line[x - n - 1]) != first);
    }
}

#[test]
fn scans_never_return_zero() {
    let line = word_line("ab  cd.e9 \t x");
    for x in 0..=line.len() {
        assert!(scan_right(&line, x) >= 1);
        assert!(scan_left(&line, x) >= 1);
    }
}
