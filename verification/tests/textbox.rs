use edit_core::cursor::Cursor;
use edit_core::key::{KeyCode, KeyEvent, KeyModifiers, CONTROL, NONE, SHIFT};
use edit_core::keymap::Mode;
use edit_core::state::State;
use edit_core::text::text_of;
use edit_core::textbox::TextBox;

fn tb_new(lines: &[&str]) -> TextBox {
    TextBox::new(lines.iter().map(|l| l.to_string()).collect(), "file.txt".to_string())
}

fn tb_doc(tb: &TextBox) -> Vec<String> {
    tb.lines().iter().map(|l| text_of(l)).collect()
}

fn tb_press(tb: &mut TextBox, code: KeyCode, bits: u8) {
    let mut state = State::new();
    tb.recv_key(KeyEvent::new(code, KeyModifiers::new(bits)), &mut state);
}

fn tb_times(tb: &mut TextBox, code: KeyCode, bits: u8, n: usize) {
    for _ in 0..n {
        tb_press(tb, code, bits);
    }
}

fn tb_at(x: usize, y: usize) -> Cursor {
    Cursor { x_pos: x, y_pos: y, highlight: None }
}

#[test]
fn new_keeps_the_lines_and_starts_at_the_top() {
    let tb = tb_new(&["hello", "", "wörld"]);
    assert_eq!(tb_doc(&tb), vec!["hello", "", "wörld"]);
    assert_eq!(tb.cursor(), tb_at(0, 0));
    assert_eq!(tb.path(), "file.txt");
    assert_eq!(tb.lines()[2], vec!['w', 'ö', 'r', 'l', 'd']);
}

#[test]
fn new_seeds_the_history_with_nothing_to_undo() {
    let mut tb = tb_new(&["abc"]);
    assert_eq!(tb.history().len(), 1);
    assert_eq!(tb.history().pos(), 0);
    tb.undo();
    assert_eq!(tb_doc(&tb), vec!["abc"]);
    tb.redo();
    assert_eq!(tb_doc(&tb), vec!["abc"]);
    assert_eq!(tb.history().len(), 1);
}

#[test]
fn new_without_lines_has_one_empty_line() {
    let tb = TextBox::new(Vec::new(), String::new());
    assert_eq!(tb_doc(&tb), vec![""]);
    assert_eq!(tb.lines().len(), 1);
    assert_eq!(tb.cursor(), tb_at(0, 0));
}

#[test]
fn state_starts_in_command_mode() {
    let s = State::new();
    assert_eq!(s.mode, Mode::Command);
    assert!(!s.will_quit);
}

#[test]
fn cursor_new_is_origin() {
    assert_eq!(Cursor::new(), Cursor { x_pos: 0, y_pos: 0, highlight: None });
}

#[test]
fn cursor_range_orders_the_ends() {
    let c = Cursor { x_pos: 3, y_pos: 2, highlight: Some((7, 1)) };
    assert_eq!(c.range(), Some(((7, 1), (3, 2))));
    let c = Cursor { x_pos: 3, y_pos: 1, highlight: Some((7, 1)) };
    assert_eq!(c.range(), Some(((3, 1), (7, 1))));
    let c = Cursor { x_pos: 9, y_pos: 1, highlight: Some((7, 1)) };
    assert_eq!(c.range(), Some(((7, 1), (9, 1))));
    let c = Cursor { x_pos: 9, y_pos: 0, highlight: Some((0, 4)) };
    assert_eq!(c.range(), Some(((9, 0), (0, 4))));
    assert_eq!(tb_at(1, 1).range(), None);
}

#[test]
fn backspace_twice_empties_the_line() {
    let mut tb = tb_new(&["ab"]);
    tb_times(&mut tb, KeyCode::Right, NONE, 2);
    assert_eq!(tb.cursor(), tb_at(2, 0));
    tb_times(&mut tb, KeyCode::Backspace, NONE, 2);
    assert_eq!(tb_doc(&tb), vec![""]);
    assert_eq!(tb.cursor(), tb_at(0, 0));
}

#[test]
fn delete_at_end_of_line_joins_the_next_line() {
    let mut tb = tb_new(&["hello", "world"]);
    tb_times(&mut tb, KeyCode::Right, NONE, 5);
    assert_eq!(tb.cursor(), tb_at(5, 0));
    tb_press(&mut tb, KeyCode::Delete, NONE);
    assert_eq!(tb_doc(&tb), vec!["helloworld"]);
    assert_eq!(tb.cursor(), tb_at(5, 0));
}

#[test]
fn enter_at_start_pushes_the_line_down() {
    let mut tb = tb_new(&["abc"]);
    tb_press(&mut tb, KeyCode::Enter, NONE);
    assert_eq!(tb_doc(&tb), vec!["", "abc"]);
    assert_eq!(tb.cursor(), tb_at(0, 1));
}

#[test]
fn remove_highlight_takes_out_the_selection() {
    let mut tb = tb_new(&["hello"]);
    tb_times(&mut tb, KeyCode::Right, SHIFT, 3);
    assert_eq!(tb.cursor(), Cursor { x_pos: 0, y_pos: 0, highlight: Some((3, 0)) });
    tb.remove_highlight();
    assert_eq!(tb_doc(&tb), vec!["lo"]);
    assert_eq!(tb.cursor(), tb_at(0, 0));
}

#[test]
fn remove_highlight_then_highlight_is_none() {
    let mut tb = tb_new(&["hello", "there", "world"]);
    tb_times(&mut tb, KeyCode::Right, NONE, 2);
    tb_times(&mut tb, KeyCode::Down, SHIFT, 2);
    assert!(tb.highlight().is_some());
    tb.remove_highlight();
    assert_eq!(tb.highlight(), None);
    assert_eq!(tb.cursor().highlight, None);
}

#[test]
fn highlight_without_selection_is_none() {
    let mut tb = tb_new(&["hello"]);
    assert_eq!(tb.highlight(), None);
}

#[test]
fn highlight_on_one_line() {
    let mut tb = tb_new(&["hello world"]);
    tb_times(&mut tb, KeyCode::Right, NONE, 6);
    tb_times(&mut tb, KeyCode::Right, SHIFT, 5);
    assert_eq!(tb.highlight(), Some("world".to_string()));
    // anchor before the cursor
    let mut tb = tb_new(&["hello world"]);
    tb_times(&mut tb, KeyCode::Right, NONE, 5);
    tb_times(&mut tb, KeyCode::Left, SHIFT, 4);
    assert_eq!(tb.highlight(), Some("ello".to_string()));
}

#[test]
fn highlight_with_empty_selection_is_empty_text() {
    let mut tb = tb_new(&["hello"]);
    tb_press(&mut tb, KeyCode::Right, SHIFT);
    tb_press(&mut tb, KeyCode::Left, SHIFT);
    assert_eq!(tb.cursor().highlight, Some((0, 0)));
    assert_eq!(tb.highlight(), Some(String::new()));
}

#[test]
fn highlight_downwards_over_lines_has_no_separator() {
    let mut tb = tb_new(&["abc", "def", "ghi"]);
    tb_press(&mut tb, KeyCode::Right, NONE);
    tb_times(&mut tb, KeyCode::Down, SHIFT, 2);
    tb_press(&mut tb, KeyCode::Right, SHIFT);
    assert_eq!(tb.cursor(), Cursor { x_pos: 1, y_pos: 0, highlight: Some((2, 2)) });
    assert_eq!(tb.highlight(), Some("bcdefgh".to_string()));
}

#[test]
fn highlight_upwards_over_lines_has_no_separator() {
    let mut tb = tb_new(&["abc", "def", "ghi"]);
    tb_times(&mut tb, KeyCode::Down, NONE, 2);
    tb_times(&mut tb, KeyCode::Right, NONE, 2);
    tb_times(&mut tb, KeyCode::Up, SHIFT, 2);
    tb_press(&mut tb, KeyCode::Left, SHIFT);
    assert_eq!(tb.cursor(), Cursor { x_pos: 2, y_pos: 2, highlight: Some((1, 0)) });
    assert_eq!(tb.highlight(), Some("bcdefgh".to_string()));
}

#[test]
fn highlight_over_two_lines_takes_the_start_of_the_last_line() {
    let mut tb = tb_new(&["ab", "wxyz"]);
    tb_press(&mut tb, KeyCode::Right, NONE);
    tb_press(&mut tb, KeyCode::Down, SHIFT);
    tb_times(&mut tb, KeyCode::Right, SHIFT, 2);
    assert_eq!(tb.cursor().highlight, Some((3, 1)));
    assert_eq!(tb.highlight(), Some("bwxy".to_string()));
}

#[test]
fn highlight_clamps_cursor_and_anchor() {
    let mut tb = tb_new(&["abcdef", "ab", "abcd"]);
    tb_times(&mut tb, KeyCode::Right, NONE, 6);
    tb_press(&mut tb, KeyCode::Down, NONE);
    assert_eq!(tb.cursor(), tb_at(6, 1));
    tb_press(&mut tb, KeyCode::Up, SHIFT);
    assert_eq!(tb.cursor().highlight, Some((6, 0)));
    tb_times(&mut tb, KeyCode::Down, SHIFT, 2);
    assert_eq!(tb.cursor().highlight, Some((6, 2)));
    assert_eq!(tb.highlight(), Some("abcd".to_string()));
    assert_eq!(tb.cursor(), Cursor { x_pos: 2, y_pos: 1, highlight: Some((4, 2)) });
}

#[test]
fn remove_highlight_over_lines_joins_the_ends() {
    let mut tb = tb_new(&["abc", "def", "ghi", "jkl"]);
    tb_press(&mut tb, KeyCode::Right, NONE);
    tb_times(&mut tb, KeyCode::Down, SHIFT, 2);
    tb_press(&mut tb, KeyCode::Right, SHIFT);
    tb.remove_highlight();
    assert_eq!(tb_doc(&tb), vec!["ai", "jkl"]);
    assert_eq!(tb.cursor(), tb_at(1, 0));
    assert_eq!(tb.history().len(), 2);
    assert_eq!(tb.history().pos(), 1);
}

#[test]
fn remove_highlight_upwards_puts_the_cursor_at_the_start() {
    let mut tb = tb_new(&["abc", "def", "ghi"]);
    tb_times(&mut tb, KeyCode::Down, NONE, 2);
    tb_times(&mut tb, KeyCode::Right, NONE, 2);
    tb_times(&mut tb, KeyCode::Up, SHIFT, 2);
    tb_press(&mut tb, KeyCode::Left, SHIFT);
    tb.remove_highlight();
    assert_eq!(tb_doc(&tb), vec!["ai"]);
    assert_eq!(tb.cursor(), tb_at(1, 0));
}

#[test]
fn remove_highlight_of_whole_text_leaves_one_empty_line() {
    let mut tb = tb_new(&["abc", "def"]);
    tb_press(&mut tb, KeyCode::Down, SHIFT);
    tb_times(&mut tb, KeyCode::Right, SHIFT, 3);
    tb.remove_highlight();
    assert_eq!(tb_doc(&tb), vec![""]);
    assert_eq!(tb.cursor(), tb_at(0, 0));
}

#[test]
fn remove_highlight_of_nothing_records_nothing() {
    let mut tb = tb_new(&["abc"]);
    tb_press(&mut tb, KeyCode::Up, SHIFT);
    assert_eq!(tb.cursor().highlight, Some((0, 0)));
    tb.remove_highlight();
    assert_eq!(tb_doc(&tb), vec!["abc"]);
    assert_eq!(tb.cursor(), tb_at(0, 0));
    assert_eq!(tb.history().len(), 1);
    // and without any selection
    tb.remove_highlight();
    assert_eq!(tb.history().len(), 1);
}

#[test]
fn remove_highlight_record_can_be_undone() {
    let mut tb = tb_new(&["hello"]);
    tb_times(&mut tb, KeyCode::Right, SHIFT, 3);
    tb.remove_highlight();
    assert_eq!(tb_doc(&tb), vec!["lo"]);
    tb.undo();
    assert_eq!(tb_doc(&tb), vec!["hello"]);
    tb.redo();
    assert_eq!(tb_doc(&tb), vec!["lo"]);
    assert_eq!(tb.cursor(), tb_at(0, 0));
}

#[test]
fn set_valid_pos_clamps_the_column() {
    let mut tb = tb_new(&["abcdef", "ab"]);
    tb_times(&mut tb, KeyCode::Right, NONE, 6);
    tb_press(&mut tb, KeyCode::Down, NONE);
    assert_eq!(tb.cursor(), tb_at(6, 1));
    tb.set_valid_pos();
    assert_eq!(tb.cursor(), tb_at(2, 1));
    tb.set_valid_pos();
    assert_eq!(tb.cursor(), tb_at(2, 1));
}

#[test]
fn set_valid_pos_h_clamps_the_anchor() {
    let mut tb = tb_new(&["ab", "abcdef"]);
    tb_press(&mut tb, KeyCode::Down, NONE);
    tb_times(&mut tb, KeyCode::Right, NONE, 6);
    tb_press(&mut tb, KeyCode::Up, SHIFT);
    assert_eq!(tb.cursor(), Cursor { x_pos: 6, y_pos: 1, highlight: Some((6, 0)) });
    tb.set_valid_pos_h();
    assert_eq!(tb.cursor(), Cursor { x_pos: 6, y_pos: 1, highlight: Some((2, 0)) });
    let mut plain = tb_new(&["ab"]);
    plain.set_valid_pos_h();
    assert_eq!(plain.cursor(), tb_at(0, 0));
}

#[test]
fn cursor_stays_valid_after_clamping() {
    let mut tb = tb_new(&["abcdef", "", "abc"]);
    let keys = [
        KeyCode::Right,
        KeyCode::Right,
        KeyCode::Down,
        KeyCode::Enter,
        KeyCode::Down,
        KeyCode::Backspace,
        KeyCode::Up,
        KeyCode::Delete,
        KeyCode::Down,
        KeyCode::Down,
        KeyCode::Down,
        KeyCode::Left,
    ];
    for k in keys {
        tb_press(&mut tb, k, NONE);
        assert!(tb.lines().len() >= 1);
        assert!(tb.cursor().y_pos < tb.lines().len());
        tb.set_valid_pos();
        assert!(tb.cursor().x_pos <= tb.lines()[tb.cursor().y_pos].len());
    }
}

#[test]
fn document_never_runs_out_of_lines() {
    let mut tb = tb_new(&["a", "b"]);
    for _ in 0..6 {
        tb_press(&mut tb, KeyCode::Delete, NONE);
        assert!(tb.lines().len() >= 1);
    }
    assert_eq!(tb_doc(&tb), vec![""]);
    for _ in 0..3 {
        tb_press(&mut tb, KeyCode::Backspace, CONTROL);
        assert!(tb.lines().len() >= 1);
    }
    assert_eq!(tb_doc(&tb), vec![""]);
}

#[test]
fn word_length_forward_and_backward() {
    let tb = tb_new(&["foo bar", "x"]);
    assert_eq!(tb.word_length(0, 0, false), 3);
    assert_eq!(tb.word_length(3, 0, false), 1);
    assert_eq!(tb.word_length(4, 0, false), 3);
    assert_eq!(tb.word_length(7, 0, false), 1);
    assert_eq!(tb.word_length(7, 0, true), 3);
    assert_eq!(tb.word_length(4, 0, true), 1);
    assert_eq!(tb.word_length(3, 0, true), 3);
    assert_eq!(tb.word_length(1, 0, true), 1);
    assert_eq!(tb.word_length(0, 0, true), 1);
    assert_eq!(tb.word_length(0, 1, false), 1);
    assert_eq!(tb.word_length(1, 1, false), 1);
}

#[test]
fn word_length_from_white_space_stops_at_the_word() {
    let tb = tb_new(&["  ab"]);
    assert_eq!(tb.word_length(0, 0, false), 2);
    assert_eq!(tb.word_length(2, 0, false), 2);
    assert_eq!(tb.word_length(2, 0, true), 2);
    assert_eq!(tb.word_length(4, 0, true), 2);
}

#[test]
fn word_length_toggle_is_one_without_ctrl() {
    let tb = tb_new(&["foo bar"]);
    assert_eq!(tb.word_length_toggle(false, 0, 0, false), 1);
    assert_eq!(tb.word_length_toggle(false, 0, 0, true), 3);
    assert_eq!(tb.word_length_toggle(true, 7, 0, false), 1);
    assert_eq!(tb.word_length_toggle(true, 7, 0, true), 3);
}

#[test]
fn word_length_toggle_at_cursor_and_anchor() {
    let mut tb = tb_new(&["foo barbaz"]);
    tb_times(&mut tb, KeyCode::Right, SHIFT, 4);
    assert_eq!(tb.cursor(), Cursor { x_pos: 0, y_pos: 0, highlight: Some((4, 0)) });
    assert_eq!(tb.word_length_toggle_c(false, true), 3);
    assert_eq!(tb.word_length_toggle_h(false, true), 6);
    assert_eq!(tb.word_length_toggle_h(true, true), 1);
    assert_eq!(tb.word_length_toggle_c(false, false), 1);
    assert_eq!(tb.word_length_toggle_h(false, false), 1);
    let plain = tb_new(&["foo barbaz"]);
    assert_eq!(plain.word_length_toggle_h(false, true), 3);
}

#[test]
fn calculate_start_keeps_the_cursor_in_the_middle() {
    let lines: Vec<String> = (0..100).map(|i| format!("line {}", i)).collect();
    let mut tb = TextBox::new(lines, String::new());
    assert_eq!(tb.calculate_start(20), 0);
    tb_times(&mut tb, KeyCode::Down, NONE, 9);
    assert_eq!(tb.calculate_start(20), 0);
    tb_press(&mut tb, KeyCode::Down, NONE);
    assert_eq!(tb.calculate_start(20), 0);
    tb_press(&mut tb, KeyCode::Down, NONE);
    assert_eq!(tb.calculate_start(20), 1);
    tb_times(&mut tb, KeyCode::Down, NONE, 39);
    assert_eq!(tb.cursor().y_pos, 50);
    assert_eq!(tb.calculate_start(20), 40);
    assert_eq!(tb.calculate_start(5), 48);
    assert_eq!(tb.calculate_start(0), 50);
    assert_eq!(tb.calculate_start(100), 0);
    assert_eq!(tb.calculate_start(1000), 0);
    tb_times(&mut tb, KeyCode::Down, NONE, 39);
    assert_eq!(tb.cursor().y_pos, 89);
    assert_eq!(tb.calculate_start(20), 79);
    tb_press(&mut tb, KeyCode::Down, NONE);
    assert_eq!(tb.calculate_start(20), 80);
    tb_times(&mut tb, KeyCode::Down, NONE, 9);
    assert_eq!(tb.cursor().y_pos, 99);
    assert_eq!(tb.calculate_start(20), 80);
    assert_eq!(tb.calculate_start(99), 1);
}

#[test]
fn action_records_the_present_state() {
    let mut tb = tb_new(&["abc"]);
    tb_press(&mut tb, KeyCode::Right, NONE);
    tb.action();
    assert_eq!(tb.history().len(), 2);
    assert_eq!(tb.history().pos(), 1);
    tb.undo();
    assert_eq!(tb.cursor(), tb_at(0, 0));
    tb.redo();
    assert_eq!(tb.cursor(), tb_at(1, 0));
    assert_eq!(tb_doc(&tb), vec!["abc"]);
}

#[test]
fn save_text_joins_lines_with_line_feeds() {
    assert_eq!(tb_new(&["abc", "", "d"]).save_text(), "abc\n\nd");
    assert_eq!(tb_new(&["abc"]).save_text(), "abc");
    assert_eq!(tb_new(&[""]).save_text(), "");
    assert_eq!(tb_new(&["", ""]).save_text(), "\n");
}

#[test]
fn text_box_history_is_bounded() {
    let mut tb = tb_new(&[""]);
    for _ in 0..30 {
        tb_press(&mut tb, KeyCode::Char('x'), NONE);
        assert!(tb.history().len() <= 10);
    }
    assert_eq!(tb.history().len(), 10);
    assert_eq!(tb.history().pos(), 9);
    for _ in 0..20 {
        tb.undo();
    }
    assert_eq!(tb.history().pos(), 0);
    assert_eq!(tb_doc(&tb), vec!["x".repeat(21)]);
}
