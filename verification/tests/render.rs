use edit_core::cursor::Cursor;
use edit_core::key::{KeyCode, KeyEvent, KeyModifiers, NONE, SHIFT};
use edit_core::render::{render_row, Styles};
use edit_core::state::State;
use edit_core::text::{chars_of, text_of};
use edit_core::textbox::TextBox;

fn r_styles() -> Styles {
    Styles { cursor: "<C>", selection: "<S>", line: "<L>", reset: "<R>" }
}

fn r_row(line: &str, i: usize, cursor: Cursor) -> (String, bool) {
    let row = render_row(&chars_of(line), i, &cursor, &r_styles());
    (row.text, row.current)
}

fn r_at(x: usize, y: usize) -> Cursor {
    Cursor { x_pos: x, y_pos: y, highlight: None }
}

fn r_sel(x: usize, y: usize, ax: usize, ay: usize) -> Cursor {
    Cursor { x_pos: x, y_pos: y, highlight: Some((ax, ay)) }
}

fn r_press(tb: &mut TextBox, code: KeyCode, bits: u8, n: usize) {
    let mut state = State::new();
    for _ in 0..n {
        tb.recv_key(KeyEvent::new(code, KeyModifiers::new(bits)), &mut state);
    }
}

#[test]
fn chars_and_text_convert_both_ways() {
    assert_eq!(chars_of("héllo"), vec!['h', 'é', 'l', 'l', 'o']);
    assert_eq!(chars_of(""), Vec::<char>::new());
    assert_eq!(text_of(&vec!['a', '\n', '日']), "a\n日");
    assert_eq!(text_of(&Vec::new()), "");
}

#[test]
fn row_marks_the_cell_under_the_cursor() {
    assert_eq!(r_row("hello", 0, r_at(1, 0)), ("h<C>e<L>llo".to_string(), true));
    assert_eq!(r_row("hello", 0, r_at(0, 0)), ("<C>h<L>ello".to_string(), true));
    assert_eq!(r_row("hello", 0, r_at(4, 0)), ("hell<C>o<L>".to_string(), true));
}

#[test]
fn row_shows_a_blank_for_the_cursor_at_line_end() {
    assert_eq!(r_row("hello", 0, r_at(5, 0)), ("hello<C> <L>".to_string(), true));
    assert_eq!(r_row("", 0, r_at(0, 0)), ("<C> <L>".to_string(), true));
    // a column beyond the line counts as its end
    assert_eq!(r_row("hi", 0, r_at(9, 0)), ("hi<C> <L>".to_string(), true));
}

#[test]
fn row_without_mark_is_plain() {
    assert_eq!(r_row("hello", 1, r_at(1, 0)), ("hello".to_string(), false));
    assert_eq!(r_row("hello", 0, r_at(1, 3)), ("hello".to_string(), false));
    assert_eq!(r_row("hello", 5, r_sel(1, 1, 2, 3)), ("hello".to_string(), false));
    assert_eq!(r_row("hello", 0, r_sel(1, 1, 2, 3)), ("hello".to_string(), false));
}

#[test]
fn row_marks_a_selection_on_one_line() {
    assert_eq!(r_row("hello", 2, r_sel(1, 2, 4, 2)), ("h<S>ell<L>o".to_string(), true));
    assert_eq!(r_row("hello", 2, r_sel(4, 2, 1, 2)), ("h<S>ell<L>o".to_string(), true));
    assert_eq!(r_row("hello", 2, r_sel(0, 2, 5, 2)), ("<S>hello<L>".to_string(), true));
    // an empty selection shows as one cell, in the selection's colour
    assert_eq!(r_row("hello", 2, r_sel(2, 2, 2, 2)), ("he<S>l<L>lo".to_string(), true));
    // ends beyond the line are cut back to it
    assert_eq!(r_row("hello", 2, r_sel(3, 2, 9, 2)), ("hel<S>lo<L>".to_string(), true));
    assert_eq!(r_row("hello", 2, r_sel(7, 2, 9, 2)), ("hello<S> <L>".to_string(), true));
}

#[test]
fn row_marks_the_first_line_of_a_selection() {
    assert_eq!(r_row("hello", 1, r_sel(2, 1, 1, 3)), ("he<S>llo".to_string(), false));
    assert_eq!(r_row("hello", 1, r_sel(1, 3, 2, 1)), ("he<S>llo".to_string(), false));
    assert_eq!(r_row("hello", 1, r_sel(0, 1, 1, 3)), ("<S>hello".to_string(), false));
    assert_eq!(r_row("hello", 1, r_sel(5, 1, 1, 3)), ("hello<S> ".to_string(), false));
    assert_eq!(r_row("hello", 1, r_sel(8, 1, 1, 3)), ("hello<S> ".to_string(), false));
}

#[test]
fn row_marks_the_lines_inside_a_selection() {
    assert_eq!(r_row("hello", 2, r_sel(2, 1, 1, 3)), ("<S>hello".to_string(), false));
    assert_eq!(r_row("", 2, r_sel(2, 3, 1, 1)), ("<S>".to_string(), false));
}

#[test]
fn row_marks_the_last_line_of_a_selection() {
    assert_eq!(r_row("hello", 3, r_sel(2, 1, 1, 3)), ("<S>h<R>ello".to_string(), false));
    assert_eq!(r_row("hello", 3, r_sel(1, 3, 2, 1)), ("<S>h<R>ello".to_string(), false));
    assert_eq!(r_row("hello", 3, r_sel(2, 1, 0, 3)), ("<S><R>hello".to_string(), false));
    assert_eq!(r_row("hello", 3, r_sel(2, 1, 5, 3)), ("<S>hello ".to_string(), false));
    assert_eq!(r_row("hello", 3, r_sel(2, 1, 7, 3)), ("<S>hello ".to_string(), false));
}

#[test]
fn display_rows_covers_the_whole_short_text() {
    let mut tb = TextBox::new(vec!["ab".to_string(), "cd".to_string(), "ef".to_string()], String::new());
    r_press(&mut tb, KeyCode::Down, NONE, 1);
    r_press(&mut tb, KeyCode::Right, NONE, 1);
    let rows = tb.display_rows(10, &r_styles());
    let got: Vec<(String, bool)> = rows.into_iter().map(|r| (r.text, r.current)).collect();
    assert_eq!(
        got,
        vec![
            ("ab".to_string(), false),
            ("c<C>d<L>".to_string(), true),
            ("ef".to_string(), false)
        ]
    );
}

#[test]
fn display_rows_shows_a_selection_over_lines() {
    let mut tb = TextBox::new(vec!["ab".to_string(), "cd".to_string(), "ef".to_string()], String::new());
    r_press(&mut tb, KeyCode::Right, NONE, 1);
    r_press(&mut tb, KeyCode::Down, SHIFT, 2);
    let rows = tb.display_rows(3, &r_styles());
    let got: Vec<(String, bool)> = rows.into_iter().map(|r| (r.text, r.current)).collect();
    assert_eq!(
        got,
        vec![
            ("a<S>b".to_string(), false),
            ("<S>cd".to_string(), false),
            ("<S>e<R>f".to_string(), false)
        ]
    );
}

#[test]
fn display_rows_follows_the_cursor() {
    let lines: Vec<String> = (0..50).map(|i| format!("{}", i)).collect();
    let mut tb = TextBox::new(lines, String::new());
    r_press(&mut tb, KeyCode::Down, NONE, 20);
    let rows = tb.display_rows(6, &r_styles());
    assert_eq!(rows.len(), 6);
    assert_eq!(tb.calculate_start(6), 17);
    let texts: Vec<String> = rows.iter().map(|r| r.text.clone()).collect();
    assert_eq!(texts, vec!["17", "18", "19", "<C>2<L>0", "21", "22"]);
    let current: Vec<bool> = rows.iter().map(|r| r.current).collect();
    assert_eq!(current, vec![false, false, false, true, false, false]);
    // at the end of the text the window stops with the text
    r_press(&mut tb, KeyCode::Down, NONE, 40);
    let rows = tb.display_rows(6, &r_styles());
    assert_eq!(rows.len(), 6);
    assert_eq!(rows[0].text, "44");
    assert_eq!(rows[5].text, "49<C> <L>");
    assert_eq!(tb.display_rows(0, &r_styles()).len(), 0);
    assert_eq!(tb.display_rows(80, &r_styles()).len(), 50);
    // showing the text changes nothing
    assert_eq!(tb.cursor().y_pos, 49);
    assert_eq!(tb.lines().len(), 50);
}

#[test]
fn header_rows_count_numbers_and_blank_space() {
    let lines: Vec<String> = (0..50).map(|i| format!("{}", i)).collect();
    let tb = TextBox::new(lines, String::new());
    assert_eq!(tb.header_rows(20), (20, 0));
    assert_eq!(tb.header_rows(50), (50, 0));
    assert_eq!(tb.header_rows(51), (50, 1));
    assert_eq!(tb.header_rows(80), (50, 30));
    assert_eq!(tb.header_rows(0), (0, 0));
    let one = TextBox::new(Vec::new(), String::new());
    assert_eq!(one.header_rows(3), (1, 2));
}
