//! What a text box shows: the rows of a window on the text, with the
//! selection and the cursor marked by escape sequences, and the column of
//! line numbers beside them. Nothing here draws; the rows are handed to
//! whoever does.

use crate::cursor::Cursor;
use crate::history::lines_of;
use crate::text::push_chars;
use crate::textbox::{window_start, TextBox};
use vstd::prelude::*;
use vstd::string::StringExecFns;

verus! {

/// The escape sequences that mark up a row.
pub struct Styles {
    /// Starts the cell under the cursor, where nothing is selected.
    pub cursor: &'static str,
    /// Starts the selected text.
    pub selection: &'static str,
    /// Starts the rest of the cursor's line, after what is marked.
    pub line: &'static str,
    /// Ends the selected text.
    pub reset: &'static str,
}

/// One row of the window.
pub struct Row {
    /// The text of the row, escape sequences included.
    pub text: String,
    /// Whether all that is marked lies on this row, so that it is drawn as the
    /// cursor's line.
    pub current: bool,
}

/// The sequence that starts what is marked: that of a selection if there is
/// one, else that of the cursor's cell.
pub open spec fn tint(cursor: Cursor, styles: Styles) -> Seq<char> {
    if cursor.highlight is Some {
        styles.selection@
    } else {
        styles.cursor@
    }
}

/// `x`, or `len` where `x` lies beyond it.
pub open spec fn clip(x: int, len: int) -> int {
    if x < len {
        x
    } else {
        len
    }
}

/// Whether all that is marked lies on line `i`.
pub open spec fn is_current(i: int, cursor: Cursor) -> bool {
    i == cursor.low().1 && i == cursor.high().1
}

/// The text of the row for line `i`, which holds `line`.
///
/// What is marked runs from the earlier to the later of cursor and anchor;
/// where the two coincide it is the one cell at the cursor. A mark that ends
/// up empty, or that reaches the end of its line, shows as one blank.
pub open spec fn row_text(line: Seq<char>, i: int, cursor: Cursor, styles: Styles) -> Seq<char> {
    let lo = cursor.low();
    let hi = cursor.high();
    let len = line.len() as int;
    if is_current(i, cursor) {
        let a = clip(lo.0 as int, len);
        let b = clip(
            if lo.0 == hi.0 {
                hi.0 + 1
            } else {
                hi.0 as int
            },
            len,
        );
        let marked = if a == b {
            seq![' ']
        } else {
            line.subrange(a, b)
        };
        line.take(a) + tint(cursor, styles) + marked + styles.line@ + line.skip(b)
    } else if i == lo.1 {
        if lo.0 >= len {
            line + tint(cursor, styles) + seq![' ']
        } else {
            line.take(lo.0 as int) + tint(cursor, styles) + line.skip(lo.0 as int)
        }
    } else if lo.1 < i && i < hi.1 {
        tint(cursor, styles) + line
    } else if i == hi.1 {
        if hi.0 >= len {
            tint(cursor, styles) + line + seq![' ']
        } else {
            tint(cursor, styles) + line.take(hi.0 as int) + styles.reset@ + line.skip(hi.0 as int)
        }
    } else {
        line
    }
}

/// The line after the last one shown in a window of `height` lines that
/// starts at line `start`.
pub open spec fn window_end(start: int, total: int, height: int) -> int {
    if start + height < total {
        start + height
    } else {
        total
    }
}

/// The row for line `i`, which holds `line`.
pub fn render_row(line: &Vec<char>, i: usize, cursor: &Cursor, styles: &Styles) -> (row: Row)
    ensures
        row.text@ == row_text(line@, i as int, *cursor, *styles),
        row.current == is_current(i as int, *cursor),
{
    let (lo, hi) = match cursor.range() {
        Some(ends) => ends,
        None => ((cursor.x_pos, cursor.y_pos), (cursor.x_pos, cursor.y_pos)),
    };
    let tint = if cursor.highlight.is_some() {
        styles.selection
    } else {
        styles.cursor
    };
    let len = line.len();
    let mut text = String::new();
    proof {
        reveal_strlit(" ");
        assert(" "@ =~= seq![' ']);
        assert(line@.subrange(0, len as int) =~= line@);
    }
    if i == lo.1 && i == hi.1 {
        let a = if lo.0 < len {
            lo.0
        } else {
            len
        };
        let b = if lo.0 == hi.0 {
            if hi.0 < len {
                hi.0 + 1
            } else {
                len
            }
        } else if hi.0 < len {
            hi.0
        } else {
            len
        };
        push_chars(&mut text, line, 0, a);
        text.append(tint);
        if a == b {
            text.append(" ");
        } else {
            push_chars(&mut text, line, a, b);
        }
        text.append(styles.line);
        push_chars(&mut text, line, b, len);
        Row { text, current: true }
    } else if i == lo.1 {
        if lo.0 >= len {
            push_chars(&mut text, line, 0, len);
            text.append(tint);
            text.append(" ");
        } else {
            push_chars(&mut text, line, 0, lo.0);
            text.append(tint);
            push_chars(&mut text, line, lo.0, len);
        }
        Row { text, current: false }
    } else if i > lo.1 && i < hi.1 {
        text.append(tint);
        push_chars(&mut text, line, 0, len);
        Row { text, current: false }
    } else if i == hi.1 {
        text.append(tint);
        if hi.0 >= len {
            push_chars(&mut text, line, 0, len);
            text.append(" ");
        } else {
            push_chars(&mut text, line, 0, hi.0);
            text.append(styles.reset);
            push_chars(&mut text, line, hi.0, len);
        }
        Row { text, current: false }
    } else {
        push_chars(&mut text, line, 0, len);
        Row { text, current: false }
    }
}

impl TextBox {
    /// The rows of a window of `height` lines on the text. The window starts
    /// where `calculate_start` puts it and ends with the text or with the
    /// window, whichever comes first.
    pub fn display_rows(&mut self, height: usize, styles: &Styles) -> (rows: Vec<Row>)
        requires
            old(self)@.wf(),
        ensures
            *final(self) == *old(self),
            rows@.len() == window_end(
                window_start(
                    old(self)@.buffer.cursor.y_pos as int,
                    old(self)@.buffer.lines.len() as int,
                    height as int,
                ),
                old(self)@.buffer.lines.len() as int,
                height as int,
            ) - window_start(
                old(self)@.buffer.cursor.y_pos as int,
                old(self)@.buffer.lines.len() as int,
                height as int,
            ),
            forall|k: int|
                0 <= k < rows@.len() ==> {
                    let i = k + window_start(
                        old(self)@.buffer.cursor.y_pos as int,
                        old(self)@.buffer.lines.len() as int,
                        height as int,
                    );
                    &&& (#[trigger] rows@[k]).text@ == row_text(
                        old(self)@.buffer.lines[i],
                        i,
                        old(self)@.buffer.cursor,
                        *styles,
                    )
                    &&& rows@[k].current == is_current(i, old(self)@.buffer.cursor)
                },
    {
        let start = self.calculate_start(height);
        let cursor = self.cursor();
        let lines = self.lines();
        let total = lines.len();
        let end = if height < total - start {
            start + height
        } else {
            total
        };
        let mut rows: Vec<Row> = Vec::new();
        let mut i: usize = start;
        while i < end
            invariant
                start <= i <= end <= total,
                total == lines@.len(),
                rows@.len() == i - start,
                forall|k: int|
                    0 <= k < rows@.len() ==> (#[trigger] rows@[k]).text@ == row_text(
                        lines_of(lines@)[k + start],
                        k + start,
                        cursor,
                        *styles,
                    ) && rows@[k].current == is_current(k + start, cursor),
            decreases end - i,
        {
            rows.push(render_row(&lines[i], i, &cursor, styles));
            i += 1;
        }
        rows
    }

    /// How the column beside a window of `height` lines is filled: the number
    /// of rows that carry a line number, then the number of rows below them
    /// that mark the space after the end of the text.
    pub fn header_rows(&self, height: usize) -> (r: (usize, usize))
        ensures
            r.0 == clip(height as int, self@.buffer.lines.len() as int),
            r.1 == (if height > self@.buffer.lines.len() {
                height - self@.buffer.lines.len()
            } else {
                0
            }),
    {
        let total = self.lines().len();
        if height > total {
            (total, height - total)
        } else {
            (height, 0)
        }
    }
}

} // verus!
