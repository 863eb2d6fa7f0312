//! The text box: the text under edit, the cursor in it and the undo history.

use crate::buffer::{
    joined, lemma_clamp_anchor, lemma_clamp_cursor, lemma_clamp_valid, lemma_cut, word_span, Buffer,
};
use crate::cursor::Cursor;
use crate::history::{lines_of, HistoryView, TextBoxHistory};
use crate::model::{lemma_record_wf, lemma_remove_highlight, TextBoxView};
use crate::text::{chars_of, push_chars};
use crate::word::{lemma_word_bounds, scan_left, scan_right};
use vstd::prelude::*;

verus! {

/// A text box.
pub struct TextBox {
    cursor: Cursor,
    contents: Vec<Vec<char>>,
    path: String,
    history: TextBoxHistory,
}

impl View for TextBox {
    type V = TextBoxView;

    closed spec fn view(&self) -> TextBoxView {
        TextBoxView {
            buffer: Buffer { lines: lines_of(self.contents@), cursor: self.cursor },
            history: self.history@,
            path: self.path@,
        }
    }
}

/// The lines that a text box starts with: those given, or one empty line
/// where none is given.
pub open spec fn initial_lines(lines: Seq<String>) -> Seq<Seq<char>> {
    if lines.len() == 0 {
        seq![Seq::empty()]
    } else {
        Seq::new(lines.len(), |i: int| lines[i]@)
    }
}

/// The first line to show in a window of `height` lines so that line
/// `current` stays in the middle of it, as far as the ends of the text allow.
pub open spec fn window_start(current: int, total: int, height: int) -> int {
    if current < height / 2 || total <= height {
        0
    } else if current >= total - height / 2 {
        total - height
    } else {
        current - height / 2
    }
}

impl TextBox {
    /// A text box over `lines`, to be saved under `path`. The cursor stands
    /// at the start. The history holds the text as given and nothing before
    /// it, so that there is nothing to undo yet.
    pub fn new(lines: Vec<String>, path: String) -> (tb: TextBox)
        ensures
            tb@.buffer.lines == initial_lines(lines@),
            tb@.buffer.cursor == (Cursor { x_pos: 0, y_pos: 0, highlight: None }),
            tb@.history == (HistoryView { pos: 0, undos: seq![tb@.buffer] }),
            tb@.path == path@,
            tb@.wf(),
    {
        let mut contents: Vec<Vec<char>> = Vec::new();
        let mut i: usize = 0;
        while i < lines.len()
            invariant
                i <= lines.len(),
                contents@.len() == i,
                forall|j: int| 0 <= j < i ==> contents@[j]@ == lines@[j]@,
            decreases lines.len() - i,
        {
            contents.push(chars_of(lines[i].as_str()));
            i += 1;
        }
        if contents.len() == 0 {
            contents.push(Vec::new());
        }
        assert(lines_of(contents@) =~= initial_lines(lines@));
        let mut cursor = Cursor::new();
        let mut history = TextBoxHistory::new();
        history.action(&mut contents, &mut cursor);
        history.start();
        let tb = TextBox { cursor, contents, path, history };
        assert(tb@.history.undos =~= seq![tb@.buffer]);
        tb
    }

    /// The lines of the text.
    pub fn lines(&self) -> (lines: &Vec<Vec<char>>)
        ensures
            lines_of(lines@) == self@.buffer.lines,
    {
        &self.contents
    }

    /// The cursor.
    pub fn cursor(&self) -> (cursor: Cursor)
        ensures
            cursor == self@.buffer.cursor,
    {
        self.cursor
    }

    /// The path that the text is saved under.
    pub fn path(&self) -> (path: &String)
        ensures
            path@ == self@.path,
    {
        &self.path
    }

    /// The undo history.
    pub fn history(&self) -> (history: &TextBoxHistory)
        ensures
            history@ == self@.history,
    {
        &self.history
    }

    /// Records the present text and cursor in the history.
    pub fn action(&mut self)
        requires
            old(self)@.wf(),
        ensures
            final(self)@ == old(self)@.record(),
            final(self)@.wf(),
    {
        proof {
            lemma_record_wf(self@);
        }
        self.history.action(&mut self.contents, &mut self.cursor);
    }

    /// Brings the cursor's column back to the end of its line where it lies
    /// beyond it.
    pub fn set_valid_pos(&mut self)
        requires
            old(self)@.wf(),
        ensures
            final(self)@ == old(self)@.with_buffer(old(self)@.buffer.clamp_cursor()),
            final(self)@.wf(),
            final(self)@.buffer.settled(),
    {
        proof {
            lemma_clamp_cursor(self@.buffer);
        }
        let len = self.contents[self.cursor.y_pos].len();
        if self.cursor.x_pos > len {
            self.cursor.x_pos = len;
        }
    }

    /// Brings the anchor's column back to the end of its line where it lies
    /// beyond it.
    pub fn set_valid_pos_h(&mut self)
        requires
            old(self)@.wf(),
        ensures
            final(self)@ == old(self)@.with_buffer(old(self)@.buffer.clamp_anchor()),
            final(self)@.wf(),
            final(self)@.buffer.anchor_settled(),
    {
        proof {
            lemma_clamp_anchor(self@.buffer);
        }
        if let Some((x, y)) = self.cursor.highlight {
            let len = self.contents[y].len();
            if x > len {
                self.cursor.highlight = Some((len, y));
            }
        }
    }

    /// The selected text, or `None` when nothing is selected. Cursor and
    /// anchor are clamped first.
    pub fn highlight(&mut self) -> (text: Option<String>)
        requires
            old(self)@.wf(),
        ensures
            final(self)@ == old(self)@.clamp(),
            final(self)@.wf(),
            match text {
                Some(s) => final(self)@.buffer.selected() == Some(s@),
                None => final(self)@.buffer.selected() is None,
            },
    {
        proof {
            lemma_clamp_valid(self@.buffer);
        }
        self.set_valid_pos();
        self.set_valid_pos_h();
        match self.cursor.range() {
            None => None,
            Some((lo, hi)) => {
                let ghost lines = self@.buffer.lines;
                let mut s = String::new();
                if lo.1 == hi.1 {
                    push_chars(&mut s, &self.contents[lo.1], lo.0, hi.0);
                } else {
                    let first = &self.contents[lo.1];
                    push_chars(&mut s, first, lo.0, first.len());
                    let mut i: usize = lo.1 + 1;
                    assert(lines.subrange(lo.1 + 1, i as int) =~= Seq::<Seq<char>>::empty());
                    while i < hi.1
                        invariant
                            lo.1 < i <= hi.1 < self.contents@.len(),
                            lines == lines_of(self.contents@),
                            lo.0 <= lines[lo.1 as int].len(),
                            s@ == lines[lo.1 as int].skip(lo.0 as int) + lines.subrange(
                                lo.1 + 1,
                                i as int,
                            ).flatten(),
                        decreases hi.1 - i,
                    {
                        let line = &self.contents[i];
                        push_chars(&mut s, line, 0, line.len());
                        proof {
                            let done = lines.subrange(lo.1 + 1, i as int);
                            assert(lines.subrange(lo.1 + 1, i + 1) =~= done.push(lines[i as int]));
                            done.lemma_flatten_push(lines[i as int]);
                            assert(line@.subrange(0, line@.len() as int) =~= lines[i as int]);
                        }
                        i += 1;
                    }
                    push_chars(&mut s, &self.contents[hi.1], 0, hi.0);
                }
                Some(s)
            },
        }
    }

    /// Takes out the selected text and joins what is left of its first and
    /// last line. Cursor and anchor are clamped first; afterwards the cursor
    /// stands where the selection began and nothing is selected. The result
    /// is recorded in the history if any text was taken out.
    pub fn remove_highlight(&mut self)
        requires
            old(self)@.wf(),
        ensures
            final(self)@ == old(self)@.remove_highlight(),
            final(self)@.wf(),
            final(self)@.buffer.cursor.highlight is None,
            final(self)@.buffer.settled(),
    {
        proof {
            lemma_clamp_valid(self@.buffer);
            lemma_remove_highlight(self@);
        }
        self.set_valid_pos();
        self.set_valid_pos_h();
        if let Some((lo, hi)) = self.cursor.range() {
            let ghost b = self@.buffer;
            let ghost lines = b.lines;
            proof {
                lemma_cut(b);
                assert(lo == b.cursor.low() && hi == b.cursor.high());
                assert(lo.1 <= hi.1 < lines.len());
                assert(lo.0 <= lines[lo.1 as int].len());
                assert(hi.0 <= lines[hi.1 as int].len());
            }
            let mut tail = self.contents[hi.1].split_off(hi.0);
            let ghost split = self.contents@;
            assert(tail@ =~= lines[hi.1 as int].skip(hi.0 as int));
            assert(split[hi.1 as int]@ =~= lines[hi.1 as int].take(hi.0 as int));
            assert(forall|j: int| 0 <= j < split.len() && j != hi.1 ==> split[j]@ == lines[j]);
            let ghost view = self@;
            let mut n: usize = hi.1 - lo.1;
            while n > 0
                invariant
                    n <= hi.1 - lo.1,
                    lo.1 <= hi.1 < split.len(),
                    self@.history == view.history,
                    self@.path == view.path,
                    self.contents@ =~= split.take(lo.1 + 1) + split.skip(hi.1 + 1 - n),
                decreases n,
            {
                self.contents.remove(lo.1 + 1);
                n -= 1;
            }
            let ghost merged = self.contents@;
            assert(merged[lo.1 as int] == split[lo.1 as int]);
            self.contents[lo.1].truncate(lo.0);
            self.contents[lo.1].append(&mut tail);
            self.cursor = Cursor { x_pos: lo.0, y_pos: lo.1, highlight: None };
            proof {
                let fin = self.contents@;
                let want = b.cut().lines;
                assert(fin.len() == merged.len());
                assert(fin[lo.1 as int]@ =~= lines[lo.1 as int].take(lo.0 as int) + lines[hi.1 as int].skip(
                    hi.0 as int,
                ));
                assert(want.len() == fin.len());
                assert forall|j: int| 0 <= j < fin.len() implies lines_of(fin)[j] == want[j] by {
                    if j < lo.1 {
                        assert(fin[j] == merged[j]);
                        assert(merged[j] == split[j]);
                    } else if j == lo.1 {
                    } else {
                        assert(fin[j] == merged[j]);
                        assert(merged[j] == split[j + (hi.1 - lo.1)]);
                        assert(want[j] == lines[j + (hi.1 - lo.1)]);
                    }
                }
                assert(self@.buffer.lines =~= want);
                assert(self@ == old(self)@.with_buffer(b.cut()));
            }
            if lo.0 != hi.0 || lo.1 != hi.1 {
                self.action();
            }
        }
    }

    /// Length of the word at gap `x` of line `y`: to the left of the gap when
    /// `reverse` is set, to the right of it otherwise. Never 0.
    pub fn word_length(&self, x: usize, y: usize, reverse: bool) -> (n: usize)
        requires
            (reverse && x <= 1) || (y < self@.buffer.lines.len() && x <= self@.buffer.lines[y as int].len()),
        ensures
            n == word_span(self@.buffer.lines, x, y, reverse),
            n >= 1,
    {
        proof {
            lemma_word_bounds(self@.buffer.lines[y as int], x as int);
        }
        if reverse {
            if x == 0 || x == 1 {
                return 1;
            }
            scan_left(&self.contents[y], x)
        } else {
            scan_right(&self.contents[y], x)
        }
    }

    /// `word_length` where `ctrl` is set, and 1 where it is not.
    pub fn word_length_toggle(&self, reverse: bool, x: usize, y: usize, ctrl: bool) -> (n: usize)
        requires
            !ctrl || (reverse && x <= 1) || (y < self@.buffer.lines.len() && x
                <= self@.buffer.lines[y as int].len()),
        ensures
            n == (if ctrl {
                word_span(self@.buffer.lines, x, y, reverse)
            } else {
                1
            }),
            n >= 1,
    {
        if ctrl {
            self.word_length(x, y, reverse)
        } else {
            1
        }
    }

    /// `word_length_toggle` at the cursor.
    pub fn word_length_toggle_c(&self, reverse: bool, ctrl: bool) -> (n: usize)
        requires
            self@.buffer.wf(),
            !ctrl || (reverse && self@.buffer.cursor.x_pos <= 1) || self@.buffer.settled(),
        ensures
            n == self@.buffer.word_step(reverse, ctrl),
            n >= 1,
    {
        self.word_length_toggle(reverse, self.cursor.x_pos, self.cursor.y_pos, ctrl)
    }

    /// `word_length_toggle` at the anchor; at the cursor where nothing is
    /// selected.
    pub fn word_length_toggle_h(&self, reverse: bool, ctrl: bool) -> (n: usize)
        requires
            self@.buffer.wf(),
            !ctrl || (reverse && self@.buffer.cursor.anchor().0 <= 1) || (self@.buffer.settled()
                && self@.buffer.anchor_settled()),
        ensures
            n == self@.buffer.anchor_word_step(reverse, ctrl),
            n >= 1,
    {
        let (x, y) = match self.cursor.highlight {
            Some(p) => p,
            None => (self.cursor.x_pos, self.cursor.y_pos),
        };
        self.word_length_toggle(reverse, x, y, ctrl)
    }

    /// Erases the character before the cursor; at the start of a line, joins
    /// the line to the one above instead.
    pub(crate) fn erase_left(&mut self)
        requires
            old(self)@.wf(),
            old(self)@.buffer.settled(),
            old(self)@.buffer.cursor.highlight is None,
        ensures
            final(self)@ == old(self)@.with_buffer(old(self)@.buffer.erase_left()),
            final(self)@.wf(),
            final(self)@.buffer.settled(),
            final(self)@.buffer.cursor.highlight is None,
    {
        let x = self.cursor.x_pos;
        let y = self.cursor.y_pos;
        let ghost lines = self@.buffer.lines;
        if x == 0 {
            if y != 0 {
                let mut this_line = self.contents.remove(y);
                self.cursor.x_pos = self.contents[y - 1].len();
                self.contents[y - 1].append(&mut this_line);
                self.cursor.y_pos = y - 1;
                assert(self@.buffer.lines =~= lines.update(y - 1, lines[y - 1] + lines[y as int]).remove(
                    y as int,
                ));
            }
        } else {
            self.contents[y].remove(x - 1);
            self.cursor.x_pos = x - 1;
            assert(self@.buffer.lines =~= lines.update(y as int, lines[y as int].remove(x - 1)));
        }
    }

    /// Erases the character at the cursor; at the end of a line, joins the
    /// line below to it instead.
    pub(crate) fn erase_right(&mut self)
        requires
            old(self)@.wf(),
            old(self)@.buffer.settled(),
            old(self)@.buffer.cursor.highlight is None,
        ensures
            final(self)@ == old(self)@.with_buffer(old(self)@.buffer.erase_right()),
            final(self)@.wf(),
            final(self)@.buffer.settled(),
            final(self)@.buffer.cursor.highlight is None,
    {
        let x = self.cursor.x_pos;
        let y = self.cursor.y_pos;
        let ghost lines = self@.buffer.lines;
        if x == self.contents[y].len() {
            if y != self.contents.len() - 1 {
                let mut next_line = self.contents.remove(y + 1);
                self.contents[y].append(&mut next_line);
                assert(self@.buffer.lines =~= lines.update(y as int, lines[y as int] + lines[y + 1]).remove(
                    y + 1,
                ));
            }
        } else {
            self.contents[y].remove(x);
            assert(self@.buffer.lines =~= lines.update(y as int, lines[y as int].remove(x as int)));
        }
    }

    /// Breaks the cursor's line in two at the cursor and moves the cursor to
    /// the start of the second part.
    pub(crate) fn split_line(&mut self)
        requires
            old(self)@.wf(),
            old(self)@.buffer.settled(),
        ensures
            final(self)@ == old(self)@.with_buffer(old(self)@.buffer.split()),
            final(self)@.wf(),
            final(self)@.buffer.settled(),
    {
        let x = self.cursor.x_pos;
        let y = self.cursor.y_pos;
        let ghost lines = self@.buffer.lines;
        let new_line = self.contents[y].split_off(x);
        assert(y < self.contents.len());
        self.contents.insert(y + 1, new_line);
        self.cursor.x_pos = 0;
        self.cursor.y_pos = y + 1;
        assert(self@.buffer.lines =~= lines.update(y as int, lines[y as int].take(x as int)).insert(
            y + 1,
            lines[y as int].skip(x as int),
        ));
    }

    /// Puts `c` in at the cursor and moves the cursor past it.
    pub(crate) fn put_char(&mut self, c: char)
        requires
            old(self)@.wf(),
            old(self)@.buffer.settled(),
        ensures
            final(self)@ == old(self)@.with_buffer(old(self)@.buffer.put(seq![c])),
            final(self)@.wf(),
            final(self)@.buffer.settled(),
            final(self)@.buffer.cursor.x_pos == old(self)@.buffer.cursor.x_pos + 1,
    {
        let x = self.cursor.x_pos;
        let y = self.cursor.y_pos;
        let ghost lines = self@.buffer.lines;
        self.contents[y].insert(x, c);
        assert(self.contents[y as int].len() == lines[y as int].len() + 1);
        self.cursor.x_pos = x + 1;
        assert(lines[y as int].insert(x as int, c) =~= lines[y as int].take(x as int) + seq![c]
            + lines[y as int].skip(x as int));
        assert(self@.buffer.lines =~= lines.update(
            y as int,
            lines[y as int].take(x as int) + seq![c] + lines[y as int].skip(x as int),
        ));
    }

    /// Puts the characters of `text` in at the cursor, one after the other,
    /// and moves the cursor past them.
    pub(crate) fn put_text(&mut self, text: &str)
        requires
            old(self)@.wf(),
            old(self)@.buffer.settled(),
        ensures
            final(self)@ == old(self)@.with_buffer(old(self)@.buffer.put(text@)),
            final(self)@.wf(),
            final(self)@.buffer.settled(),
    {
        let ghost start = self@;
        let ghost x = self.cursor.x_pos as int;
        let ghost y = self.cursor.y_pos as int;
        let ghost line = start.buffer.lines[y];
        assert(start.buffer.put(text@.take(0)).lines =~= start.buffer.lines) by {
            assert(line.take(x) + text@.take(0) + line.skip(x) =~= line);
        }
        for c in it: text.chars()
            invariant
                it.seq() == text@,
                start.wf(),
                start.buffer.settled(),
                x == start.buffer.cursor.x_pos,
                y == start.buffer.cursor.y_pos,
                line == start.buffer.lines[y],
                self@ == start.with_buffer(start.buffer.put(text@.take(it.index()))),
                self@.buffer.cursor.x_pos == x + it.index(),
        {
            let ghost done = text@.take(it.index() as int);
            self.put_char(c);
            proof {
                let next = text@.take(it.index() + 1);
                assert(next =~= done.push(c));
                let at = x + done.len();
                let mid = line.take(x) + done + line.skip(x);
                assert(mid.take(at) + seq![c] + mid.skip(at) =~= line.take(x) + next + line.skip(x));
                assert(self@.buffer.lines =~= start.buffer.put(next).lines);
            }
        }
        assert(text@.take(text@.len() as int) =~= text@);
    }

    /// Puts the cursor and the anchor where `cursor` has them.
    pub(crate) fn move_cursor(&mut self, cursor: Cursor)
        requires
            old(self)@.wf(),
            old(self)@.buffer.with_cursor(cursor).wf(),
        ensures
            final(self)@ == old(self)@.with_buffer(old(self)@.buffer.with_cursor(cursor)),
            final(self)@.wf(),
    {
        self.cursor = cursor;
    }

    /// Steps back in the history, if there is a step back, and makes the
    /// text and the cursor those of the snapshot reached.
    pub fn undo(&mut self)
        requires
            old(self)@.wf(),
        ensures
            final(self)@ == old(self)@.undo(),
            final(self)@.wf(),
    {
        self.history.undo(&mut self.contents, &mut self.cursor);
    }

    /// Steps forward in the history, if there is a step forward, and makes
    /// the text and the cursor those of the snapshot reached.
    pub fn redo(&mut self)
        requires
            old(self)@.wf(),
        ensures
            final(self)@ == old(self)@.redo(),
            final(self)@.wf(),
    {
        self.history.redo(&mut self.contents, &mut self.cursor);
    }

    /// The whole text as it is saved: the lines with a line feed between each
    /// two of them.
    pub fn save_text(&self) -> (text: String)
        ensures
            text@ == joined(self@.buffer.lines),
    {
        let ghost lines = self@.buffer.lines;
        let mut text = String::new();
        let mut i: usize = 0;
        while i < self.contents.len()
            invariant
                i <= self.contents@.len(),
                lines == lines_of(self.contents@),
                text@ == joined(lines.take(i as int)),
            decreases self.contents.len() - i,
        {
            if i > 0 {
                text.push('\n');
            }
            let line = &self.contents[i];
            push_chars(&mut text, line, 0, line.len());
            proof {
                assert(lines.take(i + 1).drop_last() =~= lines.take(i as int));
                assert(line@.subrange(0, line@.len() as int) =~= lines[i as int]);
                assert(lines.take(i + 1).last() == lines[i as int]);
                if i == 0 {
                    assert(joined(lines.take(0)) =~= Seq::<char>::empty());
                    assert(joined(lines.take(1)) =~= lines[0]);
                }
            }
            i += 1;
        }
        assert(lines.take(lines.len() as int) =~= lines);
        text
    }

    /// The first line to show in a window of `height` lines: the cursor's
    /// line stays in the middle of the window unless it is within half a
    /// window of either end of the text.
    pub fn calculate_start(&mut self, height: usize) -> (start: usize)
        requires
            old(self)@.wf(),
        ensures
            *final(self) == *old(self),
            start == window_start(
                old(self)@.buffer.cursor.y_pos as int,
                old(self)@.buffer.lines.len() as int,
                height as int,
            ),
            start <= old(self)@.buffer.cursor.y_pos,
            height > 0 ==> old(self)@.buffer.cursor.y_pos < start + height,
    {
        let current_line = self.cursor.y_pos;
        let half_pos = height / 2;
        let total_length = self.contents.len();
        if current_line < half_pos || total_length <= height {
            0
        } else if current_line >= total_length - half_pos {
            total_length - height
        } else {
            current_line - half_pos
        }
    }
}

} // verus!
