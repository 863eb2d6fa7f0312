//! What each key does to a text box.

use crate::buffer::{lemma_beside, lemma_clamp_cursor, lemma_clamp_valid};
use crate::cursor::Cursor;
use crate::history::lines_of;
use crate::key::{KeyCode, KeyEvent, KeyModifiers, CONTROL, SHIFT};
use crate::model::{key_quits, EffectView};
use crate::state::State;
use crate::textbox::TextBox;
use vstd::prelude::*;

verus! {

/// What a key asks of the world outside the text box. The text box does no
/// input or output of its own: the caller carries these out.
#[derive(Debug, PartialEq, Eq)]
pub enum Effect {
    /// Nothing.
    Nothing,
    /// Put this text on the clipboard.
    Copy(String),
    /// Fetch the clipboard and hand it to `TextBox::paste`.
    Paste,
    /// Write this text to the file under the text box's path.
    Save(String),
}

impl View for Effect {
    type V = EffectView;

    open spec fn view(&self) -> EffectView {
        match self {
            Effect::Nothing => EffectView::Nothing,
            Effect::Copy(text) => EffectView::Copy(text@),
            Effect::Paste => EffectView::Paste,
            Effect::Save(text) => EffectView::Save(text@),
        }
    }
}

impl TextBox {
    /// The position `n` steps to the left of `p`.
    fn walk_left(&self, p: (usize, usize), n: usize) -> (r: (usize, usize))
        requires
            self@.wf(),
            p.1 < self@.buffer.lines.len(),
            p.0 <= self@.buffer.lines[p.1 as int].len(),
        ensures
            r == self@.buffer.left_of_n(p, n as nat),
            r.1 < self@.buffer.lines.len(),
            r.0 <= self@.buffer.lines[r.1 as int].len(),
    {
        let lines = self.lines();
        let ghost b = self@.buffer;
        let mut at = p;
        let mut i: usize = 0;
        while i < n
            invariant
                i <= n,
                b.lines == lines_of(lines@),
                b.lines.len() >= 1,
                at.1 < b.lines.len(),
                at.0 <= b.lines[at.1 as int].len(),
                b.left_of_n(at, (n - i) as nat) == b.left_of_n(p, n as nat),
            decreases n - i,
        {
            proof {
                lemma_beside(b, at);
            }
            if at.0 > 0 {
                at = (at.0 - 1, at.1);
            } else if at.1 > 0 {
                at = (lines[at.1 - 1].len(), at.1 - 1);
            }
            i += 1;
        }
        at
    }

    /// The position `n` steps to the right of `p`.
    fn walk_right(&self, p: (usize, usize), n: usize) -> (r: (usize, usize))
        requires
            self@.wf(),
            p.1 < self@.buffer.lines.len(),
            p.0 <= self@.buffer.lines[p.1 as int].len(),
        ensures
            r == self@.buffer.right_of_n(p, n as nat),
            r.1 < self@.buffer.lines.len(),
            r.0 <= self@.buffer.lines[r.1 as int].len(),
    {
        let lines = self.lines();
        let ghost b = self@.buffer;
        let mut at = p;
        let mut i: usize = 0;
        while i < n
            invariant
                i <= n,
                b.lines == lines_of(lines@),
                b.lines.len() >= 1,
                at.1 < b.lines.len(),
                at.0 <= b.lines[at.1 as int].len(),
                b.right_of_n(at, (n - i) as nat) == b.right_of_n(p, n as nat),
            decreases n - i,
        {
            proof {
                lemma_beside(b, at);
            }
            if at.0 < lines[at.1].len() {
                at = (at.0 + 1, at.1);
            } else if at.1 < lines.len() - 1 {
                at = (0, at.1 + 1);
            }
            i += 1;
        }
        at
    }

    /// Backspace. Takes out the selection if there is one. Else erases the
    /// character before the cursor, or with `ctrl` the word before it, line
    /// ends counting as characters, and records the result.
    pub fn backspace(&mut self, ctrl: bool)
        requires
            old(self)@.wf(),
        ensures
            final(self)@ == old(self)@.backspace(ctrl),
            final(self)@.wf(),
    {
        proof {
            lemma_clamp_cursor(self@.buffer);
        }
        self.set_valid_pos();
        if self.cursor().highlight.is_some() {
            self.remove_highlight();
        } else {
            let n = self.word_length_toggle_c(true, ctrl);
            let ghost from = self@;
            let mut i: usize = 0;
            while i < n
                invariant
                    i <= n,
                    self@.wf(),
                    self@.buffer.settled(),
                    self@.buffer.cursor.highlight is None,
                    self@.history == from.history,
                    self@.path == from.path,
                    self@.buffer.erase_left_n((n - i) as nat) == from.buffer.erase_left_n(n as nat),
                decreases n - i,
            {
                self.erase_left();
                i += 1;
            }
            self.action();
        }
    }

    /// Delete. Takes out the selection if there is one. Else erases the
    /// character at the cursor, or with `ctrl` the word at it, line ends
    /// counting as characters, and records the result.
    pub fn delete(&mut self, ctrl: bool)
        requires
            old(self)@.wf(),
        ensures
            final(self)@ == old(self)@.delete(ctrl),
            final(self)@.wf(),
    {
        proof {
            lemma_clamp_cursor(self@.buffer);
        }
        self.set_valid_pos();
        if self.cursor().highlight.is_some() {
            self.remove_highlight();
        } else {
            let n = self.word_length_toggle_c(false, ctrl);
            let ghost from = self@;
            let mut i: usize = 0;
            while i < n
                invariant
                    i <= n,
                    self@.wf(),
                    self@.buffer.settled(),
                    self@.buffer.cursor.highlight is None,
                    self@.history == from.history,
                    self@.path == from.path,
                    self@.buffer.erase_right_n((n - i) as nat) == from.buffer.erase_right_n(n as nat),
                decreases n - i,
            {
                self.erase_right();
                i += 1;
            }
            self.action();
        }
    }

    /// Enter. Takes out the selection, breaks the line at the cursor, moves
    /// the cursor to the start of the new line, and records the result.
    pub fn enter(&mut self)
        requires
            old(self)@.wf(),
        ensures
            final(self)@ == old(self)@.enter(),
            final(self)@.wf(),
    {
        self.remove_highlight();
        self.split_line();
        self.action();
    }

    /// A character typed. Takes out the selection, puts `c` in at the cursor,
    /// moves the cursor past it, and records the result.
    pub fn insert(&mut self, c: char)
        requires
            old(self)@.wf(),
        ensures
            final(self)@ == old(self)@.insert(c),
            final(self)@.wf(),
    {
        self.remove_highlight();
        self.put_char(c);
        self.action();
    }

    /// Tab: types a tab character.
    pub fn tab(&mut self)
        requires
            old(self)@.wf(),
        ensures
            final(self)@ == old(self)@.tab(),
            final(self)@.wf(),
    {
        self.insert('\t');
    }

    /// Pastes `text`. Takes out the selection, puts the characters of `text`
    /// in at the cursor, moves the cursor past them, and records the result
    /// once.
    pub fn paste(&mut self, text: &str)
        requires
            old(self)@.wf(),
        ensures
            final(self)@ == old(self)@.paste(text@),
            final(self)@.wf(),
    {
        self.remove_highlight();
        self.put_text(text);
        self.action();
    }

    /// Left arrow. Without `shift`, drops the selection and moves the cursor
    /// to the left; with `shift`, moves the anchor instead, starting from the
    /// cursor where nothing was selected. The move is one step, or with
    /// `ctrl` the length of the word to the left; from the start of a line a
    /// step leads to the end of the line above.
    pub fn left(&mut self, shift: bool, ctrl: bool)
        requires
            old(self)@.wf(),
        ensures
            final(self)@ == old(self)@.left(shift, ctrl),
            final(self)@.wf(),
    {
        proof {
            lemma_clamp_valid(self@.buffer);
        }
        self.set_valid_pos();
        self.set_valid_pos_h();
        let cursor = self.cursor();
        if shift {
            let n = self.word_length_toggle_h(true, ctrl);
            let from = match cursor.highlight {
                Some(p) => p,
                None => (cursor.x_pos, cursor.y_pos),
            };
            let p = self.walk_left(from, n);
            self.move_cursor(Cursor { x_pos: cursor.x_pos, y_pos: cursor.y_pos, highlight: Some(p) });
        } else {
            let n = self.word_length_toggle_c(true, ctrl);
            let p = self.walk_left((cursor.x_pos, cursor.y_pos), n);
            self.move_cursor(Cursor { x_pos: p.0, y_pos: p.1, highlight: None });
        }
    }

    /// Right arrow. As `left`, to the right: from the end of a line a step
    /// leads to the start of the line below.
    pub fn right(&mut self, shift: bool, ctrl: bool)
        requires
            old(self)@.wf(),
        ensures
            final(self)@ == old(self)@.right(shift, ctrl),
            final(self)@.wf(),
    {
        proof {
            lemma_clamp_valid(self@.buffer);
        }
        self.set_valid_pos();
        self.set_valid_pos_h();
        let cursor = self.cursor();
        if shift {
            let n = self.word_length_toggle_h(false, ctrl);
            let from = match cursor.highlight {
                Some(p) => p,
                None => (cursor.x_pos, cursor.y_pos),
            };
            let p = self.walk_right(from, n);
            self.move_cursor(Cursor { x_pos: cursor.x_pos, y_pos: cursor.y_pos, highlight: Some(p) });
        } else {
            let n = self.word_length_toggle_c(false, ctrl);
            let p = self.walk_right((cursor.x_pos, cursor.y_pos), n);
            self.move_cursor(Cursor { x_pos: p.0, y_pos: p.1, highlight: None });
        }
    }

    /// Up arrow. Without `shift`, drops the selection and moves the cursor
    /// one line up, keeping its column; on the first line the cursor goes to
    /// the start of the line. With `shift`, moves the anchor in the same way,
    /// starting from the cursor where nothing was selected.
    pub fn up(&mut self, shift: bool)
        requires
            old(self)@.wf(),
        ensures
            final(self)@ == old(self)@.up(shift),
            final(self)@.wf(),
    {
        let cursor = self.cursor();
        if shift {
            let a = match cursor.highlight {
                Some(p) => p,
                None => (cursor.x_pos, cursor.y_pos),
            };
            let p = if a.1 > 0 {
                (a.0, a.1 - 1)
            } else {
                (0, 0)
            };
            self.move_cursor(Cursor { x_pos: cursor.x_pos, y_pos: cursor.y_pos, highlight: Some(p) });
        } else if cursor.y_pos > 0 {
            self.move_cursor(Cursor { x_pos: cursor.x_pos, y_pos: cursor.y_pos - 1, highlight: None });
        } else {
            self.move_cursor(Cursor { x_pos: 0, y_pos: cursor.y_pos, highlight: None });
        }
    }

    /// Down arrow. Without `shift`, drops the selection and moves the cursor
    /// one line down, keeping its column; on the last line the cursor goes to
    /// the end of the line. With `shift`, moves the anchor in the same way,
    /// starting from the cursor where nothing was selected.
    pub fn down(&mut self, shift: bool)
        requires
            old(self)@.wf(),
        ensures
            final(self)@ == old(self)@.down(shift),
            final(self)@.wf(),
    {
        let cursor = self.cursor();
        let count = self.lines().len();
        if shift {
            let a = match cursor.highlight {
                Some(p) => p,
                None => (cursor.x_pos, cursor.y_pos),
            };
            let p = if a.1 < count - 1 {
                (a.0, a.1 + 1)
            } else {
                (self.lines()[a.1].len(), a.1)
            };
            self.move_cursor(Cursor { x_pos: cursor.x_pos, y_pos: cursor.y_pos, highlight: Some(p) });
        } else if cursor.y_pos < count - 1 {
            self.move_cursor(Cursor { x_pos: cursor.x_pos, y_pos: cursor.y_pos + 1, highlight: None });
        } else {
            let end = self.lines()[cursor.y_pos].len();
            self.move_cursor(Cursor { x_pos: end, y_pos: cursor.y_pos, highlight: None });
        }
    }

    /// Control with the letter `c`, either case: `c` copies the selection,
    /// `x` cuts it, `v` asks for a paste, `z` undoes (redoes with Shift), `y`
    /// redoes, `s` saves, `q` quits. Any other letter does nothing. What is
    /// to be done outside the text box comes back as the effect.
    pub fn ctrl_keys(&mut self, c: char, m: KeyModifiers, state: &mut State) -> (effect: Effect)
        requires
            old(self)@.wf(),
        ensures
            final(self)@ == old(self)@.ctrl_key(c, m.has(SHIFT)),
            final(self)@.wf(),
            effect@ == old(self)@.ctrl_effect(c),
            final(state).will_quit == (old(state).will_quit || c == 'q' || c == 'Q'),
            final(state).mode == old(state).mode,
    {
        proof {
            lemma_clamp_valid(self@.buffer);
        }
        if c == 'c' || c == 'C' {
            match self.highlight() {
                Some(text) => Effect::Copy(text),
                None => Effect::Nothing,
            }
        } else if c == 'q' || c == 'Q' {
            state.will_quit = true;
            Effect::Nothing
        } else if c == 'v' || c == 'V' {
            Effect::Paste
        } else if c == 'z' || c == 'Z' {
            if m.contains(SHIFT) {
                self.redo();
            } else {
                self.undo();
            }
            Effect::Nothing
        } else if c == 'y' || c == 'Y' {
            self.redo();
            Effect::Nothing
        } else if c == 'x' || c == 'X' {
            let copied = self.highlight();
            self.remove_highlight();
            match copied {
                Some(text) => Effect::Copy(text),
                None => Effect::Nothing,
            }
        } else if c == 's' || c == 'S' {
            Effect::Save(self.save_text())
        } else {
            Effect::Nothing
        }
    }

    /// Handles one key. What is to be done outside the text box (clipboard,
    /// file) comes back as the effect; Control with `q` sets `will_quit`.
    pub fn recv_key(&mut self, k: KeyEvent, state: &mut State) -> (effect: Effect)
        requires
            old(self)@.wf(),
        ensures
            final(self)@ == old(self)@.key(k),
            final(self)@.wf(),
            effect@ == old(self)@.key_effect(k),
            final(state).will_quit == (old(state).will_quit || key_quits(k)),
            final(state).mode == old(state).mode,
    {
        let ctrl = k.modifiers.contains(CONTROL);
        let shift = k.modifiers.contains(SHIFT);
        match k.code {
            KeyCode::Backspace => {
                self.backspace(ctrl);
                Effect::Nothing
            },
            KeyCode::Delete => {
                self.delete(ctrl);
                Effect::Nothing
            },
            KeyCode::Enter => {
                self.enter();
                Effect::Nothing
            },
            KeyCode::Left => {
                self.left(shift, ctrl);
                Effect::Nothing
            },
            KeyCode::Right => {
                self.right(shift, ctrl);
                Effect::Nothing
            },
            KeyCode::Up => {
                self.up(shift);
                Effect::Nothing
            },
            KeyCode::Down => {
                self.down(shift);
                Effect::Nothing
            },
            KeyCode::Tab => {
                self.tab();
                Effect::Nothing
            },
            KeyCode::Char(c) => {
                if ctrl {
                    self.ctrl_keys(c, k.modifiers, state)
                } else {
                    self.insert(c);
                    Effect::Nothing
                }
            },
            _ => Effect::Nothing,
        }
    }
}

} // verus!
