//! The mathematical model of a text box: the text under edit together with
//! its undo history, and what each key makes of them.

use crate::buffer::{joined, lemma_beside_n, lemma_clamp_valid, lemma_cut, lemma_erase_n, Buffer};
use crate::history::{
    lemma_record_bounded, lemma_redo_after_undo, lemma_undo_after_record, HistoryView,
};
use crate::key::{KeyCode, KeyEvent, CONTROL, SHIFT};
use vstd::prelude::*;

verus! {

/// The model of a text box.
pub struct TextBoxView {
    pub buffer: Buffer,
    pub history: HistoryView,
    pub path: Seq<char>,
}

/// What a key asks of the world outside the text box.
pub enum EffectView {
    /// Nothing.
    Nothing,
    /// Put this text on the clipboard.
    Copy(Seq<char>),
    /// Fetch the clipboard and paste it.
    Paste,
    /// Write this text to the file.
    Save(Seq<char>),
}

/// One thing done to a text box: a key pressed, or a text pasted.
pub enum Edit {
    Key(KeyEvent),
    Paste(Seq<char>),
}

impl TextBoxView {
    /// The text, the history and every snapshot in it are well formed.
    pub open spec fn wf(self) -> bool {
        &&& self.buffer.wf()
        &&& self.history.wf()
        &&& forall|i: int| 0 <= i < self.history.undos.len() ==> (#[trigger] self.history.undos[i]).wf()
    }

    pub open spec fn with_buffer(self, buffer: Buffer) -> TextBoxView {
        TextBoxView { buffer, ..self }
    }

    /// The present text and cursor recorded in the history.
    pub open spec fn record(self) -> TextBoxView {
        TextBoxView { history: self.history.record(self.buffer), ..self }
    }

    /// Cursor and anchor clamped.
    pub open spec fn clamp(self) -> TextBoxView {
        self.with_buffer(self.buffer.clamp())
    }

    /// The selected text taken out. Cursor and anchor are clamped first. The
    /// result is recorded if any text was taken out. Nothing is selected
    /// afterwards.
    pub open spec fn remove_highlight(self) -> TextBoxView {
        let b = self.buffer.clamp();
        if b.cursor.highlight is Some {
            if b.cursor.low() != b.cursor.high() {
                self.with_buffer(b.cut()).record()
            } else {
                self.with_buffer(b.cut())
            }
        } else {
            self.with_buffer(b)
        }
    }

    /// One step back in the history; the text and the cursor become those of
    /// the snapshot reached.
    pub open spec fn undo(self) -> TextBoxView {
        if self.history.can_undo() {
            TextBoxView { buffer: self.history.undo().live(), history: self.history.undo(), ..self }
        } else {
            self
        }
    }

    /// One step forward in the history; the text and the cursor become those
    /// of the snapshot reached.
    pub open spec fn redo(self) -> TextBoxView {
        if self.history.can_redo() {
            TextBoxView { buffer: self.history.redo().live(), history: self.history.redo(), ..self }
        } else {
            self
        }
    }

    /// Backspace: takes out the selection if there is one; else erases one
    /// character before the cursor, or a word with `ctrl`, and records.
    pub open spec fn backspace(self, ctrl: bool) -> TextBoxView {
        let b = self.buffer.clamp_cursor();
        if b.cursor.highlight is Some {
            self.remove_highlight()
        } else {
            self.with_buffer(b.erase_left_n(b.word_step(true, ctrl))).record()
        }
    }

    /// Delete: takes out the selection if there is one; else erases one
    /// character at the cursor, or a word with `ctrl`, and records.
    pub open spec fn delete(self, ctrl: bool) -> TextBoxView {
        let b = self.buffer.clamp_cursor();
        if b.cursor.highlight is Some {
            self.remove_highlight()
        } else {
            self.with_buffer(b.erase_right_n(b.word_step(false, ctrl))).record()
        }
    }

    /// Enter: takes out the selection, breaks the line at the cursor, and
    /// records.
    pub open spec fn enter(self) -> TextBoxView {
        let v = self.remove_highlight();
        v.with_buffer(v.buffer.split()).record()
    }

    /// A character typed: takes out the selection, puts the character in at
    /// the cursor, and records.
    pub open spec fn insert(self, c: char) -> TextBoxView {
        let v = self.remove_highlight();
        v.with_buffer(v.buffer.put(seq![c])).record()
    }

    /// Tab: a tab character typed.
    pub open spec fn tab(self) -> TextBoxView {
        self.insert('\t')
    }

    /// A text pasted: takes out the selection, puts the text in at the
    /// cursor, and records once.
    pub open spec fn paste(self, text: Seq<char>) -> TextBoxView {
        let v = self.remove_highlight();
        v.with_buffer(v.buffer.put(text)).record()
    }

    /// Left arrow. Without `shift` the selection is dropped and the cursor
    /// moves; with `shift` the anchor moves, starting from the cursor where
    /// nothing was selected. The move is one step, or a word with `ctrl`.
    pub open spec fn left(self, shift: bool, ctrl: bool) -> TextBoxView {
        let b = self.buffer.clamp();
        if shift {
            self.with_buffer(
                b.anchor_at(b.left_of_n(b.cursor.anchor(), b.anchor_word_step(true, ctrl))),
            )
        } else {
            self.with_buffer(b.cursor_at(b.left_of_n(b.cursor.pos(), b.word_step(true, ctrl))))
        }
    }

    /// Right arrow; see `left`.
    pub open spec fn right(self, shift: bool, ctrl: bool) -> TextBoxView {
        let b = self.buffer.clamp();
        if shift {
            self.with_buffer(
                b.anchor_at(b.right_of_n(b.cursor.anchor(), b.anchor_word_step(false, ctrl))),
            )
        } else {
            self.with_buffer(b.cursor_at(b.right_of_n(b.cursor.pos(), b.word_step(false, ctrl))))
        }
    }

    /// Up arrow: moves the anchor with `shift`, the cursor without.
    pub open spec fn up(self, shift: bool) -> TextBoxView {
        if shift {
            self.with_buffer(self.buffer.anchor_up())
        } else {
            self.with_buffer(self.buffer.step_up())
        }
    }

    /// Down arrow: moves the anchor with `shift`, the cursor without.
    pub open spec fn down(self, shift: bool) -> TextBoxView {
        if shift {
            self.with_buffer(self.buffer.anchor_down())
        } else {
            self.with_buffer(self.buffer.step_down())
        }
    }

    /// What Control with the letter `c` does to the text box: `z` undoes (with
    /// `shift` it redoes), `y` redoes, `x` takes out the selection, `c` clamps
    /// cursor and anchor. Pasting for `v` is a step of its own, made when the
    /// clipboard has been read.
    pub open spec fn ctrl_key(self, c: char, shift: bool) -> TextBoxView {
        if c == 'c' || c == 'C' {
            self.clamp()
        } else if c == 'z' || c == 'Z' {
            if shift {
                self.redo()
            } else {
                self.undo()
            }
        } else if c == 'y' || c == 'Y' {
            self.redo()
        } else if c == 'x' || c == 'X' {
            self.remove_highlight()
        } else {
            self
        }
    }

    /// What Control with the letter `c` asks of the outside: `c` and `x` hand
    /// out the selected text, if there is one; `v` asks for the clipboard; `s`
    /// hands out the whole text for saving.
    pub open spec fn ctrl_effect(self, c: char) -> EffectView {
        if c == 'c' || c == 'C' || c == 'x' || c == 'X' {
            match self.buffer.clamp().selected() {
                Some(text) => EffectView::Copy(text),
                None => EffectView::Nothing,
            }
        } else if c == 'v' || c == 'V' {
            EffectView::Paste
        } else if c == 's' || c == 'S' {
            EffectView::Save(joined(self.buffer.lines))
        } else {
            EffectView::Nothing
        }
    }

    /// The text box after key `k`.
    pub open spec fn key(self, k: KeyEvent) -> TextBoxView {
        let ctrl = k.modifiers.has(CONTROL);
        let shift = k.modifiers.has(SHIFT);
        match k.code {
            KeyCode::Backspace => self.backspace(ctrl),
            KeyCode::Delete => self.delete(ctrl),
            KeyCode::Enter => self.enter(),
            KeyCode::Left => self.left(shift, ctrl),
            KeyCode::Right => self.right(shift, ctrl),
            KeyCode::Up => self.up(shift),
            KeyCode::Down => self.down(shift),
            KeyCode::Tab => self.tab(),
            KeyCode::Char(c) => if ctrl {
                self.ctrl_key(c, shift)
            } else {
                self.insert(c)
            },
            _ => self,
        }
    }

    /// What key `k` asks of the outside.
    pub open spec fn key_effect(self, k: KeyEvent) -> EffectView {
        match k.code {
            KeyCode::Char(c) => if k.modifiers.has(CONTROL) {
                self.ctrl_effect(c)
            } else {
                EffectView::Nothing
            },
            _ => EffectView::Nothing,
        }
    }

    /// The text box after one edit.
    pub open spec fn apply(self, e: Edit) -> TextBoxView {
        match e {
            Edit::Key(k) => self.key(k),
            Edit::Paste(text) => self.paste(text),
        }
    }

    /// The text box after a sequence of edits, made in order.
    pub open spec fn apply_all(self, edits: Seq<Edit>) -> TextBoxView
        decreases edits.len(),
    {
        if edits.len() == 0 {
            self
        } else {
            self.apply(edits[0]).apply_all(edits.drop_first())
        }
    }
}

/// Whether `k` is the key that ends the session: Control with `q`.
pub open spec fn key_quits(k: KeyEvent) -> bool {
    k.modifiers.has(CONTROL) && (k.code == KeyCode::Char('q') || k.code == KeyCode::Char('Q'))
}

/// Recording keeps a text box well formed.
pub proof fn lemma_record_wf(v: TextBoxView)
    requires
        v.wf(),
    ensures
        v.record().wf(),
        v.record().buffer == v.buffer,
        v.record().history.live() == v.buffer,
{
    lemma_record_bounded(v.history, v.buffer);
    let h = v.history.record(v.buffer);
    assert forall|i: int| 0 <= i < h.undos.len() implies (#[trigger] h.undos[i]).wf() by {
        if i < h.undos.len() - 1 {
            let k = v.history.kept();
            assert(h.undos[i] == k[i]);
            let past = if v.history.undos.len() == 0 {
                v.history.undos
            } else {
                v.history.undos.take(v.history.pos + 1 as int)
            };
            if past.len() >= crate::history::UNDOS {
                assert(k[i] == past[i + (past.len() - crate::history::UNDOS + 1)]);
                assert(k[i] == v.history.undos[i + (past.len() - crate::history::UNDOS + 1)]);
            } else {
                assert(k[i] == v.history.undos[i]);
            }
        }
    }
}

/// Taking out the selection keeps a text box well formed and leaves nothing
/// selected: asking for the selected text afterwards yields `None`.
pub proof fn lemma_remove_highlight(v: TextBoxView)
    requires
        v.wf(),
    ensures
        v.remove_highlight().wf(),
        v.remove_highlight().buffer.settled(),
        v.remove_highlight().buffer.cursor.highlight is None,
        v.remove_highlight().buffer.clamp() == v.remove_highlight().buffer,
        v.remove_highlight().buffer.selected() is None,
        v.remove_highlight().clamp().buffer.selected() is None,
{
    lemma_clamp_valid(v.buffer);
    let b = v.buffer.clamp();
    if b.cursor.highlight is Some {
        lemma_cut(b);
        lemma_record_wf(v.with_buffer(b.cut()));
    }
}

/// Undo and redo keep a text box well formed.
pub proof fn lemma_undo_redo_wf(v: TextBoxView)
    requires
        v.wf(),
    ensures
        v.undo().wf(),
        v.redo().wf(),
{
}

/// Undo straight after a record brings back the text and the cursor that
/// were current before it, whatever was recorded.
pub proof fn lemma_undo_restores(v: TextBoxView, b: Buffer)
    requires
        v.wf(),
        v.history.undos.len() > 0,
    ensures
        v.with_buffer(b).record().history.can_undo(),
        v.with_buffer(b).record().undo().buffer == v.history.live(),
{
    lemma_undo_after_record(v.history, b);
}

/// A redo takes back an undo: where there was a step back to take, and the
/// text box stood at its current snapshot, undo and then redo leave the text
/// box exactly as it was.
pub proof fn lemma_redo_restores(v: TextBoxView)
    requires
        v.wf(),
        v.history.can_undo(),
        v.buffer == v.history.live(),
    ensures
        v.undo().redo() == v,
{
    lemma_redo_after_undo(v.history);
}

/// Every key keeps a text box well formed: the text has at least one line,
/// and the cursor stands on a line that exists.
pub proof fn lemma_key_wf(v: TextBoxView, k: KeyEvent)
    requires
        v.wf(),
    ensures
        v.key(k).wf(),
        v.key(k).buffer.lines.len() >= 1,
        v.key(k).buffer.cursor.y_pos < v.key(k).buffer.lines.len(),
{
    let ctrl = k.modifiers.has(CONTROL);
    let shift = k.modifiers.has(SHIFT);
    lemma_clamp_valid(v.buffer);
    crate::buffer::lemma_clamp_cursor(v.buffer);
    lemma_remove_highlight(v);
    lemma_undo_redo_wf(v);
    let r = v.remove_highlight();
    let b = v.buffer.clamp();
    let bc = v.buffer.clamp_cursor();
    match k.code {
        KeyCode::Backspace => {
            if bc.cursor.highlight is None {
                lemma_erase_n(bc, bc.word_step(true, ctrl));
                lemma_record_wf(v.with_buffer(bc.erase_left_n(bc.word_step(true, ctrl))));
            }
        },
        KeyCode::Delete => {
            if bc.cursor.highlight is None {
                lemma_erase_n(bc, bc.word_step(false, ctrl));
                lemma_record_wf(v.with_buffer(bc.erase_right_n(bc.word_step(false, ctrl))));
            }
        },
        KeyCode::Enter => {
            lemma_record_wf(r.with_buffer(r.buffer.split()));
        },
        KeyCode::Left => {
            lemma_beside_n(b, b.cursor.anchor(), b.anchor_word_step(true, ctrl));
            lemma_beside_n(b, b.cursor.pos(), b.word_step(true, ctrl));
        },
        KeyCode::Right => {
            lemma_beside_n(b, b.cursor.anchor(), b.anchor_word_step(false, ctrl));
            lemma_beside_n(b, b.cursor.pos(), b.word_step(false, ctrl));
        },
        KeyCode::Tab => {
            lemma_record_wf(r.with_buffer(r.buffer.put(seq!['\t'])));
        },
        KeyCode::Char(c) => {
            if !ctrl {
                lemma_record_wf(r.with_buffer(r.buffer.put(seq![c])));
            }
        },
        _ => {},
    }
}

/// Pasting keeps a text box well formed.
pub proof fn lemma_paste_wf(v: TextBoxView, text: Seq<char>)
    requires
        v.wf(),
    ensures
        v.paste(text).wf(),
{
    lemma_remove_highlight(v);
    let r = v.remove_highlight();
    lemma_record_wf(r.with_buffer(r.buffer.put(text)));
}

/// Whatever edits are made, in whatever order, the text keeps at least one
/// line, the cursor stays on a line that exists, and once clamped its column
/// lies within that line.
pub proof fn lemma_edits_keep_wf(v: TextBoxView, edits: Seq<Edit>)
    requires
        v.wf(),
    ensures
        v.apply_all(edits).wf(),
        v.apply_all(edits).buffer.lines.len() >= 1,
        v.apply_all(edits).buffer.cursor.y_pos < v.apply_all(edits).buffer.lines.len(),
        v.apply_all(edits).buffer.clamp().cursor.x_pos <= v.apply_all(edits).buffer.clamp().line().len(),
    decreases edits.len(),
{
    if edits.len() == 0 {
        lemma_clamp_valid(v.buffer);
    } else {
        match edits[0] {
            Edit::Key(k) => lemma_key_wf(v, k),
            Edit::Paste(text) => lemma_paste_wf(v, text),
        }
        lemma_edits_keep_wf(v.apply(edits[0]), edits.drop_first());
    }
}

} // verus!
