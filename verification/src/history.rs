//! Undo and redo: a bounded list of snapshots and the index of the one that
//! is current.

use crate::buffer::Buffer;
use crate::cursor::Cursor;
use vstd::prelude::*;

verus! {

/// The most snapshots that a history holds.
pub const UNDOS: usize = 10;

/// The lines of a document as sequences of characters.
pub open spec fn lines_of(doc: Seq<Vec<char>>) -> Seq<Seq<char>> {
    Seq::new(doc.len(), |i: int| doc[i]@)
}

/// The model of a history: its snapshots, oldest first, and the index of the
/// current one.
pub struct HistoryView {
    pub pos: nat,
    pub undos: Seq<Buffer>,
}

impl HistoryView {
    /// At most `UNDOS` snapshots, and `pos` points at one of them (it is 0 while
    /// there is none).
    pub open spec fn wf(self) -> bool {
        &&& self.undos.len() <= UNDOS
        &&& self.undos.len() == 0 ==> self.pos == 0
        &&& self.undos.len() > 0 ==> self.pos < self.undos.len()
    }

    /// The current snapshot.
    pub open spec fn live(self) -> Buffer {
        self.undos[self.pos as int]
    }

    pub open spec fn can_undo(self) -> bool {
        self.pos > 0
    }

    pub open spec fn can_redo(self) -> bool {
        self.pos + 1 < self.undos.len()
    }

    /// The snapshots that a new record keeps: those up to the current one,
    /// less the oldest where there would be no room for one more.
    pub open spec fn kept(self) -> Seq<Buffer> {
        let past = if self.undos.len() == 0 {
            self.undos
        } else {
            self.undos.take(self.pos + 1 as int)
        };
        if past.len() >= UNDOS {
            past.skip(past.len() - UNDOS + 1)
        } else {
            past
        }
    }

    /// The history after `b` was recorded: `b` follows the kept snapshots and
    /// is the current one.
    pub open spec fn record(self, b: Buffer) -> HistoryView {
        HistoryView { pos: self.kept().len(), undos: self.kept().push(b) }
    }

    /// One step back, if there is one.
    pub open spec fn undo(self) -> HistoryView {
        if self.can_undo() {
            HistoryView { pos: (self.pos - 1) as nat, undos: self.undos }
        } else {
            self
        }
    }

    /// One step forward, if there is one.
    pub open spec fn redo(self) -> HistoryView {
        if self.can_redo() {
            HistoryView { pos: self.pos + 1, undos: self.undos }
        } else {
            self
        }
    }

    /// The oldest snapshot made the current one.
    pub open spec fn start(self) -> HistoryView {
        HistoryView { pos: 0, undos: self.undos }
    }
}

/// One snapshot: a copy of the whole text and of the cursor.
pub struct TextBoxUndos {
    pub cursor: Cursor,
    pub contents: Vec<Vec<char>>,
}

impl View for TextBoxUndos {
    type V = Buffer;

    open spec fn view(&self) -> Buffer {
        Buffer { lines: lines_of(self.contents@), cursor: self.cursor }
    }
}

/// The undo history of a text box.
pub struct TextBoxHistory {
    pos: usize,
    undos: Vec<TextBoxUndos>,
}

impl View for TextBoxHistory {
    type V = HistoryView;

    closed spec fn view(&self) -> HistoryView {
        HistoryView { pos: self.pos as nat, undos: Seq::new(self.undos@.len(), |i: int| self.undos@[i]@) }
    }
}

impl TextBoxHistory {
    /// A history without snapshots.
    pub fn new() -> (h: TextBoxHistory)
        ensures
            h@ == (HistoryView { pos: 0, undos: Seq::empty() }),
            h@.wf(),
    {
        let h = TextBoxHistory { pos: 0, undos: Vec::new() };
        assert(h@.undos =~= Seq::empty());
        h
    }

    /// Makes the oldest snapshot the current one, so that nothing recorded
    /// before can be undone.
    pub fn start(&mut self)
        requires
            old(self)@.wf(),
        ensures
            final(self)@ == old(self)@.start(),
            final(self)@.wf(),
    {
        self.pos = 0;
    }

    /// Index of the current snapshot.
    pub fn pos(&self) -> (p: usize)
        ensures
            p == self@.pos,
    {
        self.pos
    }

    /// Number of snapshots held.
    pub fn len(&self) -> (n: usize)
        ensures
            n == self@.undos.len(),
    {
        self.undos.len()
    }

    /// Records the text and the cursor as the new current snapshot. Snapshots
    /// that an undo had stepped back from are dropped first; then, if the
    /// history is full, the oldest one is.
    pub fn action(&mut self, tbco: &mut Vec<Vec<char>>, tbcu: &mut Cursor)
        requires
            old(self)@.wf(),
        ensures
            final(self)@ == old(self)@.record(
                Buffer { lines: lines_of(old(tbco)@), cursor: *old(tbcu) },
            ),
            final(self)@.wf(),
            *final(tbco) == *old(tbco),
            *final(tbcu) == *old(tbcu),
    {
        let ghost before = self@;
        if self.undos.len() > 0 {
            self.undos.truncate(self.pos + 1);
        }
        if self.undos.len() >= UNDOS {
            self.undos.remove(0);
        }
        let snapshot = TextBoxUndos { cursor: *tbcu, contents: tbco.clone() };
        assert(snapshot@.lines =~= lines_of(tbco@));
        assert(self@.undos =~= before.kept());
        self.undos.push(snapshot);
        self.pos = self.undos.len() - 1;
        assert(self@.undos =~= before.kept().push(snapshot@));
    }

    /// Steps back to the snapshot before the current one and copies it into
    /// the text and the cursor. Without an earlier snapshot nothing changes.
    pub fn undo(&mut self, tbco: &mut Vec<Vec<char>>, tbcu: &mut Cursor)
        requires
            old(self)@.wf(),
        ensures
            final(self)@ == old(self)@.undo(),
            final(self)@.wf(),
            old(self)@.can_undo() ==> lines_of(final(tbco)@) == final(self)@.live().lines,
            old(self)@.can_undo() ==> *final(tbcu) == final(self)@.live().cursor,
            !old(self)@.can_undo() ==> *final(tbco) == *old(tbco) && *final(tbcu) == *old(tbcu),
    {
        if self.pos > 0 {
            self.pos -= 1;
            let undo = &self.undos[self.pos];
            *tbcu = undo.cursor;
            *tbco = undo.contents.clone();
            assert(lines_of(tbco@) =~= self@.live().lines);
        }
    }

    /// Steps forward to the snapshot after the current one and copies it into
    /// the text and the cursor. Without a later snapshot nothing changes.
    pub fn redo(&mut self, tbco: &mut Vec<Vec<char>>, tbcu: &mut Cursor)
        requires
            old(self)@.wf(),
        ensures
            final(self)@ == old(self)@.redo(),
            final(self)@.wf(),
            old(self)@.can_redo() ==> lines_of(final(tbco)@) == final(self)@.live().lines,
            old(self)@.can_redo() ==> *final(tbcu) == final(self)@.live().cursor,
            !old(self)@.can_redo() ==> *final(tbco) == *old(tbco) && *final(tbcu) == *old(tbcu),
    {
        if self.undos.len() > 0 && self.pos < self.undos.len() - 1 {
            self.pos += 1;
            let redo = &self.undos[self.pos];
            *tbcu = redo.cursor;
            *tbco = redo.contents.clone();
            assert(lines_of(tbco@) =~= self@.live().lines);
        }
    }
}

/// A history never holds more than `UNDOS` snapshots. Where a record finds it
/// full, the oldest snapshot leaves; either way the recorded state is the
/// current snapshot afterwards.
pub proof fn lemma_record_bounded(h: HistoryView, b: Buffer)
    requires
        h.wf(),
    ensures
        h.record(b).wf(),
        h.record(b).undos.len() <= UNDOS,
        h.record(b).live() == b,
        h.undos.len() == UNDOS && h.pos == UNDOS - 1 ==> h.record(b).undos == h.undos.drop_first().push(
            b,
        ) && h.record(b).pos == h.pos,
        h.undos.len() > 0 && h.pos + 1 < UNDOS ==> h.record(b).undos == h.undos.take(h.pos + 1 as int).push(b)
            && h.record(b).pos == h.pos + 1,
{
    if h.undos.len() == UNDOS && h.pos == UNDOS - 1 {
        assert(h.undos.take(h.pos + 1 as int) =~= h.undos);
        assert(h.kept() =~= h.undos.drop_first());
    }
}

/// A record after an undo leaves no snapshot beyond the new current one: what
/// the undo had stepped back from is gone, and no redo is possible.
pub proof fn lemma_record_drops_redo(h: HistoryView, b: Buffer)
    requires
        h.wf(),
    ensures
        !h.record(b).can_redo(),
        h.record(b).pos + 1 == h.record(b).undos.len(),
        h.record(b).undos.last() == b,
        forall|i: int|
            0 <= i < h.record(b).pos ==> #[trigger] h.record(b).undos[i] == h.undos[i + (h.pos + 1
                - h.record(b).pos)],
{
}

/// An undo straight after a record brings back the state that was current
/// before the record.
pub proof fn lemma_undo_after_record(h: HistoryView, b: Buffer)
    requires
        h.wf(),
        h.undos.len() > 0,
    ensures
        h.record(b).can_undo(),
        h.record(b).undo().live() == h.live(),
{
}

/// A redo takes back an undo: after both the history is what it was, and the
/// state handed out is the snapshot that was current before the undo.
pub proof fn lemma_redo_after_undo(h: HistoryView)
    requires
        h.wf(),
        h.can_undo(),
    ensures
        h.undo().can_redo(),
        h.undo().redo() == h,
        h.undo().redo().live() == h.live(),
{
}

} // verus!
