//! The mathematical model of the text under edit: the lines, the cursor, and
//! what each editing step makes of them.
//!
//! Everything here is specification. The executable text box states its
//! behaviour by these functions.

use crate::cursor::Cursor;
use crate::word::{word_left, word_right};
use vstd::prelude::*;

verus! {

/// The lines of the text and the cursor in them.
pub struct Buffer {
    pub lines: Seq<Seq<char>>,
    pub cursor: Cursor,
}

/// The characters from position `lo` up to position `hi`, both `(x, y)`.
/// Across lines the pieces follow each other directly, with nothing put
/// between them.
pub open spec fn text_between(lines: Seq<Seq<char>>, lo: (usize, usize), hi: (usize, usize)) -> Seq<
    char,
> {
    if lo.1 == hi.1 {
        lines[lo.1 as int].subrange(lo.0 as int, hi.0 as int)
    } else {
        lines[lo.1 as int].skip(lo.0 as int) + lines.subrange(lo.1 + 1, hi.1 as int).flatten()
            + lines[hi.1 as int].take(hi.0 as int)
    }
}

/// The lines with everything from `lo` up to `hi` taken out: what is left of
/// the first and of the last line of the range becomes one line.
pub open spec fn lines_without(lines: Seq<Seq<char>>, lo: (usize, usize), hi: (usize, usize)) -> Seq<
    Seq<char>,
> {
    lines.take(lo.1 as int).push(
        lines[lo.1 as int].take(lo.0 as int) + lines[hi.1 as int].skip(hi.0 as int),
    ) + lines.skip(hi.1 + 1)
}

/// The lines as one text, with a line feed between each two of them.
pub open spec fn joined(lines: Seq<Seq<char>>) -> Seq<char>
    decreases lines.len(),
{
    if lines.len() == 0 {
        Seq::empty()
    } else if lines.len() == 1 {
        lines[0]
    } else {
        joined(lines.drop_last()).push('\n') + lines.last()
    }
}

/// Length of the word at gap `x` of line `y`, to the left when `reverse` is
/// set and to the right otherwise.
pub open spec fn word_span(lines: Seq<Seq<char>>, x: usize, y: usize, reverse: bool) -> nat {
    if reverse {
        word_left(lines[y as int], x as int)
    } else {
        word_right(lines[y as int], x as int)
    }
}

impl Buffer {
    /// There is at least one line, and the cursor and the anchor stand on
    /// lines that exist. Columns are not bound by this: a column may lie
    /// beyond its line's end until it is clamped.
    pub open spec fn wf(self) -> bool {
        &&& self.lines.len() >= 1
        &&& self.cursor.y_pos < self.lines.len()
        &&& self.cursor.highlight matches Some(a) ==> a.1 < self.lines.len()
    }

    /// The line that the cursor is on.
    pub open spec fn line(self) -> Seq<char> {
        self.lines[self.cursor.y_pos as int]
    }

    /// The cursor's column lies within its line.
    pub open spec fn settled(self) -> bool {
        self.cursor.x_pos <= self.line().len()
    }

    /// The anchor's column, if there is an anchor, lies within its line.
    pub open spec fn anchor_settled(self) -> bool {
        self.cursor.highlight matches Some(a) ==> a.0 <= self.lines[a.1 as int].len()
    }

    pub open spec fn with_cursor(self, cursor: Cursor) -> Buffer {
        Buffer { lines: self.lines, cursor }
    }

    pub open spec fn with_x(self, x: usize) -> Buffer {
        self.with_cursor(Cursor { x_pos: x, ..self.cursor })
    }

    pub open spec fn with_highlight(self, highlight: Option<(usize, usize)>) -> Buffer {
        self.with_cursor(Cursor { highlight, ..self.cursor })
    }

    /// The cursor's column brought back to the end of its line where it lay
    /// beyond it.
    pub open spec fn clamp_cursor(self) -> Buffer {
        if self.cursor.x_pos > self.line().len() {
            self.with_x(self.line().len() as usize)
        } else {
            self
        }
    }

    /// The anchor's column brought back to the end of its line where it lay
    /// beyond it.
    pub open spec fn clamp_anchor(self) -> Buffer {
        match self.cursor.highlight {
            Some(a) => if a.0 > self.lines[a.1 as int].len() {
                self.with_highlight(Some((self.lines[a.1 as int].len() as usize, a.1)))
            } else {
                self
            },
            None => self,
        }
    }

    /// Cursor and anchor both clamped.
    pub open spec fn clamp(self) -> Buffer {
        self.clamp_cursor().clamp_anchor()
    }

    /// The selected text, or `None` when nothing is selected.
    pub open spec fn selected(self) -> Option<Seq<char>> {
        match self.cursor.highlight {
            Some(_) => Some(text_between(self.lines, self.cursor.low(), self.cursor.high())),
            None => None,
        }
    }

    /// The selected text taken out: the cursor stands where the selection
    /// began, and nothing is selected any more.
    pub open spec fn cut(self) -> Buffer {
        Buffer {
            lines: lines_without(self.lines, self.cursor.low(), self.cursor.high()),
            cursor: Cursor {
                x_pos: self.cursor.low().0,
                y_pos: self.cursor.low().1,
                highlight: None,
            },
        }
    }

    /// Length of the word at the cursor; 1 unless `ctrl` is set.
    pub open spec fn word_step(self, reverse: bool, ctrl: bool) -> nat {
        if ctrl {
            word_span(self.lines, self.cursor.x_pos, self.cursor.y_pos, reverse)
        } else {
            1
        }
    }

    /// Length of the word at the anchor; 1 unless `ctrl` is set.
    pub open spec fn anchor_word_step(self, reverse: bool, ctrl: bool) -> nat {
        if ctrl {
            word_span(self.lines, self.cursor.anchor().0, self.cursor.anchor().1, reverse)
        } else {
            1
        }
    }

    /// One character erased before the cursor. At the start of a line the
    /// line is joined to the one above; at the start of the text nothing
    /// happens.
    pub open spec fn erase_left(self) -> Buffer {
        let x = self.cursor.x_pos as int;
        let y = self.cursor.y_pos as int;
        if x > 0 {
            Buffer {
                lines: self.lines.update(y, self.lines[y].remove(x - 1)),
                cursor: Cursor { x_pos: (x - 1) as usize, ..self.cursor },
            }
        } else if y > 0 {
            Buffer {
                lines: self.lines.update(y - 1, self.lines[y - 1] + self.lines[y]).remove(y),
                cursor: Cursor {
                    x_pos: self.lines[y - 1].len() as usize,
                    y_pos: (y - 1) as usize,
                    ..self.cursor
                },
            }
        } else {
            self
        }
    }

    /// `erase_left`, `n` times over.
    pub open spec fn erase_left_n(self, n: nat) -> Buffer
        decreases n,
    {
        if n == 0 {
            self
        } else {
            self.erase_left().erase_left_n((n - 1) as nat)
        }
    }

    /// One character erased at the cursor. At the end of a line the line
    /// below is joined to it; at the end of the text nothing happens.
    pub open spec fn erase_right(self) -> Buffer {
        let x = self.cursor.x_pos as int;
        let y = self.cursor.y_pos as int;
        if x != self.lines[y].len() {
            Buffer { lines: self.lines.update(y, self.lines[y].remove(x)), cursor: self.cursor }
        } else if y != self.lines.len() - 1 {
            Buffer {
                lines: self.lines.update(y, self.lines[y] + self.lines[y + 1]).remove(y + 1),
                cursor: self.cursor,
            }
        } else {
            self
        }
    }

    /// `erase_right`, `n` times over.
    pub open spec fn erase_right_n(self, n: nat) -> Buffer
        decreases n,
    {
        if n == 0 {
            self
        } else {
            self.erase_right().erase_right_n((n - 1) as nat)
        }
    }

    /// The cursor's line broken in two at the cursor, which moves to the
    /// start of the second part.
    pub open spec fn split(self) -> Buffer {
        let x = self.cursor.x_pos as int;
        let y = self.cursor.y_pos as int;
        Buffer {
            lines: self.lines.update(y, self.lines[y].take(x)).insert(y + 1, self.lines[y].skip(x)),
            cursor: Cursor { x_pos: 0, y_pos: (y + 1) as usize, ..self.cursor },
        }
    }

    /// `text` put in at the cursor, which moves to its end. A line feed in
    /// `text` is a character like any other: no line is broken.
    pub open spec fn put(self, text: Seq<char>) -> Buffer {
        let x = self.cursor.x_pos as int;
        let y = self.cursor.y_pos as int;
        Buffer {
            lines: self.lines.update(y, self.lines[y].take(x) + text + self.lines[y].skip(x)),
            cursor: Cursor { x_pos: (x + text.len()) as usize, ..self.cursor },
        }
    }

    /// The position one step to the left of `p`: the column before, or the
    /// end of the line above; at the start of the text, `p` itself.
    pub open spec fn left_of(self, p: (usize, usize)) -> (usize, usize) {
        if p.0 > 0 {
            ((p.0 - 1) as usize, p.1)
        } else if p.1 > 0 {
            (self.lines[p.1 - 1].len() as usize, (p.1 - 1) as usize)
        } else {
            p
        }
    }

    /// The position one step to the right of `p`: the column after, or the
    /// start of the line below; at the end of the text, `p` itself.
    pub open spec fn right_of(self, p: (usize, usize)) -> (usize, usize) {
        if p.0 < self.lines[p.1 as int].len() {
            ((p.0 + 1) as usize, p.1)
        } else if p.1 < self.lines.len() - 1 {
            (0, (p.1 + 1) as usize)
        } else {
            p
        }
    }

    /// The position `n` steps to the left of `p`.
    pub open spec fn left_of_n(self, p: (usize, usize), n: nat) -> (usize, usize)
        decreases n,
    {
        if n == 0 {
            p
        } else {
            self.left_of_n(self.left_of(p), (n - 1) as nat)
        }
    }

    /// The position `n` steps to the right of `p`.
    pub open spec fn right_of_n(self, p: (usize, usize), n: nat) -> (usize, usize)
        decreases n,
    {
        if n == 0 {
            p
        } else {
            self.right_of_n(self.right_of(p), (n - 1) as nat)
        }
    }

    /// The cursor put at position `p`, with nothing selected.
    pub open spec fn cursor_at(self, p: (usize, usize)) -> Buffer {
        self.with_cursor(Cursor { x_pos: p.0, y_pos: p.1, highlight: None })
    }

    /// The anchor put at position `p`; the cursor stays.
    pub open spec fn anchor_at(self, p: (usize, usize)) -> Buffer {
        self.with_highlight(Some(p))
    }

    /// The cursor one line up, in the same column, with nothing selected. On
    /// the first line it goes to the start of the line instead.
    pub open spec fn step_up(self) -> Buffer {
        if self.cursor.y_pos > 0 {
            self.cursor_at((self.cursor.x_pos, (self.cursor.y_pos - 1) as usize))
        } else {
            self.cursor_at((0, self.cursor.y_pos))
        }
    }

    /// The cursor one line down, in the same column, with nothing selected.
    /// On the last line it goes to the end of the line instead.
    pub open spec fn step_down(self) -> Buffer {
        if self.cursor.y_pos < self.lines.len() - 1 {
            self.cursor_at((self.cursor.x_pos, (self.cursor.y_pos + 1) as usize))
        } else {
            self.cursor_at((self.line().len() as usize, self.cursor.y_pos))
        }
    }

    /// The anchor one line up, in the same column; from the first line it
    /// goes to the start of the text.
    pub open spec fn anchor_up(self) -> Buffer {
        let a = self.cursor.anchor();
        if a.1 > 0 {
            self.anchor_at((a.0, (a.1 - 1) as usize))
        } else {
            self.anchor_at((0, 0))
        }
    }

    /// The anchor one line down, in the same column; on the last line it goes
    /// to the end of the line.
    pub open spec fn anchor_down(self) -> Buffer {
        let a = self.cursor.anchor();
        if a.1 < self.lines.len() - 1 {
            self.anchor_at((a.0, (a.1 + 1) as usize))
        } else {
            self.anchor_at((self.lines[a.1 as int].len() as usize, a.1))
        }
    }
}

/// Clamping puts the cursor's column inside its line, and a second clamp
/// changes nothing.
pub proof fn lemma_clamp_cursor(b: Buffer)
    requires
        b.wf(),
    ensures
        b.clamp_cursor().wf(),
        b.clamp_cursor().settled(),
        b.clamp_cursor().lines == b.lines,
        b.clamp_cursor().cursor.y_pos == b.cursor.y_pos,
        b.clamp_cursor().cursor.highlight == b.cursor.highlight,
        b.clamp_cursor().clamp_cursor() == b.clamp_cursor(),
        b.settled() ==> b.clamp_cursor() == b,
{
}

/// Clamping the anchor puts its column inside its line and leaves the cursor
/// alone.
pub proof fn lemma_clamp_anchor(b: Buffer)
    requires
        b.wf(),
    ensures
        b.clamp_anchor().wf(),
        b.clamp_anchor().anchor_settled(),
        b.clamp_anchor().lines == b.lines,
        b.clamp_anchor().cursor.x_pos == b.cursor.x_pos,
        b.clamp_anchor().cursor.y_pos == b.cursor.y_pos,
        b.settled() ==> b.clamp_anchor().settled(),
        b.clamp_anchor().clamp_anchor() == b.clamp_anchor(),
        b.anchor_settled() ==> b.clamp_anchor() == b,
{
}

/// After both clamps the cursor is a valid position: its line exists and its
/// column lies within that line. The same holds of the anchor.
pub proof fn lemma_clamp_valid(b: Buffer)
    requires
        b.wf(),
    ensures
        b.clamp().wf(),
        b.clamp().settled(),
        b.clamp().anchor_settled(),
        0 <= b.clamp().cursor.y_pos < b.clamp().lines.len(),
        0 <= b.clamp().cursor.x_pos <= b.clamp().lines[b.clamp().cursor.y_pos as int].len(),
        b.clamp().clamp() == b.clamp(),
{
    lemma_clamp_cursor(b);
    lemma_clamp_anchor(b.clamp_cursor());
}

/// Taking the selection out leaves a well-formed text with nothing selected,
/// so that no text is selected afterwards.
pub proof fn lemma_cut(b: Buffer)
    requires
        b.wf(),
        b.settled(),
        b.anchor_settled(),
    ensures
        b.cut().wf(),
        b.cut().settled(),
        b.cut().cursor.highlight is None,
        b.cut().selected() is None,
        b.cut().lines.len() == b.lines.len() - (b.cursor.high().1 - b.cursor.low().1),
        b.cursor.low() == b.cursor.high() ==> b.cut().lines == b.lines,
{
    let lo = b.cursor.low();
    let hi = b.cursor.high();
    if lo == hi {
        let y = lo.1 as int;
        assert(b.lines[y].take(lo.0 as int) + b.lines[y].skip(lo.0 as int) =~= b.lines[y]);
        assert(b.cut().lines =~= b.lines);
    }
}

/// Each erasing step keeps the text well formed and the cursor inside its
/// line.
pub proof fn lemma_erase(b: Buffer)
    requires
        b.wf(),
        b.settled(),
        b.cursor.highlight is None,
    ensures
        b.erase_left().wf(),
        b.erase_left().settled(),
        b.erase_left().cursor.highlight is None,
        b.erase_right().wf(),
        b.erase_right().settled(),
        b.erase_right().cursor.highlight is None,
{
}

/// Any number of erasing steps keeps the text well formed.
pub proof fn lemma_erase_n(b: Buffer, n: nat)
    requires
        b.wf(),
        b.settled(),
        b.cursor.highlight is None,
    ensures
        b.erase_left_n(n).wf(),
        b.erase_left_n(n).settled(),
        b.erase_left_n(n).cursor.highlight is None,
        b.erase_right_n(n).wf(),
        b.erase_right_n(n).settled(),
        b.erase_right_n(n).cursor.highlight is None,
    decreases n,
{
    if n > 0 {
        lemma_erase(b);
        lemma_erase_n(b.erase_left(), (n - 1) as nat);
        lemma_erase_n(b.erase_right(), (n - 1) as nat);
    }
}

/// A step to the left or to the right of a valid position is a valid
/// position.
pub proof fn lemma_beside(b: Buffer, p: (usize, usize))
    requires
        b.lines.len() >= 1,
        p.1 < b.lines.len(),
        p.0 <= b.lines[p.1 as int].len(),
    ensures
        b.left_of(p).1 < b.lines.len(),
        b.left_of(p).0 <= b.lines[b.left_of(p).1 as int].len(),
        b.right_of(p).1 < b.lines.len(),
        b.right_of(p).0 <= b.lines[b.right_of(p).1 as int].len(),
{
}

/// Any number of steps from a valid position ends on a valid position.
pub proof fn lemma_beside_n(b: Buffer, p: (usize, usize), n: nat)
    requires
        b.lines.len() >= 1,
        p.1 < b.lines.len(),
        p.0 <= b.lines[p.1 as int].len(),
    ensures
        b.left_of_n(p, n).1 < b.lines.len(),
        b.left_of_n(p, n).0 <= b.lines[b.left_of_n(p, n).1 as int].len(),
        b.right_of_n(p, n).1 < b.lines.len(),
        b.right_of_n(p, n).0 <= b.lines[b.right_of_n(p, n).1 as int].len(),
    decreases n,
{
    if n > 0 {
        lemma_beside(b, p);
        lemma_beside_n(b, b.left_of(p), (n - 1) as nat);
        lemma_beside_n(b, b.right_of(p), (n - 1) as nat);
    }
}

} // verus!
