//! The cursor: a position in the text and, when text is selected, the anchor
//! that the selection was started from.

use vstd::prelude::*;

verus! {

/// A cursor. `x_pos` is the gap before the character of that index on line
/// `y_pos`; `highlight` holds the selection's anchor as `(x, y)`.
#[derive(Clone, Copy, Debug, PartialEq, Eq)]
pub struct Cursor {
    pub x_pos: usize,
    pub y_pos: usize,
    pub highlight: Option<(usize, usize)>,
}

/// Whether position `a` comes no later than `b`. A position is `(x, y)`;
/// lines are compared first, columns second.
pub open spec fn not_after(a: (usize, usize), b: (usize, usize)) -> bool {
    a.1 < b.1 || (a.1 == b.1 && a.0 <= b.0)
}

impl Cursor {
    /// The cursor's own position, as `(x, y)`.
    pub open spec fn pos(self) -> (usize, usize) {
        (self.x_pos, self.y_pos)
    }

    /// The selection's anchor; without a selection, the cursor's position.
    pub open spec fn anchor(self) -> (usize, usize) {
        match self.highlight {
            Some(p) => p,
            None => self.pos(),
        }
    }

    /// The earlier end of the selection.
    pub open spec fn low(self) -> (usize, usize) {
        if not_after(self.pos(), self.anchor()) {
            self.pos()
        } else {
            self.anchor()
        }
    }

    /// The later end of the selection.
    pub open spec fn high(self) -> (usize, usize) {
        if not_after(self.pos(), self.anchor()) {
            self.anchor()
        } else {
            self.pos()
        }
    }

    /// A cursor at the start of the text, with nothing selected.
    pub fn new() -> (c: Cursor)
        ensures
            c == (Cursor { x_pos: 0, y_pos: 0, highlight: None }),
    {
        Cursor { x_pos: 0, y_pos: 0, highlight: None }
    }

    /// The two ends of the selection in text order, or `None` when nothing is
    /// selected.
    pub fn range(&self) -> (r: Option<((usize, usize), (usize, usize))>)
        ensures
            r == match self.highlight {
                Some(_) => Some((self.low(), self.high())),
                None => None::<((usize, usize), (usize, usize))>,
            },
    {
        match self.highlight {
            Some((x, y)) => {
                if self.y_pos < y || (self.y_pos == y && self.x_pos <= x) {
                    Some(((self.x_pos, self.y_pos), (x, y)))
                } else {
                    Some(((x, y), (self.x_pos, self.y_pos)))
                }
            },
            None => None,
        }
    }
}

} // verus!
