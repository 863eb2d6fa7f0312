//! What the editor carries from one key to the next besides the text.

use crate::keymap::Mode;
use vstd::prelude::*;

verus! {

/// The editor's mode and whether the session is to end.
pub struct State {
    pub mode: Mode,
    pub will_quit: bool,
}

impl State {
    /// The state at start: command mode, not quitting.
    pub fn new() -> (s: State)
        ensures
            s.mode == Mode::Command,
            !s.will_quit,
    {
        State { mode: Mode::Command, will_quit: false }
    }
}

} // verus!
