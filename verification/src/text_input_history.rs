//! History for a single-line text input that is used repeatedly, such
//! as a chat prompt: newest line first, with a cursor the caller moves
//! up and down while browsing.

use vstd::prelude::*;

verus! {

/// The maximum number of lines the history keeps.
pub const MAX_LENGTH: usize = 500;

/// The history of lines entered into a text input, newest first.
pub struct TextInputHistory {
    /// The remembered lines; index zero is the newest.
    pub history: Vec<String>,

    /// The line the user has browsed to, or `None` while the user has
    /// not scrolled into the history.
    pub cursor: Option<usize>,
}

impl TextInputHistory {
    /// The cursor always points at a remembered line.
    pub open spec fn wf(self) -> bool {
        self.cursor matches Some(c) ==> c < self.history@.len()
    }

    /// Creates a new, empty history.
    pub fn new() -> (r: TextInputHistory)
        ensures
            r.wf(),
            r.history@.len() == 0,
            r.cursor is None,
    {
        TextInputHistory { history: Vec::new(), cursor: None }
    }

    /// Remembers `line` as the newest entry, dropping the oldest once
    /// the history is full, and resets browsing.
    pub fn add(&mut self, line: String)
        requires
            old(self).wf(),
        ensures
            final(self).wf(),
            final(self).cursor is None,
            final(self).history.deep_view() == seq![line@] + (if old(self).history@.len()
                >= MAX_LENGTH {
                old(self).history.deep_view().take(old(self).history@.len() - 1)
            } else {
                old(self).history.deep_view()
            }),
    {
        if self.history.len() >= MAX_LENGTH {
            let last = self.history.len() - 1;
            self.history.remove(last);
            proof {
                assert(self.history.deep_view() =~~= old(self).history.deep_view().take(
                    old(self).history@.len() - 1,
                ));
            }
        }
        let ghost trimmed = self.history.deep_view();
        self.history.insert(0, line);
        self.cursor = None;
        proof {
            assert(self.history.deep_view() =~~= seq![line@] + trimmed);
        }
    }

    /// Moves one step through the history: up toward older lines, down
    /// toward newer ones, returning the line browsed to. Stepping up
    /// past the oldest line returns nothing and stays put; stepping
    /// down past the newest leaves browsing altogether.
    pub fn navigate(&mut self, up: bool) -> (r: Option<String>)
        requires
            old(self).wf(),
        ensures
            final(self).wf(),
            final(self).history == old(self).history,
            ({
                let h = old(self).history.deep_view();
                if up {
                    let next = match old(self).cursor {
                        Some(c) => c + 1,
                        None => 0int,
                    };
                    if next < h.len() {
                        &&& final(self).cursor == Some(next as usize)
                        &&& r matches Some(line) && line@ == h[next]
                    } else {
                        &&& final(self).cursor == old(self).cursor
                        &&& r is None
                    }
                } else {
                    match old(self).cursor {
                        Some(c) => if c > 0 {
                            &&& final(self).cursor == Some((c - 1) as usize)
                            &&& r matches Some(line) && line@ == h[c - 1]
                        } else {
                            &&& final(self).cursor is None
                            &&& r is None
                        },
                        None => {
                            &&& final(self).cursor is None
                            &&& r is None
                        },
                    }
                }
            }),
    {
        if up {
            let hlen = self.history.len();
            let next: usize = match self.cursor {
                Some(c) => c + 1,
                None => 0,
            };
            if next < hlen {
                self.cursor = Some(next);
                Some(self.history[next].clone())
            } else {
                None
            }
        } else {
            match self.cursor {
                Some(c) => {
                    if c > 0 {
                        self.cursor = Some(c - 1);
                        Some(self.history[c - 1].clone())
                    } else {
                        self.cursor = None;
                        None
                    }
                },
                None => {
                    self.cursor = None;
                    None
                },
            }
        }
    }
}

} // verus!
