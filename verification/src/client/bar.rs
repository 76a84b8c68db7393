//! How far a progress bar is.
use vstd::prelude::*;

verus! {

/// A progress bar: how long it is, how far it is, and whether it has ended.
#[derive(Debug, Clone, Copy, PartialEq, Eq, Structural)]
pub struct Bar {
    pub len: u64,
    pub position: u64,
    pub ended: bool,
}

impl Bar {
    /// A bar that starts at `position`.
    pub fn new(len: u64, position: u64) -> (r: Bar)
        ensures
            r == (Bar { len, position, ended: false }),
    {
        Bar { len, position, ended: false }
    }

    /// The bar one step further. Behind the largest number it starts again.
    pub open spec fn stepped(self) -> Bar {
        Bar {
            position: if self.position == u64::MAX {
                0
            } else {
                (self.position + 1) as u64
            },
            ..self
        }
    }

    /// The bar at its end.
    pub open spec fn finished(self) -> Bar {
        Bar { len: self.len, position: self.len, ended: true }
    }

    /// The bar, ended where it is.
    pub open spec fn abandoned(self) -> Bar {
        Bar { ended: true, ..self }
    }

    /// Goes one step further.
    pub fn step(&mut self)
        ensures
            *final(self) == old(self).stepped(),
    {
        if self.position == u64::MAX {
            self.position = 0;
        } else {
            self.position = self.position + 1;
        }
    }

    /// Goes to the end, and ends.
    pub fn finish(&mut self)
        ensures
            *final(self) == old(self).finished(),
    {
        self.position = self.len;
        self.ended = true;
    }

    /// Ends where it is.
    pub fn abandon(&mut self)
        ensures
            *final(self) == old(self).abandoned(),
    {
        self.ended = true;
    }
}

/// A bar goes on by one with each step, stays as long as it is, and ends only when it is
/// told to: at its end when it is finished, and where it is when it is given up.
pub proof fn law_bar_goes_on_by_one(bar: Bar)
    ensures
        bar.position < u64::MAX ==> bar.stepped().position == bar.position + 1,
        bar.stepped().len == bar.len,
        bar.stepped().ended == bar.ended,
        bar.finished().position == bar.len,
        bar.finished().len == bar.len,
        bar.finished().ended,
        bar.abandoned().position == bar.position,
        bar.abandoned().len == bar.len,
        bar.abandoned().ended,
{
}

}
