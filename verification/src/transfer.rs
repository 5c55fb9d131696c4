//! Moving a fixed number of bytes over a stream before a deadline.

use vstd::prelude::*;

verus! {

/// What came of one attempt to move bytes.
#[derive(Clone, Copy, Debug, PartialEq, Eq, Structural)]
pub enum Attempt {
    /// So many bytes were moved; none at all means that the stream is closed.
    Moved(usize),
    /// The stream is not ready.
    Blocked,
    Failed,
}

/// What is to be done next.
#[derive(Clone, Copy, Debug, PartialEq, Eq, Structural)]
pub enum Next {
    Done,
    /// Move bytes, from this one on.
    Move(usize),
    /// Pause, and then move bytes, from this one on.
    Pause(usize),
    TimedOut,
    Closed,
    Failed,
}

/// How far the bytes have come.
#[derive(Clone, Copy, Debug, PartialEq, Eq, Structural)]
pub struct Transfer {
    pub at: usize,
    pub len: usize,
    pub deadline: u64,
}

impl Transfer {
    pub open spec fn wf(self) -> bool {
        self.at <= self.len
    }

    /// What is to be done at a time: bytes that are left are moved until the
    /// deadline is there.
    pub open spec fn due(self, now: u64) -> Next {
        if self.at == self.len {
            Next::Done
        } else if now >= self.deadline {
            Next::TimedOut
        } else {
            Next::Move(self.at)
        }
    }

    pub fn new(len: usize, deadline: u64) -> (r: Transfer)
        ensures
            r == (Transfer { at: 0, len, deadline }),
            r.wf(),
    {
        Transfer { at: 0, len, deadline }
    }

    /// What is to be done at the start.
    pub fn next(&self, now: u64) -> (r: Next)
        requires
            self.wf(),
        ensures
            r == self.due(now),
    {
        if self.at == self.len {
            Next::Done
        } else if now >= self.deadline {
            Next::TimedOut
        } else {
            Next::Move(self.at)
        }
    }

    /// Takes up what came of an attempt. No more bytes can be moved than are
    /// left.
    pub fn step(&mut self, attempt: Attempt, now: u64) -> (r: Next)
        requires
            old(self).wf(),
            attempt is Moved ==> attempt->Moved_0 <= old(self).len - old(self).at,
        ensures
            final(self).wf(),
            final(self).len == old(self).len,
            final(self).deadline == old(self).deadline,
            final(self).at == old(self).at + if attempt is Moved {
                attempt->Moved_0 as int
            } else {
                0
            },
            r == match attempt {
                Attempt::Failed => Next::Failed,
                Attempt::Moved(0) => Next::Closed,
                Attempt::Moved(_) => final(self).due(now),
                Attempt::Blocked => match final(self).due(now) {
                    Next::Move(from) => Next::Pause(from),
                    other => other,
                },
            },
    {
        match attempt {
            Attempt::Failed => Next::Failed,
            Attempt::Moved(0) => Next::Closed,
            Attempt::Moved(n) => {
                self.at = self.at + n;
                self.next(now)
            },
            Attempt::Blocked => match self.next(now) {
                Next::Move(from) => Next::Pause(from),
                other => other,
            },
        }
    }
}

} // verus!
