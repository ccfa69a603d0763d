//! The durable cursor store: an insert-only history of sequence numbers.
//! Only the latest row matters for recovery; within one upstream session
//! sequence numbers arrive nondecreasing, so later writes observe a
//! sequence number at least as large as earlier ones.

use vstd::prelude::*;

verus! {

/// Insert-only history of committed cursors; loading returns the last.
pub struct CursorStore {
    history: Vec<u64>,
}

impl View for CursorStore {
    type V = Seq<u64>;

    closed spec fn view(&self) -> Seq<u64> {
        self.history@
    }
}

/// The sequence never goes down.
pub open spec fn nondecreasing(s: Seq<u64>) -> bool {
    forall|i: int, j: int| 0 <= i <= j < s.len() ==> s[i] <= s[j]
}

impl CursorStore {
    /// An empty store: nothing committed yet.
    pub fn new() -> (r: Self)
        ensures
            r@ == Seq::<u64>::empty(),
    {
        CursorStore { history: Vec::new() }
    }

    /// Persist a cursor: appends one row; earlier rows stay untouched.
    pub fn commit_cursor(&mut self, seq: u64)
        ensures
            final(self)@ == old(self)@.push(seq),
    {
        self.history.push(seq);
    }

    /// The cursor to resume from: the most recently committed row.
    pub fn load_cursor(&self) -> (r: Option<u64>)
        ensures
            self@.len() == 0 ==> r is None,
            self@.len() > 0 ==> r == Some(self@[self@.len() - 1]),
    {
        if self.history.len() == 0 {
            None
        } else {
            Some(self.history[self.history.len() - 1])
        }
    }
}

/// Law: within one session — a run of commits whose sequence numbers are
/// nondecreasing, appended to some prior history — any later write
/// observes a sequence number at least as large as any earlier write of
/// that session.
pub proof fn lemma_cursor_writes_monotone(h0: Seq<u64>, session: Seq<u64>, i: int, j: int)
    requires
        nondecreasing(session),
        h0.len() <= i <= j < h0.len() + session.len(),
    ensures
        (h0 + session)[i] <= (h0 + session)[j],
{
    assert((h0 + session)[i] == session[i - h0.len()]);
    assert((h0 + session)[j] == session[j - h0.len()]);
}

} // verus!
