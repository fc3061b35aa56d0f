//! Following the properties of an item or a window as they change.
//!
//! Whoever owns properties counts their changes in a revision: a number that
//! is different after each change. A tracker remembers the revision at which a
//! value was last computed from the properties, and is dirty as long as the
//! revision is another one.

use vstd::prelude::*;

verus! {

/// Remembers the revision at which something was last evaluated.
#[derive(Clone, Copy, Debug, PartialEq, Eq, Structural)]
pub struct PropertyTracker {
    /// The revision of the last evaluation, if there was one.
    pub evaluated_at: Option<u64>,
}

impl PropertyTracker {
    /// Something changed since the last evaluation, or there was none yet.
    pub open spec fn spec_is_dirty(self, revision: u64) -> bool {
        self.evaluated_at != Some(revision)
    }

    /// A tracker that has not evaluated anything yet, and is dirty therefore.
    pub fn new() -> (t: PropertyTracker)
        ensures
            t.evaluated_at is None,
    {
        PropertyTracker { evaluated_at: None }
    }

    /// Whether something changed since the last evaluation.
    pub fn is_dirty(&self, revision: u64) -> (r: bool)
        ensures
            r == self.spec_is_dirty(revision),
    {
        match self.evaluated_at {
            Some(at) => at != revision,
            None => true,
        }
    }

    /// Records an evaluation at the given revision.
    pub fn evaluate(&mut self, revision: u64)
        ensures
            final(self).evaluated_at == Some(revision),
    {
        self.evaluated_at = Some(revision);
    }

    /// Records an evaluation at the given revision if the tracker is dirty,
    /// and says whether it was.
    pub fn evaluate_if_dirty(&mut self, revision: u64) -> (was_dirty: bool)
        ensures
            was_dirty == old(self).spec_is_dirty(revision),
            final(self).evaluated_at == Some(revision),
    {
        let was_dirty = self.is_dirty(revision);
        self.evaluated_at = Some(revision);
        was_dirty
    }
}

impl Default for PropertyTracker {
    fn default() -> (t: PropertyTracker)
        ensures
            t.evaluated_at is None,
    {
        PropertyTracker::new()
    }
}

/// The revision that follows `revision`. It is never the same number.
pub fn next_revision(revision: u64) -> (r: u64)
    ensures
        r != revision,
        r == if revision == u64::MAX { 0 } else { revision + 1 },
{
    if revision == u64::MAX {
        0
    } else {
        revision + 1
    }
}

} // verus!
