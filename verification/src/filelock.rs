//! Filesystem-based mutual exclusion: a pier's lock is a zero-byte marker
//! file whose presence means "held".
//!
//! The marker itself lives on disk; [`LockMarker`] is its in-memory image.
//! The unverified rim performs the one primitive the protocol rests on —
//! creating the marker file atomically, only if absent — and the functions
//! here capture the linearized outcome of that primitive: an attempt
//! succeeds exactly when the marker was absent, and always leaves it
//! present. A blocking acquisition is a caller's loop that re-tries at a
//! fixed poll interval; it acquires the lock under exactly the same
//! condition, so it can never return while the prior holder still holds.

use vstd::prelude::*;

verus! {

/// The image of one lock-marker file: present on disk or absent.
#[derive(Clone, Copy, Debug, PartialEq, Eq, Structural)]
pub struct LockMarker {
    pub present: bool,
}

/// Whether an acquisition attempt against marker state `m` succeeds.
pub open spec fn attempt_succeeds(m: LockMarker) -> bool {
    !m.present
}

/// The marker state after an acquisition attempt: held if it succeeded,
/// unchanged (still held) if it did not.
pub open spec fn after_attempt(m: LockMarker) -> LockMarker {
    LockMarker { present: true }
}

/// The marker state after a release.
pub open spec fn after_release(m: LockMarker) -> LockMarker {
    LockMarker { present: false }
}

/// A held lock, bound to the path of its marker file. It must be released
/// against the same marker it was acquired from.
#[derive(Debug)]
pub struct FileLock {
    path: String,
}

impl FileLock {
    /// The path of the marker file this lock is bound to.
    pub closed spec fn path_view(&self) -> Seq<char> {
        self.path@
    }

    /// Non-blocking acquisition: succeeds, and then holds the lock, exactly
    /// when the marker was absent. There is no window between the check and
    /// the creation: the attempt as a whole either finds the marker present
    /// or creates it.
    pub fn try_acquire(path: String, m: &mut LockMarker) -> (r: Option<FileLock>)
        ensures
            r is Some <==> attempt_succeeds(*old(m)),
            *final(m) == after_attempt(*old(m)),
            r matches Some(l) ==> l.path_view() == path@,
    {
        if m.present {
            None
        } else {
            m.present = true;
            Some(FileLock { path })
        }
    }

    /// Follow the marker file to a new path. Promotion renames the whole
    /// pier directory; the held marker inside it moves along, so the lock
    /// stays held under the renamed path.
    pub fn rebind(&mut self, path: String)
        ensures
            final(self).path_view() == path@,
    {
        self.path = path;
    }

    /// Release the lock: the marker is deleted. Releasing is idempotent —
    /// deleting an already absent marker changes nothing.
    pub fn release(self, m: &mut LockMarker)
        ensures
            *final(m) == after_release(*old(m)),
    {
        m.present = false;
    }
}

/// Mutual exclusion: of two successive acquisition attempts against one
/// marker, at most one succeeds; when the marker starts out absent, exactly
/// the first one does.
pub proof fn lemma_attempt_exclusive(m: LockMarker)
    ensures
        !(attempt_succeeds(m) && attempt_succeeds(after_attempt(m))),
        !m.present ==> attempt_succeeds(m) && !attempt_succeeds(after_attempt(m)),
{
}

/// A waiter never acquires early: while the marker is present every attempt
/// fails, and as soon as the holder releases, an attempt succeeds.
pub proof fn lemma_acquire_blocks_until_release(m: LockMarker)
    ensures
        m.present ==> !attempt_succeeds(m),
        attempt_succeeds(after_release(m)),
{
}

} // verus!
