//! The port allocator: a half-open range of candidate ports and a cursor
//! that only ever moves forward, so no port is ever handed out twice.
//!
//! Probing a candidate for bindability is I/O and lives with the caller:
//! the caller reads `candidate`, probes it, and either `take`s it on
//! success or `advance`s past it on failure. Exhaustion is terminal: no
//! operation ever moves the cursor back.

use core::ops::Range;
use vstd::prelude::*;

use crate::errors::Error;

verus! {

/// A stateful pool allocator over a half-open port range. Each instance
/// must be owned by a single caller context; it is not internally
/// synchronized.
pub struct TcpPortIssuer {
    range: Range<u16>,
    issued: Ghost<Seq<u16>>,
}

impl TcpPortIssuer {
    /// The ports handed out so far, oldest first.
    pub closed spec fn issued(&self) -> Seq<u16> {
        self.issued@
    }

    /// The next candidate the cursor stands on.
    pub closed spec fn cursor(&self) -> u16 {
        self.range.start
    }

    /// One past the last candidate of the range.
    pub closed spec fn end(&self) -> u16 {
        self.range.end
    }

    /// Every port handed out lies behind the cursor, and the history is
    /// strictly increasing, so no port repeats.
    pub closed spec fn inv(&self) -> bool {
        &&& forall|i: int| 0 <= i < self.issued@.len() ==> #[trigger] self.issued@[i] < self.range.start
        &&& forall|i: int, j: int|
            0 <= i < j < self.issued@.len() ==> self.issued@[i] < self.issued@[j]
    }

    /// An allocator over a fresh half-open range: nothing handed out yet,
    /// the cursor at the range's start.
    pub fn new(range: Range<u16>) -> (r: Self)
        ensures
            r.inv(),
            r.cursor() == range.start,
            r.end() == range.end,
            r.issued() == Seq::<u16>::empty(),
    {
        TcpPortIssuer { range, issued: Ghost(Seq::empty()) }
    }

    /// The candidate the caller should probe next. A fully consumed range
    /// is exhausted, which is terminal — nothing ever moves the cursor
    /// back — and reported as a failure, never retried here.
    pub fn candidate(&self) -> (r: Result<u16, Error>)
        ensures
            r == (if self.cursor() < self.end() {
                Ok::<u16, Error>(self.cursor())
            } else {
                Err::<u16, Error>(Error::PortsExhausted)
            }),
    {
        if self.range.start < self.range.end {
            Ok(self.range.start)
        } else {
            Err(Error::PortsExhausted)
        }
    }

    /// Move past the current candidate after a failed probe.
    pub fn advance(&mut self)
        requires
            old(self).inv(),
            old(self).cursor() < old(self).end(),
        ensures
            final(self).inv(),
            final(self).cursor() == old(self).cursor() + 1,
            final(self).end() == old(self).end(),
            final(self).issued() == old(self).issued(),
    {
        self.range.start = self.range.start + 1;
    }

    /// Hand out the current candidate after a successful probe and move
    /// past it. The result was never handed out before.
    pub fn take(&mut self) -> (r: u16)
        requires
            old(self).inv(),
            old(self).cursor() < old(self).end(),
        ensures
            final(self).inv(),
            r == old(self).cursor(),
            final(self).cursor() == old(self).cursor() + 1,
            final(self).end() == old(self).end(),
            final(self).issued() == old(self).issued().push(r),
            !old(self).issued().contains(r),
    {
        let p = self.range.start;
        proof {
            if old(self).issued().contains(p) {
                let i = choose|i: int|
                    0 <= i < old(self).issued().len() && old(self).issued()[i] == p;
                assert(old(self).issued()[i] < p);
            }
        }
        self.range.start = self.range.start + 1;
        proof {
            self.issued@ = self.issued@.push(p);
        }
        p
    }
}

/// A single issuer never returns the same port twice: the history of
/// handed-out ports is strictly increasing — hence free of duplicates —
/// and lies entirely behind the cursor, which no operation moves back.
pub proof fn lemma_issued_distinct(iss: &TcpPortIssuer)
    requires
        iss.inv(),
    ensures
        forall|i: int, j: int|
            0 <= i < j < iss.issued().len() ==> iss.issued()[i] < iss.issued()[j],
        forall|i: int|
            0 <= i < iss.issued().len() ==> #[trigger] iss.issued()[i] < iss.cursor(),
        forall|i: int, j: int|
            0 <= i < iss.issued().len() && 0 <= j < iss.issued().len() && i != j
                ==> iss.issued()[i] != iss.issued()[j],
{
}

} // verus!
