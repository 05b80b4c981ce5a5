//! A half-open port range with a textual `start..end` form, as read from
//! configuration.

use core::ops::Range;
use vstd::prelude::*;

use crate::text::{parse_u16, parsed_u16, scan, scan_to, CharClass};

verus! {

/// A half-open range of ports, as configured in `start..end` textual form.
pub struct MyRange {
    pub inner: Range<u16>,
}

/// The range a string spells: decimal digits, a `..` separator, decimal
/// digits, with both numbers fitting in a `u16`.
pub open spec fn range_of_chars(s: Seq<char>) -> Option<(u16, u16)> {
    let d = scan(s, 0, CharClass::Dot);
    if d + 1 < s.len() && s[d + 1] == '.' {
        match (parsed_u16(s, 0, d), parsed_u16(s, d + 2, s.len() as int)) {
            (Some(a), Some(b)) => Some((a, b)),
            _ => None,
        }
    } else {
        None
    }
}

impl MyRange {
    /// Parse a range from its `start..end` textual form.
    pub fn parse(s: &str) -> (r: Option<MyRange>)
        ensures
            match range_of_chars(s@) {
                Some((a, b)) => r matches Some(mr) && mr.inner.start == a && mr.inner.end == b,
                None => r is None,
            },
    {
        let n = s.unicode_len();
        let d = scan_to(s, 0, CharClass::Dot);
        proof {
            crate::text::lemma_scan_props(s@, 0, CharClass::Dot);
        }
        if n - d > 1 && s.get_char(d + 1) == '.' {
            let start = parse_u16(s, 0, d);
            let end = parse_u16(s, d + 2, n);
            match (start, end) {
                (Some(a), Some(b)) => Some(MyRange { inner: a..b }),
                _ => None,
            }
        } else {
            None
        }
    }
}

} // verus!
