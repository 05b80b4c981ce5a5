//! Sandboxed archive extraction with a fixed safety policy.
//!
//! Decoding the compressed byte stream is the unverified rim's job; what
//! arrives here is the decoded listing. The fixed policy below is applied
//! to every entry of untrusted input: no absolute paths, no traversal
//! segments, no symlinks that could escape the destination, and never an
//! overwrite of an existing file. A rejected or otherwise failed
//! extraction leaves the destination exactly as it was: a partial result
//! must never be trusted, so none is ever produced.

use vstd::prelude::*;

use crate::errors::Error;
use crate::text::{match_lit, str_eq};

verus! {

/// The mathematical content of one decoded archive entry.
pub ghost struct EntryV {
    pub path: Seq<char>,
    pub kind: KindV,
}

/// The kind of a decoded entry, with its payload.
pub ghost enum KindV {
    Directory,
    File(Seq<u8>),
    Symlink(Seq<char>),
}

/// One decoded archive entry: a destination-relative path and a payload.
#[derive(Debug)]
pub struct ArchiveEntry {
    pub path: String,
    pub kind: EntryKind,
}

/// The payload of a decoded entry.
#[derive(Debug)]
pub enum EntryKind {
    Directory,
    File(Vec<u8>),
    Symlink(String),
}

impl View for ArchiveEntry {
    type V = EntryV;

    open spec fn view(&self) -> EntryV {
        EntryV {
            path: self.path@,
            kind: match self.kind {
                EntryKind::Directory => KindV::Directory,
                EntryKind::File(b) => KindV::File(b@),
                EntryKind::Symlink(t) => KindV::Symlink(t@),
            },
        }
    }
}

/// The views of a run of entries.
pub open spec fn entries_view(s: Seq<ArchiveEntry>) -> Seq<EntryV> {
    s.map_values(|e: ArchiveEntry| e@)
}

/// The path begins at the filesystem root.
pub open spec fn is_absolute(s: Seq<char>) -> bool {
    s.len() > 0 && s[0] == '/'
}

/// The path holds a `..` segment somewhere.
pub open spec fn has_dotdot_segment(s: Seq<char>) -> bool {
    exists|i: int|
        0 <= i && i + 1 < s.len() && #[trigger] s[i] == '.' && s[i + 1] == '.' && (i == 0 || s[i
            - 1] == '/') && (i + 2 == s.len() || s[i + 2] == '/')
}

/// A path that cannot point outside the destination: non-empty, relative,
/// and free of traversal segments.
pub open spec fn safe_entry_path(s: Seq<char>) -> bool {
    s.len() > 0 && !is_absolute(s) && !has_dotdot_segment(s)
}

/// The fixed safety policy on one entry: its own path is safe, and a
/// symlink's target must be relative and traversal-free too, so following
/// it cannot escape the destination.
pub open spec fn entry_safe(e: EntryV) -> bool {
    &&& safe_entry_path(e.path)
    &&& match e.kind {
        KindV::Symlink(t) => !is_absolute(t) && !has_dotdot_segment(t),
        _ => true,
    }
}

/// Every entry passes the fixed safety policy.
pub open spec fn all_safe(es: Seq<EntryV>) -> bool {
    forall|i: int| 0 <= i < es.len() ==> entry_safe(#[trigger] es[i])
}

/// No two entries name the same path.
pub open spec fn no_dup_paths(es: Seq<EntryV>) -> bool {
    forall|i: int, j: int| 0 <= i < j < es.len() ==> es[i].path != es[j].path
}

/// No entry names a path that already exists in the destination.
pub open spec fn no_clash(es: Seq<EntryV>, ds: Seq<EntryV>) -> bool {
    forall|i: int, j: int|
        0 <= i < es.len() && 0 <= j < ds.len() ==> #[trigger] es[i].path != #[trigger] ds[j].path
}

/// The whole extraction is admissible: every entry safe, no duplicate
/// destination, nothing overwritten.
pub open spec fn extract_admissible(es: Seq<EntryV>, ds: Seq<EntryV>) -> bool {
    all_safe(es) && no_dup_paths(es) && no_clash(es, ds)
}

/// Whether the path holds a traversal segment.
pub fn has_traversal(s: &str) -> (r: bool)
    ensures
        r == has_dotdot_segment(s@),
{
    let n = s.unicode_len();
    let mut i: usize = 0;
    while i < n
        invariant
            0 <= i <= n,
            n == s@.len(),
            forall|m: int|
                0 <= m < i ==> !(m + 1 < s@.len() && #[trigger] s@[m] == '.' && s@[m + 1] == '.'
                    && (m == 0 || s@[m - 1] == '/') && (m + 2 == s@.len() || s@[m + 2] == '/')),
        decreases n - i,
    {
        if i + 1 < n && s.get_char(i) == '.' && s.get_char(i + 1) == '.' && (i == 0 || s.get_char(
            i - 1,
        ) == '/') && (i + 2 == n || s.get_char(i + 2) == '/') {
            return true;
        }
        i = i + 1;
    }
    false
}

/// Whether one entry passes the fixed safety policy.
pub fn check_entry(e: &ArchiveEntry) -> (r: bool)
    ensures
        r == entry_safe(e@),
{
    let n = e.path.as_str().unicode_len();
    if n == 0 {
        return false;
    }
    if e.path.as_str().get_char(0) == '/' {
        return false;
    }
    if has_traversal(e.path.as_str()) {
        return false;
    }
    match &e.kind {
        EntryKind::Symlink(t) => {
            let tn = t.as_str().unicode_len();
            if tn > 0 && t.as_str().get_char(0) == '/' {
                return false;
            }
            !has_traversal(t.as_str())
        },
        _ => true,
    }
}

/// Extract a decoded listing into a destination tree.
///
/// Succeeds exactly when the whole listing is admissible under the fixed
/// safety policy; then every entry is appended to the destination and the
/// count of extracted entries is returned. On rejection the destination is
/// byte-identical to what it was before the attempt.
pub fn extract_entries(entries: Vec<ArchiveEntry>, dest: &mut Vec<ArchiveEntry>) -> (r: Result<
    usize,
    Error,
>)
    ensures
        extract_admissible(entries_view(entries@), entries_view(old(dest)@)) ==> (r == Ok::<
            usize,
            Error,
        >(entries@.len() as usize) && final(dest)@ == old(dest)@ + entries@),
        !extract_admissible(entries_view(entries@), entries_view(old(dest)@)) ==> (r == Err::<
            usize,
            Error,
        >(Error::ExtractionRejected) && final(dest)@ == old(dest)@),
{
    let ghost es = entries_view(entries@);
    let ghost ds = entries_view(dest@);
    let n = entries.len();
    let mut i: usize = 0;
    while i < n
        invariant
            0 <= i <= n,
            n == entries@.len(),
            es == entries_view(entries@),
            ds == entries_view(dest@),
            forall|m: int| 0 <= m < i ==> entry_safe(#[trigger] es[m]),
            forall|a: int, b: int| 0 <= a < b < i ==> es[a].path != es[b].path,
            forall|a: int, b: int|
                0 <= a < i && 0 <= b < ds.len() ==> #[trigger] es[a].path != #[trigger] ds[b].path,
        decreases n - i,
    {
        if !check_entry(&entries[i]) {
            return Err(Error::ExtractionRejected);
        }
        let mut j: usize = 0;
        while j < i
            invariant
                0 <= j <= i < n,
                n == entries@.len(),
                es == entries_view(entries@),
                forall|b: int| 0 <= b < j ==> es[i as int].path != #[trigger] es[b].path,
            decreases i - j,
        {
            if str_eq(entries[i].path.as_str(), entries[j].path.as_str()) {
                proof {
                    assert(es[j as int].path == es[i as int].path);
                    assert(!no_dup_paths(es));
                }
                return Err(Error::ExtractionRejected);
            }
            j = j + 1;
        }
        let dn = dest.len();
        let mut j: usize = 0;
        while j < dn
            invariant
                0 <= j <= dn,
                dn == dest@.len(),
                i < entries@.len(),
                es == entries_view(entries@),
                ds == entries_view(dest@),
                forall|b: int| 0 <= b < j ==> es[i as int].path != #[trigger] ds[b].path,
            decreases dn - j,
        {
            if str_eq(entries[i].path.as_str(), dest[j].path.as_str()) {
                proof {
                    assert(es[i as int].path == ds[j as int].path);
                    assert(!no_clash(es, ds));
                }
                return Err(Error::ExtractionRejected);
            }
            j = j + 1;
        }
        i = i + 1;
    }
    let ghost raw = entries@;
    let mut rest = entries;
    let count = n;
    while rest.len() > 0
        invariant
            dest@ + rest@ == old(dest)@ + raw,
        decreases rest@.len(),
    {
        let ghost before_dest = dest@;
        let ghost before_rest = rest@;
        let e = rest.remove(0);
        dest.push(e);
        proof {
            assert(dest@ + rest@ =~= before_dest + before_rest);
        }
    }
    proof {
        assert(dest@ =~= dest@ + rest@);
        assert(dest@ == old(dest)@ + raw);
    }
    Ok(count)
}

/// A traversal segment anywhere in the listing makes the whole extraction
/// inadmissible, whatever else it holds.
pub proof fn lemma_traversal_rejected(es: Seq<EntryV>, ds: Seq<EntryV>, i: int)
    requires
        0 <= i < es.len(),
        has_dotdot_segment(es[i].path),
    ensures
        !extract_admissible(es, ds),
{
    assert(!entry_safe(es[i]));
}

} // verus!
