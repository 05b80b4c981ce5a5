//! The three load-bearing primitives: the file lock, the port allocator
//! and the sandboxed extractor.

use nucleus::archive::{extract_entries, ArchiveEntry, EntryKind};
use nucleus::errors::Error;
use nucleus::filelock::{FileLock, LockMarker};
use nucleus::net_util::TcpPortIssuer;

#[test]
fn lock_exactly_one_attempt_succeeds() {
    let mut m = LockMarker { present: false };
    let first = FileLock::try_acquire("/h/dry_dock/x/lockfile".to_string(), &mut m);
    assert!(first.is_some());
    assert!(m.present);
    let second = FileLock::try_acquire("/h/dry_dock/x/lockfile".to_string(), &mut m);
    assert!(second.is_none());
    assert!(m.present);
}

#[test]
fn lock_waiter_succeeds_only_after_release() {
    let mut m = LockMarker { present: false };
    let held = FileLock::try_acquire("/h/port/zod/lockfile".to_string(), &mut m).unwrap();
    // While held, a poll-loop attempt keeps failing: never early.
    assert!(FileLock::try_acquire("/h/port/zod/lockfile".to_string(), &mut m).is_none());
    assert!(FileLock::try_acquire("/h/port/zod/lockfile".to_string(), &mut m).is_none());
    held.release(&mut m);
    assert!(!m.present);
    // As soon as the holder releases, the next attempt succeeds.
    assert!(FileLock::try_acquire("/h/port/zod/lockfile".to_string(), &mut m).is_some());
}

#[test]
fn lock_release_is_idempotent() {
    let mut m = LockMarker { present: false };
    let a = FileLock::try_acquire("/h/p".to_string(), &mut m).unwrap();
    a.release(&mut m);
    let b = FileLock::try_acquire("/h/p".to_string(), &mut m).unwrap();
    b.release(&mut m);
    assert!(!m.present);
}

#[test]
fn issuer_never_repeats_a_port() {
    let mut iss = TcpPortIssuer::new(9000..9003);
    let mut seen: Vec<u16> = Vec::new();
    while let Ok(_) = iss.candidate() {
        let p = iss.take();
        assert!(!seen.contains(&p));
        seen.push(p);
    }
    assert_eq!(seen, vec![9000, 9001, 9002]);
}

#[test]
fn issuer_skips_rejected_candidates() {
    let mut iss = TcpPortIssuer::new(4300..4400);
    assert_eq!(iss.candidate(), Ok(4300));
    iss.advance();
    assert_eq!(iss.candidate(), Ok(4301));
    assert_eq!(iss.take(), 4301);
    assert_eq!(iss.candidate(), Ok(4302));
}

#[test]
fn issuer_exhaustion_is_terminal() {
    let mut iss = TcpPortIssuer::new(100..102);
    assert_eq!(iss.take(), 100);
    assert_eq!(iss.take(), 101);
    assert_eq!(iss.candidate(), Err(Error::PortsExhausted));
    assert_eq!(iss.candidate(), Err(Error::PortsExhausted));
}

#[test]
fn issuer_empty_range_is_exhausted_from_the_start() {
    let iss = TcpPortIssuer::new(9000..9000);
    assert_eq!(iss.candidate(), Err(Error::PortsExhausted));
}

fn file(path: &str, bytes: &[u8]) -> ArchiveEntry {
    ArchiveEntry { path: path.to_string(), kind: EntryKind::File(bytes.to_vec()) }
}

fn dir(path: &str) -> ArchiveEntry {
    ArchiveEntry { path: path.to_string(), kind: EntryKind::Directory }
}

#[test]
fn extract_accepts_safe_listing() {
    let mut dest: Vec<ArchiveEntry> = Vec::new();
    let n = extract_entries(
        vec![dir("pier"), dir("pier/.urb"), file("pier/.urb/data", b"x")],
        &mut dest,
    )
    .unwrap();
    assert_eq!(n, 3);
    assert_eq!(dest.len(), 3);
    assert_eq!(dest[2].path, "pier/.urb/data");
}

#[test]
fn extract_rejects_traversal_and_leaves_destination_identical() {
    let mut dest: Vec<ArchiveEntry> = vec![file("kept", b"before")];
    let r = extract_entries(
        vec![file("ok", b"1"), file("../../escape", b"2")],
        &mut dest,
    );
    assert_eq!(r.unwrap_err(), Error::ExtractionRejected);
    // Destination tree is byte-identical to before the attempt.
    assert_eq!(dest.len(), 1);
    assert_eq!(dest[0].path, "kept");
    match &dest[0].kind {
        EntryKind::File(b) => assert_eq!(b, b"before"),
        _ => panic!("kept entry changed kind"),
    }
}

#[test]
fn extract_rejects_inner_traversal_segment() {
    let mut dest: Vec<ArchiveEntry> = Vec::new();
    let r = extract_entries(vec![file("a/../b", b"")], &mut dest);
    assert_eq!(r.unwrap_err(), Error::ExtractionRejected);
    assert_eq!(dest.len(), 0);
}

#[test]
fn extract_accepts_dotdot_as_mere_name_fragment() {
    // "..b" and "a.." are ordinary names, not traversal segments.
    let mut dest: Vec<ArchiveEntry> = Vec::new();
    assert_eq!(extract_entries(vec![file("..b/a..c", b"")], &mut dest).unwrap(), 1);
}

#[test]
fn extract_rejects_absolute_path() {
    let mut dest: Vec<ArchiveEntry> = Vec::new();
    let r = extract_entries(vec![file("/etc/passwd", b"")], &mut dest);
    assert_eq!(r.unwrap_err(), Error::ExtractionRejected);
}

#[test]
fn extract_rejects_escaping_symlink() {
    let mut dest: Vec<ArchiveEntry> = Vec::new();
    let sly = ArchiveEntry {
        path: "link".to_string(),
        kind: EntryKind::Symlink("../outside".to_string()),
    };
    assert_eq!(extract_entries(vec![sly], &mut dest).unwrap_err(), Error::ExtractionRejected);
    let abs = ArchiveEntry {
        path: "link".to_string(),
        kind: EntryKind::Symlink("/etc".to_string()),
    };
    assert_eq!(extract_entries(vec![abs], &mut dest).unwrap_err(), Error::ExtractionRejected);
    let fine = ArchiveEntry {
        path: "link".to_string(),
        kind: EntryKind::Symlink("sibling".to_string()),
    };
    assert_eq!(extract_entries(vec![fine], &mut dest).unwrap(), 1);
}

#[test]
fn extract_never_overwrites() {
    let mut dest: Vec<ArchiveEntry> = vec![file("x", b"old")];
    let r = extract_entries(vec![file("x", b"new")], &mut dest);
    assert_eq!(r.unwrap_err(), Error::ExtractionRejected);
    match &dest[0].kind {
        EntryKind::File(b) => assert_eq!(b, b"old"),
        _ => panic!("existing entry changed kind"),
    }
    // A duplicate inside the archive itself is an overwrite too.
    let mut fresh: Vec<ArchiveEntry> = Vec::new();
    let r = extract_entries(vec![file("y", b"1"), file("y", b"2")], &mut fresh);
    assert_eq!(r.unwrap_err(), Error::ExtractionRejected);
    assert_eq!(fresh.len(), 0);
}
