//! The pier lifecycle over a harbor image: provisioning, exclusive
//! reattachment, launch, promotion, finalize and reload.

use nucleus::archive::{ArchiveEntry, EntryKind};
use nucleus::errors::Error;
use nucleus::harbor::{Harbor, HarborDirs};
use nucleus::ship::{dojo_parse_response, dojo_request_body, BootMode, PierState, StartMode};
use nucleus::net_util::TcpPortIssuer;
use nucleus::urbit::UrbitVersion;

fn harbor() -> Harbor {
    Harbor::new("/var/harbor".to_string())
}

fn is_uuid(s: &str) -> bool {
    s.len() == 36
        && s.char_indices().all(|(i, c)| {
            if i == 8 || i == 13 || i == 18 || i == 23 {
                c == '-'
            } else {
                c.is_ascii_hexdigit() && !c.is_ascii_uppercase()
            }
        })
}

#[test]
fn keyfile_provisioning_stages_bytes_verbatim() {
    let h = harbor();
    let mut dirs = HarborDirs::new();
    let p = PierState::new_from_keyfile(&h, &mut dirs, b"SECRET".to_vec(), "zod".to_string())
        .unwrap();
    assert!(is_uuid(p.id()));
    assert!(p.dry_docked());
    assert!(!p.initialized());
    assert_eq!(p.name(), Some("zod"));
    assert_eq!(p.start_mode(), StartMode::BootFromKeyfile);
    assert_eq!(dirs.dry_dock.len(), 1);
    assert_eq!(dirs.dry_dock[0].name, p.id());
    assert_eq!(dirs.dry_dock[0].dir.keyfile, Some(b"SECRET".to_vec()));
    assert!(dirs.dry_dock[0].dir.lock.present);
    assert!(!dirs.dry_dock[0].dir.pier_data);
    assert_eq!(dirs.dry_dock[0].dir.config_text, None);
}

#[test]
fn keyfile_provisioning_rejects_unfit_name() {
    let h = harbor();
    let mut dirs = HarborDirs::new();
    let r = PierState::new_from_keyfile(&h, &mut dirs, b"k".to_vec(), "bad name".to_string());
    assert_eq!(r.unwrap_err(), Error::ConfigCorrupt);
    let r = PierState::new_from_keyfile(&h, &mut dirs, b"k".to_vec(), "".to_string());
    assert_eq!(r.unwrap_err(), Error::ConfigCorrupt);
    assert_eq!(dirs.dry_dock.len(), 0);
}

#[test]
fn two_keyfile_piers_same_name_are_distinct() {
    let h = harbor();
    let mut dirs = HarborDirs::new();
    let a = PierState::new_from_keyfile(&h, &mut dirs, b"aaa".to_vec(), "zod".to_string())
        .unwrap();
    let b = PierState::new_from_keyfile(&h, &mut dirs, b"bbb".to_vec(), "zod".to_string())
        .unwrap();
    // Same chosen name, different content: two identifiers, two directories.
    assert_ne!(a.id(), b.id());
    assert_eq!(dirs.dry_dock.len(), 2);
    assert_ne!(dirs.dry_dock[0].name, dirs.dry_dock[1].name);
    assert_ne!(dirs.dry_dock[0].dir.keyfile, dirs.dry_dock[1].dir.keyfile);
    // Loading by the wrong identifier fails NotFound.
    let wrong = "00000000-0000-0000-0000-000000000000";
    assert_ne!(a.id(), wrong);
    assert_ne!(b.id(), wrong);
    let r = PierState::load_from_dry_dock(&h, &mut dirs, wrong);
    assert_eq!(r.unwrap_err(), Error::NotFound);
}

#[test]
fn provisioning_a_taken_identifier_changes_nothing() {
    let h = harbor();
    let mut dirs = HarborDirs::new();
    let id = "00112233-4455-6677-8899-aabbccddeeff".to_string();
    let p = PierState::provision(&h, &mut dirs, id.clone(), None, None, false, BootMode::Comet)
        .unwrap();
    assert_eq!(p.id(), id);
    let again = PierState::provision(&h, &mut dirs, id, None, None, false, BootMode::Comet);
    assert_eq!(again.unwrap_err(), Error::AlreadyLocked);
    assert_eq!(dirs.dry_dock.len(), 1);
}

#[test]
fn comet_provisioning_is_nameless() {
    let h = harbor();
    let mut dirs = HarborDirs::new();
    let p = PierState::new_comet(&h, &mut dirs).unwrap();
    assert!(p.name().is_none());
    assert!(!p.initialized());
    assert_eq!(p.start_mode(), StartMode::BootComet);
    assert_eq!(dirs.dry_dock[0].dir.keyfile, None);
}

#[test]
fn archive_provisioning_initializes_at_once() {
    let h = harbor();
    let mut dirs = HarborDirs::new();
    let listing = vec![
        ArchiveEntry { path: "mypier".to_string(), kind: EntryKind::Directory },
        ArchiveEntry { path: "mypier/.urb".to_string(), kind: EntryKind::Directory },
        ArchiveEntry { path: "mypier/.urb/log".to_string(), kind: EntryKind::File(b"d".to_vec()) },
    ];
    let p = PierState::new_from_pier_archive(&h, &mut dirs, listing).unwrap();
    assert!(p.initialized());
    assert!(p.name().is_none());
    assert_eq!(p.start_mode(), StartMode::Resume);
    assert!(dirs.dry_dock[0].dir.pier_data);
}

#[test]
fn archive_provisioning_rejects_traversal_listing() {
    let h = harbor();
    let mut dirs = HarborDirs::new();
    let listing = vec![
        ArchiveEntry { path: "../../escape".to_string(), kind: EntryKind::File(b"x".to_vec()) },
    ];
    let r = PierState::new_from_pier_archive(&h, &mut dirs, listing);
    assert_eq!(r.unwrap_err(), Error::ExtractionRejected);
    // Nothing durable is left behind.
    assert_eq!(dirs.dry_dock.len(), 0);
    assert_eq!(dirs.port.len(), 0);
}

#[test]
fn archive_without_ship_directory_is_invalid() {
    let h = harbor();
    let mut dirs = HarborDirs::new();
    let listing = vec![
        ArchiveEntry { path: "readme".to_string(), kind: EntryKind::File(b"hello".to_vec()) },
    ];
    let r = PierState::new_from_pier_archive(&h, &mut dirs, listing);
    assert_eq!(r.unwrap_err(), Error::ArchiveInvalid);
    assert_eq!(dirs.dry_dock.len(), 0);
}

#[test]
fn second_concurrent_load_fails_already_locked() {
    let h = harbor();
    let mut dirs = HarborDirs::new();
    let p = PierState::new_comet(&h, &mut dirs).unwrap();
    let id = p.id().to_string();
    // The provisioning handle still holds the lock.
    let r = PierState::load_from_dry_dock(&h, &mut dirs, &id);
    assert_eq!(r.unwrap_err(), Error::AlreadyLocked);
    // Finalize releases it; then exactly one of two attempts succeeds.
    p.finalize(&mut dirs);
    let first = PierState::load_from_dry_dock(&h, &mut dirs, &id);
    assert!(first.is_ok());
    let second = PierState::load_from_dry_dock(&h, &mut dirs, &id);
    assert_eq!(second.unwrap_err(), Error::AlreadyLocked);
}

#[test]
fn promotion_of_uninitialized_pier_is_illegal_and_mutates_nothing() {
    let h = harbor();
    let mut dirs = HarborDirs::new();
    let mut p = PierState::new_from_keyfile(&h, &mut dirs, b"k".to_vec(), "zod".to_string())
        .unwrap();
    assert!(!p.initialized());
    let r = p.release_from_dry_dock(&h, &mut dirs, "zod".to_string());
    assert_eq!(r.unwrap_err(), Error::IllegalStateTransition);
    // Zero filesystem mutation was performed.
    assert_eq!(dirs.dry_dock.len(), 1);
    assert_eq!(dirs.port.len(), 0);
    assert_eq!(dirs.dry_dock[0].name, p.id());
    assert!(dirs.dry_dock[0].dir.lock.present);
    assert_eq!(dirs.dry_dock[0].dir.config_text, None);
    assert_eq!(dirs.dry_dock[0].dir.keyfile, Some(b"k".to_vec()));
    assert!(!dirs.dry_dock[0].dir.pier_data);
    // The handle is unchanged too.
    assert!(p.dry_docked());
    assert_eq!(p.name(), Some("zod"));
}

#[test]
fn finalize_then_reload_round_trips_configuration() {
    let h = harbor();
    let mut dirs = HarborDirs::new();
    let p = PierState::new_from_keyfile(&h, &mut dirs, b"k".to_vec(), "zod".to_string()).unwrap();
    let id = p.id().to_string();
    let version = p.config().runtime_version;
    p.finalize(&mut dirs);
    assert!(!dirs.dry_dock[0].dir.lock.present);
    assert!(dirs.dry_dock[0].dir.config_text.is_some());
    let back = PierState::load_from_dry_dock(&h, &mut dirs, &id).unwrap();
    assert_eq!(back.id(), id);
    assert_eq!(back.name(), Some("zod"));
    assert_eq!(back.config().runtime_version, version);
    assert_eq!(back.config().id, id);
    assert_eq!(back.config().name, Some("zod".to_string()));
}

#[test]
fn keyfile_pier_end_to_end() {
    let h = harbor();
    let mut dirs = HarborDirs::new();
    // Provision from keyfile bytes named "zod".
    let p = PierState::new_from_keyfile(&h, &mut dirs, b"SECRET".to_vec(), "zod".to_string())
        .unwrap();
    let id = p.id().to_string();
    assert_eq!(p.start_mode(), StartMode::BootFromKeyfile);
    // Launch with one port from each configured range.
    let mut service_ports = TcpPortIssuer::new(9000..9010);
    let mut peer_ports = TcpPortIssuer::new(9100..9110);
    let http_port = service_ports.take();
    let ames_port = peer_ports.take();
    assert!((9000..9010).contains(&http_port));
    assert!((9100..9110).contains(&ames_port));
    assert_ne!(http_port, ames_port);
    let desc = "8080 0.0.0.0 public\n12321 127.0.0.1 loopback\n";
    let ship = p.launch(&mut dirs, http_port, ames_port, desc).unwrap();
    assert_eq!(ship.http_port(), http_port);
    assert_eq!(ship.ames_port(), ames_port);
    assert_eq!(ship.lens_port(), 12321);
    assert!(dirs.dry_dock[0].dir.pier_data);
    // Ask the running ship for its identity over the control channel,
    // against a stub that answers with the JSON string "~zod".
    let request = dojo_request_body("our");
    assert_eq!(request, "{\"source\":{\"dojo\":\"our\"},\"sink\":{\"stdout\":null}}");
    let identity = dojo_parse_response("\"~zod\"").unwrap();
    assert_eq!(identity, "~zod");
    // Shut down and promote under the discovered identity.
    let mut p = ship.shutdown();
    assert!(p.initialized());
    p.release_from_dry_dock(&h, &mut dirs, "zod".to_string()).unwrap();
    assert!(!p.dry_docked());
    assert_eq!(p.name(), Some("zod"));
    // The directory now resides in the live zone and no longer in staging.
    assert_eq!(dirs.dry_dock.len(), 0);
    assert_eq!(dirs.port.len(), 1);
    assert_eq!(dirs.port[0].name, "zod");
    assert_eq!(dirs.piers_in_port(), vec!["zod".to_string()]);
    // Finalize, then a later session reloads it from the live zone.
    p.finalize(&mut dirs);
    let back = PierState::load_from_port(&h, &mut dirs, "zod").unwrap();
    assert_eq!(back.id(), id);
    assert_eq!(back.name(), Some("zod"));
    assert_eq!(back.config().runtime_version, UrbitVersion::UrbitV1_9);
    assert!(back.initialized());
    assert!(!back.dry_docked());
}

#[test]
fn live_zone_load_requires_matching_name() {
    let h = harbor();
    let mut dirs = HarborDirs::new();
    let p = PierState::new_from_keyfile(&h, &mut dirs, b"k".to_vec(), "zod".to_string()).unwrap();
    let desc = "1 127.0.0.1 loopback";
    let ship = p.launch(&mut dirs, 9000, 9100, desc).unwrap();
    let mut p = ship.shutdown();
    p.release_from_dry_dock(&h, &mut dirs, "wet".to_string()).unwrap();
    p.finalize(&mut dirs);
    // The persisted name is "wet"; renaming the directory behind the
    // system's back would be a corrupt configuration.
    dirs.port[0].name = "zod".to_string();
    let r = PierState::load_from_port(&h, &mut dirs, "zod");
    assert_eq!(r.unwrap_err(), Error::ConfigCorrupt);
}

#[test]
fn promotion_to_an_occupied_name_is_refused() {
    let h = harbor();
    let mut dirs = HarborDirs::new();
    let desc = "1 127.0.0.1 loopback";
    let a = PierState::new_comet(&h, &mut dirs).unwrap();
    let mut a = a.launch(&mut dirs, 1, 2, desc).unwrap().shutdown();
    a.release_from_dry_dock(&h, &mut dirs, "zod".to_string()).unwrap();
    let b = PierState::new_comet(&h, &mut dirs).unwrap();
    let mut b = b.launch(&mut dirs, 3, 4, desc).unwrap().shutdown();
    let r = b.release_from_dry_dock(&h, &mut dirs, "zod".to_string());
    assert_eq!(r.unwrap_err(), Error::AlreadyLocked);
    assert_eq!(dirs.dry_dock.len(), 1);
    assert_eq!(dirs.port.len(), 1);
}

#[test]
fn launch_with_bad_descriptor_returns_the_handle() {
    let h = harbor();
    let mut dirs = HarborDirs::new();
    let p = PierState::new_comet(&h, &mut dirs).unwrap();
    let id = p.id().to_string();
    let r = p.launch(&mut dirs, 1, 2, "no marker here");
    let (p, e) = r.err().unwrap();
    assert_eq!(e, Error::ProtocolViolation);
    assert_eq!(p.id(), id);
    assert!(!p.initialized());
    assert!(!dirs.dry_dock[0].dir.pier_data);
}
