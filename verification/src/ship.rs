//! The pier lifecycle state machine, and the ship a launched pier becomes.
//!
//! A [`PierState`] is the exclusive handle to one pier directory: it is
//! created by one of three provisioning constructors or by reattaching to
//! an existing directory, always under the directory's lock, and it is
//! destroyed by being consumed into a [`Ship`] or by an explicit
//! [`finalize`](PierState::finalize). All operations act on the in-memory
//! image of the harbor's zones ([`HarborDirs`]); performing the matching
//! disk I/O, spawning and stopping the external process, and carrying the
//! control-channel HTTP call are the unverified rim's work.

use vstd::prelude::*;

use crate::config::{config_chars, parse_config_chars, ConfigV, PierConfig};
use crate::errors::Error;
use crate::filelock::{FileLock, LockMarker};
use crate::harbor::{
    distinct_keys, find_slot, has_key, key_index, lemma_absent_keys, lemma_key_index_props,
    lemma_lookup_push, lemma_lookup_update, lookup, slots_view, Harbor, HarborDirs,
    HarborDirsV, PierDir, PierDirV, PierSlot, SlotV,
};
use crate::text::{
    ends_with, is_uuid_str, lemma_scan_props, match_at, match_lit, parse_u16, parsed_u16,
    push_char, scan, scan_to, CharClass,
};
use crate::urbit::UrbitVersion;

verus! {

/// How a pier will boot the first time it is launched: from supplied key
/// material, from data already extracted out of an archive, or as a comet
/// that synthesizes a fresh anonymous identity.
#[derive(Clone, Copy, Debug, PartialEq, Eq, Structural)]
pub enum BootMode {
    Keyfile,
    ArchiveExtracted,
    Comet,
}

/// The start mode handed to the external process at launch.
#[derive(Clone, Copy, Debug, PartialEq, Eq, Structural)]
pub enum StartMode {
    Resume,
    BootComet,
    BootFromKeyfile,
}

/// The mathematical content of a pier handle.
pub ghost struct PierStateV {
    pub id: Seq<char>,
    pub name: Option<Seq<char>>,
    pub config: ConfigV,
    pub meta_path: Seq<char>,
    pub dry_docked: bool,
    pub initialized: bool,
    pub boot: BootMode,
}

impl PierStateV {
    /// Internal consistency of a pier handle.
    pub open spec fn wf(&self) -> bool {
        &&& self.config.wf()
        &&& self.id == self.config.id
        &&& self.name == self.config.name
        &&& (self.boot == BootMode::Keyfile ==> self.name is Some)
        &&& (self.boot == BootMode::ArchiveExtracted ==> self.initialized)
        &&& (!self.dry_docked ==> self.initialized && self.name is Some)
    }

    /// The pier's directory name within its zone: the identifier while
    /// staged, the canonical name once live.
    pub open spec fn key(&self) -> Seq<char> {
        if self.dry_docked {
            self.id
        } else {
            self.name->Some_0
        }
    }

    /// The start mode [`PierState::launch`] selects from this state.
    pub open spec fn start_mode(&self) -> StartMode {
        start_mode_of(self.initialized, self.boot)
    }
}

/// The start-mode selection rule: resume once the data directory exists,
/// otherwise boot as the pending boot mode dictates.
pub open spec fn start_mode_of(initialized: bool, boot: BootMode) -> StartMode {
    if initialized {
        StartMode::Resume
    } else {
        match boot {
            BootMode::Keyfile => StartMode::BootFromKeyfile,
            BootMode::Comet => StartMode::BootComet,
            BootMode::ArchiveExtracted => StartMode::Resume,
        }
    }
}

/// The start-mode selection rule, for a caller that tracks the two state
/// bits outside a handle.
pub fn select_start_mode(initialized: bool, boot: BootMode) -> (r: StartMode)
    ensures
        r == start_mode_of(initialized, boot),
{
    if initialized {
        StartMode::Resume
    } else {
        match boot {
            BootMode::Keyfile => StartMode::BootFromKeyfile,
            BootMode::Comet => StartMode::BootComet,
            BootMode::ArchiveExtracted => StartMode::Resume,
        }
    }
}

/// The zone a pier resides in.
pub open spec fn zone_of(dirs: HarborDirsV, dry_docked: bool) -> Seq<SlotV> {
    if dry_docked {
        dirs.dry_dock
    } else {
        dirs.port
    }
}

/// The handle's directory exists in its zone and its lock marker is held.
pub open spec fn attached(pv: PierStateV, dirs: HarborDirsV) -> bool {
    match lookup(zone_of(dirs, pv.dry_docked), pv.key()) {
        Some(d) => d.lock,
        None => false,
    }
}

/// A freshly provisioned pier directory: locked, not yet configured.
pub open spec fn fresh_dir(keyfile: Option<Seq<u8>>, pier_data: bool) -> PierDirV {
    PierDirV { config_text: None, lock: true, keyfile, pier_data }
}

/// Relies on `uuid::Uuid::new_v4` and the hyphenated `Display` form of
/// `uuid::Uuid`: a freshly generated random identifier, rendered as 36
/// lowercase hexadecimal characters with hyphens at positions 8, 13, 18
/// and 23.
#[verifier::external_body]
fn fresh_pier_id() -> (r: String)
    ensures
        is_uuid_str(r@),
{
    uuid::Uuid::new_v4().hyphenated().to_string()
}

/// An exclusive handle to one pier directory. At most one handle exists
/// per directory at any time, enforced by the directory's lock marker, not
/// merely by convention.
#[derive(Debug)]
pub struct PierState {
    id: String,
    name: Option<String>,
    config: PierConfig,
    meta_path: String,
    dry_docked: bool,
    initialized: bool,
    boot: BootMode,
    lock: FileLock,
}

impl View for PierState {
    type V = PierStateV;

    closed spec fn view(&self) -> PierStateV {
        PierStateV {
            id: self.id@,
            name: match self.name {
                Some(n) => Some(n@),
                None => None,
            },
            config: self.config@,
            meta_path: self.meta_path@,
            dry_docked: self.dry_docked,
            initialized: self.initialized,
            boot: self.boot,
        }
    }
}

impl PierState {
    /// The handle is internally consistent and its lock is bound to its
    /// own lockfile path.
    pub closed spec fn wf(&self) -> bool {
        &&& self@.wf()
        &&& self.lock.path_view() == self@.meta_path + "/lockfile"@
    }

    /// The persisted configuration carried by this handle.
    pub fn config(&self) -> (r: &PierConfig)
        ensures
            r@ == self@.config,
    {
        &self.config
    }

    /// Whether the pier still resides in the staging zone.
    pub fn dry_docked(&self) -> (r: bool)
        ensures
            r == self@.dry_docked,
    {
        self.dry_docked
    }

    /// The canonical name, once known.
    pub fn name(&self) -> (r: Option<&str>)
        ensures
            match self@.name {
                Some(n) => r matches Some(s) && s@ == n,
                None => r is None,
            },
    {
        match &self.name {
            Some(n) => Some(n.as_str()),
            None => None,
        }
    }

    /// Whether the pier's own data directory exists.
    pub fn initialized(&self) -> (r: bool)
        ensures
            r == self@.initialized,
    {
        self.initialized
    }

    /// The stable identifier assigned at creation.
    pub fn id(&self) -> (r: &str)
        ensures
            r@ == self@.id,
    {
        self.id.as_str()
    }

    /// The start mode the next launch will use: resume once initialized,
    /// otherwise boot as the pending boot mode dictates.
    pub fn start_mode(&self) -> (r: StartMode)
        ensures
            r == self@.start_mode(),
    {
        select_start_mode(self.initialized, self.boot)
    }

    /// The configuration file within a pier directory.
    fn config_path_given_meta(meta_path: String) -> (r: String)
        ensures
            r@ == meta_path@ + "/config.json"@,
    {
        let mut r = meta_path;
        r.append("/config.json");
        r
    }

    /// The lock marker file within a pier directory.
    fn lockfile_path_given_meta(meta_path: String) -> (r: String)
        ensures
            r@ == meta_path@ + "/lockfile"@,
    {
        let mut r = meta_path;
        r.append("/lockfile");
        r
    }

    /// The pier's own data directory.
    fn pier_path(&self) -> (r: String)
        ensures
            r@ == self@.meta_path + "/pier"@,
    {
        let mut r = self.meta_path.clone();
        r.append("/pier");
        r
    }

    /// The keyfile staged for the first boot.
    fn keyfile_path(&self) -> (r: String)
        ensures
            r@ == self@.meta_path + "/keyfile"@,
    {
        let mut r = self.meta_path.clone();
        r.append("/keyfile");
        r
    }

    /// The scratch file an uploaded archive is staged to.
    fn archive_path(&self) -> (r: String)
        ensures
            r@ == self@.meta_path + "/archive"@,
    {
        let mut r = self.meta_path.clone();
        r.append("/archive");
        r
    }

    /// The scratch directory an archive is unpacked into.
    fn unpack_path(&self) -> (r: String)
        ensures
            r@ == self@.meta_path + "/unpack"@,
    {
        let mut r = self.meta_path.clone();
        r.append("/unpack");
        r
    }

    /// Provision a new comet pier: allocate an identifier, create the
    /// staging directory, acquire its lock. The first launch will
    /// synthesize a fresh anonymous identity.
    ///
    /// Fails only if the freshly allocated identifier collides with an
    /// existing staging directory — impossible while the staging zone is
    /// empty, so success is then owed — and leaves everything untouched.
    pub fn new_comet(harbor: &Harbor, dirs: &mut HarborDirs) -> (r: Result<PierState, Error>)
        requires
            old(dirs)@.wf(),
        ensures
            final(dirs)@.wf(),
            match r {
                Ok(p) => {
                    &&& p.wf()
                    &&& is_uuid_str(p@.id)
                    &&& !has_key(old(dirs)@.dry_dock, p@.id)
                    &&& final(dirs)@.dry_dock == old(dirs)@.dry_dock.push(
                        SlotV { name: p@.id, dir: fresh_dir(None, false) },
                    )
                    &&& final(dirs)@.port == old(dirs)@.port
                    &&& p@.name is None
                    &&& p@.config == (ConfigV {
                        runtime_version: UrbitVersion::UrbitV1_9,
                        id: p@.id,
                        name: None,
                    })
                    &&& p@.meta_path == harbor@ + "/dry_dock/"@ + p@.id
                    &&& p@.dry_docked
                    &&& !p@.initialized
                    &&& p@.boot == BootMode::Comet
                    &&& attached(p@, final(dirs)@)
                },
                Err(e) => e == Error::AlreadyLocked && final(dirs)@ == old(dirs)@ && old(
                    dirs,
                )@.dry_dock.len() > 0,
            },
    {
        let id = fresh_pier_id();
        Self::provision(harbor, dirs, id, None, None, false, BootMode::Comet)
    }

    /// The deterministic core the three provisioning constructors share:
    /// stage a new directory under the given identifier, locked from the
    /// start. Fails exactly when the identifier is already taken, and then
    /// changes nothing.
    pub fn provision(
        harbor: &Harbor,
        dirs: &mut HarborDirs,
        id: String,
        name: Option<String>,
        keyfile: Option<Vec<u8>>,
        pier_data: bool,
        boot: BootMode,
    ) -> (r: Result<PierState, Error>)
        requires
            old(dirs)@.wf(),
            is_uuid_str(id@),
            boot == BootMode::Keyfile ==> name is Some,
            boot == BootMode::ArchiveExtracted ==> pier_data,
            match name {
                Some(n) => crate::text::valid_name(n@),
                None => true,
            },
        ensures
            final(dirs)@.wf(),
            match r {
                Ok(p) => {
                    &&& p.wf()
                    &&& p@.id == id@
                    &&& !has_key(old(dirs)@.dry_dock, id@)
                    &&& final(dirs)@.dry_dock == old(dirs)@.dry_dock.push(
                        SlotV {
                            name: id@,
                            dir: fresh_dir(
                                match keyfile {
                                    Some(k) => Some(k@),
                                    None => None,
                                },
                                pier_data,
                            ),
                        },
                    )
                    &&& final(dirs)@.port == old(dirs)@.port
                    &&& p@.name == (match name {
                        Some(n) => Some(n@),
                        None => None::<Seq<char>>,
                    })
                    &&& p@.config == (ConfigV {
                        runtime_version: UrbitVersion::UrbitV1_9,
                        id: id@,
                        name: p@.name,
                    })
                    &&& p@.meta_path == harbor@ + "/dry_dock/"@ + id@
                    &&& p@.dry_docked
                    &&& p@.initialized == pier_data
                    &&& p@.boot == boot
                    &&& attached(p@, final(dirs)@)
                },
                Err(e) => e == Error::AlreadyLocked && final(dirs)@ == old(dirs)@ && has_key(
                    old(dirs)@.dry_dock,
                    id@,
                ),
            },
    {
        if find_slot(&dirs.dry_dock, id.as_str()).is_some() {
            return Err(Error::AlreadyLocked);
        }
        let mut meta_path = harbor.dry_dock_path();
        meta_path.append("/");
        meta_path.append(id.as_str());
        let mut marker = LockMarker { present: false };
        let lock = match FileLock::try_acquire(
            Self::lockfile_path_given_meta(meta_path.clone()),
            &mut marker,
        ) {
            Some(l) => l,
            None => {
                proof {
                    assert(false);
                }
                return Err(Error::AlreadyLocked);
            },
        };
        let config = PierConfig {
            runtime_version: UrbitVersion::default(),
            id: id.clone(),
            name: match &name {
                Some(n) => Some(n.clone()),
                None => None,
            },
        };
        let ghost old_slots = slots_view(dirs.dry_dock@);
        let slot = PierSlot {
            name: id.clone(),
            dir: PierDir { config_text: None, lock: marker, keyfile, pier_data },
        };
        let ghost slot_v = slot@;
        dirs.dry_dock.push(slot);
        proof {
            assert(slots_view(dirs.dry_dock@) =~= old_slots.push(slot_v));
            lemma_lookup_push(old_slots, slot_v, id@);
            lemma_absent_keys(old_slots, id@);
        }
        let result = PierState {
            id,
            name,
            config,
            meta_path,
            dry_docked: true,
            initialized: pier_data,
            boot,
            lock,
        };
        proof {
            reveal_strlit("/dry_dock");
            reveal_strlit("/");
            reveal_strlit("/dry_dock/");
            assert(result@.meta_path =~= harbor@ + "/dry_dock/"@ + result@.id);
        }
        Ok(result)
    }

    /// Provision a new pier from keyfile bytes and a chosen name: allocate
    /// an identifier, create the staging directory, acquire its lock
    /// immediately — before any data is written — and stage the supplied
    /// bytes verbatim as the keyfile. The pier stays uninitialized until
    /// its first launch.
    ///
    /// A name unfit for a pier is rejected as corrupt configuration; a
    /// collision of the freshly allocated identifier with an existing
    /// staging directory — impossible while the staging zone is empty —
    /// leaves everything untouched.
    pub fn new_from_keyfile(
        harbor: &Harbor,
        dirs: &mut HarborDirs,
        key: Vec<u8>,
        name: String,
    ) -> (r: Result<PierState, Error>)
        requires
            old(dirs)@.wf(),
        ensures
            final(dirs)@.wf(),
            match r {
                Ok(p) => {
                    &&& crate::text::valid_name(name@)
                    &&& p.wf()
                    &&& is_uuid_str(p@.id)
                    &&& !has_key(old(dirs)@.dry_dock, p@.id)
                    &&& final(dirs)@.dry_dock == old(dirs)@.dry_dock.push(
                        SlotV { name: p@.id, dir: fresh_dir(Some(key@), false) },
                    )
                    &&& final(dirs)@.port == old(dirs)@.port
                    &&& p@.name == Some(name@)
                    &&& p@.config == (ConfigV {
                        runtime_version: UrbitVersion::UrbitV1_9,
                        id: p@.id,
                        name: Some(name@),
                    })
                    &&& p@.meta_path == harbor@ + "/dry_dock/"@ + p@.id
                    &&& p@.dry_docked
                    &&& !p@.initialized
                    &&& p@.boot == BootMode::Keyfile
                    &&& attached(p@, final(dirs)@)
                },
                Err(e) => {
                    &&& final(dirs)@ == old(dirs)@
                    &&& (e == Error::ConfigCorrupt <==> !crate::text::valid_name(name@))
                    &&& (e == Error::ConfigCorrupt || e == Error::AlreadyLocked)
                    &&& (e == Error::AlreadyLocked ==> old(dirs)@.dry_dock.len() > 0)
                },
            },
    {
        if !crate::text::check_name(name.as_str()) {
            return Err(Error::ConfigCorrupt);
        }
        let id = fresh_pier_id();
        Self::provision(harbor, dirs, id, Some(name), Some(key), false, BootMode::Keyfile)
    }

    /// Provision a new pier from a decoded archive listing: allocate an
    /// identifier, create the staging directory, acquire its lock, unpack
    /// the listing under the fixed safety policy into scratch space, and
    /// move the single recognizable ship-data subtree into place as the
    /// pier's data directory. Scratch state never survives this call,
    /// whatever the outcome. On success the pier is initialized at once.
    ///
    /// A listing that violates the safety policy is rejected; an
    /// admissible listing without a recognizable ship directory is
    /// invalid, a distinct content-validation failure. An admissible
    /// listing with a ship directory fails only on an identifier
    /// collision, impossible while the staging zone is empty. Whatever
    /// the failure, nothing durable is left.
    pub fn new_from_pier_archive(
        harbor: &Harbor,
        dirs: &mut HarborDirs,
        entries: Vec<crate::archive::ArchiveEntry>,
    ) -> (r: Result<PierState, Error>)
        requires
            old(dirs)@.wf(),
        ensures
            final(dirs)@.wf(),
            match r {
                Ok(p) => {
                    &&& crate::archive::extract_admissible(
                        crate::archive::entries_view(entries@),
                        Seq::empty(),
                    )
                    &&& find_pier_spec(crate::archive::entries_view(entries@), 0) is Some
                    &&& p.wf()
                    &&& is_uuid_str(p@.id)
                    &&& !has_key(old(dirs)@.dry_dock, p@.id)
                    &&& final(dirs)@.dry_dock == old(dirs)@.dry_dock.push(
                        SlotV { name: p@.id, dir: fresh_dir(None, true) },
                    )
                    &&& final(dirs)@.port == old(dirs)@.port
                    &&& p@.name is None
                    &&& p@.config == (ConfigV {
                        runtime_version: UrbitVersion::UrbitV1_9,
                        id: p@.id,
                        name: None,
                    })
                    &&& p@.meta_path == harbor@ + "/dry_dock/"@ + p@.id
                    &&& p@.dry_docked
                    &&& p@.initialized
                    &&& p@.boot == BootMode::ArchiveExtracted
                    &&& attached(p@, final(dirs)@)
                },
                Err(e) => {
                    &&& final(dirs)@ == old(dirs)@
                    &&& (e == Error::ExtractionRejected <==> !crate::archive::extract_admissible(
                        crate::archive::entries_view(entries@),
                        Seq::empty(),
                    ))
                    &&& (e == Error::ArchiveInvalid <==> (crate::archive::extract_admissible(
                        crate::archive::entries_view(entries@),
                        Seq::empty(),
                    ) && find_pier_spec(crate::archive::entries_view(entries@), 0) is None))
                    &&& (e == Error::AlreadyLocked ==> find_pier_spec(
                        crate::archive::entries_view(entries@),
                        0,
                    ) is Some && old(dirs)@.dry_dock.len() > 0)
                    &&& (e == Error::ExtractionRejected || e == Error::ArchiveInvalid || e
                        == Error::AlreadyLocked)
                },
            },
    {
        let ghost es = crate::archive::entries_view(entries@);
        let mut unpacked: Vec<crate::archive::ArchiveEntry> = Vec::new();
        proof {
            assert(crate::archive::entries_view(unpacked@) =~= Seq::<crate::archive::EntryV>::empty());
        }
        if let Err(e) = crate::archive::extract_entries(entries, &mut unpacked) {
            return Err(e);
        }
        proof {
            assert(crate::archive::entries_view(unpacked@) =~= es);
        }
        if find_extracted_pier(&unpacked).is_none() {
            return Err(Error::ArchiveInvalid);
        }
        let id = fresh_pier_id();
        Self::provision(harbor, dirs, id, None, None, true, BootMode::ArchiveExtracted)
    }
}

/// The image after setting the lock marker of the pier keyed `key` in the
/// chosen zone.
pub open spec fn with_lock_set(dirs: HarborDirsV, dry_docked: bool, key: Seq<char>) -> HarborDirsV {
    let z = zone_of(dirs, dry_docked);
    let d = lookup(z, key)->Some_0;
    let z2 = z.update(
        key_index(z, key),
        SlotV {
            name: key,
            dir: PierDirV {
                config_text: d.config_text,
                lock: true,
                keyfile: d.keyfile,
                pier_data: d.pier_data,
            },
        },
    );
    if dry_docked {
        HarborDirsV { dry_dock: z2, port: dirs.port }
    } else {
        HarborDirsV { dry_dock: dirs.dry_dock, port: z2 }
    }
}

/// Why reattaching to a live-zone pier named `name` fails, if it does:
/// no such directory, the lock already held, or persisted configuration
/// that is missing, unparsable, disagreeing with the directory name, or
/// claiming an uninitialized pier in the live zone.
pub open spec fn port_load_err(dirs: HarborDirsV, name: Seq<char>) -> Option<Error> {
    match lookup(dirs.port, name) {
        None => Some(Error::NotFound),
        Some(d) => if d.lock {
            Some(Error::AlreadyLocked)
        } else {
            match d.config_text {
                None => Some(Error::ConfigCorrupt),
                Some(t) => match parse_config_chars(t) {
                    None => Some(Error::ConfigCorrupt),
                    Some(cv) => if cv.name != Some(name) {
                        Some(Error::ConfigCorrupt)
                    } else if !d.pier_data {
                        Some(Error::ConfigCorrupt)
                    } else {
                        None
                    },
                },
            }
        },
    }
}

/// The configuration a successful live-zone load yields.
pub open spec fn port_load_config(dirs: HarborDirsV, name: Seq<char>) -> ConfigV {
    parse_config_chars((lookup(dirs.port, name)->Some_0).config_text->Some_0)->Some_0
}

/// Why reattaching to a staging-zone pier with identifier `id` fails, if
/// it does: no such directory, the lock already held, or persisted
/// configuration that is missing, unparsable, or disagreeing with the
/// directory's identifier.
pub open spec fn dry_load_err(dirs: HarborDirsV, id: Seq<char>) -> Option<Error> {
    match lookup(dirs.dry_dock, id) {
        None => Some(Error::NotFound),
        Some(d) => if d.lock {
            Some(Error::AlreadyLocked)
        } else {
            match d.config_text {
                None => Some(Error::ConfigCorrupt),
                Some(t) => match parse_config_chars(t) {
                    None => Some(Error::ConfigCorrupt),
                    Some(cv) => if cv.id != id {
                        Some(Error::ConfigCorrupt)
                    } else {
                        None
                    },
                },
            }
        },
    }
}

/// The configuration a successful staging-zone load yields.
pub open spec fn dry_load_config(dirs: HarborDirsV, id: Seq<char>) -> ConfigV {
    parse_config_chars((lookup(dirs.dry_dock, id)->Some_0).config_text->Some_0)->Some_0
}

/// The pending boot mode a reattached pier carries: data present means a
/// launch resumes; otherwise a named pier boots from its keyfile and a
/// nameless one boots as a comet.
pub open spec fn reload_boot_mode(pier_data: bool, name: Option<Seq<char>>) -> BootMode {
    if pier_data {
        BootMode::ArchiveExtracted
    } else if name is Some {
        BootMode::Keyfile
    } else {
        BootMode::Comet
    }
}

impl PierState {
    /// Reattach to a pier in the live zone, non-blocking: fails at once
    /// with the lock already held elsewhere. The persisted name must equal
    /// the directory name; a mismatch is corrupt configuration, never
    /// silently corrected, and a live-zone pier without its data directory
    /// is corrupt too.
    pub fn load_from_port(harbor: &Harbor, dirs: &mut HarborDirs, name: &str) -> (r: Result<
        PierState,
        Error,
    >)
        requires
            old(dirs)@.wf(),
        ensures
            final(dirs)@.wf(),
            match port_load_err(old(dirs)@, name@) {
                Some(e) => r == Err::<PierState, Error>(e) && final(dirs)@ == old(dirs)@,
                None => {
                    &&& r matches Ok(p)
                    &&& p.wf()
                    &&& final(dirs)@ == with_lock_set(old(dirs)@, false, name@)
                    &&& p@.config == port_load_config(old(dirs)@, name@)
                    &&& p@.id == p@.config.id
                    &&& p@.name == Some(name@)
                    &&& !p@.dry_docked
                    &&& p@.initialized
                    &&& p@.meta_path == harbor@ + "/port/"@ + name@
                    &&& attached(p@, final(dirs)@)
                },
            },
    {
        let ghost zv = slots_view(dirs.port@);
        let i = match find_slot(&dirs.port, name) {
            None => {
                return Err(Error::NotFound);
            },
            Some(i) => i,
        };
        if dirs.port[i].dir.lock.present {
            return Err(Error::AlreadyLocked);
        }
        let config = match &dirs.port[i].dir.config_text {
            None => {
                return Err(Error::ConfigCorrupt);
            },
            Some(t) => match PierConfig::parse(t.as_str()) {
                Err(_) => {
                    return Err(Error::ConfigCorrupt);
                },
                Ok(c) => c,
            },
        };
        match &config.name {
            None => {
                return Err(Error::ConfigCorrupt);
            },
            Some(cn) => {
                if !crate::text::str_eq(cn.as_str(), name) {
                    return Err(Error::ConfigCorrupt);
                }
            },
        }
        if !dirs.port[i].dir.pier_data {
            return Err(Error::ConfigCorrupt);
        }
        let mut meta_path = harbor.port_path();
        meta_path.append("/");
        meta_path.append(name);
        let mut slot = dirs.port.remove(i);
        let lock = match FileLock::try_acquire(
            Self::lockfile_path_given_meta(meta_path.clone()),
            &mut slot.dir.lock,
        ) {
            Some(l) => l,
            None => {
                proof {
                    assert(false);
                }
                return Err(Error::NotFound);
            },
        };
        let ghost slot_v = slot@;
        dirs.port.insert(i, slot);
        proof {
            assert(slots_view(dirs.port@) =~= zv.update(i as int, slot_v));
            assert(slot_v == SlotV {
                name: name@,
                dir: PierDirV {
                    config_text: zv[i as int].dir.config_text,
                    lock: true,
                    keyfile: zv[i as int].dir.keyfile,
                    pier_data: zv[i as int].dir.pier_data,
                },
            });
            lemma_lookup_update(zv, name@, slot_v.dir, name@);
            assert(slots_view(dirs.port@) =~= with_lock_set(old(dirs)@, false, name@).port);
            assert(dirs@ == with_lock_set(old(dirs)@, false, name@));
            assert(distinct_keys(slots_view(dirs.port@))) by {
                assert(forall|m: int|
                    0 <= m < zv.len() ==> slots_view(dirs.port@)[m].name == zv[m].name);
            }
        }
        let result = PierState {
            id: config.id.clone(),
            name: Some(name.to_owned()),
            config,
            meta_path,
            dry_docked: false,
            initialized: true,
            boot: BootMode::ArchiveExtracted,
            lock,
        };
        proof {
            reveal_strlit("/port");
            reveal_strlit("/");
            reveal_strlit("/port/");
            assert(result@.meta_path =~= harbor@ + "/port/"@ + name@);
        }
        Ok(result)
    }

    /// Reattach to a pier in the staging zone, non-blocking: fails at once
    /// with the lock already held elsewhere. The persisted identifier must
    /// equal the directory name; a mismatch is corrupt configuration.
    pub fn load_from_dry_dock(harbor: &Harbor, dirs: &mut HarborDirs, id: &str) -> (r: Result<
        PierState,
        Error,
    >)
        requires
            old(dirs)@.wf(),
        ensures
            final(dirs)@.wf(),
            match dry_load_err(old(dirs)@, id@) {
                Some(e) => r == Err::<PierState, Error>(e) && final(dirs)@ == old(dirs)@,
                None => {
                    &&& r matches Ok(p)
                    &&& p.wf()
                    &&& final(dirs)@ == with_lock_set(old(dirs)@, true, id@)
                    &&& p@.config == dry_load_config(old(dirs)@, id@)
                    &&& p@.id == id@
                    &&& p@.name == p@.config.name
                    &&& p@.dry_docked
                    &&& p@.initialized == (lookup(old(dirs)@.dry_dock, id@)->Some_0).pier_data
                    &&& p@.boot == reload_boot_mode(p@.initialized, p@.name)
                    &&& p@.meta_path == harbor@ + "/dry_dock/"@ + id@
                    &&& attached(p@, final(dirs)@)
                },
            },
    {
        let ghost zv = slots_view(dirs.dry_dock@);
        let i = match find_slot(&dirs.dry_dock, id) {
            None => {
                return Err(Error::NotFound);
            },
            Some(i) => i,
        };
        if dirs.dry_dock[i].dir.lock.present {
            return Err(Error::AlreadyLocked);
        }
        let config = match &dirs.dry_dock[i].dir.config_text {
            None => {
                return Err(Error::ConfigCorrupt);
            },
            Some(t) => match PierConfig::parse(t.as_str()) {
                Err(_) => {
                    return Err(Error::ConfigCorrupt);
                },
                Ok(c) => c,
            },
        };
        if !crate::text::str_eq(config.id.as_str(), id) {
            return Err(Error::ConfigCorrupt);
        }
        let initialized = dirs.dry_dock[i].dir.pier_data;
        let mut meta_path = harbor.dry_dock_path();
        meta_path.append("/");
        meta_path.append(id);
        let mut slot = dirs.dry_dock.remove(i);
        let lock = match FileLock::try_acquire(
            Self::lockfile_path_given_meta(meta_path.clone()),
            &mut slot.dir.lock,
        ) {
            Some(l) => l,
            None => {
                proof {
                    assert(false);
                }
                return Err(Error::NotFound);
            },
        };
        let ghost slot_v = slot@;
        dirs.dry_dock.insert(i, slot);
        proof {
            assert(slots_view(dirs.dry_dock@) =~= zv.update(i as int, slot_v));
            lemma_lookup_update(zv, id@, slot_v.dir, id@);
            assert(slots_view(dirs.dry_dock@) =~= with_lock_set(old(dirs)@, true, id@).dry_dock);
            assert(dirs@ == with_lock_set(old(dirs)@, true, id@));
            assert(distinct_keys(slots_view(dirs.dry_dock@))) by {
                assert(forall|m: int|
                    0 <= m < zv.len() ==> slots_view(dirs.dry_dock@)[m].name == zv[m].name);
            }
        }
        let boot = if initialized {
            BootMode::ArchiveExtracted
        } else if config.name.is_some() {
            BootMode::Keyfile
        } else {
            BootMode::Comet
        };
        let name = match &config.name {
            Some(n) => Some(n.clone()),
            None => None,
        };
        let result = PierState {
            id: id.to_owned(),
            name,
            config,
            meta_path,
            dry_docked: true,
            initialized,
            boot,
            lock,
        };
        proof {
            reveal_strlit("/dry_dock");
            reveal_strlit("/");
            reveal_strlit("/dry_dock/");
            assert(result@.meta_path =~= harbor@ + "/dry_dock/"@ + id@);
        }
        Ok(result)
    }
}

/// Why promoting a pier out of the staging zone fails, if it does: the
/// pier must be staged and initialized (and a consumed handle is never
/// running), the new name must be fit for a pier, and the live zone must
/// not already hold that name.
pub open spec fn promote_err(pv: PierStateV, dirs: HarborDirsV, new_name: Seq<char>) -> Option<
    Error,
> {
    if !(pv.dry_docked && pv.initialized) {
        Some(Error::IllegalStateTransition)
    } else if !crate::text::valid_name(new_name) {
        Some(Error::ConfigCorrupt)
    } else if has_key(dirs.port, new_name) {
        Some(Error::AlreadyLocked)
    } else {
        None
    }
}

/// The image after promotion: the staging directory, contents and held
/// lock included, now resides in the live zone under the new name.
pub open spec fn promoted_dirs(dirs: HarborDirsV, id: Seq<char>, new_name: Seq<char>) -> HarborDirsV {
    let z = dirs.dry_dock;
    let d = lookup(z, id)->Some_0;
    HarborDirsV {
        dry_dock: z.remove(key_index(z, id)),
        port: dirs.port.push(SlotV { name: new_name, dir: d }),
    }
}

/// The image after a slot's configuration text is persisted and its lock
/// released.
pub open spec fn finalized_dirs(
    dirs: HarborDirsV,
    dry_docked: bool,
    key: Seq<char>,
    text: Seq<char>,
) -> HarborDirsV {
    let z = zone_of(dirs, dry_docked);
    let d = lookup(z, key)->Some_0;
    let z2 = z.update(
        key_index(z, key),
        SlotV {
            name: key,
            dir: PierDirV {
                config_text: Some(text),
                lock: false,
                keyfile: d.keyfile,
                pier_data: d.pier_data,
            },
        },
    );
    if dry_docked {
        HarborDirsV { dry_dock: z2, port: dirs.port }
    } else {
        HarborDirsV { dry_dock: dirs.dry_dock, port: z2 }
    }
}

impl PierState {
    /// Promote the pier from the staging zone into the live zone under
    /// `new_name`: the whole directory moves, lock still held, and the
    /// handle's bookkeeping follows. Requires an initialized, stopped
    /// pier; when the preconditions are unmet it fails with an
    /// illegal-state error and performs no mutation at all.
    pub fn release_from_dry_dock(
        &mut self,
        harbor: &Harbor,
        dirs: &mut HarborDirs,
        new_name: String,
    ) -> (r: Result<(), Error>)
        requires
            old(self).wf(),
            old(dirs)@.wf(),
            attached(old(self)@, old(dirs)@),
        ensures
            final(self).wf(),
            final(dirs)@.wf(),
            match promote_err(old(self)@, old(dirs)@, new_name@) {
                Some(e) => r == Err::<(), Error>(e) && final(self)@ == old(self)@ && final(dirs)@
                    == old(dirs)@,
                None => {
                    &&& r is Ok
                    &&& final(dirs)@ == promoted_dirs(old(dirs)@, old(self)@.id, new_name@)
                    &&& final(self)@ == (PierStateV {
                        name: Some(new_name@),
                        config: ConfigV {
                            runtime_version: old(self)@.config.runtime_version,
                            id: old(self)@.config.id,
                            name: Some(new_name@),
                        },
                        meta_path: harbor@ + "/port/"@ + new_name@,
                        dry_docked: false,
                        ..old(self)@
                    })
                    &&& attached(final(self)@, final(dirs)@)
                },
            },
    {
        if !(self.dry_docked && self.initialized) {
            return Err(Error::IllegalStateTransition);
        }
        if !crate::text::check_name(new_name.as_str()) {
            return Err(Error::ConfigCorrupt);
        }
        if find_slot(&dirs.port, new_name.as_str()).is_some() {
            return Err(Error::AlreadyLocked);
        }
        let ghost old_dry = slots_view(dirs.dry_dock@);
        let ghost old_port = slots_view(dirs.port@);
        let i = match find_slot(&dirs.dry_dock, self.id.as_str()) {
            Some(i) => i,
            None => {
                proof {
                    assert(false);
                }
                return Err(Error::NotFound);
            },
        };
        let slot = dirs.dry_dock.remove(i);
        let ghost dir_v = slot.dir@;
        let moved = PierSlot { name: new_name.clone(), dir: slot.dir };
        let ghost moved_v = moved@;
        dirs.port.push(moved);
        let mut meta_path = harbor.port_path();
        meta_path.append("/");
        meta_path.append(new_name.as_str());
        self.lock.rebind(Self::lockfile_path_given_meta(meta_path.clone()));
        self.meta_path = meta_path;
        self.name = Some(new_name.clone());
        self.config.name = Some(new_name);
        self.dry_docked = false;
        proof {
            assert(slots_view(dirs.dry_dock@) =~= old_dry.remove(i as int));
            assert(slots_view(dirs.port@) =~= old_port.push(moved_v));
            assert(dirs@ == promoted_dirs(old(dirs)@, old(self)@.id, self@.name->Some_0));
            crate::harbor::lemma_distinct_remove(old_dry, i as int);
            crate::harbor::lemma_distinct_push(old_port, moved_v);
            lemma_lookup_push(old_port, moved_v, moved_v.name);
            reveal_strlit("/port");
            reveal_strlit("/");
            reveal_strlit("/port/");
            assert(self@.meta_path =~= harbor@ + "/port/"@ + self@.name->Some_0);
        }
        Ok(())
    }

    /// Persist the configuration and release the lock: the explicit end of
    /// a handle's life, and the only intended way to let one go. (A
    /// destructor-time fallback is a rim-side safety net, never the
    /// primary path.) The directory itself stays, ready to be reloaded.
    pub fn finalize(self, dirs: &mut HarborDirs)
        requires
            self.wf(),
            old(dirs)@.wf(),
            attached(self@, old(dirs)@),
        ensures
            final(dirs)@.wf(),
            final(dirs)@ == finalized_dirs(
                old(dirs)@,
                self@.dry_docked,
                self@.key(),
                config_chars(self@.config),
            ),
    {
        let text = self.config.encode();
        let ghost key = self@.key();
        if self.dry_docked {
            let ghost zv = slots_view(dirs.dry_dock@);
            let i = match find_slot(&dirs.dry_dock, self.id.as_str()) {
                Some(i) => i,
                None => {
                    proof {
                        assert(false);
                    }
                    return ;
                },
            };
            crate::harbor::stamp_slot(&mut dirs.dry_dock, i, text, self.lock);
            proof {
                lemma_key_index_props(zv, key);
                assert(dirs@ == finalized_dirs(old(dirs)@, true, key, config_chars(self@.config)));
                assert(distinct_keys(slots_view(dirs.dry_dock@))) by {
                    assert(forall|m: int|
                        0 <= m < zv.len() ==> slots_view(dirs.dry_dock@)[m].name == zv[m].name);
                }
            }
        } else {
            let ghost zv = slots_view(dirs.port@);
            let name = match &self.name {
                Some(n) => n.as_str(),
                None => {
                    proof {
                        assert(false);
                    }
                    return ;
                },
            };
            let i = match find_slot(&dirs.port, name) {
                Some(i) => i,
                None => {
                    proof {
                        assert(false);
                    }
                    return ;
                },
            };
            crate::harbor::stamp_slot(&mut dirs.port, i, text, self.lock);
            proof {
                lemma_key_index_props(zv, key);
                assert(dirs@ == finalized_dirs(old(dirs)@, false, key, config_chars(self@.config)));
                assert(distinct_keys(slots_view(dirs.port@))) by {
                    assert(forall|m: int|
                        0 <= m < zv.len() ==> slots_view(dirs.port@)[m].name == zv[m].name);
                }
            }
        }
    }
}

/// The first whitespace-delimited token of a line, read as a port number.
pub open spec fn token_port(line: Seq<char>) -> Option<u16> {
    let a = scan(line, 0, CharClass::NonSpace);
    let b = scan(line, a, CharClass::Space);
    parsed_u16(line, a, b)
}

/// The loopback control port a ports descriptor names: on the first line
/// that ends in the loopback marker, the first whitespace-delimited token,
/// as a port number. Lines after the first marked one are never consulted.
pub open spec fn lens_port_spec(s: Seq<char>, i: int) -> Option<u16>
    decreases s.len() - i when 0 <= i <= s.len() via lens_port_spec_decreases
{
    if i >= s.len() {
        None
    } else {
        let e = scan(s, i, CharClass::Newline);
        let line = s.subrange(i, e);
        if ends_with(line, "loopback"@) {
            token_port(line)
        } else if e >= s.len() {
            None
        } else {
            lens_port_spec(s, e + 1)
        }
    }
}

#[via_fn]
proof fn lens_port_spec_decreases(s: Seq<char>, i: int) {
    lemma_scan_props(s, i, CharClass::Newline);
}

/// Read the loopback control port out of the text descriptor the external
/// process writes inside the pier's data directory. A missing or
/// unparsable descriptor is a fatal protocol violation.
pub fn parse_lens_port(s: &str) -> (r: Result<u16, Error>)
    ensures
        match lens_port_spec(s@, 0) {
            Some(p) => r == Ok::<u16, Error>(p),
            None => r == Err::<u16, Error>(Error::ProtocolViolation),
        },
{
    proof {
        reveal_strlit("loopback");
    }
    let n = s.unicode_len();
    let mut i: usize = 0;
    while i < n
        invariant
            0 <= i <= n,
            n == s@.len(),
            "loopback"@.len() == 8,
            lens_port_spec(s@, 0) == lens_port_spec(s@, i as int),
        decreases n - i,
    {
        let e = scan_to(s, i, CharClass::Newline);
        proof {
            lemma_scan_props(s@, i as int, CharClass::Newline);
        }
        let ghost line_v = s@.subrange(i as int, e as int);
        if e - i >= 8 && match_lit(s, e - 8, "loopback") {
            proof {
                assert(line_v.subrange(line_v.len() - 8, line_v.len() as int) =~= s@.subrange(
                    e - 8,
                    e as int,
                ));
                assert(s@.subrange(e - 8, e - 8 + 8) =~= s@.subrange(e - 8, e as int));
                assert(ends_with(line_v, "loopback"@));
            }
            let line = s.substring_char(i, e);
            let a = scan_to(line, 0, CharClass::NonSpace);
            proof {
                lemma_scan_props(line@, 0, CharClass::NonSpace);
            }
            let b = scan_to(line, a, CharClass::Space);
            proof {
                lemma_scan_props(line@, a as int, CharClass::Space);
            }
            return match parse_u16(line, a, b) {
                Some(p) => Ok(p),
                None => Err(Error::ProtocolViolation),
            };
        }
        proof {
            if ends_with(line_v, "loopback"@) {
                assert(line_v.len() >= 8);
                assert(s@.subrange(e - 8, e - 8 + 8) =~= line_v.subrange(
                    line_v.len() - 8,
                    line_v.len() as int,
                ));
                assert(match_at(s@, e - 8, "loopback"@));
            }
        }
        if e == n {
            return Err(Error::ProtocolViolation);
        }
        i = e + 1;
    }
    Err(Error::ProtocolViolation)
}

/// The image after a launch: the external process has materialized the
/// pier's own data directory.
pub open spec fn data_materialized(dirs: HarborDirsV, dry_docked: bool, key: Seq<char>) -> HarborDirsV {
    let z = zone_of(dirs, dry_docked);
    let d = lookup(z, key)->Some_0;
    let z2 = z.update(
        key_index(z, key),
        SlotV {
            name: key,
            dir: PierDirV {
                config_text: d.config_text,
                lock: d.lock,
                keyfile: d.keyfile,
                pier_data: true,
            },
        },
    );
    if dry_docked {
        HarborDirsV { dry_dock: z2, port: dirs.port }
    } else {
        HarborDirsV { dry_dock: dirs.dry_dock, port: z2 }
    }
}

/// The mathematical content of a launched ship.
pub ghost struct ShipV {
    pub pier: PierStateV,
    pub http_port: u16,
    pub ames_port: u16,
    pub lens_port: u16,
}

/// A launched pier: the pier handle, no longer independently reachable
/// while the ship runs, with its two allocated ports and the discovered
/// loopback control port. The process handle itself lives with the
/// unverified rim that spawned the process.
#[derive(Debug)]
pub struct Ship {
    pier: PierState,
    http_port: u16,
    ames_port: u16,
    lens_port: u16,
}

impl View for Ship {
    type V = ShipV;

    closed spec fn view(&self) -> ShipV {
        ShipV {
            pier: self.pier@,
            http_port: self.http_port,
            ames_port: self.ames_port,
            lens_port: self.lens_port,
        }
    }
}

impl Ship {
    /// The ship's pier handle is consistent.
    pub closed spec fn wf(&self) -> bool {
        self.pier.wf()
    }

    /// The primary service port the ship was launched with.
    pub fn http_port(&self) -> (r: u16)
        ensures
            r == self@.http_port,
    {
        self.http_port
    }

    /// The peer-networking port the ship was launched with.
    pub fn ames_port(&self) -> (r: u16)
        ensures
            r == self@.ames_port,
    {
        self.ames_port
    }

    /// The discovered loopback control port.
    pub fn lens_port(&self) -> (r: u16)
        ensures
            r == self@.lens_port,
    {
        self.lens_port
    }

    /// Return the pier handle after the external process has been
    /// terminated: the pier is stopped again and may be reloaded, promoted
    /// or relaunched.
    pub fn shutdown(self) -> (r: PierState)
        requires
            self.wf(),
        ensures
            r.wf(),
            r@ == self@.pier,
    {
        self.pier
    }
}

impl PierState {
    /// Consume the pier into a running ship. The caller has allocated the
    /// two ports, started the external process in
    /// [`start_mode`](Self::start_mode), and read back the ports
    /// descriptor the booted process wrote; this call discovers the
    /// control port from that descriptor and records that the pier's data
    /// directory now exists. After a successful launch no outstanding
    /// handle aliases the directory: the exclusivity lives inside the
    /// returned [`Ship`].
    ///
    /// A missing or unparsable descriptor is a protocol violation; the
    /// untouched handle is given back alongside the error.
    pub fn launch(self, dirs: &mut HarborDirs, http_port: u16, ames_port: u16, portsdesc: &str) -> (r:
        Result<Ship, (PierState, Error)>)
        requires
            self.wf(),
            old(dirs)@.wf(),
            attached(self@, old(dirs)@),
        ensures
            final(dirs)@.wf(),
            match lens_port_spec(portsdesc@, 0) {
                None => {
                    &&& r matches Err(t)
                    &&& t.0@ == self@
                    &&& t.0.wf()
                    &&& t.1 == Error::ProtocolViolation
                    &&& final(dirs)@ == old(dirs)@
                },
                Some(lp) => {
                    &&& r matches Ok(ship)
                    &&& ship.wf()
                    &&& ship@.pier == (PierStateV { initialized: true, ..self@ })
                    &&& ship@.http_port == http_port
                    &&& ship@.ames_port == ames_port
                    &&& ship@.lens_port == lp
                    &&& final(dirs)@ == data_materialized(old(dirs)@, self@.dry_docked, self@.key())
                    &&& attached(ship@.pier, final(dirs)@)
                },
            },
    {
        let mut pier = self;
        let lens_port = match parse_lens_port(portsdesc) {
            Ok(p) => p,
            Err(e) => {
                return Err((pier, e));
            },
        };
        let ghost key = pier@.key();
        if pier.dry_docked {
            let ghost zv = slots_view(dirs.dry_dock@);
            let i = match find_slot(&dirs.dry_dock, pier.id.as_str()) {
                Some(i) => i,
                None => {
                    proof {
                        assert(false);
                    }
                    return Err((pier, Error::NotFound));
                },
            };
            let mut slot = dirs.dry_dock.remove(i);
            slot.dir.pier_data = true;
            let ghost slot_v = slot@;
            dirs.dry_dock.insert(i, slot);
            proof {
                assert(slots_view(dirs.dry_dock@) =~= zv.update(i as int, slot_v));
                lemma_key_index_props(zv, key);
                assert(dirs@ == data_materialized(old(dirs)@, true, key));
                lemma_lookup_update(zv, key, slot_v.dir, key);
                assert(distinct_keys(slots_view(dirs.dry_dock@))) by {
                    assert(forall|m: int|
                        0 <= m < zv.len() ==> slots_view(dirs.dry_dock@)[m].name == zv[m].name);
                }
            }
        } else {
            let ghost zv = slots_view(dirs.port@);
            let name = match &pier.name {
                Some(n) => n.as_str(),
                None => {
                    proof {
                        assert(false);
                    }
                    return Err((pier, Error::NotFound));
                },
            };
            let i = match find_slot(&dirs.port, name) {
                Some(i) => i,
                None => {
                    proof {
                        assert(false);
                    }
                    return Err((pier, Error::NotFound));
                },
            };
            let mut slot = dirs.port.remove(i);
            slot.dir.pier_data = true;
            let ghost slot_v = slot@;
            dirs.port.insert(i, slot);
            proof {
                assert(slots_view(dirs.port@) =~= zv.update(i as int, slot_v));
                lemma_key_index_props(zv, key);
                assert(dirs@ == data_materialized(old(dirs)@, false, key));
                lemma_lookup_update(zv, key, slot_v.dir, key);
                assert(distinct_keys(slots_view(dirs.port@))) by {
                    assert(forall|m: int|
                        0 <= m < zv.len() ==> slots_view(dirs.port@)[m].name == zv[m].name);
                }
            }
        }
        pier.initialized = true;
        Ok(Ship { pier, http_port, ames_port, lens_port })
    }
}

/// Whether an extracted entry marks a ship-data subtree: a directory whose
/// last path segment is the data marker directory.
pub open spec fn pier_marker(e: crate::archive::EntryV) -> bool {
    e.kind is Directory && (e.path == ".urb"@ || crate::text::ends_with(e.path, "/.urb"@))
}

/// The root of the ship-data subtree a marker entry sits in: the marker's
/// parent, or the unpack root itself when the marker is at top level.
pub open spec fn pier_root_of(p: Seq<char>) -> Seq<char> {
    if p == ".urb"@ {
        Seq::empty()
    } else {
        p.subrange(0, p.len() - 5)
    }
}

/// The root of the first recognizable ship-data subtree in an extracted
/// listing, if any: the empty path names the unpack root itself.
pub open spec fn find_pier_spec(es: Seq<crate::archive::EntryV>, i: int) -> Option<Seq<char>>
    decreases es.len() - i when 0 <= i <= es.len()
{
    if i >= es.len() {
        None
    } else if pier_marker(es[i]) {
        Some(pier_root_of(es[i].path))
    } else {
        find_pier_spec(es, i + 1)
    }
}

/// Locate the single recognizable ship-data subtree in an extracted
/// listing, returning its root relative to the unpack directory.
pub fn find_extracted_pier(unpacked: &Vec<crate::archive::ArchiveEntry>) -> (r: Option<String>)
    ensures
        match find_pier_spec(crate::archive::entries_view(unpacked@), 0) {
            Some(root) => r matches Some(s) && s@ == root,
            None => r is None,
        },
{
    proof {
        reveal_strlit(".urb");
        reveal_strlit("/.urb");
    }
    let ghost es = crate::archive::entries_view(unpacked@);
    let n = unpacked.len();
    let mut i: usize = 0;
    while i < n
        invariant
            0 <= i <= n,
            n == unpacked@.len(),
            es == crate::archive::entries_view(unpacked@),
            find_pier_spec(es, 0) == find_pier_spec(es, i as int),
            ".urb"@.len() == 4,
            "/.urb"@.len() == 5,
        decreases n - i,
    {
        let e = &unpacked[i];
        let is_dir = match &e.kind {
            crate::archive::EntryKind::Directory => true,
            _ => false,
        };
        if is_dir {
            let p = e.path.as_str();
            let pn = p.unicode_len();
            if crate::text::str_eq(p, ".urb") {
                return Some(String::new());
            }
            if pn >= 5 && crate::text::match_lit(p, pn - 5, "/.urb") {
                assert(crate::text::ends_with(es[i as int].path, "/.urb"@));
                return Some(p.substring_char(0, pn - 5).to_owned());
            }
            assert(!pier_marker(es[i as int]));
        }
        i = i + 1;
    }
    None
}

/// A hexadecimal digit character, lowercase.
pub open spec fn hex_digit_char(n: u8) -> char {
    if n < 10 {
        (48 + n) as char
    } else {
        (87 + n) as char
    }
}

/// How one character is written inside a JSON string: quote, backslash
/// and the common control characters get their short escapes, any other
/// control character a `\u00..` escape, everything else stands as itself.
pub open spec fn escape_char(c: char) -> Seq<char> {
    if c == '"' {
        seq!['\\', '"']
    } else if c == '\\' {
        seq!['\\', '\\']
    } else if c == '\n' {
        seq!['\\', 'n']
    } else if c == '\t' {
        seq!['\\', 't']
    } else if c == '\r' {
        seq!['\\', 'r']
    } else if (c as u32) < 32 {
        seq!['\\', 'u', '0', '0', hex_digit_char((c as u8) / 16), hex_digit_char((c as u8) % 16)]
    } else {
        seq![c]
    }
}

/// A whole string written inside a JSON string.
pub open spec fn escaped(s: Seq<char>) -> Seq<char>
    decreases s.len(),
{
    if s.len() == 0 {
        Seq::empty()
    } else {
        escaped(s.drop_last()) + escape_char(s.last())
    }
}

/// A lowercase hexadecimal digit.
fn hex_char(n: u8) -> (r: char)
    requires
        n < 16,
    ensures
        r == hex_digit_char(n),
{
    if n < 10 {
        (48 + n) as char
    } else {
        (87 + n) as char
    }
}

/// Append `s`, escaped for a JSON string, to `out`.
fn push_escaped(out: &mut String, s: &str)
    ensures
        final(out)@ == old(out)@ + escaped(s@),
{
    let n = s.unicode_len();
    let mut i: usize = 0;
    proof {
        assert(s@.subrange(0, 0) =~= Seq::<char>::empty());
        assert(out@ =~= out@ + escaped(s@.subrange(0, 0)));
    }
    while i < n
        invariant
            0 <= i <= n,
            n == s@.len(),
            out@ == old(out)@ + escaped(s@.subrange(0, i as int)),
        decreases n - i,
    {
        let c = s.get_char(i);
        if c == '"' {
            push_char(out, '\\');
            push_char(out, '"');
        } else if c == '\\' {
            push_char(out, '\\');
            push_char(out, '\\');
        } else if c == '\n' {
            push_char(out, '\\');
            push_char(out, 'n');
        } else if c == '\t' {
            push_char(out, '\\');
            push_char(out, 't');
        } else if c == '\r' {
            push_char(out, '\\');
            push_char(out, 'r');
        } else {
            let u = c as u32;
            if u < 32 {
                push_char(out, '\\');
                push_char(out, 'u');
                push_char(out, '0');
                push_char(out, '0');
                let b = c as u8;
                push_char(out, hex_char(b / 16));
                push_char(out, hex_char(b % 16));
            } else {
                push_char(out, c);
            }
        }
        proof {
            assert(s@.subrange(0, i + 1).drop_last() =~= s@.subrange(0, i as int));
            assert(s@.subrange(0, i + 1).last() == s@[i as int]);
            assert(out@ =~= old(out)@ + escaped(s@.subrange(0, i + 1)));
        }
        i = i + 1;
    }
    proof {
        assert(s@.subrange(0, n as int) =~= s@);
    }
}

/// Frame a console expression as the control-channel request body: JSON
/// with the expression as the dojo source and standard output as the sink.
pub fn dojo_request_body(expr: &str) -> (r: String)
    ensures
        r@ == "{\"source\":{\"dojo\":\""@ + escaped(expr@) + "\"},\"sink\":{\"stdout\":null}}"@,
{
    let mut r = String::from_str("{\"source\":{\"dojo\":\"");
    push_escaped(&mut r, expr);
    r.append("\"},\"sink\":{\"stdout\":null}}");
    proof {
        assert(r@ =~= "{\"source\":{\"dojo\":\""@ + escaped(expr@)
            + "\"},\"sink\":{\"stdout\":null}}"@);
    }
    r
}

/// The character a short JSON escape stands for, if it is one.
pub open spec fn escape_code(d: char) -> Option<char> {
    if d == '"' {
        Some('"')
    } else if d == '\\' {
        Some('\\')
    } else if d == '/' {
        Some('/')
    } else if d == 'n' {
        Some('\n')
    } else if d == 't' {
        Some('\t')
    } else if d == 'r' {
        Some('\r')
    } else if d == 'b' {
        Some('\u{8}')
    } else if d == 'f' {
        Some('\u{c}')
    } else {
        None
    }
}

/// Whether a character is a hexadecimal digit, either case.
pub open spec fn is_hex_ci(c: char) -> bool {
    let u = c as u32;
    (48 <= u && u <= 57) || (97 <= u && u <= 102) || (65 <= u && u <= 70)
}

/// The numeric value of a hexadecimal digit character, either case.
pub open spec fn hex_val(c: char) -> int {
    let u = c as u32;
    if 48 <= u && u <= 57 {
        u - 48
    } else if 97 <= u && u <= 102 {
        u - 87
    } else {
        u - 55
    }
}

/// The numeric value of a hexadecimal digit, either case.
fn hex_digit_val(c: char) -> (r: Option<u8>)
    ensures
        r == (if is_hex_ci(c) {
            Some(hex_val(c) as u8)
        } else {
            None::<u8>
        }),
        r matches Some(v) ==> v < 16,
{
    let u = c as u32;
    if 48 <= u && u <= 57 {
        Some((u - 48) as u8)
    } else if 97 <= u && u <= 102 {
        Some((u - 87) as u8)
    } else if 65 <= u && u <= 70 {
        Some((u - 55) as u8)
    } else {
        None
    }
}

/// The decoded remainder of a JSON string body, up to a closing quote that
/// must end the input: plain characters, the short escapes, and `\u00XX`
/// escapes — the escaped range the channel's own framing uses. A `\u`
/// escape above `U+00FF` is outside that shape.
pub open spec fn resp_body(s: Seq<char>, i: int) -> Option<Seq<char>>
    decreases s.len() - i when 0 <= i <= s.len()
{
    if i >= s.len() {
        None
    } else if s[i] == '"' {
        if i + 1 == s.len() {
            Some(Seq::empty())
        } else {
            None
        }
    } else if s[i] == '\\' {
        if i + 1 < s.len() {
            if s[i + 1] == 'u' {
                if i + 5 < s.len() && s[i + 2] == '0' && s[i + 3] == '0' && is_hex_ci(s[i + 4])
                    && is_hex_ci(s[i + 5]) {
                    match resp_body(s, i + 6) {
                        Some(rest) => Some(
                            seq![(((hex_val(s[i + 4]) * 16 + hex_val(s[i + 5])) as u8) as char)]
                                + rest,
                        ),
                        None => None,
                    }
                } else {
                    None
                }
            } else {
                match escape_code(s[i + 1]) {
                    Some(ch) => match resp_body(s, i + 2) {
                        Some(rest) => Some(seq![ch] + rest),
                        None => None,
                    },
                    None => None,
                }
            }
        } else {
            None
        }
    } else if (s[i] as u32) >= 32 {
        match resp_body(s, i + 1) {
            Some(rest) => Some(seq![s[i]] + rest),
            None => None,
        }
    } else {
        None
    }
}

/// The string a control-channel response spells, if it is shaped as a
/// single JSON string.
pub open spec fn dojo_resp_spec(s: Seq<char>) -> Option<Seq<char>> {
    if s.len() >= 1 && s[0] == '"' {
        resp_body(s, 1)
    } else {
        None
    }
}

/// Decode a control-channel response. Anything not shaped as a single
/// JSON string is a protocol violation. The accepted escapes are the short
/// ones and the `\u00XX` range the channel's own framing emits; a `\u`
/// escape above `U+00FF` is reported as a violation too.
pub fn dojo_parse_response(s: &str) -> (r: Result<String, Error>)
    ensures
        match dojo_resp_spec(s@) {
            Some(b) => r matches Ok(t) && t@ == b,
            None => r == Err::<String, Error>(Error::ProtocolViolation),
        },
{
    let n = s.unicode_len();
    if n == 0 || s.get_char(0) != '"' {
        return Err(Error::ProtocolViolation);
    }
    let mut out = String::new();
    let mut i: usize = 1;
    while i < n
        invariant
            1 <= i <= n,
            n == s@.len(),
            dojo_resp_spec(s@) == (match resp_body(s@, i as int) {
                Some(rest) => Some(out@ + rest),
                None => None::<Seq<char>>,
            }),
        decreases n - i,
    {
        let c = s.get_char(i);
        if c == '"' {
            if i + 1 == n {
                proof {
                    assert(out@ + Seq::<char>::empty() =~= out@);
                }
                return Ok(out);
            }
            return Err(Error::ProtocolViolation);
        }
        if c == '\\' {
            if i + 1 == n {
                return Err(Error::ProtocolViolation);
            }
            let d = s.get_char(i + 1);
            if d == 'u' {
                if n - i < 6 {
                    return Err(Error::ProtocolViolation);
                }
                if s.get_char(i + 2) != '0' || s.get_char(i + 3) != '0' {
                    return Err(Error::ProtocolViolation);
                }
                let hi = match hex_digit_val(s.get_char(i + 4)) {
                    Some(v) => v,
                    None => {
                        return Err(Error::ProtocolViolation);
                    },
                };
                let lo = match hex_digit_val(s.get_char(i + 5)) {
                    Some(v) => v,
                    None => {
                        return Err(Error::ProtocolViolation);
                    },
                };
                let b: u8 = hi * 16 + lo;
                let ghost before = out@;
                push_char(&mut out, b as char);
                proof {
                    if let Some(rest) = resp_body(s@, i + 6) {
                        assert(before + (seq![(b as char)] + rest) =~= out@ + rest);
                    }
                }
                i = i + 6;
                continue ;
            }
            let ch = if d == '"' {
                '"'
            } else if d == '\\' {
                '\\'
            } else if d == '/' {
                '/'
            } else if d == 'n' {
                '\n'
            } else if d == 't' {
                '\t'
            } else if d == 'r' {
                '\r'
            } else if d == 'b' {
                '\u{8}'
            } else if d == 'f' {
                '\u{c}'
            } else {
                return Err(Error::ProtocolViolation);
            };
            let ghost before = out@;
            push_char(&mut out, ch);
            proof {
                if let Some(rest) = resp_body(s@, i + 2) {
                    assert(before + (seq![ch] + rest) =~= out@ + rest);
                }
            }
            i = i + 2;
        } else {
            let u = c as u32;
            if u < 32 {
                return Err(Error::ProtocolViolation);
            }
            let ghost before = out@;
            push_char(&mut out, c);
            proof {
                if let Some(rest) = resp_body(s@, i + 1) {
                    assert(before + (seq![c] + rest) =~= out@ + rest);
                }
            }
            i = i + 1;
        }
    }
    Err(Error::ProtocolViolation)
}

/// The bridge from a handle's opaque invariant to its open view-level
/// content: a well-formed handle's mathematical content is well-formed.
pub proof fn lemma_pier_wf_view(p: &PierState)
    requires
        p.wf(),
    ensures
        p@.wf(),
{
}

/// The same bridge for a ship: its pier's mathematical content is
/// well-formed.
pub proof fn lemma_ship_wf_view(ship: &Ship)
    requires
        ship.wf(),
    ensures
        ship@.pier.wf(),
{
}

/// Exactly one of two reattachment attempts on a live-zone pier succeeds:
/// once the first has taken the lock, the second fails with
/// `AlreadyLocked`.
pub proof fn lemma_try_load_exclusive(dirs: HarborDirsV, name: Seq<char>)
    requires
        dirs.wf(),
        port_load_err(dirs, name) is None,
    ensures
        port_load_err(with_lock_set(dirs, false, name), name) == Some(Error::AlreadyLocked),
{
    let d = lookup(dirs.port, name)->Some_0;
    let d2 = PierDirV {
        config_text: d.config_text,
        lock: true,
        keyfile: d.keyfile,
        pier_data: d.pier_data,
    };
    lemma_lookup_update(dirs.port, name, d2, name);
}

/// Exactly one of two reattachment attempts on a staging-zone pier
/// succeeds: once the first has taken the lock, the second fails with
/// `AlreadyLocked`.
pub proof fn lemma_try_load_dry_exclusive(dirs: HarborDirsV, id: Seq<char>)
    requires
        dirs.wf(),
        dry_load_err(dirs, id) is None,
    ensures
        dry_load_err(with_lock_set(dirs, true, id), id) == Some(Error::AlreadyLocked),
{
    let d = lookup(dirs.dry_dock, id)->Some_0;
    let d2 = PierDirV {
        config_text: d.config_text,
        lock: true,
        keyfile: d.keyfile,
        pier_data: d.pier_data,
    };
    lemma_lookup_update(dirs.dry_dock, id, d2, id);
}

/// Round trip through the staging zone: the configuration persisted by
/// `finalize` for a staged pier, reloaded by a staging-zone load of its
/// identifier, yields the identical identifier, name and runtime version.
pub proof fn lemma_finalize_then_load_dry(dirs: HarborDirsV, p: PierStateV)
    requires
        dirs.wf(),
        p.wf(),
        p.dry_docked,
        attached(p, dirs),
    ensures
        ({
            let d2 = finalized_dirs(dirs, true, p.key(), config_chars(p.config));
            dry_load_err(d2, p.id) is None && dry_load_config(d2, p.id) == p.config
        }),
{
    let text = config_chars(p.config);
    let old_d = lookup(dirs.dry_dock, p.id)->Some_0;
    let nd = PierDirV {
        config_text: Some(text),
        lock: false,
        keyfile: old_d.keyfile,
        pier_data: old_d.pier_data,
    };
    lemma_lookup_update(dirs.dry_dock, p.id, nd, p.id);
    crate::config::lemma_config_roundtrip(p.config);
}

/// Round trip through the live zone: the configuration persisted by
/// `finalize` for a live pier, reloaded by a live-zone load of its name,
/// yields the identical identifier, name and runtime version. The pier's
/// data directory must exist, as it always does for a live pier.
pub proof fn lemma_finalize_then_load_port(dirs: HarborDirsV, p: PierStateV)
    requires
        dirs.wf(),
        p.wf(),
        !p.dry_docked,
        attached(p, dirs),
        (lookup(dirs.port, p.key())->Some_0).pier_data,
    ensures
        ({
            let d2 = finalized_dirs(dirs, false, p.key(), config_chars(p.config));
            port_load_err(d2, p.name->Some_0) is None && port_load_config(d2, p.name->Some_0)
                == p.config
        }),
{
    let text = config_chars(p.config);
    let old_d = lookup(dirs.port, p.key())->Some_0;
    let nd = PierDirV {
        config_text: Some(text),
        lock: false,
        keyfile: old_d.keyfile,
        pier_data: old_d.pier_data,
    };
    lemma_lookup_update(dirs.port, p.key(), nd, p.key());
    crate::config::lemma_config_roundtrip(p.config);
}

} // verus!
