//! The harbor: a validated root directory with two zones, and an in-memory
//! image of their contents.
//!
//! [`Harbor`] is purely a path utility over the configured root; checking
//! that the root and its two zone subdirectories exist is I/O and is done
//! by the caller before construction. [`HarborDirs`] is the image of the
//! two zones' on-disk contents that the pier state machine operates on: one
//! [`PierDir`] per pier directory, keyed by directory name — the identifier
//! in the staging zone, the canonical name in the live zone.

use vstd::prelude::*;

use crate::filelock::LockMarker;
use crate::text::str_eq;

verus! {

/// A validated harbor root. Read-only after construction; several
/// independent roots can coexist, e.g. in tests.
#[derive(Debug)]
pub struct Harbor {
    root: String,
}

impl View for Harbor {
    type V = Seq<char>;

    closed spec fn view(&self) -> Seq<char> {
        self.root@
    }
}

impl Harbor {
    /// Wrap a root path whose two zone subdirectories the caller has
    /// already checked to exist.
    pub fn new(root: String) -> (r: Harbor)
        ensures
            r@ == root@,
    {
        Harbor { root }
    }

    /// The root as a path.
    pub fn as_path(&self) -> (r: &str)
        ensures
            r@ == self@,
    {
        self.root.as_str()
    }

    /// The live zone: promoted, named piers.
    pub fn port_path(&self) -> (r: String)
        ensures
            r@ == self@ + "/port"@,
    {
        let mut r = self.root.clone();
        r.append("/port");
        r
    }

    /// The staging zone: piers not yet promoted.
    pub fn dry_dock_path(&self) -> (r: String)
        ensures
            r@ == self@ + "/dry_dock"@,
    {
        let mut r = self.root.clone();
        r.append("/dry_dock");
        r
    }
}

/// The image of one pier directory's contents (the layout every pier
/// directory follows on disk). Archive and unpack scratch entries exist
/// only transiently inside archive provisioning and are always removed
/// before it returns, so they never appear in an image.
#[derive(Debug)]
pub struct PierDir {
    /// The persisted configuration text, once written.
    pub config_text: Option<String>,
    /// The lock marker file.
    pub lock: LockMarker,
    /// The keyfile bytes, present only before the first boot of a
    /// keyfile-provisioned pier.
    pub keyfile: Option<Vec<u8>>,
    /// Whether the pier's own data directory exists.
    pub pier_data: bool,
}

/// The mathematical content of one pier directory.
pub ghost struct PierDirV {
    pub config_text: Option<Seq<char>>,
    pub lock: bool,
    pub keyfile: Option<Seq<u8>>,
    pub pier_data: bool,
}

impl View for PierDir {
    type V = PierDirV;

    open spec fn view(&self) -> PierDirV {
        PierDirV {
            config_text: match self.config_text {
                Some(t) => Some(t@),
                None => None,
            },
            lock: self.lock.present,
            keyfile: match self.keyfile {
                Some(k) => Some(k@),
                None => None,
            },
            pier_data: self.pier_data,
        }
    }
}

/// One zone entry: a directory name and the directory's contents.
#[derive(Debug)]
pub struct PierSlot {
    pub name: String,
    pub dir: PierDir,
}

/// The mathematical content of one zone entry.
pub ghost struct SlotV {
    pub name: Seq<char>,
    pub dir: PierDirV,
}

impl View for PierSlot {
    type V = SlotV;

    open spec fn view(&self) -> SlotV {
        SlotV { name: self.name@, dir: self.dir@ }
    }
}

/// The views of a zone's entries.
pub open spec fn slots_view(s: Seq<PierSlot>) -> Seq<SlotV> {
    s.map_values(|x: PierSlot| x@)
}

/// The directory contents under the first entry named `k`, if any.
pub open spec fn lookup(s: Seq<SlotV>, k: Seq<char>) -> Option<PierDirV>
    decreases s.len(),
{
    if s.len() == 0 {
        None
    } else if s[0].name == k {
        Some(s[0].dir)
    } else {
        lookup(s.drop_first(), k)
    }
}

/// Whether some entry is named `k`.
pub open spec fn has_key(s: Seq<SlotV>, k: Seq<char>) -> bool {
    lookup(s, k) is Some
}

/// The index of the first entry named `k` (meaningful only when one
/// exists).
pub open spec fn key_index(s: Seq<SlotV>, k: Seq<char>) -> int
    decreases s.len(),
{
    if s.len() == 0 {
        0
    } else if s[0].name == k {
        0
    } else {
        1 + key_index(s.drop_first(), k)
    }
}

/// No two entries of a zone share a name.
pub open spec fn distinct_keys(s: Seq<SlotV>) -> bool {
    forall|i: int, j: int| 0 <= i < j < s.len() ==> s[i].name != s[j].name
}

/// A first match at index `i` pins down `lookup` and `key_index`.
pub proof fn lemma_lookup_at(s: Seq<SlotV>, k: Seq<char>, i: int)
    requires
        0 <= i < s.len(),
        s[i].name == k,
        forall|m: int| 0 <= m < i ==> s[m].name != k,
    ensures
        lookup(s, k) == Some(s[i].dir),
        key_index(s, k) == i,
    decreases i,
{
    if i > 0 {
        lemma_lookup_at(s.drop_first(), k, i - 1);
    }
}

/// When an entry named `k` exists, `key_index` points at the first one.
pub proof fn lemma_key_index_props(s: Seq<SlotV>, k: Seq<char>)
    requires
        has_key(s, k),
    ensures
        0 <= key_index(s, k) < s.len(),
        s[key_index(s, k)].name == k,
        forall|m: int| 0 <= m < key_index(s, k) ==> s[m].name != k,
    decreases s.len(),
{
    if s.len() > 0 && s[0].name != k {
        lemma_key_index_props(s.drop_first(), k);
        assert forall|m: int| 0 <= m < key_index(s, k) implies s[m].name != k by {
            if m > 0 {
                assert(s.drop_first()[m - 1] == s[m]);
            }
        }
    }
}

/// A zone without an entry named `k` looks `k` up to nothing.
pub proof fn lemma_lookup_absent(s: Seq<SlotV>, k: Seq<char>)
    requires
        forall|m: int| 0 <= m < s.len() ==> s[m].name != k,
    ensures
        lookup(s, k) == None::<PierDirV>,
    decreases s.len(),
{
    if s.len() > 0 {
        lemma_lookup_absent(s.drop_first(), k);
    }
}

/// An unbound name names no entry at all.
pub proof fn lemma_absent_keys(s: Seq<SlotV>, k: Seq<char>)
    requires
        lookup(s, k) is None,
    ensures
        forall|m: int| 0 <= m < s.len() ==> s[m].name != k,
    decreases s.len(),
{
    if s.len() > 0 {
        lemma_absent_keys(s.drop_first(), k);
        assert forall|m: int| 0 <= m < s.len() implies s[m].name != k by {
            if m > 0 {
                assert(s.drop_first()[m - 1] == s[m]);
            }
        }
    }
}

/// Appending an entry with a fresh name adds exactly that binding and
/// changes no other.
pub proof fn lemma_lookup_push(s: Seq<SlotV>, slot: SlotV, k: Seq<char>)
    requires
        !has_key(s, slot.name),
    ensures
        lookup(s.push(slot), k) == (if k == slot.name {
            Some(slot.dir)
        } else {
            lookup(s, k)
        }),
    decreases s.len(),
{
    let s2 = s.push(slot);
    if s.len() == 0 {
        assert(s2.len() == 1 && s2[0] == slot);
        assert(s2.drop_first() =~= Seq::<SlotV>::empty());
        if slot.name == k {
            assert(lookup(s2, k) == Some(slot.dir));
        } else {
            assert(lookup(s2, k) == lookup(s2.drop_first(), k));
        }
    } else {
        assert(s2[0] == s[0]);
        assert(s2.drop_first() =~= s.drop_first().push(slot));
        lemma_lookup_push(s.drop_first(), slot, k);
        if s[0].name == k {
            assert(lookup(s2, k) == Some(s[0].dir));
            assert(lookup(s, k) == Some(s[0].dir));
        } else {
            assert(lookup(s2, k) == lookup(s.drop_first().push(slot), k));
            assert(lookup(s, k) == lookup(s.drop_first(), k));
        }
    }
}

/// Replacing the directory under the first entry named `k0` rebinds `k0`
/// and changes no other binding.
pub proof fn lemma_lookup_update(s: Seq<SlotV>, k0: Seq<char>, d: PierDirV, k: Seq<char>)
    requires
        has_key(s, k0),
    ensures
        lookup(s.update(key_index(s, k0), SlotV { name: k0, dir: d }), k) == (if k == k0 {
            Some(d)
        } else {
            lookup(s, k)
        }),
    decreases s.len(),
{
    lemma_key_index_props(s, k0);
    let i = key_index(s, k0);
    let s2 = s.update(i, SlotV { name: k0, dir: d });
    if s[0].name == k0 {
        assert(s2.drop_first() =~= s.drop_first());
    } else {
        lemma_lookup_update(s.drop_first(), k0, d, k);
        assert(s2.drop_first() =~= s.drop_first().update(i - 1, SlotV { name: k0, dir: d }));
    }
}

/// Removing the first entry named `k0` from a zone with distinct names
/// unbinds `k0` and changes no other binding.
pub proof fn lemma_lookup_remove(s: Seq<SlotV>, k0: Seq<char>, k: Seq<char>)
    requires
        has_key(s, k0),
        distinct_keys(s),
    ensures
        lookup(s.remove(key_index(s, k0)), k) == (if k == k0 {
            None::<PierDirV>
        } else {
            lookup(s, k)
        }),
    decreases s.len(),
{
    lemma_key_index_props(s, k0);
    let i = key_index(s, k0);
    let s2 = s.remove(i);
    if s[0].name == k0 {
        assert(s2 =~= s.drop_first());
        if k == k0 {
            assert(forall|m: int| 0 <= m < s2.len() ==> s2[m].name != k);
            lemma_lookup_absent(s2, k);
        }
    } else {
        lemma_lookup_remove(s.drop_first(), k0, k);
        assert(s2.drop_first() =~= s.drop_first().remove(i - 1));
        assert(s2[0] == s[0]);
    }
}

/// Removing an entry keeps the remaining names distinct.
pub proof fn lemma_distinct_remove(s: Seq<SlotV>, i: int)
    requires
        distinct_keys(s),
        0 <= i < s.len(),
    ensures
        distinct_keys(s.remove(i)),
{
    let s2 = s.remove(i);
    assert forall|a: int, b: int| 0 <= a < b < s2.len() implies s2[a].name != s2[b].name by {
        let a0 = if a < i {
            a
        } else {
            a + 1
        };
        let b0 = if b < i {
            b
        } else {
            b + 1
        };
        assert(s2[a] == s[a0] && s2[b] == s[b0]);
    }
}

/// Appending an entry under a fresh name keeps names distinct.
pub proof fn lemma_distinct_push(s: Seq<SlotV>, slot: SlotV)
    requires
        distinct_keys(s),
        !has_key(s, slot.name),
    ensures
        distinct_keys(s.push(slot)),
{
    lemma_absent_keys(s, slot.name);
    let s2 = s.push(slot);
    assert forall|a: int, b: int| 0 <= a < b < s2.len() implies s2[a].name != s2[b].name by {
        if b == s.len() {
            assert(s2[a] == s[a] && s2[b] == slot);
        } else {
            assert(s2[a] == s[a] && s2[b] == s[b]);
        }
    }
}

/// The in-memory image of a harbor's two zones.
#[derive(Debug)]
pub struct HarborDirs {
    pub dry_dock: Vec<PierSlot>,
    pub port: Vec<PierSlot>,
}

/// The mathematical content of a harbor's two zones.
pub ghost struct HarborDirsV {
    pub dry_dock: Seq<SlotV>,
    pub port: Seq<SlotV>,
}

impl HarborDirsV {
    /// Directory names are unique within each zone.
    pub open spec fn wf(&self) -> bool {
        distinct_keys(self.dry_dock) && distinct_keys(self.port)
    }
}

impl View for HarborDirs {
    type V = HarborDirsV;

    open spec fn view(&self) -> HarborDirsV {
        HarborDirsV { dry_dock: slots_view(self.dry_dock@), port: slots_view(self.port@) }
    }
}

impl HarborDirs {
    /// The image of a harbor whose zones hold nothing yet.
    pub fn new() -> (r: HarborDirs)
        ensures
            r@.dry_dock == Seq::<SlotV>::empty(),
            r@.port == Seq::<SlotV>::empty(),
            r@.wf(),
    {
        let r = HarborDirs { dry_dock: Vec::new(), port: Vec::new() };
        proof {
            assert(r@.dry_dock =~= Seq::<SlotV>::empty());
            assert(r@.port =~= Seq::<SlotV>::empty());
        }
        r
    }

    /// The names of the piers currently in the live zone, in directory
    /// order.
    pub fn piers_in_port(&self) -> (r: Vec<String>)
        ensures
            r@.len() == self@.port.len(),
            forall|i: int| 0 <= i < r@.len() ==> #[trigger] r@[i]@ == self@.port[i].name,
    {
        let mut r: Vec<String> = Vec::new();
        let n = self.port.len();
        let mut i: usize = 0;
        while i < n
            invariant
                0 <= i <= n,
                n == self.port@.len(),
                r@.len() == i,
                forall|m: int| 0 <= m < i ==> #[trigger] r@[m]@ == slots_view(self.port@)[m].name,
            decreases n - i,
        {
            r.push(self.port[i].name.clone());
            i = i + 1;
        }
        r
    }
}

/// Find the first entry named `key`, returning its index.
pub fn find_slot(v: &Vec<PierSlot>, key: &str) -> (r: Option<usize>)
    ensures
        match r {
            Some(i) => i < v@.len() && slots_view(v@)[i as int].name == key@ && key_index(
                slots_view(v@),
                key@,
            ) == i as int && lookup(slots_view(v@), key@) == Some(slots_view(v@)[i as int].dir),
            None => lookup(slots_view(v@), key@) is None,
        },
{
    let n = v.len();
    let mut i: usize = 0;
    while i < n
        invariant
            0 <= i <= n,
            n == v@.len(),
            forall|m: int| 0 <= m < i ==> slots_view(v@)[m].name != key@,
        decreases n - i,
    {
        if str_eq(v[i].name.as_str(), key) {
            proof {
                lemma_lookup_at(slots_view(v@), key@, i as int);
            }
            return Some(i);
        }
        i = i + 1;
    }
    proof {
        lemma_lookup_absent(slots_view(v@), key@);
    }
    None
}

/// Write configuration text into the slot at index `i` and release the
/// lock held on it, keeping everything else.
pub fn stamp_slot(v: &mut Vec<PierSlot>, i: usize, text: String, lock: crate::filelock::FileLock)
    requires
        i < old(v)@.len(),
    ensures
        slots_view(final(v)@) == slots_view(old(v)@).update(
            i as int,
            SlotV {
                name: slots_view(old(v)@)[i as int].name,
                dir: PierDirV {
                    config_text: Some(text@),
                    lock: false,
                    keyfile: slots_view(old(v)@)[i as int].dir.keyfile,
                    pier_data: slots_view(old(v)@)[i as int].dir.pier_data,
                },
            },
        ),
{
    let ghost before = slots_view(v@);
    let mut slot = v.remove(i);
    slot.dir.config_text = Some(text);
    lock.release(&mut slot.dir.lock);
    let ghost slot_v = slot@;
    v.insert(i, slot);
    proof {
        assert(slots_view(v@) =~= before.update(i as int, slot_v));
    }
}

} // verus!
