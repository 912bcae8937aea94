//! The persisted records: the session of one transfer with its parts, and the
//! named profiles.

use vstd::prelude::*;
use vstd::string::StringExecFns;

use crate::encoding::{hex_bytes, is_hex, parse_hex};

verus! {

/// The most parts that one session may hold.
pub const MAX_CHUNKS: u64 = 10_000;

/// The record of one chunk that the backend has accepted.
#[derive(Clone, Debug, PartialEq, Eq)]
pub struct UploadPart {
    /// 1-based position of the chunk in the source.
    pub idx: usize,
    /// The tag that the backend issued for the part.
    pub etag: String,
    /// Length of the chunk as read from the source.
    pub original_size: u64,
    /// Length of the bytes that were sent.
    pub processed_size: u64,
    /// Hex SHA-256 of the chunk as read from the source.
    pub original_sha256: String,
    /// Hex SHA-256 of the bytes that were sent.
    pub processed_sha256: String,
}

/// An `UploadPart` with its numbers unbounded and its texts as character sequences.
pub ghost struct PartView {
    pub idx: nat,
    pub etag: Seq<char>,
    pub original_size: nat,
    pub processed_size: nat,
    pub original_sha256: Seq<char>,
    pub processed_sha256: Seq<char>,
}

impl View for UploadPart {
    type V = PartView;

    open spec fn view(&self) -> PartView {
        PartView {
            idx: self.idx as nat,
            etag: self.etag@,
            original_size: self.original_size as nat,
            processed_size: self.processed_size as nat,
            original_sha256: self.original_sha256@,
            processed_sha256: self.processed_sha256@,
        }
    }
}

/// The views of a run of parts, in order.
pub open spec fn part_views(parts: Seq<UploadPart>) -> Seq<PartView> {
    Seq::new(parts.len(), |i: int| parts[i]@)
}

/// The sum of the original sizes of a run of parts.
pub open spec fn total_original(parts: Seq<PartView>) -> nat
    decreases parts.len(),
{
    if parts.len() == 0 {
        0
    } else {
        total_original(parts.drop_last()) + parts.last().original_size
    }
}

/// The session of one named transfer.
#[derive(Clone, Debug, PartialEq, Eq)]
pub struct Backup {
    /// Object key: the configured prefix followed by the source's file name.
    pub name: String,
    pub prefix: String,
    /// Length of every chunk but the last.
    pub chunk_size: usize,
    /// The session identifier that the backend issued.
    pub upload_id: String,
    /// The parts recorded so far, in index order.
    pub parts: Vec<UploadPart>,
    /// Whether the backend has confirmed finalization.
    pub done: bool,
    pub started: String,
    pub completed: String,
    /// Hex SHA-256 of the whole source; empty until the session is sealed.
    pub sha256: String,
    pub compression_enabled: bool,
    pub encryption_enabled: bool,
}

/// A `Backup` with its numbers unbounded and its texts as character sequences.
pub ghost struct SessionView {
    pub name: Seq<char>,
    pub prefix: Seq<char>,
    pub chunk_size: nat,
    pub upload_id: Seq<char>,
    pub parts: Seq<PartView>,
    pub done: bool,
    pub started: Seq<char>,
    pub completed: Seq<char>,
    pub sha256: Seq<char>,
    pub compression_enabled: bool,
    pub encryption_enabled: bool,
}

impl SessionView {
    /// The invariants of a session record: a positive chunk size, no more parts
    /// than a session may hold, indices `1, 2, ..` in order without gaps, and a
    /// whole-object hash exactly when the session is sealed.
    pub open spec fn wf(self) -> bool {
        &&& self.chunk_size > 0
        &&& self.parts.len() <= MAX_CHUNKS
        &&& forall|i: int| 0 <= i < self.parts.len() ==> (#[trigger] self.parts[i]).idx == i + 1
        &&& (self.done <==> self.sha256.len() > 0)
    }

    /// The sum of the parts' original sizes.
    pub open spec fn total_original_size(self) -> nat {
        total_original(self.parts)
    }
}

impl View for Backup {
    type V = SessionView;

    open spec fn view(&self) -> SessionView {
        SessionView {
            name: self.name@,
            prefix: self.prefix@,
            chunk_size: self.chunk_size as nat,
            upload_id: self.upload_id@,
            parts: part_views(self.parts@),
            done: self.done,
            started: self.started@,
            completed: self.completed@,
            sha256: self.sha256@,
            compression_enabled: self.compression_enabled,
            encryption_enabled: self.encryption_enabled,
        }
    }
}

impl Backup {
    /// Whether the record keeps the invariants of a session.
    pub fn is_well_formed(&self) -> (ok: bool)
        ensures
            ok == self@.wf(),
    {
        if self.chunk_size == 0 {
            return false;
        }
        if self.parts.len() > 10_000 {
            return false;
        }
        if self.done == self.sha256.as_str().is_empty() {
            return false;
        }
        let mut i: usize = 0;
        while i < self.parts.len()
            invariant
                i <= self.parts.len(),
                self.parts.len() <= 10_000,
                forall|j: int| 0 <= j < i ==> (#[trigger] self@.parts[j]).idx == j + 1,
            decreases self.parts.len() - i,
        {
            if self.parts[i].idx != i + 1 {
                assert(self@.parts[i as int].idx != i + 1);
                return false;
            }
            i += 1;
        }
        true
    }

    /// The sum of the parts' original sizes: what a complete download delivers.
    pub fn total_original_size(&self) -> (total: u128)
        ensures
            total == self@.total_original_size(),
    {
        let mut total: u128 = 0;
        let mut i: usize = 0;
        while i < self.parts.len()
            invariant
                i <= self.parts.len(),
                total == total_original(self@.parts.take(i as int)),
                total <= i * 0xffff_ffff_ffff_ffff,
            decreases self.parts.len() - i,
        {
            proof {
                let upto = self@.parts.take(i + 1);
                assert(upto.drop_last() =~= self@.parts.take(i as int));
                assert(upto.last() == self@.parts[i as int]);
                assert((i + 1) * 0xffff_ffff_ffff_ffff == i * 0xffff_ffff_ffff_ffff
                    + 0xffff_ffff_ffff_ffff) by (nonlinear_arith);
                assert(i * 0xffff_ffff_ffff_ffff <= 0xffff_ffff_ffff_ffff * 0xffff_ffff_ffff_ffff)
                    by (nonlinear_arith)
                    requires
                        i <= 0xffff_ffff_ffff_ffff,
                ;
            }
            total = total + self.parts[i].original_size as u128;
            i += 1;
        }
        assert(self@.parts.take(self.parts.len() as int) =~= self@.parts);
        total
    }

    /// The `(index, tag)` pairs that finalization hands to the backend, in
    /// ascending index order.
    pub fn completed_parts(&self) -> (pairs: Vec<(usize, String)>)
        ensures
            pairs@.len() == self@.parts.len(),
            forall|i: int|
                0 <= i < pairs@.len() ==> (#[trigger] pairs@[i]).0 == self@.parts[i].idx
                    && pairs@[i].1@ == self@.parts[i].etag,
    {
        let mut pairs: Vec<(usize, String)> = Vec::new();
        let mut i: usize = 0;
        while i < self.parts.len()
            invariant
                i <= self.parts.len(),
                pairs@.len() == i,
                forall|j: int|
                    0 <= j < i ==> (#[trigger] pairs@[j]).0 == self@.parts[j].idx && pairs@[j].1@
                        == self@.parts[j].etag,
            decreases self.parts.len() - i,
        {
            let tag = self.parts[i].etag.clone();
            pairs.push((self.parts[i].idx, tag));
            i += 1;
        }
        pairs
    }
}

/// The settings of one named profile: the backend's credentials and where
/// the backups go.
#[derive(Clone, Debug, PartialEq, Eq)]
pub struct Profile {
    pub access_key: String,
    pub secret_key: String,
    pub region: String,
    pub bucket: String,
    /// The symmetric key as hex digits; empty where encryption is not set up.
    pub encryption_key: String,
    /// What goes before a file's name in its object key.
    pub prefix: String,
}

impl Default for Profile {
    /// A profile with every setting empty.
    fn default() -> (profile: Profile)
        ensures
            profile.access_key@.len() == 0,
            profile.secret_key@.len() == 0,
            profile.region@.len() == 0,
            profile.bucket@.len() == 0,
            profile.encryption_key@.len() == 0,
            profile.prefix@.len() == 0,
    {
        Profile {
            access_key: String::new(),
            secret_key: String::new(),
            region: String::new(),
            bucket: String::new(),
            encryption_key: String::new(),
            prefix: String::new(),
        }
    }
}

impl Profile {
    /// The bytes of the encryption key, or `None` where the setting is not an
    /// even number of hex digits.
    pub fn key_bytes(&self) -> (r: Option<Vec<u8>>)
        ensures
            r is Some <==> is_hex(self.encryption_key@),
            r matches Some(bytes) ==> bytes@ == hex_bytes(self.encryption_key@),
    {
        parse_hex(self.encryption_key.as_str())
    }
}

/// The profile that the last entry named `name` holds, if any entry has that name.
pub open spec fn lookup(entries: Seq<(String, Profile)>, name: Seq<char>) -> Option<Profile>
    decreases entries.len(),
{
    if entries.len() == 0 {
        None
    } else if entries.last().0@ == name {
        Some(entries.last().1)
    } else {
        lookup(entries.drop_last(), name)
    }
}

/// Entries after the first `upto` that are not named `name` do not matter to
/// what `name` stands for.
proof fn lemma_lookup_skips(entries: Seq<(String, Profile)>, name: Seq<char>, upto: int)
    requires
        0 <= upto <= entries.len(),
        forall|j: int| upto <= j < entries.len() ==> (#[trigger] entries[j]).0@ != name,
    ensures
        lookup(entries, name) == lookup(entries.take(upto), name),
    decreases entries.len() - upto,
{
    if upto < entries.len() {
        assert(entries.drop_last().take(upto) =~= entries.take(upto));
        lemma_lookup_skips(entries.drop_last(), name, upto);
    } else {
        assert(entries.take(upto) =~= entries);
    }
}

/// Replacing the last entry named `name` changes what `name` stands for and
/// nothing else.
proof fn lemma_lookup_replaced(
    entries: Seq<(String, Profile)>,
    at: int,
    entry: (String, Profile),
    other: Seq<char>,
)
    requires
        0 <= at < entries.len(),
        entries[at].0@ == entry.0@,
        forall|j: int| at < j < entries.len() ==> (#[trigger] entries[j]).0@ != entry.0@,
    ensures
        lookup(entries.update(at, entry), other) == if other == entry.0@ {
            Some(entry.1)
        } else {
            lookup(entries, other)
        },
    decreases entries.len(),
{
    let replaced = entries.update(at, entry);
    if at == entries.len() - 1 {
        assert(replaced.drop_last() =~= entries.drop_last());
    } else {
        assert(replaced.drop_last() =~= entries.drop_last().update(at, entry));
        lemma_lookup_replaced(entries.drop_last(), at, entry, other);
    }
}

/// The named profiles.
#[derive(Clone, Debug)]
pub struct Config {
    profiles: Vec<(String, Profile)>,
}

impl View for Config {
    type V = Map<Seq<char>, Profile>;

    /// The profile that each name stands for.
    closed spec fn view(&self) -> Map<Seq<char>, Profile> {
        Map::new(
            |name: Seq<char>| lookup(self.profiles@, name) is Some,
            |name: Seq<char>| lookup(self.profiles@, name).unwrap(),
        )
    }
}

impl Default for Config {
    /// A configuration without profiles.
    fn default() -> (config: Config)
        ensures
            config@ == Map::<Seq<char>, Profile>::empty(),
    {
        let config = Config { profiles: Vec::new() };
        assert(config@ =~= Map::<Seq<char>, Profile>::empty());
        config
    }
}

impl Config {
    /// The position of the last entry named `name`.
    fn position(&self, name: &String) -> (r: Option<usize>)
        ensures
            match r {
                Some(at) => at < self.profiles@.len() && self.profiles@[at as int].0@ == name@
                    && forall|j: int|
                    at < j < self.profiles@.len() ==> (#[trigger] self.profiles@[j]).0@ != name@,
                None => forall|j: int|
                    0 <= j < self.profiles@.len() ==> (#[trigger] self.profiles@[j]).0@ != name@,
            },
    {
        let mut i = self.profiles.len();
        while i > 0
            invariant
                i <= self.profiles@.len(),
                forall|j: int|
                    i <= j < self.profiles@.len() ==> (#[trigger] self.profiles@[j]).0@ != name@,
            decreases i,
        {
            i -= 1;
            if self.profiles[i].0 == *name {
                return Some(i);
            }
        }
        None
    }

    /// A configuration with the given entries; of two entries with one name
    /// the later one counts.
    pub fn from_entries(entries: Vec<(String, Profile)>) -> (config: Config)
        ensures
            forall|name: Seq<char>| #[trigger]
                config@.contains_key(name) <==> lookup(entries@, name) is Some,
            forall|name: Seq<char>| #[trigger]
                config@.contains_key(name) ==> config@[name] == lookup(entries@, name).unwrap(),
    {
        Config { profiles: entries }
    }

    /// The profile named `name`, if there is one.
    pub fn profile(&self, name: &str) -> (r: Option<&Profile>)
        ensures
            match r {
                Some(profile) => self@.contains_key(name@) && *profile == self@[name@],
                None => !self@.contains_key(name@),
            },
    {
        let wanted = name.to_owned();
        match self.position(&wanted) {
            Some(at) => {
                proof {
                    lemma_lookup_skips(self.profiles@, name@, at + 1);
                    assert(self.profiles@.take(at + 1).last() == self.profiles@[at as int]);
                }
                Some(&self.profiles[at].1)
            },
            None => {
                proof {
                    lemma_lookup_skips(self.profiles@, name@, 0);
                }
                None
            },
        }
    }

    /// Makes `name` stand for `prof`, in place of what it stood for before.
    pub fn set_profile(&mut self, name: &str, prof: Profile)
        ensures
            final(self)@ == old(self)@.insert(name@, prof),
    {
        let wanted = name.to_owned();
        let ghost before = self.profiles@;
        match self.position(&wanted) {
            Some(at) => {
                let entry = (wanted, prof);
                proof {
                    assert forall|other: Seq<char>|
                        lookup(before.update(at as int, entry), other) == if other == name@ {
                            Some(prof)
                        } else {
                            lookup(before, other)
                        } by {
                        lemma_lookup_replaced(before, at as int, entry, other);
                    }
                }
                self.profiles.set(at, entry);
            },
            None => {
                self.profiles.push((wanted, prof));
                proof {
                    assert(self.profiles@.drop_last() =~= before);
                }
            },
        }
        assert(self@ =~= old(self)@.insert(name@, prof));
    }

    /// The entries as they are held, for writing them out.
    pub fn entries(&self) -> (entries: &Vec<(String, Profile)>)
        ensures
            forall|name: Seq<char>| #[trigger]
                self@.contains_key(name) <==> lookup(entries@, name) is Some,
            forall|name: Seq<char>| #[trigger]
                self@.contains_key(name) ==> self@[name] == lookup(entries@, name).unwrap(),
    {
        &self.profiles
    }

    /// Where the session record of the backup `name` is kept, below the
    /// directory that holds the configuration.
    pub fn backup(&self, name: &str) -> (path: String)
        ensures
            path@ == "backups/"@ + name@ + ".yml"@,
    {
        "backups/".to_owned().concat(name).concat(".yml")
    }

    /// Where the profiles are kept, below the directory that holds the
    /// configuration.
    pub fn profiles_file() -> (path: String)
        ensures
            path@ == "profiles.yml"@,
    {
        "profiles.yml".to_owned()
    }
}

} // verus!
