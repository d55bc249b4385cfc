//! Progress samples, options and errors of the stream supervisor.

use crate::text::same_text;
use std::time::Duration;
use vstd::prelude::*;
use vstd::string::*;

verus! {

/// The keys and values of a progress sample, in the order in which the keys
/// were first seen.
pub type Entries = Seq<(Seq<char>, Seq<char>)>;

/// The text of each key and value of `fields`.
pub open spec fn entries_of(fields: Seq<(String, String)>) -> Entries {
    Seq::new(fields.len(), |i: int| (fields[i].0@, fields[i].1@))
}

/// Whether `i` is the first position of `entries` that holds `key`.
pub open spec fn is_first_with_key(entries: Entries, key: Seq<char>, i: int) -> bool {
    &&& 0 <= i < entries.len()
    &&& entries[i].0 == key
    &&& forall|j: int| 0 <= j < i ==> (#[trigger] entries[j]).0 != key
}

/// The first position of `entries` that holds `key`, if any does.
pub open spec fn key_index(entries: Entries, key: Seq<char>) -> Option<int> {
    if exists|i: int| is_first_with_key(entries, key, i) {
        Some(choose|i: int| is_first_with_key(entries, key, i))
    } else {
        None
    }
}

/// The value that `entries` holds for `key`.
pub open spec fn lookup(entries: Entries, key: Seq<char>) -> Option<Seq<char>> {
    match key_index(entries, key) {
        Some(i) => Some(entries[i].1),
        None => None,
    }
}

/// `entries` with `key` set to `value`: in place where the key is present,
/// at the end where it is new.
pub open spec fn upsert(entries: Entries, key: Seq<char>, value: Seq<char>) -> Entries {
    match key_index(entries, key) {
        Some(i) => entries.update(i, (key, value)),
        None => entries.push((key, value)),
    }
}

/// Whether no key occurs twice in `entries`.
pub open spec fn unique_keys(entries: Entries) -> bool {
    forall|i: int, j: int|
        0 <= i < j < entries.len() ==> (#[trigger] entries[i]).0 != (#[trigger] entries[j]).0
}

/// At most one position is the first to hold a key.
pub proof fn lemma_key_index(entries: Entries, key: Seq<char>, i: int)
    requires
        is_first_with_key(entries, key, i),
    ensures
        key_index(entries, key) == Some(i),
{
    let k = choose|k: int| is_first_with_key(entries, key, k);
    if k < i {
        assert(entries[k].0 != key);
    } else if i < k {
        assert(entries[i].0 != key);
    }
}

/// A key that no entry holds has no position.
pub proof fn lemma_key_absent(entries: Entries, key: Seq<char>)
    requires
        forall|j: int| 0 <= j < entries.len() ==> (#[trigger] entries[j]).0 != key,
    ensures
        key_index(entries, key) is None,
{
}

/// After `key` is set to `value`, looking it up gives `value`, every other key
/// reads as before, and keys stay unique if they were.
pub proof fn lemma_upsert(entries: Entries, key: Seq<char>, value: Seq<char>, other: Seq<char>)
    ensures
        lookup(upsert(entries, key, value), key) == Some(value),
        other != key ==> lookup(upsert(entries, key, value), other) == lookup(entries, other),
        unique_keys(entries) ==> unique_keys(upsert(entries, key, value)),
        upsert(entries, key, value).len() > 0,
{
    let after = upsert(entries, key, value);
    match key_index(entries, key) {
        Some(i) => {
            assert(is_first_with_key(entries, key, i));
            assert(is_first_with_key(after, key, i)) by {
                assert forall|j: int| 0 <= j < i implies (#[trigger] after[j]).0 != key by {
                    assert(entries[j].0 != key);
                }
            }
            lemma_key_index(after, key, i);
            if unique_keys(entries) {
                assert forall|a: int, b: int| 0 <= a < b < after.len() implies (
                #[trigger] after[a]).0 != (#[trigger] after[b]).0 by {
                    assert(entries[a].0 != entries[b].0);
                }
            }
        },
        None => {
            let n = entries.len() as int;
            assert forall|j: int| 0 <= j < n implies (#[trigger] entries[j]).0 != key by {
                if entries[j].0 == key {
                    lemma_has_first(entries, key, j);
                }
            }
            assert(is_first_with_key(after, key, n)) by {
                assert forall|j: int| 0 <= j < n implies (#[trigger] after[j]).0 != key by {
                    assert(entries[j].0 != key);
                }
            }
            lemma_key_index(after, key, n);
            if unique_keys(entries) {
                assert forall|a: int, b: int| 0 <= a < b < after.len() implies (
                #[trigger] after[a]).0 != (#[trigger] after[b]).0 by {
                    if b < n {
                        assert(entries[a].0 != entries[b].0);
                    } else {
                        assert(entries[a].0 != key);
                    }
                }
            }
        },
    }
    if other != key {
        match key_index(entries, other) {
            Some(k) => {
                assert(is_first_with_key(entries, other, k));
                assert(is_first_with_key(after, other, k)) by {
                    assert forall|j: int| 0 <= j < k implies (#[trigger] after[j]).0 != other by {
                        assert(entries[j].0 != other);
                    }
                }
                lemma_key_index(after, other, k);
            },
            None => {
                assert forall|j: int| 0 <= j < after.len() implies (#[trigger] after[j]).0
                    != other by {
                    if j < entries.len() && entries[j].0 == other {
                        lemma_has_first(entries, other, j);
                    }
                }
                lemma_key_absent(after, other);
            },
        }
    }
}

/// Where some position holds a key, some position is the first to hold it.
pub proof fn lemma_has_first(entries: Entries, key: Seq<char>, j: int)
    requires
        0 <= j < entries.len(),
        entries[j].0 == key,
    ensures
        exists|i: int| is_first_with_key(entries, key, i),
    decreases j,
{
    if forall|k: int| 0 <= k < j ==> (#[trigger] entries[k]).0 != key {
        assert(is_first_with_key(entries, key, j));
    } else {
        let k = choose|k: int| 0 <= k < j && (#[trigger] entries[k]).0 == key;
        lemma_has_first(entries, key, k);
    }
}

/// A copy of `fields`, entry for entry.
pub fn clone_fields(fields: &Vec<(String, String)>) -> (r: Vec<(String, String)>)
    ensures
        r@ == fields@,
{
    let mut r: Vec<(String, String)> = Vec::new();
    let mut i: usize = 0;
    while i < fields.len()
        invariant
            i <= fields.len(),
            r@ == fields@.take(i as int),
        decreases fields.len() - i,
    {
        let key = fields[i].0.clone();
        let value = fields[i].1.clone();
        r.push((key, value));
        assert(r@ =~= fields@.take(i + 1));
        i += 1;
    }
    assert(fields@.take(fields.len() as int) =~= fields@);
    r
}

/// The first position of `fields` whose key is `key`.
pub fn find_key(fields: &Vec<(String, String)>, key: &str) -> (r: Option<usize>)
    ensures
        match r {
            Some(i) => key_index(entries_of(fields@), key@) == Some(i as int),
            None => key_index(entries_of(fields@), key@) is None,
        },
{
    let ghost entries = entries_of(fields@);
    let mut i: usize = 0;
    while i < fields.len()
        invariant
            i <= fields.len(),
            entries == entries_of(fields@),
            forall|j: int| 0 <= j < i ==> (#[trigger] entries[j]).0 != key@,
        decreases fields.len() - i,
    {
        if same_text(fields[i].0.as_str(), key) {
            proof {
                assert(entries[i as int].0 == key@);
                lemma_key_index(entries, key@, i as int);
            }
            return Some(i);
        }
        assert(entries[i as int].0 != key@);
        i += 1;
    }
    proof {
        lemma_key_absent(entries, key@);
    }
    None
}

/// One progress sample of the stream-copy process: keys and values as the
/// process wrote them, in the order in which it first wrote each key.
#[derive(Debug)]
pub struct FfmpegProgress {
    /// The sample's keys with their values.
    pub fields: Vec<(String, String)>,
}

impl View for FfmpegProgress {
    type V = Entries;

    open spec fn view(&self) -> Entries {
        entries_of(self.fields@)
    }
}

impl Clone for FfmpegProgress {
    fn clone(&self) -> (r: Self)
        ensures
            r.fields@ == self.fields@,
    {
        FfmpegProgress { fields: clone_fields(&self.fields) }
    }
}

impl FfmpegProgress {
    /// A sample that holds `fields`.
    #[inline]
    pub fn new(fields: Vec<(String, String)>) -> (r: Self)
        ensures
            r.fields == fields,
    {
        Self { fields }
    }

    /// The value recorded for `key`: that of the first entry that holds the
    /// key.
    pub fn get(&self, key: &str) -> (r: Option<&String>)
        ensures
            match r {
                Some(value) => lookup(self@, key@) == Some(value@),
                None => lookup(self@, key@) is None,
            },
    {
        match find_key(&self.fields, key) {
            Some(i) => Some(&self.fields[i].1),
            None => None,
        }
    }

    /// Number of entries in the sample.
    pub fn len(&self) -> (r: usize)
        ensures
            r == self@.len(),
    {
        self.fields.len()
    }

    /// Whether the sample holds no entry.
    pub fn is_empty(&self) -> (r: bool)
        ensures
            r == (self@.len() == 0),
    {
        self.fields.len() == 0
    }
}

/// The type of an I/O failure, carried through as it was reported.
#[verifier::external_type_specification]
#[verifier::external_body]
pub struct ExIoError(std::io::Error);

/// Why a stream download ended without its output.
#[derive(Debug)]
pub enum DownloadError {
    /// The stream-copy process ended with this exit status, which is not 0.
    FfmpegExit(i32),
    /// A file or process operation failed.
    Io(std::io::Error),
    /// Any other failure, in words; a stall is reported this way.
    Other(String),
}

/// A stream download error with its text in place of its strings.
pub enum ErrorView {
    /// The process's exit status.
    FfmpegExit(i32),
    /// The I/O failure, as reported.
    Io(std::io::Error),
    /// The failure in words.
    Other(Seq<char>),
}

impl View for DownloadError {
    type V = ErrorView;

    open spec fn view(&self) -> ErrorView {
        match *self {
            DownloadError::FfmpegExit(code) => ErrorView::FfmpegExit(code),
            DownloadError::Io(error) => ErrorView::Io(error),
            DownloadError::Other(message) => ErrorView::Other(message@),
        }
    }
}

/// The duration that `std::time::Duration::from_secs` returns for `secs`.
pub uninterp spec fn duration_from_secs(secs: u64) -> Duration;

/// `Duration::from_secs` is a function of its argument: the contract names the
/// duration of `secs` whole seconds and claims nothing else of it.
pub assume_specification[ Duration::from_secs ](secs: u64) -> (d: Duration)
    ensures
        d == duration_from_secs(secs),
;

/// How the supervisor treats a stream-copy process that hangs or fails.
#[derive(Debug)]
pub struct DownloadOptions {
    /// How long the process may stay silent before it is taken to hang.
    pub stall_timeout: Duration,
    /// Whether a failed attempt is followed by another.
    pub auto_restart: bool,
    /// Upper bound on the number of attempts when restarts are on.
    pub max_restarts: usize,
}

impl Clone for DownloadOptions {
    fn clone(&self) -> (r: Self)
        ensures
            r == *self,
    {
        DownloadOptions {
            stall_timeout: self.stall_timeout,
            auto_restart: self.auto_restart,
            max_restarts: self.max_restarts,
        }
    }
}

impl Default for DownloadOptions {
    /// Twenty seconds of silence count as a stall; restarts are on, with at
    /// most three attempts.
    fn default() -> (r: Self)
        ensures
            r.stall_timeout == duration_from_secs(20),
            r.auto_restart,
            r.max_restarts == 3,
    {
        Self { stall_timeout: Duration::from_secs(20), auto_restart: true, max_restarts: 3 }
    }
}

} // verus!
