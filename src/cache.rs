//! The two-tier artifact cache: a local content-addressed store, a remote
//! tier behind the `RemoteCache` trait, and the hybrid read-through /
//! write-through composition of both.
use crate::error::{message_spec, MemoBuildError};
use crate::hasher::{blake3_hex, hash_bytes};
use crate::text::{append_str, chars_eq, chars_of, string_of};
use vstd::prelude::*;

verus! {

/// Record of the local index.
#[derive(Debug, Clone, PartialEq, Eq)]
pub struct CacheEntry {
    pub cache_key: String,
    /// Creation time, in unix seconds.
    pub created_at: i64,
    /// Blob location, relative to the cache root.
    pub artifact_path: String,
    /// Blob length in bytes.
    pub size: u64,
}

/// An index record with its blob, if the blob is present.
#[derive(Debug)]
pub struct LocalRecord {
    pub entry: CacheEntry,
    pub data: Option<Vec<u8>>,
}

/// Position of the newest record of `k`, or -1.
pub open spec fn latest(recs: Seq<LocalRecord>, k: Seq<char>) -> int
    decreases recs.len(),
{
    if recs.len() == 0 {
        -1
    } else if recs.last().entry.cache_key@ == k {
        recs.len() - 1
    } else {
        latest(recs.drop_last(), k)
    }
}

proof fn lemma_latest_range(recs: Seq<LocalRecord>, k: Seq<char>)
    ensures
        -1 <= latest(recs, k) < recs.len(),
        latest(recs, k) >= 0 ==> recs[latest(recs, k)].entry.cache_key@ == k,
    decreases recs.len(),
{
    if recs.len() > 0 {
        lemma_latest_range(recs.drop_last(), k);
    }
}

pub open spec fn opt_bytes(o: Option<Vec<u8>>) -> Option<Seq<u8>> {
    match o {
        Some(v) => Some(v@),
        None => None,
    }
}

/// Relies on chrono's `From<SystemTime> for DateTime<Utc>` and
/// `DateTime::timestamp`: the current time in unix seconds, whatever the
/// clock says. Unlike `Utc::now`, the conversion accepts a clock set before
/// 1970.
#[verifier::external_body]
fn now_unix() -> (r: i64) {
    chrono::DateTime::<chrono::Utc>::from(std::time::SystemTime::now()).timestamp()
}

fn find_latest(recs: &Vec<LocalRecord>, key: &str) -> (r: Option<usize>)
    ensures
        r is Some <==> latest(recs@, key@) >= 0,
        r is Some ==> r->0 as int == latest(recs@, key@) && r->0 < recs@.len(),
{
    proof {
        lemma_latest_range(recs@, key@);
    }
    let kc = chars_of(key);
    let mut j: usize = recs.len();
    assert(recs@.subrange(0, j as int) =~= recs@);
    while j > 0
        invariant
            j <= recs@.len(),
            kc@ == key@,
            latest(recs@, key@) == latest(recs@.subrange(0, j as int), key@),
        decreases j,
    {
        let rc = chars_of(recs[j - 1].entry.cache_key.as_str());
        assert(recs@.subrange(0, j as int).drop_last() =~= recs@.subrange(0, j - 1));
        if chars_eq(rc.as_slice(), kc.as_slice()) {
            return Some(j - 1);
        }
        j = j - 1;
    }
    None
}

/// `after` is `before` with `data` stored under `key`: a fresh entry with the
/// blob's length and the blob name `<key>.bin`; every other key unchanged.
pub open spec fn stored(before: LocalCache, after: LocalCache, key: Seq<char>, data: Seq<u8>) -> bool {
    &&& after.root() == before.root()
    &&& after.has(key)
    &&& after.data_of(key) == Some(data)
    &&& after.entry_of(key).cache_key@ == key
    &&& after.entry_of(key).artifact_path@ == key + ".bin"@
    &&& after.entry_of(key).size == data.len()
    &&& forall|k: Seq<char>|
        k != key ==> after.has(k) == before.has(k) && after.data_of(k) == before.data_of(k) && (
        before.has(k) ==> after.entry_of(k) == before.entry_of(k))
}

/// The local content-addressed store: an index from key to entry, and the
/// blobs that are present. Newer records of a key supersede older ones.
#[derive(Debug)]
pub struct LocalCache {
    pub cache_dir: String,
    records: Vec<LocalRecord>,
}

impl LocalCache {
    /// The cache root directory.
    pub closed spec fn root(&self) -> Seq<char> {
        self.cache_dir@
    }

    pub closed spec fn recs(&self) -> Seq<LocalRecord> {
        self.records@
    }

    /// Whether the index has `k`.
    pub open spec fn has(&self, k: Seq<char>) -> bool {
        latest(self.recs(), k) >= 0
    }

    /// The index entry of `k`.
    pub open spec fn entry_of(&self, k: Seq<char>) -> CacheEntry
        recommends
            self.has(k),
    {
        self.recs()[latest(self.recs(), k)].entry
    }

    /// The blob of `k`: present only if the index has `k` and its blob exists.
    pub open spec fn data_of(&self, k: Seq<char>) -> Option<Seq<u8>> {
        if self.has(k) {
            opt_bytes(self.recs()[latest(self.recs(), k)].data)
        } else {
            None
        }
    }

    /// An empty store rooted at `cache_dir`.
    pub fn new(cache_dir: String) -> (r: LocalCache)
        ensures
            r.root() == cache_dir@,
            forall|k: Seq<char>| !r.has(k),
    {
        LocalCache { cache_dir, records: Vec::new() }
    }

    /// Restores an index entry read from disk, with its blob if the blob file
    /// exists.
    pub fn restore(&mut self, entry: CacheEntry, data: Option<Vec<u8>>)
        ensures
            final(self).root() == old(self).root(),
            final(self).has(entry.cache_key@),
            final(self).entry_of(entry.cache_key@) == entry,
            final(self).data_of(entry.cache_key@) == opt_bytes(data),
            forall|k: Seq<char>|
                k != entry.cache_key@ ==> final(self).has(k) == old(self).has(k) && final(self).data_of(k) == old(self).data_of(k) && (old(self).has(k) ==> final(self).entry_of(k) == old(self).entry_of(k)),
    {
        let ghost k0 = entry.cache_key@;
        self.records.push(LocalRecord { entry, data });
        assert(self.records@.drop_last() =~= old(self).records@);
        assert forall|k: Seq<char>| k != k0 implies latest(self.records@, k) == latest(
            old(self).records@,
            k,
        ) && (latest(old(self).records@, k) >= 0 ==> self.records@[latest(self.records@, k)]
            == old(self).records@[latest(old(self).records@, k)]) by {
            lemma_latest_range(old(self).records@, k);
        }
    }

    /// Index lookup only; does not look at the blob.
    pub fn contains_key(&self, key: &str) -> (r: bool)
        ensures
            r == self.has(key@),
    {
        find_latest(&self.records, key).is_some()
    }

    /// The blob of `key` if the index has it and the blob is present.
    pub fn get_data(&self, key: &str) -> (r: Option<Vec<u8>>)
        ensures
            opt_bytes(r) == self.data_of(key@),
    {
        match find_latest(&self.records, key) {
            Some(j) => match &self.records[j].data {
                Some(d) => {
                    let mut out: Vec<u8> = Vec::new();
                    let mut k: usize = 0;
                    while k < d.len()
                        invariant
                            k <= d@.len(),
                            out@ == d@.subrange(0, k as int),
                        decreases d@.len() - k,
                    {
                        out.push(d[k]);
                        k = k + 1;
                        assert(out@ =~= d@.subrange(0, k as int));
                    }
                    assert(d@.subrange(0, k as int) =~= d@);
                    Some(out)
                },
                None => None,
            },
            None => None,
        }
    }

    /// Stores a blob under `key`, with a fresh index entry stamped with the
    /// current time, its length, and the blob name `<key>.bin`.
    pub fn put(&mut self, key: &str, data: &[u8])
        ensures
            stored(*old(self), *final(self), key@, data@),
    {
        let mut path: Vec<char> = Vec::new();
        append_str(&mut path, key);
        append_str(&mut path, ".bin");
        let mut blob: Vec<u8> = Vec::new();
        let mut k: usize = 0;
        while k < data.len()
            invariant
                k <= data@.len(),
                blob@ == data@.subrange(0, k as int),
            decreases data@.len() - k,
        {
            blob.push(data[k]);
            k = k + 1;
            assert(blob@ =~= data@.subrange(0, k as int));
        }
        assert(data@.subrange(0, k as int) =~= data@);
        let entry = CacheEntry {
            cache_key: key.to_owned(),
            created_at: now_unix(),
            artifact_path: string_of(path.as_slice()),
            size: data.len() as u64,
        };
        self.restore(entry, Some(blob));
    }

    /// Number of index records, superseded ones included.
    pub fn record_count(&self) -> (r: usize)
        ensures
            r == self.recs().len(),
    {
        self.records.len()
    }

    /// The index entry of record `i`; a later record of the same key
    /// supersedes it.
    pub fn record_entry(&self, i: usize) -> (r: &CacheEntry)
        requires
            i < self.recs().len(),
        ensures
            *r == self.recs()[i as int].entry,
    {
        &self.records[i].entry
    }
}

/// A remote content-addressed store, such as the HTTP cache service.
pub trait RemoteCache {
    /// What the remote holds. A proved implementation defines it; the
    /// default is an unspecified map, of which nothing can be proved, so
    /// that implementations outside the proof (the HTTP client) need not
    /// name it.
    closed spec fn contents(&self) -> Map<Seq<char>, Seq<u8>> {
        vstd::pervasive::arbitrary()
    }

    /// Cheap existence probe.
    fn head(&self, key: &str) -> (r: Result<bool, MemoBuildError>)
        ensures
            r is Ok ==> r->Ok_0 == self.contents().contains_key(key@),
    ;

    /// Fetches the blob of `key`.
    fn get(&self, key: &str) -> (r: Result<Option<Vec<u8>>, MemoBuildError>)
        ensures
            r is Ok ==> (r->Ok_0 is Some <==> self.contents().contains_key(key@)),
            r is Ok && r->Ok_0 is Some ==> r->Ok_0->0@ == self.contents()[key@],
    ;

    /// Uploads the blob of `key`.
    fn put(&mut self, key: &str, data: &[u8]) -> (r: Result<(), MemoBuildError>)
        ensures
            r is Ok ==> final(self).contents() == old(self).contents().insert(key@, data@),
    ;
}

/// A remote tier held in memory.
#[derive(Debug)]
pub struct MemoryRemote {
    store: LocalCache,
}

impl MemoryRemote {
    pub fn new() -> (r: MemoryRemote)
        ensures
            r.contents() == Map::<Seq<char>, Seq<u8>>::empty(),
    {
        let r = MemoryRemote { store: LocalCache::new(String::new()) };
        assert(r.contents() =~= Map::<Seq<char>, Seq<u8>>::empty());
        r
    }
}

impl RemoteCache for MemoryRemote {
    closed spec fn contents(&self) -> Map<Seq<char>, Seq<u8>> {
        Map::new(
            |k: Seq<char>| self.store.data_of(k) is Some,
            |k: Seq<char>| self.store.data_of(k)->0,
        )
    }

    fn head(&self, key: &str) -> (r: Result<bool, MemoBuildError>) {
        Ok(self.store.get_data(key).is_some())
    }

    fn get(&self, key: &str) -> (r: Result<Option<Vec<u8>>, MemoBuildError>) {
        Ok(self.store.get_data(key))
    }

    fn put(&mut self, key: &str, data: &[u8]) -> (r: Result<(), MemoBuildError>) {
        let ghost before = self.contents();
        self.store.put(key, data);
        assert(self.contents() =~= before.insert(key@, data@));
        Ok(())
    }
}

/// The local tier with an optional remote tier.
pub struct HybridCache<R: RemoteCache> {
    pub local: LocalCache,
    pub remote: Option<R>,
}

/// Every blob that `a` holds, `b` holds too.
pub open spec fn keeps_blobs(a: LocalCache, b: LocalCache) -> bool {
    forall|k: Seq<char>| a.data_of(k) is Some ==> #[trigger] b.data_of(k) is Some
}

impl<R: RemoteCache> HybridCache<R> {
    pub fn new(local: LocalCache, remote: Option<R>) -> (r: Self)
        ensures
            r.local == local,
            r.remote == remote,
    {
        HybridCache { local, remote }
    }

    /// Read-through lookup: the local tier first; on a local miss, the
    /// remote tier, whose blob must hash to the key and then populates the
    /// local tier. Remote failures other than an integrity failure count as
    /// a miss.
    pub fn get_artifact(&mut self, key: &str) -> (r: Result<Option<Vec<u8>>, MemoBuildError>)
        ensures
            final(self).remote == old(self).remote,
            final(self).local.root() == old(self).local.root(),
            keeps_blobs(old(self).local, final(self).local),
            forall|k: Seq<char>|
                k != key@ ==> #[trigger] final(self).local.data_of(k) == old(self).local.data_of(k),
            old(self).local.data_of(key@) is Some ==> r is Ok && opt_bytes(r->Ok_0) == old(self).local.data_of(key@) && final(self).local == old(self).local,
            old(self).local.data_of(key@) is None && old(self).remote is None ==> r == Ok::<
                Option<Vec<u8>>,
                MemoBuildError,
            >(None) && final(self).local == old(self).local,
            r is Ok && r->Ok_0 is Some ==> final(self).local.has(key@) && final(self).local.data_of(
                key@,
            ) == opt_bytes(r->Ok_0),
            r is Ok && r->Ok_0 is Some && old(self).local.data_of(key@) is None ==> old(self).remote is Some && old(self).remote->0.contents().contains_key(key@) && old(self).remote->0.contents()[key@] == r->Ok_0->0@ && blake3_hex(r->Ok_0->0@) == key@,
            r is Err ==> r->Err_0 is CASIntegrityFailure,
    {
        if let Some(d) = self.local.get_data(key) {
            return Ok(Some(d));
        }
        let got = match &self.remote {
            Some(remote) => remote.get(key),
            None => {
                return Ok(None);
            },
        };
        self.accept_remote(key, got)
    }

    /// What a read-through lookup returns once the remote tier has answered
    /// `got` for `key` after a local miss. A blob is accepted only if it
    /// hashes to the key, and then populates the local tier; a blob that does
    /// not is an integrity failure. A remote integrity failure is passed on;
    /// any other remote failure counts as a miss.
    pub fn accept_remote(&mut self, key: &str, got: Result<Option<Vec<u8>>, MemoBuildError>) -> (r:
        Result<Option<Vec<u8>>, MemoBuildError>)
        ensures
            final(self).remote == old(self).remote,
            got is Ok && got->Ok_0 is Some && blake3_hex(got->Ok_0->0@) == key@ ==> r == got
                && stored(old(self).local, final(self).local, key@, got->Ok_0->0@),
            got is Ok && got->Ok_0 is Some && blake3_hex(got->Ok_0->0@) != key@ ==> r is Err
                && final(self).local == old(self).local && match r->Err_0 {
                MemoBuildError::CASIntegrityFailure { expected, actual, data_size } => expected@
                    == key@ && actual@ == blake3_hex(got->Ok_0->0@) && data_size
                    == got->Ok_0->0@.len(),
                _ => false,
            },
            got is Ok && got->Ok_0 is None ==> r == got && final(self).local == old(self).local,
            got is Err && got->Err_0 is CASIntegrityFailure ==> r == got && final(self).local
                == old(self).local,
            got is Err && !(got->Err_0 is CASIntegrityFailure) ==> r == Ok::<
                Option<Vec<u8>>,
                MemoBuildError,
            >(None) && final(self).local == old(self).local,
    {
        match got {
            Ok(Some(data)) => {
                let digest = hash_bytes(data.as_slice());
                let dc = chars_of(digest.as_str());
                let kc = chars_of(key);
                if !chars_eq(dc.as_slice(), kc.as_slice()) {
                    return Err(
                        MemoBuildError::CASIntegrityFailure {
                            expected: key.to_owned(),
                            actual: digest,
                            data_size: data.len(),
                        },
                    );
                }
                self.local.put(key, data.as_slice());
                Ok(Some(data))
            },
            Ok(None) => Ok(None),
            Err(e) => match e {
                MemoBuildError::CASIntegrityFailure { .. } => Err(e),
                _ => Ok(None),
            },
        }
    }

    /// Write-through store: always into the local tier, then into the remote
    /// tier if there is one. A remote failure is reported as a recovered
    /// sync error; the local write stands.
    pub fn put_artifact(&mut self, key: &str, data: &[u8]) -> (r: Result<(), MemoBuildError>)
        ensures
            final(self).local.root() == old(self).local.root(),
            final(self).remote is Some == old(self).remote is Some,
            final(self).local.has(key@),
            final(self).local.data_of(key@) == Some(data@),
            forall|k: Seq<char>|
                k != key@ ==> #[trigger] final(self).local.data_of(k) == old(self).local.data_of(k),
            keeps_blobs(old(self).local, final(self).local),
            old(self).remote is None ==> r is Ok,
            r is Ok && old(self).remote is Some ==> final(self).remote->0.contents() == old(self).remote->0.contents().insert(key@, data@),
            r is Err ==> r->Err_0 is SyncError && r->Err_0->SyncError_recovered,
    {
        self.local.put(key, data);
        let mut remote = self.remote.take();
        let res = match &mut remote {
            Some(rm) => rm.put(key, data),
            None => Ok(()),
        };
        self.remote = remote;
        sync_result(res)
    }
}

/// What a write-through store reports once the local write has succeeded
/// and the remote tier answered `remote`: success, or the remote failure as
/// a recovered sync error carrying the failure's message.
pub fn sync_result(remote: Result<(), MemoBuildError>) -> (r: Result<(), MemoBuildError>)
    ensures
        remote is Ok ==> r is Ok,
        remote is Err ==> r is Err && match r->Err_0 {
            MemoBuildError::SyncError { message, recovered } => recovered && message@
                == message_spec(remote->Err_0),
            _ => false,
        },
{
    match remote {
        Ok(()) => Ok(()),
        Err(e) => Err(MemoBuildError::SyncError { message: e.to_string(), recovered: true }),
    }
}

/// Storing a blob and then reading its key gives the blob back, and the
/// index then has the key.
pub proof fn lemma_put_get_round_trip(
    before: LocalCache,
    after: LocalCache,
    key: Seq<char>,
    data: Seq<u8>,
)
    requires
        stored(before, after, key, data),
    ensures
        after.data_of(key) == Some(data),
        after.has(key),
{
}

} // verus!
