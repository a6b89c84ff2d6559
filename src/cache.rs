//! The cache contract, a versioned key/value store that keeps a bounded history
//! per key, and the settings of a durable-log backed cache.

use vstd::prelude::*;

verus! {

/// Keys that override the defaults a stage stores and reads its state under.
#[derive(Clone, Debug)]
pub struct CacheOptions {
    pub insert_key: Option<String>,
    pub retrieve_key: Option<String>,
}

#[derive(Clone, Debug, PartialEq, Eq, Structural)]
pub enum CacheError {
    /// Nothing is stored under the key.
    NotFound,
    /// `init` has not bound the cache to a bucket.
    NotInitialized,
    /// Revision numbers have run out.
    RevisionsExhausted,
    MissingCredentials,
}

/// The value a read of `key` finds, if any.
pub open spec fn lookup(contents: Map<Seq<char>, Seq<u8>>, key: Seq<char>) -> Option<Seq<u8>> {
    if contents.contains_key(key) {
        Some(contents[key])
    } else {
        None
    }
}

/// A key/value store that a stage keeps state in across runs.
pub trait Cache: Sized {
    /// The latest value under each key.
    spec fn contents(&self) -> Map<Seq<char>, Seq<u8>>;

    /// What the store keeps true of itself between calls.
    spec fn wf(&self) -> bool;

    /// Binds the store to a bucket, creating the bucket when it is absent; what
    /// the store holds is kept.
    fn init(self, bucket: &str) -> (r: Result<Self, CacheError>)
        requires
            self.wf(),
        ensures
            r matches Ok(c) ==> c.wf() && c.contents() == self.contents(),
    ;

    /// Stores `value` as the latest value under `key`; on failure nothing changes.
    fn put(&mut self, key: &str, value: Vec<u8>) -> (r: Result<(), CacheError>)
        requires
            old(self).wf(),
        ensures
            final(self).wf(),
            r is Ok ==> final(self).contents() == old(self).contents().insert(key@, value@),
            r is Err ==> final(self).contents() == old(self).contents(),
    ;

    /// The latest value under `key`; `NotFound` only where there is none.
    fn get(&self, key: &str) -> (r: Result<Vec<u8>, CacheError>)
        requires
            self.wf(),
        ensures
            r matches Ok(v) ==> lookup(self.contents(), key@) == Some(v@),
            r == Err::<Vec<u8>, CacheError>(CacheError::NotFound) ==> lookup(
                self.contents(),
                key@,
            ) is None,
    ;
}

/// How many revisions of each key a store keeps unless told otherwise.
pub const DEFAULT_HISTORY: usize = 10;

/// The last `n` items of `s` (all of them when there are no more).
pub open spec fn keep_last(s: Seq<Seq<u8>>, n: nat) -> Seq<Seq<u8>> {
    if s.len() > n {
        s.subrange(s.len() - n, s.len() as int)
    } else {
        s
    }
}

/// The values a key retains, oldest first; none for a key never put.
pub open spec fn retained_of(m: Map<Seq<char>, Seq<Seq<u8>>>, key: Seq<char>) -> Seq<Seq<u8>> {
    if m.contains_key(key) {
        m[key]
    } else {
        Seq::empty()
    }
}

pub open spec fn values_of(revisions: Seq<Revision>) -> Seq<Seq<u8>> {
    revisions.map_values(|r: Revision| r.value@)
}

/// One stored value and the revision it was written at.
#[derive(Clone, Debug)]
pub struct Revision {
    pub revision: u64,
    pub value: Vec<u8>,
}

/// The retained revisions of one key, oldest first.
#[derive(Clone, Debug)]
pub struct CacheEntry {
    pub key: String,
    pub revisions: Vec<Revision>,
}

/// An in-memory versioned store: every put gets a new, larger revision number,
/// and each key keeps its last `history` revisions.
pub struct VersionedCache {
    bucket: Option<String>,
    history: usize,
    entries: Vec<CacheEntry>,
    next_revision: u64,
    retained: Ghost<Map<Seq<char>, Seq<Seq<u8>>>>,
}

impl VersionedCache {
    pub closed spec fn bucket_name(&self) -> Option<Seq<char>> {
        match self.bucket {
            Some(b) => Some(b@),
            None => None,
        }
    }

    /// Revision numbers are not yet used up.
    pub closed spec fn revisions_left(&self) -> bool {
        self.next_revision < u64::MAX
    }

    /// The values each key retains, oldest first.
    pub closed spec fn retained(&self) -> Map<Seq<char>, Seq<Seq<u8>>> {
        self.retained@
    }

    pub closed spec fn history_limit(&self) -> nat {
        self.history as nat
    }

    /// An empty store, not yet bound to a bucket, that keeps `history`
    /// revisions of each key (at least one).
    pub fn new(history: usize) -> (r: VersionedCache)
        ensures
            r.wf(),
            r.contents() == Map::<Seq<char>, Seq<u8>>::empty(),
            r.retained() == Map::<Seq<char>, Seq<Seq<u8>>>::empty(),
            r.bucket_name() is None,
            r.revisions_left(),
            r.history_limit() == if history == 0 {
                1
            } else {
                history as nat
            },
    {
        VersionedCache {
            bucket: None,
            history: if history == 0 {
                1
            } else {
                history
            },
            entries: Vec::new(),
            next_revision: 1,
            retained: Ghost(Map::empty()),
        }
    }

    /// The position of `key`'s entry.
    fn find(&self, key: &String) -> (r: Option<usize>)
        requires
            self.wf(),
        ensures
            r matches Some(i) ==> i < self.entries@.len() && self.entries@[i as int].key@ == key@,
            r is None ==> !self.contents().contains_key(key@),
            r is None ==> forall|j: int|
                0 <= j < self.entries@.len() ==> #[trigger] self.entries@[j].key@ != key@,
    {
        let mut i: usize = 0;
        while i < self.entries.len()
            invariant
                self.wf(),
                i <= self.entries@.len(),
                forall|k: int| 0 <= k < i ==> #[trigger] self.entries@[k].key@ != key@,
            decreases self.entries@.len() - i,
        {
            if self.entries[i].key == *key {
                return Some(i);
            }
            i = i + 1;
        }
        None
    }

    /// The retained values under `key`, oldest first; the last is the latest.
    pub fn revisions(&self, key: &str) -> (r: Vec<Vec<u8>>)
        requires
            self.wf(),
        ensures
            r@.map_values(|x: Vec<u8>| x@) == retained_of(self.retained(), key@),
            r@.len() <= self.history_limit(),
            lookup(self.contents(), key@) is None <==> r@.len() == 0,
            r@.len() > 0 ==> lookup(self.contents(), key@) == Some(r@.last()@),
    {
        let k = key.to_string();
        match self.find(&k) {
            None => Vec::new(),
            Some(i) => {
                let revs = &self.entries[i].revisions;
                let mut r: Vec<Vec<u8>> = Vec::new();
                let mut j: usize = 0;
                while j < revs.len()
                    invariant
                        j <= revs@.len(),
                        r@.len() == j,
                        forall|a: int| 0 <= a < j ==> #[trigger] r@[a]@ == revs@[a].value@,
                    decreases revs@.len() - j,
                {
                    let v = revs[j].value.clone();
                    assert(v@ =~= revs@[j as int].value@);
                    r.push(v);
                    j = j + 1;
                }
                assert(self.entries@[i as int].revisions@.len() >= 1);
                assert(r@.map_values(|x: Vec<u8>| x@) =~= values_of(revs@));
                assert(values_of(revs@).last() == revs@.last().value@);
                r
            },
        }
    }
}

impl Cache for VersionedCache {
    closed spec fn wf(&self) -> bool {
        &&& self.history >= 1
        &&& forall|i: int, j: int|
            0 <= i < j < self.entries@.len() ==> #[trigger] self.entries@[i].key@
                != #[trigger] self.entries@[j].key@
        &&& forall|i: int|
            #![trigger self.entries@[i]]
            0 <= i < self.entries@.len() ==> {
                let e = self.entries@[i];
                &&& 1 <= e.revisions@.len() <= self.history
                &&& self.retained@.contains_key(e.key@)
                &&& self.retained@[e.key@] == values_of(e.revisions@)
                &&& forall|a: int, b: int|
                    0 <= a < b < e.revisions@.len() ==> #[trigger] e.revisions@[a].revision
                        < #[trigger] e.revisions@[b].revision
                &&& forall|a: int|
                    0 <= a < e.revisions@.len() ==> #[trigger] e.revisions@[a].revision
                        < self.next_revision
            }
        &&& forall|k: Seq<char>|
            #[trigger] self.retained@.contains_key(k) ==> exists|i: int|
                0 <= i < self.entries@.len() && #[trigger] self.entries@[i].key@ == k
    }

    closed spec fn contents(&self) -> Map<Seq<char>, Seq<u8>> {
        Map::new(|k: Seq<char>| self.retained@.contains_key(k), |k: Seq<char>| self.retained@[k].last())
    }

    fn init(self, bucket: &str) -> (r: Result<Self, CacheError>)
        ensures
            r matches Ok(c) ==> c.bucket_name() == Some(bucket@) && c.history_limit()
                == self.history_limit() && c.revisions_left() == self.revisions_left()
                && c.retained() == self.retained(),
            r is Ok,
    {
        let ghost before = self;
        let c = VersionedCache {
            bucket: Some(bucket.to_string()),
            history: self.history,
            entries: self.entries,
            next_revision: self.next_revision,
            retained: self.retained,
        };
        assert(c.entries@ == before.entries@ && c.retained@ == before.retained@);
        assert(c.contents() =~= before.contents());
        Ok(c)
    }

    fn put(&mut self, key: &str, value: Vec<u8>) -> (r: Result<(), CacheError>)
        ensures
            final(self).bucket_name() == old(self).bucket_name(),
            final(self).history_limit() == old(self).history_limit(),
            r is Ok <==> old(self).bucket_name() is Some && old(self).revisions_left(),
            r == Err::<(), CacheError>(CacheError::NotInitialized) <==> old(self).bucket_name() is None,
            r is Ok ==> final(self).retained() == old(self).retained().insert(
                key@,
                keep_last(retained_of(old(self).retained(), key@).push(value@), old(self).history_limit()),
            ),
            r is Err ==> final(self).retained() == old(self).retained(),
    {
        if self.bucket.is_none() {
            return Err(CacheError::NotInitialized);
        }
        if self.next_revision == u64::MAX {
            return Err(CacheError::RevisionsExhausted);
        }
        let k = key.to_string();
        let ghost v = value@;
        let ghost old_entries = self.entries@;
        let revision = self.next_revision;
        let ghost old_retained = self.retained@;
        let ghost old_contents = self.contents();
        let ghost history = self.history;
        let ghost mut pos: int = 0;
        let ghost new_hist = keep_last(retained_of(old_retained, k@).push(v), history as nat);
        match self.find(&k) {
            Some(i) => {
                let mut entry = self.entries.remove(i);
                assert(entry == old_entries[i as int]);
                let ghost old_revs = entry.revisions@;
                let rv = Revision { revision, value };
                let ghost grv = rv;
                entry.revisions.push(rv);
                if entry.revisions.len() > self.history {
                    entry.revisions.remove(0);
                }
                let ghost new_revs = entry.revisions@;
                proof {
                    if old_revs.len() + 1 > history {
                        assert(new_revs =~= old_revs.push(grv).subrange(1, old_revs.len() + 1 as int));
                    } else {
                        assert(new_revs =~= old_revs.push(grv));
                    }
                    assert(1 <= new_revs.len() <= history);
                    assert(new_revs.last().revision == revision);
                    assert(new_revs.last().value@ == v);
                    assert(old_retained[k@] == values_of(old_revs));
                    assert(values_of(new_revs) =~= new_hist);
                    assert forall|a: int| 0 <= a < new_revs.len() - 1 implies old_revs.contains(
                        #[trigger] new_revs[a],
                    ) by {
                        if old_revs.len() + 1 > history {
                            assert(new_revs[a] == old_revs[a + 1]);
                        } else {
                            assert(new_revs[a] == old_revs[a]);
                        }
                    }
                }
                self.entries.insert(i, entry);
                proof {
                    pos = i as int;
                    let ne = self.entries@;
                    assert(ne =~= old_entries.update(i as int, ne[i as int]));
                    assert forall|j: int| #![trigger ne[j]] 0 <= j < ne.len() implies {
                        let e = ne[j];
                        &&& 1 <= e.revisions@.len() <= history
                        &&& forall|a: int, b: int|
                            0 <= a < b < e.revisions@.len() ==> #[trigger] e.revisions@[a].revision
                                < #[trigger] e.revisions@[b].revision
                        &&& forall|a: int|
                            0 <= a < e.revisions@.len() ==> #[trigger] e.revisions@[a].revision
                                < revision + 1
                    } by {
                        if j == i {
                            assert forall|a: int, b: int|
                                0 <= a < b < new_revs.len() implies #[trigger] new_revs[a].revision
                                < #[trigger] new_revs[b].revision by {
                                assert(old_revs.contains(new_revs[a]));
                                if b < new_revs.len() - 1 {
                                    assert(old_revs.contains(new_revs[b]));
                                    if old_revs.len() + 1 > history {
                                        assert(new_revs[a] == old_revs[a + 1]);
                                        assert(new_revs[b] == old_revs[b + 1]);
                                    } else {
                                        assert(new_revs[a] == old_revs[a]);
                                        assert(new_revs[b] == old_revs[b]);
                                    }
                                }
                            }
                            assert forall|a: int| 0 <= a < new_revs.len() implies #[trigger] new_revs[
                                a].revision < revision + 1 by {
                                if a < new_revs.len() - 1 {
                                    assert(old_revs.contains(new_revs[a]));
                                }
                            }
                        } else {
                            assert(ne[j] == old_entries[j]);
                        }
                    }
                }
            },
            None => {
                let mut revisions: Vec<Revision> = Vec::new();
                revisions.push(Revision { revision, value });
                self.entries.push(CacheEntry { key: k, revisions });
                proof {
                    pos = old_entries.len() as int;
                    assert(!old_retained.contains_key(k@));
                    assert(values_of(self.entries@[pos].revisions@) =~= new_hist);
                    let ne = self.entries@;
                    assert forall|j: int| 0 <= j < old_entries.len() implies #[trigger] ne[j]
                        == old_entries[j] by {}
                }
            },
        }
        self.next_revision = revision + 1;
        self.retained = Ghost(self.retained@.insert(k@, new_hist));
        proof {
            let ne = self.entries@;
            assert forall|k2: Seq<char>| #[trigger] self.retained@.contains_key(k2) implies exists|j: int|
                0 <= j < ne.len() && #[trigger] ne[j].key@ == k2 by {
                if k2 != k@ {
                    let j = choose|j: int| 0 <= j < old_entries.len() && #[trigger] old_entries[j].key@ == k2;
                    assert(ne[j].key@ == k2);
                } else {
                    assert(ne[pos].key@ == k2);
                }
            }
            assert forall|j: int| #![trigger ne[j]] 0 <= j < ne.len() implies {
                &&& self.retained@.contains_key(ne[j].key@)
                &&& self.retained@[ne[j].key@] == values_of(ne[j].revisions@)
            } by {
                if j != pos {
                    assert(ne[j] == old_entries[j]);
                    assert(old_entries[j].key@ != k@);
                }
            }
            assert(new_hist.last() == v);
            assert(self.contents() =~= old_contents.insert(k@, v));
        }
        Ok(())
    }

    fn get(&self, key: &str) -> (r: Result<Vec<u8>, CacheError>)
        ensures
            self.bucket_name() is None ==> r == Err::<Vec<u8>, CacheError>(
                CacheError::NotInitialized,
            ),
            self.bucket_name() is Some ==> (r is Ok <==> lookup(self.contents(), key@) is Some),
            self.bucket_name() is Some && r is Err ==> r == Err::<Vec<u8>, CacheError>(
                CacheError::NotFound,
            ),
    {
        if self.bucket.is_none() {
            return Err(CacheError::NotInitialized);
        }
        let k = key.to_string();
        match self.find(&k) {
            None => Err(CacheError::NotFound),
            Some(i) => {
                let revs = &self.entries[i].revisions;
                let v = revs[revs.len() - 1].value.clone();
                assert(v@ =~= revs@.last().value@);
                assert(values_of(revs@).last() == revs@.last().value@);
                Ok(v)
            },
        }
    }
}

/// A value that a successful put stored under a key is what a get of that key
/// then returns, whatever the store held before; a get of a key that holds
/// nothing cannot return a value.
pub proof fn lemma_put_then_get<C: Cache>(
    before: C,
    after: C,
    key: Seq<char>,
    value: Seq<u8>,
    other: Seq<char>,
)
    requires
        after.contents() == before.contents().insert(key, value),
        !before.contents().contains_key(other),
        other != key,
    ensures
        lookup(after.contents(), key) == Some(value),
        lookup(after.contents(), other) is None,
{
}

/// The settings of a cache kept in a durable log's key/value buckets.
#[derive(Clone, Debug)]
pub struct KvCache {
    pub credentials_path: String,
}

/// The bucket that `init` creates when it finds none.
#[derive(Clone, Debug)]
pub struct KvBucketConfig {
    pub bucket: String,
    pub history: usize,
}

impl KvCache {
    /// A bucket of the given name that keeps the default number of revisions.
    pub fn bucket_config(&self, bucket: &str) -> (r: KvBucketConfig)
        ensures
            r.bucket@ == bucket@,
            r.history == DEFAULT_HISTORY,
    {
        KvBucketConfig { bucket: bucket.to_string(), history: DEFAULT_HISTORY }
    }
}

#[derive(Clone, Debug)]
pub struct CacheBuilder {
    pub credentials_path: Option<String>,
}

impl CacheBuilder {
    pub fn new() -> (r: CacheBuilder)
        ensures
            r.credentials_path is None,
    {
        CacheBuilder { credentials_path: None }
    }

    pub fn credentials_path(self, credentials_path: String) -> (r: CacheBuilder)
        ensures
            r.credentials_path == Some(credentials_path),
    {
        CacheBuilder { credentials_path: Some(credentials_path) }
    }

    /// Fails exactly when no credentials were given.
    pub fn build(self) -> (r: Result<KvCache, CacheError>)
        ensures
            self.credentials_path is None <==> r == Err::<KvCache, CacheError>(
                CacheError::MissingCredentials,
            ),
            r is Ok <==> self.credentials_path is Some,
            r matches Ok(c) ==> Some(c.credentials_path) == self.credentials_path,
    {
        match self.credentials_path {
            Some(credentials_path) => Ok(KvCache { credentials_path }),
            None => Err(CacheError::MissingCredentials),
        }
    }
}

} // verus!
