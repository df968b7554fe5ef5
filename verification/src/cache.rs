//! The cache's keys and markers, the reading of what the cache returned, and the
//! once-only initialisation of the shared cache manager.

use vstd::prelude::*;
use crate::types::{IdType, id_text};
use crate::config::{CacheConfig, CacheStrategy};
use crate::text::{push_i64, int_digits, str_to_string, str_eq, str_starts_with};

verus! {

/// The byte string stored for a cached empty result.
pub open spec fn null_marker() -> Seq<u8> {
    seq![
        67u8, 65u8, 67u8, 72u8, 69u8, 95u8, 78u8, 85u8, 76u8, 76u8, 95u8, 86u8, 65u8, 76u8, 85u8, 69u8, 95u8, 50u8,
        48u8, 50u8, 53u8,
    ]
}

/// What a cache lookup found.
#[derive(Debug)]
pub enum CacheLookup {
    /// Cached rows, still serialised.
    Rows(Vec<u8>),
    /// A cached empty result.
    Empty,
    /// Nothing cached.
    Miss,
}

/// The cache's shortcuts for the adapters.
#[derive(Debug, Clone, Copy)]
pub struct CacheOps;

/// `{db_type}:{table}:record:{id}`.
pub open spec fn record_key(db_type: Seq<char>, table: Seq<char>, id: IdType) -> Seq<char> {
    db_type + ":"@ + table + ":record:"@ + id_text(id)
}

/// `{db_type}:{table}:query:{hash}`.
pub open spec fn query_key(db_type: Seq<char>, table: Seq<char>, hash: Seq<char>) -> Seq<char> {
    db_type + ":"@ + table + ":query:"@ + hash
}

impl CacheOps {
    /// Whether the shared cache manager has been initialised.
    pub fn is_initialized<M>(manager: &GlobalCacheManager<M>) -> (r: bool)
        ensures
            r == manager.is_set(),
    {
        manager.is_initialized()
    }

    /// The bytes stored for a cached empty result (`CACHE_NULL_VALUE_2025`).
    pub fn null_marker() -> (r: Vec<u8>)
        ensures
            r@ == null_marker(),
    {
        let r: Vec<u8> = vec![
            67u8, 65u8, 67u8, 72u8, 69u8, 95u8, 78u8, 85u8, 76u8, 76u8, 95u8, 86u8, 65u8, 76u8, 85u8, 69u8, 95u8,
            50u8, 48u8, 50u8, 53u8,
        ];
        proof {
            assert(r@ =~= null_marker());
        }
        r
    }

    /// The key of a cached record.
    pub fn generate_record_key(db_type: &str, table: &str, id: &IdType) -> (r: String)
        ensures
            r@ == record_key(db_type@, table@, *id),
    {
        let mut s = str_to_string(db_type);
        s.append(":");
        s.append(table);
        s.append(":record:");
        match id {
            IdType::Number(n) => push_i64(&mut s, *n),
            IdType::String(t) => s.append(t.as_str()),
        }
        s
    }

    /// The key of a cached query result.
    pub fn generate_query_key(db_type: &str, table: &str, query_hash: &str) -> (r: String)
        ensures
            r@ == query_key(db_type@, table@, query_hash@),
    {
        let mut s = str_to_string(db_type);
        s.append(":");
        s.append(table);
        s.append(":query:");
        s.append(query_hash);
        s
    }

    /// The prefix of every key of a table: `{db_type}:{table}:`.
    pub fn table_prefix(db_type: &str, table: &str) -> (r: String)
        ensures
            r@ == db_type@ + ":"@ + table@ + ":"@,
    {
        let mut s = str_to_string(db_type);
        s.append(":");
        s.append(table);
        s.append(":");
        s
    }

    /// The prefix of every key of a database kind: `{db_type}:`.
    pub fn database_prefix(db_type: &str) -> (r: String)
        ensures
            r@ == db_type@ + ":"@,
    {
        let mut s = str_to_string(db_type);
        s.append(":");
        s
    }

    /// The bytes to store for a result: its serialised rows, or the empty marker.
    pub fn payload(rows: Option<Vec<u8>>) -> (r: Vec<u8>)
        ensures
            match rows {
                Some(b) => r@ == b@,
                None => r@ == null_marker(),
            },
    {
        match rows {
            Some(b) => b,
            None => CacheOps::null_marker(),
        }
    }

    /// Reads what the cache returned: a hit with the empty marker is an empty
    /// result, a hit with other bytes is cached rows, a hit without bytes is an
    /// empty result, and a miss is a miss (whatever bytes came with it).
    pub fn lookup_outcome(hit: bool, data: Option<Vec<u8>>) -> (r: CacheLookup)
        ensures
            !hit ==> r is Miss,
            hit && data is None ==> r is Empty,
            hit && data is Some && data->0@ == null_marker() ==> r is Empty,
            hit && data is Some && data->0@ != null_marker() ==> (r matches CacheLookup::Rows(x) && x@ == data->0@),
    {
        if !hit {
            return CacheLookup::Miss;
        }
        match data {
            None => CacheLookup::Empty,
            Some(b) => {
                let m = CacheOps::null_marker();
                let mut same = b.len() == m.len();
                let mut i: usize = 0;
                while same && i < b.len()
                    invariant
                        m@ == null_marker(),
                        same ==> b.len() == m.len(),
                        i <= b.len(),
                        same ==> forall|j: int| 0 <= j < i ==> b@[j] == m@[j],
                        !same ==> b@ != m@,
                    decreases b.len() - i,
                {
                    if b[i] != m[i] {
                        same = false;
                    }
                    i = i + 1;
                }
                proof {
                    if same {
                        assert(b@ =~= m@);
                    }
                }
                if same {
                    CacheLookup::Empty
                } else {
                    CacheLookup::Rows(b)
                }
            },
        }
    }
}

/// Errors of the shared cache manager.
#[derive(Debug, Clone)]
pub enum GlobalCacheError {
    NotInitialized,
    AlreadyInitialized,
    /// The manager could not be built from its configuration.
    ConfigError(String),
}

/// The display text of a cache manager error.
pub open spec fn cache_error_text(e: GlobalCacheError) -> Seq<char> {
    match e {
        GlobalCacheError::NotInitialized => "缓存管理器未初始化"@,
        GlobalCacheError::AlreadyInitialized => "缓存管理器已初始化，不能重复初始化"@,
        GlobalCacheError::ConfigError(m) => "缓存配置错误: "@ + m@,
    }
}

impl GlobalCacheError {
    /// The error's display text.
    pub fn to_string(&self) -> (r: String)
        ensures
            r@ == cache_error_text(*self),
    {
        match self {
            GlobalCacheError::NotInitialized => str_to_string("缓存管理器未初始化"),
            GlobalCacheError::AlreadyInitialized => str_to_string("缓存管理器已初始化，不能重复初始化"),
            GlobalCacheError::ConfigError(m) => {
                let mut s = str_to_string("缓存配置错误: ");
                s.append(m.as_str());
                s
            },
        }
    }
}

/// The slot for the shared cache manager: empty until initialised, then set for good.
#[derive(Debug)]
pub struct GlobalCacheManager<M> {
    slot: Option<M>,
}

impl<M> GlobalCacheManager<M> {
    /// Whether a manager has been set.
    pub closed spec fn is_set(&self) -> bool {
        self.slot is Some
    }

    /// The manager that has been set.
    pub closed spec fn manager(&self) -> M {
        self.slot->0
    }

    /// An empty slot.
    pub fn new() -> (r: GlobalCacheManager<M>)
        ensures
            !r.is_set(),
    {
        GlobalCacheManager { slot: None }
    }

    /// Sets the manager; fails with `AlreadyInitialized`, leaving the slot as it
    /// was, when one is already set.
    pub fn initialize(&mut self, manager: M) -> (r: Result<(), GlobalCacheError>)
        ensures
            old(self).is_set() ==> (r matches Err(GlobalCacheError::AlreadyInitialized) && *final(self) == *old(self)),
            !old(self).is_set() ==> r is Ok && final(self).is_set() && final(self).manager() == manager,
    {
        if self.slot.is_some() {
            Err(GlobalCacheError::AlreadyInitialized)
        } else {
            self.slot = Some(manager);
            Ok(())
        }
    }

    /// The manager, if set.
    pub fn get(&self) -> (r: Option<&M>)
        ensures
            self.is_set() ==> (r matches Some(m) && *m == self.manager()),
            !self.is_set() ==> r is None,
    {
        match &self.slot {
            Some(m) => Some(m),
            None => None,
        }
    }

    /// The manager, or `NotInitialized`.
    pub fn get_or_error(&self) -> (r: Result<&M, GlobalCacheError>)
        ensures
            self.is_set() ==> (r matches Ok(m) && *m == self.manager()),
            !self.is_set() ==> r matches Err(GlobalCacheError::NotInitialized),
    {
        match &self.slot {
            Some(m) => Ok(m),
            None => Err(GlobalCacheError::NotInitialized),
        }
    }

    /// Whether a manager has been set.
    pub fn is_initialized(&self) -> (r: bool)
        ensures
            r == self.is_set(),
    {
        self.slot.is_some()
    }
}

// ---------------------------------------------------------------------------
// The key index: which keys the cache holds, and how often each was read
// ---------------------------------------------------------------------------

/// The map of (key, count) pairs, later pairs overriding earlier ones.
pub open spec fn index_map(s: Seq<(Seq<char>, usize)>) -> Map<Seq<char>, usize>
    decreases s.len(),
{
    if s.len() == 0 {
        Map::empty()
    } else {
        index_map(s.drop_last()).insert(s.last().0, s.last().1)
    }
}

/// No key occurs twice.
pub open spec fn keys_distinct(s: Seq<(Seq<char>, usize)>) -> bool {
    forall|i: int, j: int| 0 <= i < j < s.len() ==> s[i].0 != s[j].0
}

/// With distinct keys the map holds exactly the pairs.
pub proof fn lemma_index_map(s: Seq<(Seq<char>, usize)>)
    requires
        keys_distinct(s),
    ensures
        forall|k: Seq<char>| #[trigger] index_map(s).dom().contains(k) <==> exists|i: int| 0 <= i < s.len() && s[i].0 == k,
        forall|i: int| 0 <= i < s.len() ==> #[trigger] index_map(s)[s[i].0] == s[i].1,
    decreases s.len(),
{
    if s.len() > 0 {
        let p = s.drop_last();
        assert(keys_distinct(p));
        lemma_index_map(p);
        assert forall|k: Seq<char>| #[trigger] index_map(s).dom().contains(k) implies exists|i: int| 0 <= i < s.len() && s[i].0 == k by {
            if k == s.last().0 {
                assert(s[s.len() - 1].0 == k);
            } else {
                assert(index_map(p).dom().contains(k));
                let i = choose|i: int| 0 <= i < p.len() && p[i].0 == k;
                assert(s[i].0 == k);
            }
        }
        assert forall|k: Seq<char>| (exists|i: int| 0 <= i < s.len() && s[i].0 == k) implies #[trigger] index_map(s).dom().contains(k) by {
            let i = choose|i: int| 0 <= i < s.len() && s[i].0 == k;
            if i < s.len() - 1 {
                assert(p[i].0 == k);
            }
        }
        assert forall|i: int| 0 <= i < s.len() implies #[trigger] index_map(s)[s[i].0] == s[i].1 by {
            if i < s.len() - 1 {
                assert(p[i] == s[i]);
                assert(s[i].0 != s.last().0);
            }
        }
    }
}

/// Two pair sequences with distinct keys and the same pairs (as a set) give the same map.
proof fn lemma_index_map_ext(a: Seq<(Seq<char>, usize)>, m: Map<Seq<char>, usize>)
    requires
        keys_distinct(a),
        forall|k: Seq<char>| #[trigger] m.dom().contains(k) <==> exists|i: int| 0 <= i < a.len() && a[i].0 == k,
        forall|i: int| 0 <= i < a.len() ==> #[trigger] m.dom().contains(a[i].0) && m[a[i].0] == a[i].1,
    ensures
        index_map(a) == m,
{
    lemma_index_map(a);
    assert forall|k: Seq<char>| #[trigger] index_map(a).dom().contains(k) <==> m.dom().contains(k) by {}
    assert forall|k: Seq<char>| #[trigger] index_map(a).dom().contains(k) implies index_map(a)[k] == m[k] by {
        let i = choose|i: int| 0 <= i < a.len() && a[i].0 == k;
        assert(index_map(a)[a[i].0] == a[i].1);
    }
    assert(index_map(a) =~= m);
}

/// The keys that the cache holds, with the number of reads that found each.
///
/// Each key occurs once. A stored key counts from 0; a read that finds it adds one.
#[derive(Debug)]
pub struct KeyIndex {
    entries: Vec<(String, usize)>,
}

impl KeyIndex {
    /// The (key, count) pairs, in insertion order.
    pub closed spec fn pairs(self) -> Seq<(Seq<char>, usize)> {
        self.entries@.map_values(|p: (String, usize)| (p.0@, p.1))
    }

    /// The counts, by key.
    pub open spec fn counts(self) -> Map<Seq<char>, usize> {
        index_map(self.pairs())
    }

    /// Each key occurs once.
    pub open spec fn wf(self) -> bool {
        keys_distinct(self.pairs())
    }

    /// An empty index.
    pub fn new() -> (r: KeyIndex)
        ensures
            r.wf(),
            r.counts() == Map::<Seq<char>, usize>::empty(),
    {
        let r = KeyIndex { entries: Vec::new() };
        proof {
            assert(r.pairs() =~= Seq::<(Seq<char>, usize)>::empty());
        }
        r
    }

    fn find(&self, key: &str) -> (r: Option<usize>)
        ensures
            match r {
                Some(i) => i < self.pairs().len() && self.pairs()[i as int].0 == key@,
                None => forall|i: int| 0 <= i < self.pairs().len() ==> self.pairs()[i].0 != key@,
            },
    {
        let mut i: usize = 0;
        while i < self.entries.len()
            invariant
                i <= self.entries.len(),
                self.pairs().len() == self.entries@.len(),
                forall|j: int| 0 <= j < i ==> self.pairs()[j].0 != key@,
            decreases self.entries.len() - i,
        {
            assert(self.pairs()[i as int] == (self.entries@[i as int].0@, self.entries@[i as int].1));
            if str_eq(self.entries[i].0.as_str(), key) {
                return Some(i);
            }
            i = i + 1;
        }
        None
    }

    /// The number of reads that found `key`, if the cache holds it.
    pub fn count(&self, key: &str) -> (r: Option<usize>)
        requires
            self.wf(),
        ensures
            r == self.counts().get(key@),
    {
        proof {
            lemma_index_map(self.pairs());
        }
        match self.find(key) {
            Some(i) => {
                assert(self.pairs()[i as int] == (self.entries@[i as int].0@, self.entries@[i as int].1));
                Some(self.entries[i].1)
            },
            None => {
                assert(!self.counts().dom().contains(key@));
                None
            },
        }
    }

    /// The number of keys.
    pub fn len(&self) -> (r: usize)
        requires
            self.wf(),
        ensures
            r == self.counts().len(),
    {
        proof {
            lemma_index_map(self.pairs());
            lemma_index_len(self.pairs());
        }
        self.entries.len()
    }
}

/// With distinct keys the map has one key per pair.
proof fn lemma_index_len(s: Seq<(Seq<char>, usize)>)
    requires
        keys_distinct(s),
    ensures
        index_map(s).len() == s.len(),
        index_map(s).dom().finite(),
    decreases s.len(),
{
    if s.len() > 0 {
        let p = s.drop_last();
        assert(keys_distinct(p));
        lemma_index_len(p);
        lemma_index_map(p);
        assert(!index_map(p).dom().contains(s.last().0)) by {
            if index_map(p).dom().contains(s.last().0) {
                let i = choose|i: int| 0 <= i < p.len() && p[i].0 == s.last().0;
                assert(s[i].0 == s[s.len() - 1].0);
            }
        }
    }
}

/// Whether some key of `keys` is `k`.
pub open spec fn names_key(keys: Seq<String>, k: Seq<char>) -> bool {
    exists|i: int| 0 <= i < keys.len() && keys[i]@ == k
}

impl KeyIndex {
    /// A value was stored under `key`: the key is indexed, from 0 when new.
    pub fn record_stored(&mut self, key: &str)
        requires
            old(self).wf(),
        ensures
            final(self).wf(),
            final(self).counts() == if old(self).counts().dom().contains(key@) {
                old(self).counts()
            } else {
                old(self).counts().insert(key@, 0)
            },
    {
        proof {
            lemma_index_map(self.pairs());
        }
        match self.find(key) {
            Some(_) => {},
            None => {
                let ghost p0 = self.pairs();
                self.entries.push((str_to_string(key), 0));
                proof {
                    assert(self.pairs() =~= p0.push((key@, 0usize)));
                    assert(self.pairs().drop_last() =~= p0);
                }
            },
        }
    }

    /// A read found `key`: its count goes up by one (from 0 when it was not indexed).
    pub fn record_hit(&mut self, key: &str)
        requires
            old(self).wf(),
            old(self).counts().get(key@) != Some(usize::MAX),
        ensures
            final(self).wf(),
            final(self).counts() == old(self).counts().insert(
                key@,
                match old(self).counts().get(key@) {
                    Some(c) => (c + 1) as usize,
                    None => 1usize,
                },
            ),
    {
        proof {
            lemma_index_map(self.pairs());
        }
        let ghost p0 = self.pairs();
        let ghost m0 = self.counts();
        match self.find(key) {
            Some(i) => {
                assert(p0[i as int] == (self.entries@[i as int].0@, self.entries@[i as int].1));
                let c = self.entries[i].1;
                let k = self.entries[i].0.clone();
                self.entries.set(i, (k, c + 1));
                proof {
                    let p1 = self.pairs();
                    assert(p1 =~= p0.update(i as int, (key@, (c + 1) as usize)));
                    assert(keys_distinct(p1));
                    let m1 = m0.insert(key@, (c + 1) as usize);
                    assert forall|j: int| 0 <= j < p1.len() implies #[trigger] m1.dom().contains(p1[j].0) && m1[p1[j].0] == p1[j].1 by {
                        if j != i {
                            assert(p1[j] == p0[j]);
                            assert(m0[p0[j].0] == p0[j].1);
                        }
                    }
                    assert forall|k2: Seq<char>| #[trigger] m1.dom().contains(k2) <==> exists|j: int| 0 <= j < p1.len() && p1[j].0 == k2 by {
                        if m1.dom().contains(k2) {
                            if k2 == key@ {
                                assert(p1[i as int].0 == k2);
                            } else {
                                let j = choose|j: int| 0 <= j < p0.len() && p0[j].0 == k2;
                                assert(p1[j].0 == k2);
                            }
                        }
                        if exists|j: int| 0 <= j < p1.len() && p1[j].0 == k2 {
                            let j = choose|j: int| 0 <= j < p1.len() && p1[j].0 == k2;
                            if j != i {
                                assert(p0[j].0 == k2);
                            }
                        }
                    }
                    lemma_index_map_ext(p1, m1);
                }
            },
            None => {
                self.entries.push((str_to_string(key), 1));
                proof {
                    assert(self.pairs() =~= p0.push((key@, 1usize)));
                    assert(self.pairs().drop_last() =~= p0);
                    assert(!m0.dom().contains(key@));
                }
            },
        }
    }

    /// A delete of `key` ended: the key leaves the index when something was deleted.
    pub fn record_deleted(&mut self, key: &str, deleted: bool)
        requires
            old(self).wf(),
        ensures
            final(self).wf(),
            final(self).counts() == if deleted { old(self).counts().remove(key@) } else { old(self).counts() },
    {
        if !deleted {
            return;
        }
        proof {
            lemma_index_map(self.pairs());
        }
        let ghost p0 = self.pairs();
        let ghost m0 = self.counts();
        match self.find(key) {
            Some(i) => {
                let _ = self.entries.remove(i);
                proof {
                    let p1 = self.pairs();
                    assert(p1 =~= p0.remove(i as int));
                    assert(keys_distinct(p1));
                    let m1 = m0.remove(key@);
                    assert forall|j: int| 0 <= j < p1.len() implies #[trigger] m1.dom().contains(p1[j].0) && m1[p1[j].0] == p1[j].1 by {
                        if j < i {
                            assert(p1[j] == p0[j]);
                        } else {
                            assert(p1[j] == p0[j + 1]);
                        }
                    }
                    assert forall|k2: Seq<char>| #[trigger] m1.dom().contains(k2) <==> exists|j: int| 0 <= j < p1.len() && p1[j].0 == k2 by {
                        if m1.dom().contains(k2) {
                            let j = choose|j: int| 0 <= j < p0.len() && p0[j].0 == k2;
                            assert(j != i);
                            if j < i {
                                assert(p1[j].0 == k2);
                            } else {
                                assert(p1[j - 1].0 == k2);
                            }
                        }
                        if exists|j: int| 0 <= j < p1.len() && p1[j].0 == k2 {
                            let j = choose|j: int| 0 <= j < p1.len() && p1[j].0 == k2;
                            if j < i {
                                assert(p0[j].0 == k2);
                            } else {
                                assert(p0[j + 1].0 == k2);
                            }
                        }
                    }
                    lemma_index_map_ext(p1, m1);
                }
            },
            None => {
                proof {
                    assert(m0.remove(key@) =~= m0);
                }
            },
        }
    }

    /// The indexed keys that begin with `prefix`, each once, in index order.
    pub fn keys_with_prefix(&self, prefix: &str) -> (r: Vec<String>)
        requires
            self.wf(),
        ensures
            forall|i: int, j: int| 0 <= i < j < r@.len() ==> r@[i]@ != r@[j]@,
            forall|k: Seq<char>| names_key(r@, k) <==> (self.counts().dom().contains(k) && prefix@.is_prefix_of(k)),
    {
        proof {
            lemma_index_map(self.pairs());
        }
        let ghost p0 = self.pairs();
        let mut out: Vec<String> = Vec::new();
        let mut i: usize = 0;
        while i < self.entries.len()
            invariant
                i <= self.entries.len(),
                p0 == self.pairs(),
                p0.len() == self.entries@.len(),
                keys_distinct(p0),
                forall|a: int, b: int| 0 <= a < b < out@.len() ==> out@[a]@ != out@[b]@,
                forall|a: int| 0 <= a < out@.len() ==> exists|j: int| 0 <= j < i && p0[j].0 == #[trigger] out@[a]@,
                forall|k: Seq<char>| names_key(out@, k) <==> (exists|j: int| 0 <= j < i && p0[j].0 == k && prefix@.is_prefix_of(k)),
            decreases self.entries.len() - i,
        {
            assert(p0[i as int] == (self.entries@[i as int].0@, self.entries@[i as int].1));
            if str_starts_with(self.entries[i].0.as_str(), prefix) {
                let ghost o0 = out@;
                let k = self.entries[i].0.clone();
                out.push(k);
                proof {
                    assert forall|a: int, b: int| 0 <= a < b < out@.len() implies out@[a]@ != out@[b]@ by {
                        if b == out@.len() - 1 {
                            assert(out@[a] == o0[a]);
                            let j = choose|j: int| 0 <= j < i && p0[j].0 == o0[a]@;
                            assert(p0[j].0 != p0[i as int].0);
                        }
                    }
                    assert forall|a: int| 0 <= a < out@.len() implies exists|j: int| 0 <= j < i + 1 && p0[j].0 == #[trigger] out@[a]@ by {
                        if a < o0.len() {
                            assert(out@[a] == o0[a]);
                            let j = choose|j: int| 0 <= j < i && p0[j].0 == o0[a]@;
                            assert(p0[j].0 == out@[a]@);
                        } else {
                            assert(p0[i as int].0 == out@[a]@);
                        }
                    }
                    assert forall|k: Seq<char>| names_key(out@, k) <==> (exists|j: int| 0 <= j < i + 1 && p0[j].0 == k && prefix@.is_prefix_of(k)) by {
                        if names_key(out@, k) {
                            let a = choose|a: int| 0 <= a < out@.len() && out@[a]@ == k;
                            if a < o0.len() {
                                assert(o0[a]@ == k);
                                assert(names_key(o0, k));
                            } else {
                                assert(p0[i as int].0 == k);
                            }
                        }
                        if exists|j: int| 0 <= j < i + 1 && p0[j].0 == k && prefix@.is_prefix_of(k) {
                            let j = choose|j: int| 0 <= j < i + 1 && p0[j].0 == k && prefix@.is_prefix_of(k);
                            if j < i {
                                assert(names_key(o0, k));
                                let a = choose|a: int| 0 <= a < o0.len() && o0[a]@ == k;
                                assert(out@[a]@ == k);
                            } else {
                                assert(out@[out@.len() - 1]@ == k);
                            }
                        }
                    }
                }
            } else {
                proof {
                    assert forall|k: Seq<char>| names_key(out@, k) <==> (exists|j: int| 0 <= j < i + 1 && p0[j].0 == k && prefix@.is_prefix_of(k)) by {
                        if exists|j: int| 0 <= j < i + 1 && p0[j].0 == k && prefix@.is_prefix_of(k) {
                            let j = choose|j: int| 0 <= j < i + 1 && p0[j].0 == k && prefix@.is_prefix_of(k);
                            assert(j != i);
                        }
                    }
                }
            }
            i = i + 1;
        }
        out
    }

    /// A clearing of `keys` ended after `deleted_count` deletions: when any
    /// deletion happened, all of `keys` leave the index.
    pub fn record_cleared(&mut self, keys: &Vec<String>, deleted_count: usize)
        requires
            old(self).wf(),
        ensures
            final(self).wf(),
            final(self).counts() == if deleted_count > 0 {
                old(self).counts().remove_keys(Set::new(|k: Seq<char>| names_key(keys@, k)))
            } else {
                old(self).counts()
            },
    {
        if deleted_count == 0 {
            return;
        }
        let ghost p0 = self.pairs();
        let ghost gone = Set::new(|k: Seq<char>| names_key(keys@, k));
        let mut kept: Vec<(String, usize)> = Vec::new();
        let mut i: usize = 0;
        proof {
            assert(p0.take(0) =~= Seq::<(Seq<char>, usize)>::empty());
            assert(kept@.map_values(|p: (String, usize)| (p.0@, p.1)) =~= Seq::<(Seq<char>, usize)>::empty());
        }
        while i < self.entries.len()
            invariant
                i <= self.entries.len(),
                p0 == self.pairs(),
                p0.len() == self.entries@.len(),
                gone == Set::new(|k: Seq<char>| names_key(keys@, k)),
                kept@.map_values(|p: (String, usize)| (p.0@, p.1)) == kept_pairs(p0.take(i as int), gone),
            decreases self.entries.len() - i,
        {
            assert(p0[i as int] == (self.entries@[i as int].0@, self.entries@[i as int].1));
            let mut listed = false;
            let mut q: usize = 0;
            while q < keys.len()
                invariant
                    i < self.entries.len(),
                    q <= keys.len(),
                    listed <==> exists|b: int| 0 <= b < q && keys@[b]@ == self.entries@[i as int].0@,
                decreases keys.len() - q,
            {
                if str_eq(keys[q].as_str(), self.entries[i].0.as_str()) {
                    listed = true;
                }
                q = q + 1;
            }
            assert(listed == gone.contains(p0[i as int].0));
            let ghost k0 = kept@;
            if !listed {
                let k = self.entries[i].0.clone();
                let c = self.entries[i].1;
                kept.push((k, c));
            }
            proof {
                let t = p0.take(i + 1);
                assert(t.drop_last() =~= p0.take(i as int));
                assert(t.last() == p0[i as int]);
                if !listed {
                    assert(kept@.map_values(|p: (String, usize)| (p.0@, p.1)) =~= k0.map_values(
                        |p: (String, usize)| (p.0@, p.1),
                    ).push(p0[i as int]));
                }
            }
            i = i + 1;
        }
        proof {
            assert(p0.take(i as int) =~= p0);
            lemma_kept_map(p0, gone);
            lemma_kept_distinct(p0, gone);
        }
        self.entries = kept;
    }
}

/// The pairs whose keys are not in `gone`, in order.
pub open spec fn kept_pairs(s: Seq<(Seq<char>, usize)>, gone: Set<Seq<char>>) -> Seq<(Seq<char>, usize)>
    decreases s.len(),
{
    if s.len() == 0 {
        Seq::empty()
    } else if gone.contains(s.last().0) {
        kept_pairs(s.drop_last(), gone)
    } else {
        kept_pairs(s.drop_last(), gone).push(s.last())
    }
}

proof fn lemma_kept_map(s: Seq<(Seq<char>, usize)>, gone: Set<Seq<char>>)
    ensures
        index_map(kept_pairs(s, gone)) == index_map(s).remove_keys(gone),
    decreases s.len(),
{
    if s.len() == 0 {
        assert(index_map(s).remove_keys(gone) =~= Map::<Seq<char>, usize>::empty());
    } else {
        lemma_kept_map(s.drop_last(), gone);
        let m = index_map(s.drop_last());
        let kp = kept_pairs(s.drop_last(), gone);
        if !gone.contains(s.last().0) {
            assert(kp.push(s.last()).drop_last() =~= kp);
            assert(index_map(kp.push(s.last())) == index_map(kp).insert(s.last().0, s.last().1));
        }
        if gone.contains(s.last().0) {
            assert(m.insert(s.last().0, s.last().1).remove_keys(gone) =~= m.remove_keys(gone));
        } else {
            assert(m.insert(s.last().0, s.last().1).remove_keys(gone) =~= m.remove_keys(gone).insert(
                s.last().0,
                s.last().1,
            ));
        }
    }
}

proof fn lemma_kept_from(s: Seq<(Seq<char>, usize)>, gone: Set<Seq<char>>)
    ensures
        forall|a: int| 0 <= a < kept_pairs(s, gone).len() ==> exists|j: int| 0 <= j < s.len() && #[trigger] kept_pairs(s, gone)[a] == s[j],
    decreases s.len(),
{
    if s.len() > 0 {
        let p = s.drop_last();
        lemma_kept_from(p, gone);
        let k = kept_pairs(s, gone);
        let kp = kept_pairs(p, gone);
        assert forall|a: int| 0 <= a < k.len() implies exists|j: int| 0 <= j < s.len() && #[trigger] k[a] == s[j] by {
            if a < kp.len() {
                assert(k[a] == kp[a]);
                let j = choose|j: int| 0 <= j < p.len() && kp[a] == p[j];
                assert(s[j] == p[j]);
            } else {
                assert(k[a] == s[s.len() - 1]);
            }
        }
    }
}

proof fn lemma_kept_distinct(s: Seq<(Seq<char>, usize)>, gone: Set<Seq<char>>)
    requires
        keys_distinct(s),
    ensures
        keys_distinct(kept_pairs(s, gone)),
    decreases s.len(),
{
    if s.len() > 0 {
        let p = s.drop_last();
        assert(keys_distinct(p));
        lemma_kept_distinct(p, gone);
        lemma_kept_from(p, gone);
        let kp = kept_pairs(p, gone);
        if !gone.contains(s.last().0) {
            let k = kept_pairs(s, gone);
            assert forall|a: int, b: int| 0 <= a < b < k.len() implies k[a].0 != k[b].0 by {
                if b == k.len() - 1 {
                    assert(k[a] == kp[a]);
                    let j = choose|j: int| 0 <= j < p.len() && kp[a] == p[j];
                    assert(s[j] == p[j]);
                } else {
                    assert(k[a] == kp[a]);
                    assert(k[b] == kp[b]);
                }
            }
        }
    }
}

/// Clearing by prefix: the keys that [`KeyIndex::keys_with_prefix`] lists are,
/// once cleared ([`KeyIndex::record_cleared`] after a deletion), gone from the
/// index, and exactly the keys without the prefix remain, with their counts.
pub proof fn lemma_clear_by_prefix(ix: KeyIndex, prefix: Seq<char>, listed: Seq<String>)
    requires
        ix.wf(),
        forall|k: Seq<char>| names_key(listed, k) <==> (ix.counts().dom().contains(k) && prefix.is_prefix_of(k)),
    ensures
        ix.counts().remove_keys(Set::new(|k: Seq<char>| names_key(listed, k))) == ix.counts().filter_keys(
            |k: Seq<char>| !prefix.is_prefix_of(k),
        ),
{
    let a = ix.counts().remove_keys(Set::new(|k: Seq<char>| names_key(listed, k)));
    let b = ix.counts().filter_keys(|k: Seq<char>| !prefix.is_prefix_of(k));
    assert(a =~= b);
}

// ---------------------------------------------------------------------------
// Settings for the cache engine
// ---------------------------------------------------------------------------

/// How the in-memory level evicts entries.
#[derive(Debug, Clone, Copy, PartialEq, Eq, Structural)]
pub enum EvictionStrategy {
    Lru,
    Lfu,
    Fifo,
}

/// The eviction of a cache strategy: a custom strategy evicts least recently used.
pub open spec fn eviction_for(s: CacheStrategy) -> EvictionStrategy {
    match s {
        CacheStrategy::Lfu => EvictionStrategy::Lfu,
        CacheStrategy::Fifo => EvictionStrategy::Fifo,
        _ => EvictionStrategy::Lru,
    }
}

/// The in-memory level's settings for the cache engine.
#[derive(Debug, Clone, Copy, PartialEq, Eq, Structural)]
pub struct MemoryLevelSettings {
    /// Memory at most, in bytes.
    pub max_memory: usize,
    pub max_entries: usize,
    pub eviction_strategy: EvictionStrategy,
}

/// The in-memory level of a cache configuration: its memory limit in bytes, its
/// entry limit and the eviction of its strategy.
pub fn memory_level_settings(config: &CacheConfig) -> (r: MemoryLevelSettings)
    requires
        config.l1_config.max_memory_mb * 1048576 <= usize::MAX,
    ensures
        r.max_memory == config.l1_config.max_memory_mb * 1048576,
        r.max_entries == config.l1_config.max_capacity,
        r.eviction_strategy == eviction_for(config.strategy),
{
    let eviction_strategy = match &config.strategy {
        CacheStrategy::Lru => EvictionStrategy::Lru,
        CacheStrategy::Lfu => EvictionStrategy::Lfu,
        CacheStrategy::Fifo => EvictionStrategy::Fifo,
        CacheStrategy::Custom(_) => EvictionStrategy::Lru,
    };
    MemoryLevelSettings {
        max_memory: config.l1_config.max_memory_mb * 1024 * 1024,
        max_entries: config.l1_config.max_capacity,
        eviction_strategy,
    }
}

/// Which entries the disk level loads at startup.
#[derive(Debug, Clone, Copy, PartialEq, Eq, Structural)]
pub enum WarmupStrategy {
    /// Load nothing.
    Nothing,
    Recent,
    Frequent,
    Full,
}

/// The disk level's settings for the cache engine.
#[derive(Debug, Clone)]
pub struct DiskLevelSettings {
    pub enable_l2_cache: bool,
    pub data_dir: Option<String>,
    pub max_disk_size: u64,
    pub write_buffer_size: usize,
    pub max_write_buffer_number: i32,
    pub block_cache_size: usize,
    pub background_threads: i32,
    pub enable_lz4: bool,
    pub compression_threshold: usize,
    pub compression_max_threshold: usize,
    pub compression_level: i32,
    pub clear_on_startup: bool,
    pub cache_size_mb: usize,
    pub max_file_size_mb: usize,
    pub smart_flush_enabled: bool,
    pub smart_flush_base_interval_ms: usize,
    pub smart_flush_min_interval_ms: usize,
    pub smart_flush_max_interval_ms: usize,
    pub smart_flush_write_rate_threshold: usize,
    pub smart_flush_accumulated_bytes_threshold: usize,
    pub cache_warmup_strategy: WarmupStrategy,
    pub zstd_compression_level: Option<i32>,
    pub l2_write_strategy: String,
    pub l2_write_threshold: usize,
    pub l2_write_ttl_threshold: u64,
}

/// The disk level when a cache configuration has none: switched off, with the
/// engine's settings for a small level (256 MiB of disk, 8 MiB write buffers,
/// LZ4 from 512 bytes, asynchronous writes) should it be switched on.
pub fn disabled_disk_level() -> (r: DiskLevelSettings)
    ensures
        !r.enable_l2_cache,
        r.data_dir is None,
        r.max_disk_size == 256 * 1024 * 1024,
        r.write_buffer_size == 8 * 1024 * 1024,
        r.max_write_buffer_number == 2,
        r.block_cache_size == 4 * 1024 * 1024,
        r.background_threads == 1,
        r.enable_lz4,
        r.compression_threshold == 512,
        r.compression_max_threshold == 64 * 1024,
        r.compression_level == 3,
        !r.clear_on_startup,
        r.cache_size_mb == 32,
        r.max_file_size_mb == 64,
        r.smart_flush_enabled,
        r.smart_flush_base_interval_ms == 100,
        r.smart_flush_min_interval_ms == 30,
        r.smart_flush_max_interval_ms == 1500,
        r.smart_flush_write_rate_threshold == 4000,
        r.smart_flush_accumulated_bytes_threshold == 2 * 1024 * 1024,
        r.cache_warmup_strategy == WarmupStrategy::Recent,
        r.zstd_compression_level is None,
        r.l2_write_strategy@ == "async"@,
        r.l2_write_threshold == 1024,
        r.l2_write_ttl_threshold == 3600,
{
    DiskLevelSettings {
        enable_l2_cache: false,
        data_dir: None,
        max_disk_size: 256 * 1024 * 1024,
        write_buffer_size: 8 * 1024 * 1024,
        max_write_buffer_number: 2,
        block_cache_size: 4 * 1024 * 1024,
        background_threads: 1,
        enable_lz4: true,
        compression_threshold: 512,
        compression_max_threshold: 64 * 1024,
        compression_level: 3,
        clear_on_startup: false,
        cache_size_mb: 32,
        max_file_size_mb: 64,
        smart_flush_enabled: true,
        smart_flush_base_interval_ms: 100,
        smart_flush_min_interval_ms: 30,
        smart_flush_max_interval_ms: 1500,
        smart_flush_write_rate_threshold: 4000,
        smart_flush_accumulated_bytes_threshold: 2 * 1024 * 1024,
        cache_warmup_strategy: WarmupStrategy::Recent,
        zstd_compression_level: None,
        l2_write_strategy: str_to_string("async"),
        l2_write_threshold: 1024,
        l2_write_ttl_threshold: 3600,
    }
}

} // verus!
