//! The response cache: a uniform facade over interchangeable
//! key-to-value stores with a time-to-live, and the in-process
//! backend with its expiry sweep.

use vstd::prelude::*;
use crate::strutil::str_eq;

verus! {

/// The cache backend named by the configuration.
#[derive(Clone, Copy, PartialEq, Eq, Structural)]
pub enum CacheType {
    NoCache,
    BuiltIn,
    Redis,
    Memcached,
}

/// The backend kind the cache facade is built from.
#[derive(Clone, Copy, PartialEq, Eq, Structural)]
pub enum GenericCacheType {
    NoCache,
    BuiltIn,
    Redis,
    Memcached,
}

impl From<CacheType> for GenericCacheType {
    /// Maps the configuration's backend name onto the facade's.
    fn from(cache_type: CacheType) -> (r: GenericCacheType) {
        match cache_type {
            CacheType::NoCache => GenericCacheType::NoCache,
            CacheType::BuiltIn => GenericCacheType::BuiltIn,
            CacheType::Redis => GenericCacheType::Redis,
            CacheType::Memcached => GenericCacheType::Memcached,
        }
    }
}

impl vstd::std_specs::convert::FromSpecImpl<CacheType> for GenericCacheType {
    open spec fn obeys_from_spec() -> bool {
        true
    }

    open spec fn from_spec(cache_type: CacheType) -> GenericCacheType {
        match cache_type {
            CacheType::NoCache => GenericCacheType::NoCache,
            CacheType::BuiltIn => GenericCacheType::BuiltIn,
            CacheType::Redis => GenericCacheType::Redis,
            CacheType::Memcached => GenericCacheType::Memcached,
        }
    }
}

/// When an entry stored at `now` with time-to-live `ttl` expires.
pub open spec fn spec_expires(now: u64, ttl: u64) -> u64 {
    if now + ttl <= u64::MAX {
        (now + ttl) as u64
    } else {
        u64::MAX
    }
}

/// The body and expiry stored under `key`, if any; the first match
/// counts.
pub open spec fn lookup_entry(entries: Seq<(Seq<char>, Seq<char>, u64)>, key: Seq<char>) -> Option<
    (Seq<char>, u64),
>
    decreases entries.len(),
{
    if entries.len() == 0 {
        Option::None
    } else if entries[0].0 == key {
        Option::Some((entries[0].1, entries[0].2))
    } else {
        lookup_entry(entries.drop_first(), key)
    }
}

/// No two entries share a key.
pub open spec fn unique_keys(entries: Seq<(Seq<char>, Seq<char>, u64)>) -> bool {
    forall|i: int, j: int|
        0 <= i < j < entries.len() ==> (#[trigger] entries[i]).0 != (#[trigger] entries[j]).0
}

/// The entries that survive a sweep at time `now`: exactly those not
/// yet expired, in order.
pub open spec fn sweep(entries: Seq<(Seq<char>, Seq<char>, u64)>, now: u64) -> Seq<
    (Seq<char>, Seq<char>, u64),
>
    decreases entries.len(),
{
    if entries.len() == 0 {
        Seq::empty()
    } else {
        (if now < entries[0].2 {
            seq![entries[0]]
        } else {
            Seq::empty()
        }) + sweep(entries.drop_first(), now)
    }
}

proof fn lemma_sweep_snoc(s: Seq<(Seq<char>, Seq<char>, u64)>, x: (Seq<char>, Seq<char>, u64), now: u64)
    ensures
        sweep(s.push(x), now) == sweep(s, now) + (if now < x.2 {
            seq![x]
        } else {
            Seq::<(Seq<char>, Seq<char>, u64)>::empty()
        }),
    decreases s.len(),
{
    if s.len() == 0 {
        assert(s.push(x)[0] == x);
        assert(s.push(x).drop_first() =~= Seq::<(Seq<char>, Seq<char>, u64)>::empty());
        assert(sweep(s.push(x).drop_first(), now) =~= Seq::<(Seq<char>, Seq<char>, u64)>::empty());
        assert(sweep(s, now) =~= Seq::<(Seq<char>, Seq<char>, u64)>::empty());
        assert(sweep(s.push(x), now) =~= sweep(s, now) + (if now < x.2 {
            seq![x]
        } else {
            Seq::<(Seq<char>, Seq<char>, u64)>::empty()
        }));
    } else {
        assert(s.push(x)[0] == s[0]);
        assert(s.push(x).drop_first() =~= s.drop_first().push(x));
        lemma_sweep_snoc(s.drop_first(), x, now);
        assert(sweep(s.push(x), now) =~= sweep(s, now) + (if now < x.2 {
            seq![x]
        } else {
            Seq::<(Seq<char>, Seq<char>, u64)>::empty()
        }));
    }
}

proof fn lemma_lookup_absent_sweep(s: Seq<(Seq<char>, Seq<char>, u64)>, now: u64, key: Seq<char>)
    requires
        forall|j: int| 0 <= j < s.len() ==> (#[trigger] s[j]).0 != key,
    ensures
        lookup_entry(sweep(s, now), key) is None,
    decreases s.len(),
{
    if s.len() > 0 {
        lemma_lookup_absent_sweep(s.drop_first(), now, key);
        if now < s[0].2 {
            assert(sweep(s, now)[0] == s[0]);
            assert(sweep(s, now).drop_first() =~= sweep(s.drop_first(), now));
        } else {
            assert(sweep(s, now) =~= sweep(s.drop_first(), now));
        }
    }
}

/// Janitor expiry: after a sweep at time `now`, a key is still served
/// exactly when its entry had not yet expired; an expired entry is
/// gone.
pub proof fn lemma_sweep_lookup(s: Seq<(Seq<char>, Seq<char>, u64)>, now: u64, key: Seq<char>)
    requires
        unique_keys(s),
    ensures
        lookup_entry(sweep(s, now), key) == (match lookup_entry(s, key) {
            Option::Some((b, e)) => if now < e {
                Option::Some((b, e))
            } else {
                Option::None::<(Seq<char>, u64)>
            },
            Option::None => Option::None::<(Seq<char>, u64)>,
        }),
    decreases s.len(),
{
    if s.len() > 0 {
        assert(forall|i: int, j: int|
            0 <= i < j < s.drop_first().len() ==> (#[trigger] s.drop_first()[i]).0 != (
            #[trigger] s.drop_first()[j]).0);
        if s[0].0 == key {
            assert(forall|j: int| 0 <= j < s.drop_first().len() ==> (#[trigger] s.drop_first()[j]).0 != key);
            if now < s[0].2 {
                assert(sweep(s, now)[0] == s[0]);
                assert(sweep(s, now).drop_first() =~= sweep(s.drop_first(), now));
                lemma_lookup_absent_sweep(s.drop_first(), now, key);
            } else {
                assert(sweep(s, now) =~= sweep(s.drop_first(), now));
                lemma_lookup_absent_sweep(s.drop_first(), now, key);
            }
        } else {
            lemma_sweep_lookup(s.drop_first(), now, key);
            if now < s[0].2 {
                assert(sweep(s, now)[0] == s[0]);
                assert(sweep(s, now).drop_first() =~= sweep(s.drop_first(), now));
            } else {
                assert(sweep(s, now) =~= sweep(s.drop_first(), now));
            }
        }
    }
}

proof fn lemma_lookup_update(
    s: Seq<(Seq<char>, Seq<char>, u64)>,
    i: int,
    x: (Seq<char>, Seq<char>, u64),
    key: Seq<char>,
    k2: Seq<char>,
)
    requires
        0 <= i < s.len(),
        forall|j: int| 0 <= j < i ==> (#[trigger] s[j]).0 != key,
        s[i].0 == key,
        x.0 == key,
    ensures
        lookup_entry(s.update(i, x), key) == Option::Some((x.1, x.2)),
        k2 != key ==> lookup_entry(s.update(i, x), k2) == lookup_entry(s, k2),
    decreases i,
{
    if i == 0 {
        assert(s.update(0, x).drop_first() =~= s.drop_first());
    } else {
        assert(s.update(i, x).drop_first() =~= s.drop_first().update(i - 1, x));
        lemma_lookup_update(s.drop_first(), i - 1, x, key, k2);
    }
}

proof fn lemma_lookup_push(
    s: Seq<(Seq<char>, Seq<char>, u64)>,
    x: (Seq<char>, Seq<char>, u64),
    key: Seq<char>,
    k2: Seq<char>,
)
    requires
        forall|j: int| 0 <= j < s.len() ==> (#[trigger] s[j]).0 != key,
        x.0 == key,
    ensures
        lookup_entry(s.push(x), key) == Option::Some((x.1, x.2)),
        k2 != key ==> lookup_entry(s.push(x), k2) == lookup_entry(s, k2),
    decreases s.len(),
{
    if s.len() == 0 {
        assert(s.push(x)[0] == x);
        assert(s.push(x).drop_first() =~= Seq::<(Seq<char>, Seq<char>, u64)>::empty());
    } else {
        assert(s.push(x)[0] == s[0]);
        assert(s[0].0 != key);
        assert(s.push(x).drop_first() =~= s.drop_first().push(x));
        assert(forall|j: int|
            0 <= j < s.drop_first().len() ==> (#[trigger] s.drop_first()[j]).0 != key);
        lemma_lookup_push(s.drop_first(), x, key, k2);
    }
}

proof fn lemma_lookup_absent(s: Seq<(Seq<char>, Seq<char>, u64)>, key: Seq<char>)
    requires
        forall|j: int| 0 <= j < s.len() ==> (#[trigger] s[j]).0 != key,
    ensures
        lookup_entry(s, key) is None,
    decreases s.len(),
{
    if s.len() > 0 {
        lemma_lookup_absent(s.drop_first(), key);
    }
}

/// The bounded in-process backend: a local map with one expiry time
/// per entry, swept periodically by the janitor.
pub struct InProcessCache {
    entries: Vec<(String, String, u64)>,
    ttl: u64,
}

impl InProcessCache {
    /// The entries as character sequences.
    pub closed spec fn spec_entries(self) -> Seq<(Seq<char>, Seq<char>, u64)> {
        self.entries@.map_values(|p: (String, String, u64)| (p.0@, p.1@, p.2))
    }

    /// The configured time-to-live, in seconds.
    pub closed spec fn spec_ttl(self) -> u64 {
        self.ttl
    }

    /// Well-formed: no two entries share a key.
    pub open spec fn wf(self) -> bool {
        unique_keys(self.spec_entries())
    }

    /// An empty backend with the given time-to-live.
    pub fn new(ttl: u64) -> (r: InProcessCache)
        ensures
            r.spec_entries() == Seq::<(Seq<char>, Seq<char>, u64)>::empty(),
            r.spec_ttl() == ttl,
            r.wf(),
    {
        let r = InProcessCache { entries: Vec::new(), ttl };
        proof {
            assert(r.spec_entries() =~= Seq::<(Seq<char>, Seq<char>, u64)>::empty());
        }
        r
    }

    /// Serves the body stored under `key`, never past its expiry.
    pub fn get(&self, key: &str, now: u64) -> (r: Option<String>)
        ensures
            crate::params::opt_view(r) == (match lookup_entry(self.spec_entries(), key@) {
                Option::Some((b, e)) => if now < e {
                    Option::Some(b)
                } else {
                    Option::None::<Seq<char>>
                },
                Option::None => Option::None::<Seq<char>>,
            }),
    {
        let n: usize = self.entries.len();
        let mut i: usize = 0;
        let ghost s0: Seq<(Seq<char>, Seq<char>, u64)> = self.spec_entries();
        proof {
            assert(s0.skip(0) =~= s0);
        }
        while i < n
            invariant
                0 <= i <= n,
                n == self.entries@.len(),
                s0 == self.spec_entries(),
                lookup_entry(s0, key@) == lookup_entry(s0.skip(i as int), key@),
            decreases n - i,
        {
            if str_eq(self.entries[i].0.as_str(), key) {
                proof {
                    assert(s0.skip(i as int)[0] == s0[i as int]);
                }
                if now < self.entries[i].2 {
                    return Some(self.entries[i].1.clone());
                } else {
                    return None;
                }
            }
            i = i + 1;
            proof {
                assert(s0.skip(i - 1)[0] == s0[i - 1]);
                assert(s0.skip(i - 1).drop_first() =~= s0.skip(i as int));
            }
        }
        proof {
            assert(s0.skip(n as int) =~= Seq::<(Seq<char>, Seq<char>, u64)>::empty());
        }
        None
    }

    /// Stores `value` under `key`, expiring the configured time-to-live
    /// from `now`; every other key keeps its entry.
    pub fn set(&mut self, key: &str, value: &str, now: u64)
        requires
            old(self).wf(),
        ensures
            final(self).wf(),
            final(self).spec_ttl() == old(self).spec_ttl(),
            lookup_entry(final(self).spec_entries(), key@) == Option::Some(
                (value@, spec_expires(now, old(self).spec_ttl())),
            ),
            forall|k2: Seq<char>|
                k2 != key@ ==> lookup_entry(final(self).spec_entries(), k2) == lookup_entry(
                    old(self).spec_entries(),
                    k2,
                ),
    {
        let expires: u64 = if now <= 0xFFFF_FFFF_FFFF_FFFF - self.ttl {
            now + self.ttl
        } else {
            0xFFFF_FFFF_FFFF_FFFF
        };
        let n: usize = self.entries.len();
        let mut i: usize = 0;
        let ghost s0: Seq<(Seq<char>, Seq<char>, u64)> = self.spec_entries();
        proof {
            assert(s0.skip(0) =~= s0);
        }
        while i < n
            invariant
                0 <= i <= n,
                n == self.entries@.len(),
                s0 == self.spec_entries(),
                s0 == old(self).spec_entries(),
                self.ttl == old(self).spec_ttl(),
                expires == spec_expires(now, old(self).spec_ttl()),
                unique_keys(s0),
                forall|j: int| 0 <= j < i ==> (#[trigger] s0[j]).0 != key@,
            decreases n - i,
        {
            if str_eq(self.entries[i].0.as_str(), key) {
                let pair = self.entries.remove(i);
                self.entries.insert(i, (pair.0, value.to_owned(), expires));
                proof {
                    let s1 = self.spec_entries();
                    assert(s1 =~= s0.update(i as int, (key@, value@, expires)));
                    lemma_lookup_update(s0, i as int, (key@, value@, expires), key@, key@);
                    assert forall|k2: Seq<char>| k2 != key@ implies lookup_entry(s1, k2)
                        == lookup_entry(s0, k2) by {
                        lemma_lookup_update(s0, i as int, (key@, value@, expires), key@, k2);
                    }
                    assert forall|a: int, b: int| 0 <= a < b < s1.len() implies (
                    #[trigger] s1[a]).0 != (#[trigger] s1[b]).0 by {
                        if a != i as int {
                            assert(s1[a] == s0[a]);
                        }
                        if b != i as int {
                            assert(s1[b] == s0[b]);
                        }
                        assert(s0[i as int].0 == key@);
                    }
                    assert(unique_keys(s1));
                }
                return ;
            }
            i = i + 1;
            proof {
                assert(s0.skip(i - 1)[0] == s0[i - 1]);
                assert(s0.skip(i - 1).drop_first() =~= s0.skip(i as int));
            }
        }
        self.entries.push((key.to_owned(), value.to_owned(), expires));
        proof {
            let s1 = self.spec_entries();
            assert(s1 =~= s0.push((key@, value@, expires)));
            lemma_lookup_push(s0, (key@, value@, expires), key@, key@);
            assert forall|k2: Seq<char>| k2 != key@ implies lookup_entry(s1, k2) == lookup_entry(
                s0,
                k2,
            ) by {
                lemma_lookup_push(s0, (key@, value@, expires), key@, k2);
            }
            assert forall|a: int, b: int| 0 <= a < b < s1.len() implies (#[trigger] s1[a]).0
                != (#[trigger] s1[b]).0 by {
                if b < s0.len() {
                    assert(s1[a] == s0[a]);
                    assert(s1[b] == s0[b]);
                } else {
                    assert(s1[b].0 == key@);
                    assert(s1[a] == s0[a]);
                }
            }
            assert(unique_keys(s1));
        }
    }

    /// Sweeps out every entry whose expiry time has passed.
    pub fn cleanup(&mut self, now: u64)
        ensures
            final(self).spec_entries() == sweep(old(self).spec_entries(), now),
            final(self).spec_ttl() == old(self).spec_ttl(),
            old(self).wf() ==> final(self).wf(),
    {
        let n: usize = self.entries.len();
        let mut kept: Vec<(String, String, u64)> = Vec::new();
        let mut i: usize = 0;
        let ghost s0: Seq<(Seq<char>, Seq<char>, u64)> = self.spec_entries();
        let ghost mut acc: Seq<(Seq<char>, Seq<char>, u64)> = Seq::empty();
        proof {
            assert(s0.take(0) =~= Seq::<(Seq<char>, Seq<char>, u64)>::empty());
            assert(acc =~= sweep(s0.take(0), now));
        }
        while i < n
            invariant
                0 <= i <= n,
                n == self.entries@.len(),
                s0 == self.spec_entries(),
                self.ttl == old(self).spec_ttl(),
                acc == kept@.map_values(|p: (String, String, u64)| (p.0@, p.1@, p.2)),
                acc == sweep(s0.take(i as int), now),
            decreases n - i,
        {
            if now < self.entries[i].2 {
                let e = (
                    self.entries[i].0.clone(),
                    self.entries[i].1.clone(),
                    self.entries[i].2,
                );
                kept.push(e);
                proof {
                    acc = acc.push(s0[i as int]);
                    assert(kept@.map_values(|p: (String, String, u64)| (p.0@, p.1@, p.2))
                        =~= acc);
                }
            }
            i = i + 1;
            proof {
                assert(s0.take(i as int) =~= s0.take(i - 1).push(s0[i - 1]));
                lemma_sweep_snoc(s0.take(i - 1), s0[i - 1], now);
                assert(acc =~= sweep(s0.take(i as int), now));
            }
        }
        self.entries = kept;
        proof {
            assert(s0.take(n as int) =~= s0);
            assert(final(self).spec_entries() =~= sweep(s0, now));
            if unique_keys(s0) {
                assert forall|a: int, b: int|
                    0 <= a < b < sweep(s0, now).len() implies (#[trigger] sweep(s0, now)[a]).0 != (
                #[trigger] sweep(s0, now)[b]).0 by {
                    lemma_sweep_unique(s0, now);
                }
            }
        }
    }
}

proof fn lemma_sweep_sub(s: Seq<(Seq<char>, Seq<char>, u64)>, now: u64, a: int)
    requires
        0 <= a < sweep(s, now).len(),
    ensures
        exists|i: int|
            0 <= i < s.len() && #[trigger] s[i] == sweep(s, now)[a],
    decreases s.len(),
{
    if s.len() > 0 {
        if now < s[0].2 {
            assert(sweep(s, now)[0] == s[0]);
            assert(sweep(s, now).drop_first() =~= sweep(s.drop_first(), now));
            if a > 0 {
                lemma_sweep_sub(s.drop_first(), now, a - 1);
                let i0 = choose|i: int|
                    0 <= i < s.drop_first().len() && #[trigger] s.drop_first()[i] == sweep(
                        s.drop_first(),
                        now,
                    )[a - 1];
                assert(s[i0 + 1] == sweep(s, now)[a]);
            }
        } else {
            assert(sweep(s, now) =~= sweep(s.drop_first(), now));
            lemma_sweep_sub(s.drop_first(), now, a);
            let i0 = choose|i: int|
                0 <= i < s.drop_first().len() && #[trigger] s.drop_first()[i] == sweep(
                    s.drop_first(),
                    now,
                )[a];
            assert(s[i0 + 1] == sweep(s, now)[a]);
        }
    }
}

proof fn lemma_sweep_unique(s: Seq<(Seq<char>, Seq<char>, u64)>, now: u64)
    requires
        unique_keys(s),
    ensures
        unique_keys(sweep(s, now)),
    decreases s.len(),
{
    if s.len() > 0 {
        assert(forall|i: int, j: int|
            0 <= i < j < s.drop_first().len() ==> (#[trigger] s.drop_first()[i]).0 != (
            #[trigger] s.drop_first()[j]).0);
        lemma_sweep_unique(s.drop_first(), now);
        if now < s[0].2 {
            assert(sweep(s, now)[0] == s[0]);
            assert(sweep(s, now).drop_first() =~= sweep(s.drop_first(), now));
            assert forall|a: int, b: int|
                0 <= a < b < sweep(s, now).len() implies (#[trigger] sweep(s, now)[a]).0 != (
            #[trigger] sweep(s, now)[b]).0 by {
                if a == 0 {
                    lemma_sweep_sub(s.drop_first(), now, b - 1);
                    let i0 = choose|i: int|
                        0 <= i < s.drop_first().len() && #[trigger] s.drop_first()[i] == sweep(
                            s.drop_first(),
                            now,
                        )[b - 1];
                    assert(s[i0 + 1] == sweep(s, now)[b]);
                } else {
                    assert(sweep(s, now)[a] == sweep(s.drop_first(), now)[a - 1]);
                    assert(sweep(s, now)[b] == sweep(s.drop_first(), now)[b - 1]);
                }
            }
        } else {
            assert(sweep(s, now) =~= sweep(s.drop_first(), now));
        }
    }
}

/// The cache facade.  The network-backed stores do their own expiry
/// and live outside this crate; the facade itself offers the absent
/// store and the in-process one.
pub enum GenericCache {
    NoStore,
    BuiltIn(InProcessCache),
}

impl GenericCache {
    /// Well-formed: the in-process store, if present, has unique keys.
    pub open spec fn wf(self) -> bool {
        match self {
            GenericCache::NoStore => true,
            GenericCache::BuiltIn(c) => c.wf(),
        }
    }

    /// The entry stored under `key`, if any: the absent store holds
    /// nothing.
    pub open spec fn spec_lookup(self, key: Seq<char>) -> Option<(Seq<char>, u64)> {
        match self {
            GenericCache::NoStore => Option::None,
            GenericCache::BuiltIn(c) => lookup_entry(c.spec_entries(), key),
        }
    }

    /// The configured time-to-live; zero for the absent store.
    pub open spec fn spec_ttl(self) -> u64 {
        match self {
            GenericCache::NoStore => 0,
            GenericCache::BuiltIn(c) => c.spec_ttl(),
        }
    }

    /// What a read at time `now` returns: the stored body, never past
    /// its expiry.
    pub open spec fn spec_get(self, key: Seq<char>, now: u64) -> Option<Seq<char>> {
        match self.spec_lookup(key) {
            Option::Some((b, e)) => if now < e {
                Option::Some(b)
            } else {
                Option::None
            },
            Option::None => Option::None,
        }
    }

    /// Builds the facade for the configured backend kind.  Only the
    /// built-in store keeps entries here; the network-backed kinds are
    /// wired by the surrounding application and hold nothing in this
    /// crate.
    pub fn new(cache_type: GenericCacheType, _cache_url: String, cache_ttl: u64) -> (r:
        GenericCache)
        ensures
            r.wf(),
            cache_type is BuiltIn ==> r is BuiltIn && r.spec_ttl() == cache_ttl
                && (forall|k: Seq<char>| r.spec_lookup(k) is None),
            !(cache_type is BuiltIn) ==> r is NoStore,
    {
        match cache_type {
            GenericCacheType::BuiltIn => {
                let c = InProcessCache::new(cache_ttl);
                proof {
                    assert forall|k: Seq<char>| lookup_entry(c.spec_entries(), k) is None by {
                        lemma_lookup_absent(c.spec_entries(), k);
                    }
                }
                GenericCache::BuiltIn(c)
            },
            _ => GenericCache::NoStore,
        }
    }

    /// Reads the body stored under `key`; the absent store always
    /// misses, and no store serves an entry past its expiry.
    pub fn get(&self, key: &str, now: u64) -> (r: Option<String>)
        ensures
            crate::params::opt_view(r) == self.spec_get(key@, now),
    {
        match self {
            GenericCache::NoStore => None,
            GenericCache::BuiltIn(c) => c.get(key, now),
        }
    }

    /// Stores `value` under `key` with the configured time-to-live;
    /// the absent store ignores the write, and every other key keeps
    /// its entry.
    pub fn set(&mut self, key: &str, value: &str, now: u64)
        requires
            old(self).wf(),
        ensures
            final(self).wf(),
            final(self).spec_ttl() == old(self).spec_ttl(),
            *old(self) is NoStore ==> *final(self) == *old(self),
            *old(self) is BuiltIn ==> *final(self) is BuiltIn && final(self).spec_lookup(key@)
                == Option::Some((value@, spec_expires(now, old(self).spec_ttl()))),
            forall|k2: Seq<char>|
                k2 != key@ ==> final(self).spec_lookup(k2) == old(self).spec_lookup(k2),
    {
        match self {
            GenericCache::NoStore => {},
            GenericCache::BuiltIn(c) => {
                c.set(key, value, now);
            },
        }
    }

    /// Sweeps the in-process store: after the call no entry whose
    /// expiry has passed is served; fresh entries stay.
    pub fn cleanup(&mut self, now: u64)
        requires
            old(self).wf(),
        ensures
            final(self).wf(),
            final(self).spec_ttl() == old(self).spec_ttl(),
            forall|k: Seq<char>|
                #[trigger] final(self).spec_lookup(k) == (match old(self).spec_lookup(k) {
                    Option::Some((b, e)) => if now < e {
                        Option::Some((b, e))
                    } else {
                        Option::None::<(Seq<char>, u64)>
                    },
                    Option::None => Option::None::<(Seq<char>, u64)>,
                }),
    {
        match self {
            GenericCache::NoStore => {},
            GenericCache::BuiltIn(c) => {
                let ghost s0 = c.spec_entries();
                c.cleanup(now);
                proof {
                    assert forall|k: Seq<char>| #[trigger] lookup_entry(c.spec_entries(), k)
                        == (match lookup_entry(s0, k) {
                        Option::Some((b, e)) => if now < e {
                            Option::Some((b, e))
                        } else {
                            Option::None::<(Seq<char>, u64)>
                        },
                        Option::None => Option::None::<(Seq<char>, u64)>,
                    }) by {
                        lemma_sweep_lookup(s0, now, k);
                    }
                }
            },
        }
    }
}

/// Janitor expiry: an entry stored at time `t` is gone from every
/// sweep that runs once its time-to-live has passed.
pub proof fn lemma_janitor_expiry(
    s: Seq<(Seq<char>, Seq<char>, u64)>,
    key: Seq<char>,
    body: Seq<char>,
    t: u64,
    ttl: u64,
    now: u64,
)
    requires
        unique_keys(s),
        lookup_entry(s, key) == Option::Some((body, spec_expires(t, ttl))),
        now >= t + ttl,
    ensures
        lookup_entry(sweep(s, now), key) is None,
{
    lemma_sweep_lookup(s, now, key);
}

/// A fresh entry is served: a body stored under a key is returned by
/// every read before the entry's expiry.
pub proof fn lemma_fresh_entry_served(c: GenericCache, key: Seq<char>, body: Seq<char>, e: u64, now: u64)
    requires
        c.spec_lookup(key) == Option::Some((body, e)),
        now < e,
    ensures
        c.spec_get(key, now) == Option::Some(body),
{
}

} // verus!
