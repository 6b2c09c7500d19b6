//! The expiring cache: a mapping from keys to values where every entry
//! carries an expiry time, plus the manager that composes the typed caches
//! of the graph editor and their cross-invalidation rules.
//!
//! The model of a cache is a finite map from abstract keys to
//! [`CachedItem`]s. An entry is visible to readers iff the reader's clock
//! does not exceed the entry's `expires_at`; an expired entry is treated as
//! absent by `get` and removed by `cleanup_expired`.

use vstd::prelude::*;
use crate::models::GraphEdge;
use crate::models::GraphNode;

verus! {

/// One cache entry: the stored value and the window in which it is
/// visible. Never mutated after creation, only replaced or removed.
#[derive(Debug, Clone)]
pub struct CachedItem<V> {
    pub data: V,
    pub cached_at: u64,
    pub expires_at: u64,
}

/// A key usable in a cache: it stands for a mathematical value, and two
/// keys can be compared by that value.
pub trait CacheKey: Sized {
    /// The mathematical value this key stands for in contracts.
    type Abs;

    /// The abstraction of this key.
    spec fn abs(&self) -> Self::Abs;

    /// Equality of keys, decided by their abstractions.
    fn key_eq(&self, other: &Self) -> (r: bool)
        ensures
            r == (self.abs() == other.abs()),
    ;
}

impl CacheKey for String {
    type Abs = Seq<char>;

    open spec fn abs(&self) -> Seq<char> {
        self@
    }

    fn key_eq(&self, other: &Self) -> (r: bool) {
        self.eq(other)
    }
}

impl CacheKey for (String, String) {
    type Abs = (Seq<char>, Seq<char>);

    open spec fn abs(&self) -> (Seq<char>, Seq<char>) {
        (self.0@, self.1@)
    }

    fn key_eq(&self, other: &Self) -> (r: bool) {
        self.0.eq(&other.0) && self.1.eq(&other.1)
    }
}

/// The map described by a key-value sequence; a later entry for a key
/// overrides an earlier one.
pub open spec fn map_of<K, I>(s: Seq<(K, I)>) -> Map<K, I>
    decreases s.len(),
{
    if s.len() == 0 {
        Map::<K, I>::empty()
    } else {
        map_of(s.drop_last()).insert(s.last().0, s.last().1)
    }
}

/// No two entries of the sequence share a key.
pub open spec fn keys_distinct<K, I>(s: Seq<(K, I)>) -> bool {
    forall|i: int, j: int| 0 <= i < j < s.len() ==> (#[trigger] s[i]).0 != (#[trigger] s[j]).0
}

proof fn lemma_map_of_contains<K, I>(s: Seq<(K, I)>, k: K)
    ensures
        map_of(s).contains_key(k) <==> exists|i: int| 0 <= i < s.len() && (#[trigger] s[i]).0 == k,
    decreases s.len(),
{
    if s.len() == 0 {
    } else {
        lemma_map_of_contains(s.drop_last(), k);
        if map_of(s).contains_key(k) {
            if s.last().0 == k {
                assert((s[s.len() - 1]).0 == k);
            } else {
                let i = choose|i: int|
                    0 <= i < s.drop_last().len() && (#[trigger] s.drop_last()[i]).0 == k;
                assert((s[i]).0 == k);
            }
        }
        if exists|i: int| 0 <= i < s.len() && (#[trigger] s[i]).0 == k {
            let i = choose|i: int| 0 <= i < s.len() && (#[trigger] s[i]).0 == k;
            if i < s.len() - 1 {
                assert((s.drop_last()[i]).0 == k);
            }
        }
    }
}

proof fn lemma_map_of_index<K, I>(s: Seq<(K, I)>, i: int)
    requires
        keys_distinct(s),
        0 <= i < s.len(),
    ensures
        map_of(s).contains_key((s[i]).0),
        map_of(s)[(s[i]).0] == (s[i]).1,
    decreases s.len(),
{
    if i == s.len() - 1 {
    } else {
        assert(keys_distinct(s.drop_last())) by {
            assert(forall|a: int, b: int|
                0 <= a < b < s.drop_last().len() ==> (#[trigger] s.drop_last()[a]).0 != (
                #[trigger] s.drop_last()[b]).0) by {
                assert(forall|a: int|
                    0 <= a < s.drop_last().len() ==> #[trigger] s.drop_last()[a] == s[a]);
            }
        }
        assert(s.drop_last()[i] == s[i]);
        lemma_map_of_index(s.drop_last(), i);
        assert((s[s.len() - 1]).0 != (s[i]).0);
    }
}

proof fn lemma_map_of_finite<K, I>(s: Seq<(K, I)>)
    ensures
        map_of(s).dom().finite(),
    decreases s.len(),
{
    if s.len() == 0 {
    } else {
        lemma_map_of_finite(s.drop_last());
    }
}

proof fn lemma_map_of_len<K, I>(s: Seq<(K, I)>)
    requires
        keys_distinct(s),
    ensures
        map_of(s).len() == s.len(),
    decreases s.len(),
{
    if s.len() == 0 {
        assert(map_of(s).dom() =~= Set::<K>::empty());
    } else {
        assert(keys_distinct(s.drop_last())) by {
            assert(forall|a: int|
                0 <= a < s.drop_last().len() ==> #[trigger] s.drop_last()[a] == s[a]);
        }
        lemma_map_of_len(s.drop_last());
        lemma_map_of_finite(s.drop_last());
        lemma_map_of_contains(s.drop_last(), s.last().0);
        assert(!map_of(s.drop_last()).contains_key(s.last().0)) by {
            if exists|i: int| 0 <= i < s.drop_last().len() && (#[trigger] s.drop_last()[i]).0
                == s.last().0 {
                let i = choose|i: int|
                    0 <= i < s.drop_last().len() && (#[trigger] s.drop_last()[i]).0 == s.last().0;
                assert((s[i]).0 == (s[s.len() - 1]).0);
            }
        }
        assert(map_of(s).dom() =~= map_of(s.drop_last()).dom().insert(s.last().0));
    }
}

proof fn lemma_map_of_remove<K, I>(s: Seq<(K, I)>, i: int)
    requires
        keys_distinct(s),
        0 <= i < s.len(),
    ensures
        keys_distinct(s.remove(i)),
        map_of(s.remove(i)) == map_of(s).remove((s[i]).0),
    decreases s.len(),
{
    assert(keys_distinct(s.remove(i))) by {
        assert(forall|a: int|
            0 <= a < s.remove(i).len() ==> #[trigger] s.remove(i)[a] == (if a < i {
                s[a]
            } else {
                s[a + 1]
            }));
    }
    assert(keys_distinct(s.drop_last())) by {
        assert(forall|a: int| 0 <= a < s.drop_last().len() ==> #[trigger] s.drop_last()[a] == s[a]);
    }
    if i == s.len() - 1 {
        assert(s.remove(i) =~= s.drop_last());
        lemma_map_of_contains(s.drop_last(), s.last().0);
        assert(!map_of(s.drop_last()).contains_key(s.last().0)) by {
            if exists|j: int| 0 <= j < s.drop_last().len() && (#[trigger] s.drop_last()[j]).0
                == s.last().0 {
                let j = choose|j: int|
                    0 <= j < s.drop_last().len() && (#[trigger] s.drop_last()[j]).0 == s.last().0;
                assert((s[j]).0 == (s[s.len() - 1]).0);
            }
        }
        assert(map_of(s).remove(s.last().0) =~= map_of(s.drop_last()));
    } else {
        lemma_map_of_remove(s.drop_last(), i);
        assert(s.remove(i).drop_last() =~= s.drop_last().remove(i));
        assert(s.remove(i).last() == s.last());
        assert(map_of(s.remove(i)) == map_of(s.drop_last().remove(i)).insert(
            s.last().0,
            s.last().1,
        ));
        assert((s[i]).0 != s.last().0);
        assert(map_of(s.drop_last()).remove((s[i]).0).insert(s.last().0, s.last().1) =~= map_of(
            s.drop_last(),
        ).insert(s.last().0, s.last().1).remove((s[i]).0));
    }
}

/// What a reader at time `now` sees for key `k` in cache contents `m`.
pub open spec fn spec_get<A, V>(m: Map<A, CachedItem<V>>, k: A, now: u64) -> Option<V> {
    if m.contains_key(k) && now <= m[k].expires_at {
        Some(m[k].data)
    } else {
        None
    }
}

/// The keys of `m` whose entries are expired at time `now`.
pub open spec fn spec_expired_keys<A, V>(m: Map<A, CachedItem<V>>, now: u64) -> Set<A> {
    m.dom().filter(|k: A| m[k].expires_at < now)
}

/// The subsequence of entries that are not expired at time `now`.
pub open spec fn spec_live<A, V>(s: Seq<(A, CachedItem<V>)>, now: u64) -> Seq<(A, CachedItem<V>)>
    decreases s.len(),
{
    if s.len() == 0 {
        Seq::empty()
    } else if (s[0]).1.expires_at >= now {
        seq![s[0]] + spec_live(s.drop_first(), now)
    } else {
        spec_live(s.drop_first(), now)
    }
}

proof fn lemma_live_elements<A, V>(s: Seq<(A, CachedItem<V>)>, now: u64)
    ensures
        forall|j: int|
            0 <= j < spec_live(s, now).len() ==> s.contains(#[trigger] spec_live(s, now)[j])
                && spec_live(s, now)[j].1.expires_at >= now,
        forall|i: int|
            0 <= i < s.len() && (#[trigger] s[i]).1.expires_at >= now ==> spec_live(
                s,
                now,
            ).contains(s[i]),
    decreases s.len(),
{
    if s.len() == 0 {
    } else {
        let t = s.drop_first();
        lemma_live_elements(t, now);
        assert forall|j: int| 0 <= j < spec_live(s, now).len() implies s.contains(
            #[trigger] spec_live(s, now)[j],
        ) && spec_live(s, now)[j].1.expires_at >= now by {
            if (s[0]).1.expires_at >= now {
                if j == 0 {
                    assert(spec_live(s, now)[0] == s[0]);
                    assert(s[0] == s[0]);
                } else {
                    assert(spec_live(s, now)[j] == spec_live(t, now)[j - 1]);
                    let i = choose|i: int| 0 <= i < t.len() && t[i] == spec_live(t, now)[j - 1];
                    assert(s[i + 1] == spec_live(s, now)[j]);
                }
            } else {
                let i = choose|i: int| 0 <= i < t.len() && t[i] == spec_live(t, now)[j];
                assert(s[i + 1] == spec_live(s, now)[j]);
            }
        }
        assert forall|i: int|
            0 <= i < s.len() && (#[trigger] s[i]).1.expires_at >= now implies spec_live(
            s,
            now,
        ).contains(s[i]) by {
            if i == 0 {
                assert(spec_live(s, now)[0] == s[0]);
            } else {
                assert(t[i - 1] == s[i]);
                assert(spec_live(t, now).contains(s[i]));
                let j = choose|j: int|
                    0 <= j < spec_live(t, now).len() && spec_live(t, now)[j] == s[i];
                if (s[0]).1.expires_at >= now {
                    assert(spec_live(s, now)[j + 1] == s[i]);
                } else {
                    assert(spec_live(s, now)[j] == s[i]);
                }
            }
        }
    }
}

proof fn lemma_live_distinct<A, V>(s: Seq<(A, CachedItem<V>)>, now: u64)
    requires
        keys_distinct(s),
    ensures
        keys_distinct(spec_live(s, now)),
    decreases s.len(),
{
    if s.len() == 0 {
    } else {
        let t = s.drop_first();
        assert(keys_distinct(t)) by {
            assert(forall|a: int| 0 <= a < t.len() ==> #[trigger] t[a] == s[a + 1]);
        }
        lemma_live_distinct(t, now);
        lemma_live_elements(t, now);
        if (s[0]).1.expires_at >= now {
            let lv = spec_live(s, now);
            assert forall|i: int, j: int| 0 <= i < j < lv.len() implies (#[trigger] lv[i]).0 != (
            #[trigger] lv[j]).0 by {
                if i == 0 {
                    assert(lv[j] == spec_live(t, now)[j - 1]);
                    assert(t.contains(spec_live(t, now)[j - 1]));
                    let a = choose|a: int| 0 <= a < t.len() && t[a] == spec_live(t, now)[j - 1];
                    assert(s[a + 1] == lv[j]);
                    assert((s[0]).0 != (s[a + 1]).0);
                } else {
                    assert(lv[i] == spec_live(t, now)[i - 1]);
                    assert(lv[j] == spec_live(t, now)[j - 1]);
                }
            }
        }
    }
}

proof fn lemma_live_map<A, V>(s: Seq<(A, CachedItem<V>)>, now: u64)
    requires
        keys_distinct(s),
    ensures
        map_of(spec_live(s, now)) == map_of(s).remove_keys(spec_expired_keys(map_of(s), now)),
    decreases s.len(),
{
    let lv = spec_live(s, now);
    let m = map_of(s);
    let goal = m.remove_keys(spec_expired_keys(m, now));
    lemma_live_distinct(s, now);
    lemma_live_elements(s, now);
    assert forall|k: A| #[trigger] map_of(lv).contains_key(k) implies goal.contains_key(k)
        && map_of(lv)[k] == goal[k] by {
        lemma_map_of_contains(lv, k);
        let j = choose|j: int| 0 <= j < lv.len() && (#[trigger] lv[j]).0 == k;
        lemma_map_of_index(lv, j);
        assert(s.contains(lv[j]));
        let i = choose|i: int| 0 <= i < s.len() && s[i] == lv[j];
        lemma_map_of_index(s, i);
        assert(m.contains_key(k) && m[k] == (s[i]).1);
        assert(m[k].expires_at >= now);
    }
    assert forall|k: A| #[trigger] goal.contains_key(k) implies map_of(lv).contains_key(k) by {
        assert(m.contains_key(k) && m[k].expires_at >= now);
        lemma_map_of_contains(s, k);
        let i = choose|i: int| 0 <= i < s.len() && (#[trigger] s[i]).0 == k;
        lemma_map_of_index(s, i);
        assert((s[i]).1.expires_at >= now);
        assert(lv.contains(s[i]));
        let j = choose|j: int| 0 <= j < lv.len() && lv[j] == s[i];
        lemma_map_of_index(lv, j);
    }
    assert(map_of(lv) =~= goal);
}

/// A reusable expiring cache: a mapping from `K` to [`CachedItem<V>`] with
/// a fixed time-to-live, applied at insertion.
pub struct Cache<K: CacheKey, V> {
    entries: Vec<(K, CachedItem<V>)>,
    ttl_seconds: u64,
}

impl<K: CacheKey, V> Cache<K, V> {
    /// The entries as a sequence of abstract key / item pairs.
    pub closed spec fn kv(&self) -> Seq<(K::Abs, CachedItem<V>)> {
        self.entries@.map_values(|e: (K, CachedItem<V>)| (e.0.abs(), e.1))
    }

    /// The contents of the cache as a map from abstract keys to items.
    pub closed spec fn contents(&self) -> Map<K::Abs, CachedItem<V>> {
        map_of(self.kv())
    }

    /// The time-to-live set at construction; immutable afterwards.
    pub closed spec fn ttl(&self) -> u64 {
        self.ttl_seconds
    }

    /// Well-formed: no key occurs twice.
    pub closed spec fn wf(&self) -> bool {
        keys_distinct(self.kv())
    }

    /// A fresh, empty cache with the given time-to-live in seconds.
    pub fn new(ttl_seconds: u64) -> (r: Self)
        ensures
            r.wf(),
            r.contents() == Map::<K::Abs, CachedItem<V>>::empty(),
            r.ttl() == ttl_seconds,
    {
        let r = Cache { entries: Vec::new(), ttl_seconds };
        proof {
            assert(r.kv() =~= Seq::<(K::Abs, CachedItem<V>)>::empty());
        }
        r
    }

    /// The index holding `key`, if any.
    fn find(&self, key: &K) -> (r: Option<usize>)
        ensures
            match r {
                Some(i) => i < self.kv().len() && (self.kv()[i as int]).0 == key.abs(),
                None => forall|i: int| 0 <= i < self.kv().len() ==> (#[trigger] self.kv()[i]).0
                    != key.abs(),
            },
    {
        let mut i: usize = 0;
        while i < self.entries.len()
            invariant
                0 <= i <= self.entries@.len(),
                forall|j: int| 0 <= j < i ==> (#[trigger] self.kv()[j]).0 != key.abs(),
            decreases self.entries@.len() - i,
        {
            let e = &self.entries[i];
            if e.0.key_eq(key) {
                return Some(i);
            }
            i = i + 1;
        }
        None
    }

    /// Returns the stored value for `key` if an entry is present and not
    /// expired at time `now`; an expired entry is treated as absent, not
    /// removed.
    pub fn get(&self, key: &K, now: u64) -> (r: Option<&V>)
        requires
            self.wf(),
        ensures
            match r {
                Some(v) => spec_get(self.contents(), key.abs(), now) == Some(*v),
                None => spec_get(self.contents(), key.abs(), now) is None,
            },
    {
        match self.find(key) {
            Some(i) => {
                proof {
                    lemma_map_of_index(self.kv(), i as int);
                }
                let e = &self.entries[i];
                if now <= e.1.expires_at {
                    Some(&e.1.data)
                } else {
                    None
                }
            },
            None => {
                proof {
                    lemma_map_of_contains(self.kv(), key.abs());
                }
                None
            },
        }
    }

    /// Removes the entry for `key`, if present.
    pub fn invalidate(&mut self, key: &K)
        requires
            old(self).wf(),
        ensures
            final(self).wf(),
            final(self).ttl() == old(self).ttl(),
            final(self).contents() == old(self).contents().remove(key.abs()),
            forall|i: int|
                0 <= i < final(self).kv().len() ==> (#[trigger] final(self).kv()[i]).0
                    != key.abs(),
    {
        proof {
            lemma_map_of_contains(self.kv(), key.abs());
        }
        match self.find(key) {
            Some(i) => {
                proof {
                    lemma_map_of_remove(self.kv(), i as int);
                }
                let ghost old_kv = self.kv();
                self.entries.remove(i);
                proof {
                    assert(self.kv() =~= old_kv.remove(i as int));
                    lemma_map_of_contains(self.kv(), key.abs());
                    assert forall|j: int| 0 <= j < self.kv().len() implies (
                    #[trigger] self.kv()[j]).0 != key.abs() by {
                        if (self.kv()[j]).0 == key.abs() {
                            assert(self.contents().contains_key(key.abs()));
                        }
                    }
                }
            },
            None => {
                proof {
                    assert(old(self).contents().remove(key.abs()) =~= old(self).contents());
                }
            },
        }
    }

    /// Inserts or overwrites the entry for `key`, resetting its expiry to
    /// `now` plus the time-to-live.
    pub fn set(&mut self, key: K, value: V, now: u64)
        requires
            old(self).wf(),
            now + old(self).ttl() <= u64::MAX,
        ensures
            final(self).wf(),
            final(self).ttl() == old(self).ttl(),
            final(self).contents() == old(self).contents().insert(
                key.abs(),
                (CachedItem {
                    data: value,
                    cached_at: now,
                    expires_at: (now + old(self).ttl()) as u64,
                }),
            ),
    {
        let expires_at = now + self.ttl_seconds;
        self.invalidate(&key);
        let ghost mid_kv = self.kv();
        let item = CachedItem { data: value, cached_at: now, expires_at };
        let ghost abs_key = key.abs();
        self.entries.push((key, item));
        proof {
            assert(self.kv() =~= mid_kv.push((abs_key, item)));
            assert(self.kv().drop_last() =~= mid_kv);
            assert(keys_distinct(self.kv())) by {
                assert(forall|a: int| 0 <= a < mid_kv.len() ==> #[trigger] self.kv()[a] == mid_kv[a]);
            }
            assert(map_of(self.kv()) == map_of(mid_kv).insert(abs_key, item));
            assert(map_of(mid_kv).insert(abs_key, item) =~= old(self).contents().insert(
                abs_key,
                item,
            ));
        }
    }

    /// Removes every entry.
    pub fn clear(&mut self)
        requires
            old(self).wf(),
        ensures
            final(self).wf(),
            final(self).ttl() == old(self).ttl(),
            final(self).contents() == Map::<K::Abs, CachedItem<V>>::empty(),
    {
        self.entries.clear();
        proof {
            assert(self.kv() =~= Seq::<(K::Abs, CachedItem<V>)>::empty());
        }
    }

    /// Removes exactly the entries whose `expires_at` lies before `now`,
    /// leaving all others; the size drops by the number of expired entries.
    pub fn cleanup_expired(&mut self, now: u64)
        requires
            old(self).wf(),
        ensures
            final(self).wf(),
            final(self).ttl() == old(self).ttl(),
            final(self).contents() == old(self).contents().remove_keys(
                spec_expired_keys(old(self).contents(), now),
            ),
            final(self).contents().len() == old(self).contents().len() - spec_expired_keys(
                old(self).contents(),
                now,
            ).len(),
    {
        let ghost old_kv = self.kv();
        let mut i: usize = self.entries.len();
        while i > 0
            invariant
                0 <= i <= old_kv.len(),
                self.ttl_seconds == old(self).ttl(),
                self.kv() =~= old_kv.subrange(0, i as int) + spec_live(
                    old_kv.subrange(i as int, old_kv.len() as int),
                    now,
                ),
            decreases i,
        {
            i = i - 1;
            let ghost pre_kv = self.kv();
            let ghost suffix = old_kv.subrange(i as int, old_kv.len() as int);
            proof {
                assert(pre_kv.len() == self.entries@.len());
                assert(pre_kv =~= old_kv.subrange(0, i + 1) + spec_live(
                    old_kv.subrange(i + 1, old_kv.len() as int),
                    now,
                ));
                assert(pre_kv.len() >= i + 1);
                assert(suffix.drop_first() =~= old_kv.subrange(i + 1, old_kv.len() as int));
                assert(suffix[0] == old_kv[i as int]);
                assert(pre_kv[i as int] == old_kv[i as int]);
            }
            let e = &self.entries[i];
            if e.1.expires_at < now {
                self.entries.remove(i);
                proof {
                    assert(self.kv() =~= pre_kv.remove(i as int));
                    assert(self.kv() =~= old_kv.subrange(0, i as int) + spec_live(suffix, now));
                }
            } else {
                proof {
                    assert(spec_live(suffix, now) =~= seq![old_kv[i as int]] + spec_live(
                        suffix.drop_first(),
                        now,
                    ));
                    assert(self.kv() =~= old_kv.subrange(0, i as int) + spec_live(suffix, now));
                }
            }
        }
        proof {
            assert(old_kv.subrange(0, 0) =~= Seq::<(K::Abs, CachedItem<V>)>::empty());
            assert(old_kv.subrange(0, old_kv.len() as int) =~= old_kv);
            assert(self.kv() =~= spec_live(old_kv, now));
            lemma_live_distinct(old_kv, now);
            lemma_live_map(old_kv, now);
            let m = old(self).contents();
            let expired = spec_expired_keys(m, now);
            lemma_map_of_finite(old_kv);
            m.dom().lemma_len_filter(|k: K::Abs| m[k].expires_at < now);
            m.lemma_remove_keys_len(expired);
        }
    }

    /// The number of entries, expired ones included.
    pub fn size(&self) -> (r: usize)
        requires
            self.wf(),
        ensures
            r == self.contents().len(),
    {
        proof {
            lemma_map_of_len(self.kv());
        }
        self.entries.len()
    }
}

/// A value set at time `n` with time-to-live `t` is visible to a get at
/// any time up to `n + t`, and invisible to a get after `n + t`.
pub proof fn lemma_ttl_visibility<A, V>(
    m: Map<A, CachedItem<V>>,
    k: A,
    v: V,
    t: u64,
    n: u64,
    n2: u64,
)
    requires
        n + t <= u64::MAX,
    ensures
        ({
            let m2 = m.insert(k, (CachedItem { data: v, cached_at: n, expires_at: (n + t) as u64 }));
            &&& n2 <= n + t ==> spec_get(m2, k, n2) == Some(v)
            &&& n2 > n + t ==> spec_get(m2, k, n2) is None
        }),
{
}

/// Cache of graph nodes by URI.
pub type NodeCache = Cache<String, GraphNode>;

/// Cache of a node's neighbourhood by URI.
pub type ConnectionCache = Cache<String, (Vec<GraphNode>, Vec<GraphEdge>)>;

/// Cache of shortest-path results by (from, to).
pub type PathCache = Cache<(String, String), Option<Vec<String>>>;

/// Cache of raw query-result text by query hash.
pub type QueryCache = Cache<String, String>;

/// Cache of label rows by URI: (label, language, property).
pub type LabelCache = Cache<String, Vec<(String, Option<String>, String)>>;

/// Cache of type lists by URI.
pub type TypeCache = Cache<String, Vec<String>>;

/// The sizes of the four graph caches.
#[derive(Debug, PartialEq, Eq, Structural)]
pub struct GraphCacheStats {
    pub node_cache_size: usize,
    pub connection_cache_size: usize,
    pub path_cache_size: usize,
    pub search_cache_size: usize,
}

/// The four typed caches of the graph view, with their cross-cache
/// invalidation rules.
pub struct GraphCacheManager {
    pub nodes: NodeCache,
    pub connections: ConnectionCache,
    pub paths: PathCache,
    pub search_results: Cache<String, Vec<GraphNode>>,
}

impl GraphCacheManager {
    /// All four caches are well-formed.
    pub open spec fn wf(&self) -> bool {
        self.nodes.wf() && self.connections.wf() && self.paths.wf() && self.search_results.wf()
    }

    /// Four fresh caches sharing one time-to-live.
    pub fn new(ttl_seconds: u64) -> (r: Self)
        ensures
            r.wf(),
            r.nodes.contents() == Map::<Seq<char>, CachedItem<GraphNode>>::empty(),
            r.connections.contents() == Map::<
                Seq<char>,
                CachedItem<(Vec<GraphNode>, Vec<GraphEdge>)>,
            >::empty(),
            r.paths.contents() == Map::<
                (Seq<char>, Seq<char>),
                CachedItem<Option<Vec<String>>>,
            >::empty(),
            r.search_results.contents() == Map::<Seq<char>, CachedItem<Vec<GraphNode>>>::empty(),
            r.nodes.ttl() == ttl_seconds,
            r.connections.ttl() == ttl_seconds,
            r.paths.ttl() == ttl_seconds,
            r.search_results.ttl() == ttl_seconds,
    {
        GraphCacheManager {
            nodes: Cache::new(ttl_seconds),
            connections: Cache::new(ttl_seconds),
            paths: Cache::new(ttl_seconds),
            search_results: Cache::new(ttl_seconds),
        }
    }

    /// A changed node invalidates its own entry and its connection entry,
    /// and clears the whole path cache: any cached path may have traversed
    /// it. Search results are left untouched.
    pub fn invalidate_node(&mut self, uri: &String)
        requires
            old(self).wf(),
        ensures
            final(self).wf(),
            final(self).nodes.contents() == old(self).nodes.contents().remove(uri@),
            final(self).connections.contents() == old(self).connections.contents().remove(uri@),
            final(self).paths.contents() == Map::<
                (Seq<char>, Seq<char>),
                CachedItem<Option<Vec<String>>>,
            >::empty(),
            final(self).search_results == old(self).search_results,
            final(self).nodes.ttl() == old(self).nodes.ttl(),
            final(self).connections.ttl() == old(self).connections.ttl(),
            final(self).paths.ttl() == old(self).paths.ttl(),
    {
        self.nodes.invalidate(uri);
        self.connections.invalidate(uri);
        self.paths.clear();
    }

    /// Runs the expiry sweep on every cache.
    pub fn cleanup_all(&mut self, now: u64)
        requires
            old(self).wf(),
        ensures
            final(self).wf(),
            final(self).nodes.contents() == old(self).nodes.contents().remove_keys(
                spec_expired_keys(old(self).nodes.contents(), now),
            ),
            final(self).connections.contents() == old(self).connections.contents().remove_keys(
                spec_expired_keys(old(self).connections.contents(), now),
            ),
            final(self).paths.contents() == old(self).paths.contents().remove_keys(
                spec_expired_keys(old(self).paths.contents(), now),
            ),
            final(self).search_results.contents() == old(
                self,
            ).search_results.contents().remove_keys(
                spec_expired_keys(old(self).search_results.contents(), now),
            ),
    {
        self.nodes.cleanup_expired(now);
        self.connections.cleanup_expired(now);
        self.paths.cleanup_expired(now);
        self.search_results.cleanup_expired(now);
    }

    /// The current size of each cache; read-only.
    pub fn get_stats(&self) -> (r: GraphCacheStats)
        requires
            self.wf(),
        ensures
            r.node_cache_size == self.nodes.contents().len(),
            r.connection_cache_size == self.connections.contents().len(),
            r.path_cache_size == self.paths.contents().len(),
            r.search_cache_size == self.search_results.contents().len(),
    {
        GraphCacheStats {
            node_cache_size: self.nodes.size(),
            connection_cache_size: self.connections.size(),
            path_cache_size: self.paths.size(),
            search_cache_size: self.search_results.size(),
        }
    }
}

} // verus!
