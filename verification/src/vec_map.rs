//! Insertion-ordered associative container with precomputed-hash lookup.
//!
//! Buckets live in one contiguous sequence in insertion order; lookup is a
//! linear scan that compares the stored hash first and the key equivalence
//! relation only on a hash match. Each bucket stores its key as a [`Hashed`]
//! handle, so the invariant that a stored hash always equals the stored
//! key's own hash holds by construction and is never recomputed. Key
//! uniqueness is the caller's duty, never checked here: with duplicate
//! equivalent keys every lookup and removal deterministically acts on the
//! first match in storage order.

use vstd::prelude::*;

use crate::hashed::{BorrowHashed, Hashed, MapKey, SmallHashResult};

verus! {

/// One entry of a [`VecMap`]: a hashed key handle and a value. The key's
/// truncated hash travels inside the handle and is never recomputed during
/// lookup or re-derivation of a borrowed handle.
pub struct Bucket<K: MapKey, V> {
    pub key: Hashed<K>,
    pub value: V,
}

/// Whether a stored bucket answers a query with the given hash and key:
/// the hashes must be equal and the keys equivalent.
pub open spec fn bucket_matches<K: MapKey, V>(
    b: Bucket<K, V>,
    hash: SmallHashResult,
    key: K,
) -> bool {
    b.key.hash_view() == hash && key.key_eq(&b.key.key_view())
}

/// The position of the first bucket that answers the query, scanning from
/// the front, or `None` where no bucket does.
pub open spec fn find_first<K: MapKey, V>(
    s: Seq<Bucket<K, V>>,
    hash: SmallHashResult,
    key: K,
) -> Option<int>
    decreases s.len(),
{
    if s.len() == 0 {
        None
    } else if bucket_matches(s[0], hash, key) {
        Some(0int)
    } else {
        match find_first(s.subrange(1, s.len() as int), hash, key) {
            Some(i) => Some(i + 1),
            None => None,
        }
    }
}

/// First-match semantics: where `find_first` answers, it answers the first
/// matching bucket in storage order, and where it does not, no bucket
/// matches. Lookup and removal both act through `find_first`, so even with
/// duplicate equivalent keys — a caller's bug — both deterministically act
/// on the first duplicate.
pub proof fn lemma_find_first_is_first_match<K: MapKey, V>(
    s: Seq<Bucket<K, V>>,
    hash: SmallHashResult,
    key: K,
)
    ensures
        match find_first(s, hash, key) {
            Some(i) => 0 <= i < s.len() && bucket_matches(s[i], hash, key) && (forall|j: int|
                0 <= j < i ==> !bucket_matches(s[j], hash, key)),
            None => forall|j: int| 0 <= j < s.len() ==> !bucket_matches(s[j], hash, key),
        },
    decreases s.len(),
{
    if s.len() != 0 && !bucket_matches(s[0], hash, key) {
        let rest = s.subrange(1, s.len() as int);
        lemma_find_first_is_first_match(rest, hash, key);
        assert(forall|j: int| 0 <= j < rest.len() ==> rest[j] == s[j + 1]);
        match find_first(rest, hash, key) {
            Some(i) => {
                assert(find_first(s, hash, key) == Some(i + 1));
                assert(rest[i] == s[i + 1]);
                assert forall|j: int| 0 <= j < i + 1 implies !bucket_matches(
                    s[j],
                    hash,
                    key,
                ) by {
                    if j > 0 {
                        assert(rest[j - 1] == s[j]);
                        assert(!bucket_matches(rest[j - 1], hash, key));
                    }
                }
            }
            None => {
                assert(find_first(s, hash, key) is None);
                assert forall|j: int| 0 <= j < s.len() implies !bucket_matches(
                    s[j],
                    hash,
                    key,
                ) by {
                    if j > 0 {
                        assert(rest[j - 1] == s[j]);
                        assert(!bucket_matches(rest[j - 1], hash, key));
                    }
                }
            }
        }
    }
}

/// Hash-first lookup is still correct under forced hash collisions: a query
/// is never answered by a bucket whose key is not equivalent to the query
/// key, no matter how the hashes collide.
pub proof fn lemma_lookup_needs_equivalence<K: MapKey, V>(
    s: Seq<Bucket<K, V>>,
    hash: SmallHashResult,
    key: K,
    i: int,
)
    requires
        find_first(s, hash, key) == Some(i),
    ensures
        0 <= i < s.len(),
        key.key_eq(&s[i].key.key_view()),
{
    lemma_find_first_is_first_match(s, hash, key);
}

/// Round trip: appending a bucket whose key has no equivalent key in the
/// map, then looking that key up by its own hash, answers exactly the
/// appended bucket, at the old length.
pub proof fn lemma_insert_then_get<K: MapKey, V>(s: Seq<Bucket<K, V>>, b: Bucket<K, V>)
    requires
        b.key.hash_view() == b.key.key_view().hash_spec(),
        forall|j: int| 0 <= j < s.len() ==> !b.key.key_view().key_eq(&(#[trigger] s[j]).key.key_view()),
    ensures
        find_first(s.push(b), b.key.key_view().hash_spec(), b.key.key_view()) == Some(
            s.len() as int,
        ),
{
    let k = b.key.key_view();
    let t = s.push(b);
    k.lemma_eq_reflexive();
    assert(bucket_matches(t[s.len() as int], k.hash_spec(), k));
    lemma_find_first_is_first_match(t, k.hash_spec(), k);
    match find_first(t, k.hash_spec(), k) {
        Some(i) => {
            if i < s.len() {
                assert(t[i] == s[i]);
                assert(false);
            }
        }
        None => {
            assert(!bucket_matches(t[s.len() as int], k.hash_spec(), k));
        }
    }
}

/// Removal preserves the relative order of all remaining buckets: the entry
/// at the removed position disappears, entries before it keep their places,
/// and entries after it shift down by one, in order.
pub proof fn lemma_removal_keeps_order<K: MapKey, V>(s: Seq<Bucket<K, V>>, i: int)
    requires
        0 <= i < s.len(),
    ensures
        s.remove(i).len() == s.len() - 1,
        forall|j: int| 0 <= j < i ==> s.remove(i)[j] == s[j],
        forall|j: int| i <= j < s.len() - 1 ==> s.remove(i)[j] == s[j + 1],
{
}

/// Relies on std's `Vec::capacity`: the number of elements a vector can
/// hold without reallocating, never less than its length.
#[verifier::external_body]
fn bucket_capacity<K: MapKey, V>(v: &Vec<Bucket<K, V>>) -> (r: usize)
    ensures
        r >= v@.len(),
{
    v.capacity()
}

/// The next element of a cursor, front first.
fn cursor_next<T>(items: &mut Vec<T>) -> (r: Option<T>)
    ensures
        ({
            let rem = old(items)@;
            if rem.len() > 0 {
                r matches Some(x) && x == rem[0] && final(items)@ == rem.drop_first()
            } else {
                r is None && final(items)@ == rem
            }
        }),
{
    if items.len() > 0 {
        let x = items.remove(0);
        proof {
            assert(items@ =~= old(items)@.drop_first());
        }
        Some(x)
    } else {
        None
    }
}

/// The element `n` positions ahead of a cursor; everything up to and
/// including it is consumed, and overshooting consumes the rest.
fn cursor_nth<T>(items: &mut Vec<T>, n: usize) -> (r: Option<T>)
    ensures
        ({
            let rem = old(items)@;
            if n < rem.len() {
                r matches Some(x) && x == rem[n as int] && final(items)@ == rem.subrange(
                    n + 1,
                    rem.len() as int,
                )
            } else {
                r is None && final(items)@.len() == 0
            }
        }),
{
    let ghost rem = items@;
    if n < items.len() {
        let mut k: usize = 0;
        while k < n
            invariant
                k <= n,
                n < rem.len(),
                items@ == rem.subrange(k as int, rem.len() as int),
            decreases n - k,
        {
            items.remove(0);
            proof {
                assert(items@ =~= rem.subrange(k + 1, rem.len() as int));
            }
            k = k + 1;
        }
        let x = items.remove(0);
        proof {
            assert(x == rem[n as int]);
            assert(items@ =~= rem.subrange(n + 1, rem.len() as int));
        }
        Some(x)
    } else {
        items.clear();
        None
    }
}

/// Skip to the end of a cursor: its last element, if any.
fn cursor_last<T>(items: Vec<T>) -> (r: Option<T>)
    ensures
        ({
            let rem = items@;
            if rem.len() > 0 {
                r matches Some(x) && x == rem.last()
            } else {
                r is None
            }
        }),
{
    let mut items = items;
    items.pop()
}

/// Insertion-ordered map from keys to values, backed by one contiguous
/// sequence of buckets.
pub struct VecMap<K: MapKey, V> {
    buckets: Vec<Bucket<K, V>>,
}

impl<K: MapKey, V> View for VecMap<K, V> {
    type V = Seq<Bucket<K, V>>;

    closed spec fn view(&self) -> Seq<Bucket<K, V>> {
        self.buckets@
    }
}

impl<K: MapKey, V> Default for VecMap<K, V> {
    /// An empty map.
    fn default() -> (r: Self)
        ensures
            r@ == Seq::<Bucket<K, V>>::empty(),
    {
        VecMap::new()
    }
}

impl<K: MapKey, V> VecMap<K, V> {
    /// An empty map.
    pub fn new() -> (r: Self)
        ensures
            r@ == Seq::<Bucket<K, V>>::empty(),
    {
        let r = VecMap { buckets: Vec::new() };
        proof {
            assert(r@ =~= Seq::<Bucket<K, V>>::empty());
        }
        r
    }

    /// An empty map with room for `n` buckets; contents are unaffected by
    /// pre-sizing.
    pub fn with_capacity(n: usize) -> (r: Self)
        ensures
            r@ == Seq::<Bucket<K, V>>::empty(),
    {
        let r = VecMap { buckets: Vec::with_capacity(n) };
        proof {
            assert(r@ =~= Seq::<Bucket<K, V>>::empty());
        }
        r
    }

    /// Pre-size for `additional` more buckets; no effect on contents.
    pub fn reserve(&mut self, additional: usize)
        ensures
            final(self)@ == old(self)@,
    {
        self.buckets.reserve(additional);
    }

    /// How many buckets fit before the storage must grow.
    pub fn capacity(&self) -> (r: usize)
        ensures
            r >= self@.len(),
    {
        bucket_capacity(&self.buckets)
    }

    /// The number of buckets.
    pub fn len(&self) -> (r: usize)
        ensures
            r == self@.len(),
    {
        self.buckets.len()
    }

    /// Whether the map holds no bucket.
    pub fn is_empty(&self) -> (r: bool)
        ensures
            r == (self@.len() == 0),
    {
        self.buckets.len() == 0
    }

    /// Drop all buckets.
    pub fn clear(&mut self)
        ensures
            final(self)@ == Seq::<Bucket<K, V>>::empty(),
    {
        self.buckets.clear();
        proof {
            assert(self@ =~= Seq::<Bucket<K, V>>::empty());
        }
    }

    /// Linear scan for the first bucket matching the handle: stored hash
    /// first, key equivalence only on a hash match. Answers the bucket's
    /// position, key and value; absence is a normal outcome, not an error.
    pub fn get_full<'a>(&'a self, key: BorrowHashed<'_, K>) -> (r: Option<(usize, &'a K, &'a V)>)
        ensures
            ({
                let f = find_first(self@, key.key_view().hash_spec(), *key.key_view());
                match r {
                    Some((i, k, v)) => f == Some(i as int) && i < self@.len()
                        && *k == self@[i as int].key.key_view() && *v == self@[i as int].value,
                    None => f is None,
                }
            }),
    {
        let hash = key.hash();
        let ghost qk = *key.key_view();
        let mut i: usize = 0;
        let n = self.buckets.len();
        while i < n
            invariant
                n == self@.len(),
                i <= n,
                hash == qk.hash_spec(),
                qk == *key.key_view(),
                forall|j: int| 0 <= j < i ==> !bucket_matches(self@[j], hash, qk),
            decreases n - i,
        {
            let b = &self.buckets[i];
            if b.key.hash() == hash && key.key().equivalent(b.key.key()) {
                proof {
                    lemma_find_first_is_first_match(self@, hash, qk);
                    match find_first(self@, hash, qk) {
                        Some(f) => {
                            if f < i {
                                assert(!bucket_matches(self@[f], hash, qk));
                            }
                            if f > i {
                                assert(!bucket_matches(self@[i as int], hash, qk));
                            }
                        }
                        None => {
                            assert(!bucket_matches(self@[i as int], hash, qk));
                        }
                    }
                }
                return Some((i, b.key.key(), &b.value));
            }
            i = i + 1;
        }
        proof {
            lemma_find_first_is_first_match(self@, hash, qk);
        }
        None
    }

    /// The position of the first bucket matching the handle.
    pub fn get_index_of_hashed(&self, key: BorrowHashed<'_, K>) -> (r: Option<usize>)
        ensures
            ({
                let f = find_first(self@, key.key_view().hash_spec(), *key.key_view());
                match r {
                    Some(i) => f == Some(i as int),
                    None => f is None,
                }
            }),
    {
        match self.get_full(key) {
            Some((i, _, _)) => Some(i),
            None => None,
        }
    }

    /// Positional access, in insertion order.
    pub fn get_index<'a>(&'a self, index: usize) -> (r: Option<(&'a K, &'a V)>)
        ensures
            match r {
                Some((k, v)) => index < self@.len() && *k == self@[index as int].key.key_view()
                    && *v == self@[index as int].value,
                None => index >= self@.len(),
            },
    {
        if index < self.buckets.len() {
            let b = &self.buckets[index];
            Some((b.key.key(), &b.value))
        } else {
            None
        }
    }

    /// Positional access for internal hot paths; the bound is the caller's
    /// obligation rather than a runtime check.
    pub fn get_unchecked<'a>(&'a self, index: usize) -> (r: &'a Bucket<K, V>)
        requires
            index < self@.len(),
        ensures
            *r == self@[index as int],
    {
        &self.buckets[index]
    }

    /// Replace the value at a position, keeping key and hash; answers the
    /// value that was there. The bound is the caller's obligation.
    pub fn set_value_unchecked(&mut self, index: usize, value: V) -> (r: V)
        requires
            index < old(self)@.len(),
        ensures
            r == old(self)@[index as int].value,
            final(self)@ == old(self)@.update(
                index as int,
                Bucket { key: old(self)@[index as int].key, value },
            ),
    {
        let b = &mut self.buckets[index];
        let mut value = value;
        core::mem::swap(&mut b.value, &mut value);
        value
    }

    /// Append a bucket. The caller owes the guarantee that no existing
    /// bucket has an equivalent key; a violation silently creates a
    /// duplicate and is the caller's bug, not a container-detected error.
    pub fn insert_unique_unchecked(&mut self, key: Hashed<K>, value: V)
        ensures
            final(self)@ == old(self)@.push(Bucket { key, value }),
    {
        self.buckets.push(Bucket { key, value });
    }

    /// Scan for the first bucket matching the handle and remove it,
    /// shifting every later bucket down one place so that the relative
    /// order of all remaining buckets is preserved.
    pub fn remove_hashed_entry(&mut self, key: BorrowHashed<'_, K>) -> (r: Option<(K, V)>)
        ensures
            match find_first(old(self)@, key.key_view().hash_spec(), *key.key_view()) {
                Some(i) => {
                    &&& r matches Some(kv)
                    &&& kv.0 == old(self)@[i].key.key_view()
                    &&& kv.1 == old(self)@[i].value
                    &&& final(self)@ == old(self)@.remove(i)
                }
                None => r is None && final(self)@ == old(self)@,
            },
    {
        let hash = key.hash();
        let ghost qk = *key.key_view();
        let len = self.buckets.len();
        if len == 0 {
            return None;
        }
        let mut i: usize = 0;
        while i < len
            invariant
                self@ == old(self)@,
                len == self@.len(),
                i <= len,
                hash == qk.hash_spec(),
                qk == *key.key_view(),
                forall|j: int| 0 <= j < i ==> !bucket_matches(self@[j], hash, qk),
            decreases len - i,
        {
            let matches_here = {
                let b = &self.buckets[i];
                b.key.hash() == hash && key.key().equivalent(b.key.key())
            };
            if matches_here {
                proof {
                    lemma_find_first_is_first_match(self@, hash, qk);
                    match find_first(self@, hash, qk) {
                        Some(f) => {
                            if f < i {
                                assert(!bucket_matches(self@[f], hash, qk));
                            }
                            if f > i {
                                assert(!bucket_matches(self@[i as int], hash, qk));
                            }
                        }
                        None => {
                            assert(!bucket_matches(self@[i as int], hash, qk));
                        }
                    }
                    assert(find_first(self@, hash, qk) == Some(i as int));
                }
                let b = self.buckets.remove(i);
                return Some((b.key.into_key(), b.value));
            }
            i = i + 1;
        }
        proof {
            lemma_find_first_is_first_match(self@, hash, qk);
        }
        None
    }

    /// A keys-only cursor over the buckets, in insertion order.
    pub fn keys<'a>(&'a self) -> (r: VMKeys<'a, K>)
        ensures
            r.remaining().len() == self@.len(),
            forall|i: int| 0 <= i < self@.len() ==> *r.remaining()[i] == self@[i].key.key_view(),
    {
        let mut items: Vec<&'a K> = Vec::new();
        let mut i: usize = 0;
        let n = self.buckets.len();
        while i < n
            invariant
                n == self@.len(),
                i <= n,
                items@.len() == i,
                forall|j: int| 0 <= j < i ==> *items@[j] == self@[j].key.key_view(),
            decreases n - i,
        {
            items.push(self.buckets[i].key.key());
            i = i + 1;
        }
        VMKeys { items }
    }

    /// A values-only cursor over the buckets, in insertion order.
    pub fn values<'a>(&'a self) -> (r: VMValues<'a, V>)
        ensures
            r.remaining().len() == self@.len(),
            forall|i: int| 0 <= i < self@.len() ==> *r.remaining()[i] == self@[i].value,
    {
        let mut items: Vec<&'a V> = Vec::new();
        let mut i: usize = 0;
        let n = self.buckets.len();
        while i < n
            invariant
                n == self@.len(),
                i <= n,
                items@.len() == i,
                forall|j: int| 0 <= j < i ==> *items@[j] == self@[j].value,
            decreases n - i,
        {
            items.push(&self.buckets[i].value);
            i = i + 1;
        }
        VMValues { items }
    }

    /// A key-and-value cursor over the buckets, in insertion order.
    pub fn iter<'a>(&'a self) -> (r: VMIter<'a, K, V>)
        ensures
            r.remaining().len() == self@.len(),
            forall|i: int|
                0 <= i < self@.len() ==> *(#[trigger] r.remaining()[i]).0 == self@[i].key.key_view()
                    && *r.remaining()[i].1 == self@[i].value,
    {
        let mut items: Vec<(&'a K, &'a V)> = Vec::new();
        let mut i: usize = 0;
        let n = self.buckets.len();
        while i < n
            invariant
                n == self@.len(),
                i <= n,
                items@.len() == i,
                forall|j: int|
                    0 <= j < i ==> *(#[trigger] items@[j]).0 == self@[j].key.key_view()
                        && *items@[j].1 == self@[j].value,
            decreases n - i,
        {
            let b = &self.buckets[i];
            items.push((b.key.key(), &b.value));
            i = i + 1;
        }
        VMIter { items }
    }

    /// A cursor over the buckets that re-attaches the stored hash to each
    /// borrowed key — zero-copy, the hash is reused, never recomputed.
    pub fn iter_hashed<'a>(&'a self) -> (r: VMIterHash<'a, K, V>)
        ensures
            r.remaining().len() == self@.len(),
            forall|i: int|
                0 <= i < self@.len() ==> *(#[trigger] r.remaining()[i]).0.key_view() == self@[
                    i
                ].key.key_view() && r.remaining()[i].0.hash_view() == self@[i].key.hash_view()
                    && *r.remaining()[i].1 == self@[i].value,
    {
        let mut items: Vec<(BorrowHashed<'a, K>, &'a V)> = Vec::new();
        let mut i: usize = 0;
        let n = self.buckets.len();
        while i < n
            invariant
                n == self@.len(),
                i <= n,
                items@.len() == i,
                forall|j: int|
                    0 <= j < i ==> *(#[trigger] items@[j]).0.key_view() == self@[j].key.key_view()
                        && items@[j].0.hash_view() == self@[j].key.hash_view() && *items@[j].1
                        == self@[j].value,
            decreases n - i,
        {
            let b = &self.buckets[i];
            items.push((b.key.borrow(), &b.value));
            i = i + 1;
        }
        VMIterHash { items }
    }

    /// A consuming cursor over keys and values, in insertion order.
    pub fn into_iter(self) -> (r: VMIntoIter<K, V>)
        ensures
            r.remaining().len() == self@.len(),
            forall|i: int|
                0 <= i < self@.len() ==> (#[trigger] r.remaining()[i]).0 == self@[i].key.key_view()
                    && r.remaining()[i].1 == self@[i].value,
    {
        let mut items: Vec<(K, V)> = Vec::new();
        let mut buckets = self.buckets;
        let ghost s = buckets@;
        let n = buckets.len();
        let mut i: usize = 0;
        while i < n
            invariant
                n == s.len(),
                i <= n,
                buckets@ == s.subrange(i as int, n as int),
                items@.len() == i,
                forall|j: int|
                    0 <= j < i ==> (#[trigger] items@[j]).0 == s[j].key.key_view() && items@[j].1
                        == s[j].value,
            decreases n - i,
        {
            let b = buckets.remove(0);
            proof {
                assert(b == s[i as int]);
                assert(buckets@ =~= s.subrange(i + 1, n as int));
            }
            items.push((b.key.into_key(), b.value));
            i = i + 1;
        }
        VMIntoIter { items }
    }

    /// A consuming cursor over hashed keys and values, in insertion order;
    /// each key keeps its stored hash, which is never recomputed.
    pub fn into_iter_hashed(self) -> (r: VMIntoIterHash<K, V>)
        ensures
            r.remaining().len() == self@.len(),
            forall|i: int| 0 <= i < self@.len() ==> (#[trigger] r.remaining()[i]).0 == self@[i].key
                && r.remaining()[i].1 == self@[i].value,
    {
        let mut items: Vec<(Hashed<K>, V)> = Vec::new();
        let mut buckets = self.buckets;
        let ghost s = buckets@;
        let n = buckets.len();
        let mut i: usize = 0;
        while i < n
            invariant
                n == s.len(),
                i <= n,
                buckets@ == s.subrange(i as int, n as int),
                items@.len() == i,
                forall|j: int|
                    0 <= j < i ==> (#[trigger] items@[j]).0 == s[j].key && items@[j].1
                        == s[j].value,
            decreases n - i,
        {
            let b = buckets.remove(0);
            proof {
                assert(b == s[i as int]);
                assert(buckets@ =~= s.subrange(i + 1, n as int));
            }
            items.push((b.key, b.value));
            i = i + 1;
        }
        VMIntoIterHash { items }
    }
}

/// Keys-only cursor. Yields the map's keys in insertion order and reports
/// an exact remaining count; the last element is reachable directly.
pub struct VMKeys<'a, K: MapKey> {
    items: Vec<&'a K>,
}

impl<'a, K: MapKey> VMKeys<'a, K> {
    /// What is left to yield, front first.
    pub closed spec fn remaining(&self) -> Seq<&'a K> {
        self.items@
    }

    /// The element `n` positions ahead; everything up to and including it is
    /// consumed, and overshooting consumes the rest.
    pub fn nth(&mut self, n: usize) -> (r: Option<&'a K>)
        ensures
            ({
                let rem = old(self).remaining();
                if n < rem.len() {
                    r matches Some(x) && x == rem[n as int] && final(self).remaining()
                        == rem.subrange(n + 1, rem.len() as int)
                } else {
                    r is None && final(self).remaining().len() == 0
                }
            }),
    {
        cursor_nth(&mut self.items, n)
    }

    /// Exact bounds on what is left: the remaining count, twice.
    pub fn size_hint(&self) -> (r: (usize, Option<usize>))
        ensures
            r.0 == self.remaining().len(),
            r.1 matches Some(m) && m == self.remaining().len(),
    {
        (self.items.len(), Some(self.items.len()))
    }

    /// The exact number of elements left, consuming the cursor.
    pub fn count(self) -> (r: usize)
        ensures
            r == self.remaining().len(),
    {
        self.items.len()
    }

    /// The next key, front first.
    pub fn next(&mut self) -> (r: Option<&'a K>)
        ensures
            ({
                let rem = old(self).remaining();
                if rem.len() > 0 {
                    r == Some(rem[0]) && final(self).remaining() == rem.drop_first()
                } else {
                    r is None && final(self).remaining() == rem
                }
            }),
    {
        cursor_next(&mut self.items)
    }

    /// Skip to the end: the last key, consuming the cursor.
    pub fn last(self) -> (r: Option<&'a K>)
        ensures
            ({
                let rem = self.remaining();
                if rem.len() > 0 {
                    r == Some(rem.last())
                } else {
                    r is None
                }
            }),
    {
        cursor_last(self.items)
    }

    /// Exact remaining count.
    pub fn len(&self) -> (r: usize)
        ensures
            r == self.remaining().len(),
    {
        self.items.len()
    }
}

/// Values-only cursor, in insertion order.
pub struct VMValues<'a, V> {
    items: Vec<&'a V>,
}

impl<'a, V> VMValues<'a, V> {
    /// What is left to yield, front first.
    pub closed spec fn remaining(&self) -> Seq<&'a V> {
        self.items@
    }

    /// The element `n` positions ahead; everything up to and including it is
    /// consumed, and overshooting consumes the rest.
    pub fn nth(&mut self, n: usize) -> (r: Option<&'a V>)
        ensures
            ({
                let rem = old(self).remaining();
                if n < rem.len() {
                    r matches Some(x) && x == rem[n as int] && final(self).remaining()
                        == rem.subrange(n + 1, rem.len() as int)
                } else {
                    r is None && final(self).remaining().len() == 0
                }
            }),
    {
        cursor_nth(&mut self.items, n)
    }

    /// Exact bounds on what is left: the remaining count, twice.
    pub fn size_hint(&self) -> (r: (usize, Option<usize>))
        ensures
            r.0 == self.remaining().len(),
            r.1 matches Some(m) && m == self.remaining().len(),
    {
        (self.items.len(), Some(self.items.len()))
    }

    /// The exact number of elements left, consuming the cursor.
    pub fn count(self) -> (r: usize)
        ensures
            r == self.remaining().len(),
    {
        self.items.len()
    }

    /// The next value, front first.
    pub fn next(&mut self) -> (r: Option<&'a V>)
        ensures
            ({
                let rem = old(self).remaining();
                if rem.len() > 0 {
                    r == Some(rem[0]) && final(self).remaining() == rem.drop_first()
                } else {
                    r is None && final(self).remaining() == rem
                }
            }),
    {
        cursor_next(&mut self.items)
    }

    /// Skip to the end: the last value, consuming the cursor.
    pub fn last(self) -> (r: Option<&'a V>)
        ensures
            ({
                let rem = self.remaining();
                if rem.len() > 0 {
                    r == Some(rem.last())
                } else {
                    r is None
                }
            }),
    {
        cursor_last(self.items)
    }

    /// Exact remaining count.
    pub fn len(&self) -> (r: usize)
        ensures
            r == self.remaining().len(),
    {
        self.items.len()
    }
}

/// Key-and-value cursor, in insertion order.
pub struct VMIter<'a, K: MapKey, V> {
    items: Vec<(&'a K, &'a V)>,
}

impl<'a, K: MapKey, V> VMIter<'a, K, V> {
    /// What is left to yield, front first.
    pub closed spec fn remaining(&self) -> Seq<(&'a K, &'a V)> {
        self.items@
    }

    /// The element `n` positions ahead; everything up to and including it is
    /// consumed, and overshooting consumes the rest.
    pub fn nth(&mut self, n: usize) -> (r: Option<(&'a K, &'a V)>)
        ensures
            ({
                let rem = old(self).remaining();
                if n < rem.len() {
                    r matches Some(x) && x == rem[n as int] && final(self).remaining()
                        == rem.subrange(n + 1, rem.len() as int)
                } else {
                    r is None && final(self).remaining().len() == 0
                }
            }),
    {
        cursor_nth(&mut self.items, n)
    }

    /// Exact bounds on what is left: the remaining count, twice.
    pub fn size_hint(&self) -> (r: (usize, Option<usize>))
        ensures
            r.0 == self.remaining().len(),
            r.1 matches Some(m) && m == self.remaining().len(),
    {
        (self.items.len(), Some(self.items.len()))
    }

    /// The exact number of elements left, consuming the cursor.
    pub fn count(self) -> (r: usize)
        ensures
            r == self.remaining().len(),
    {
        self.items.len()
    }

    /// The next pair, front first.
    pub fn next(&mut self) -> (r: Option<(&'a K, &'a V)>)
        ensures
            ({
                let rem = old(self).remaining();
                if rem.len() > 0 {
                    r == Some(rem[0]) && final(self).remaining() == rem.drop_first()
                } else {
                    r is None && final(self).remaining() == rem
                }
            }),
    {
        cursor_next(&mut self.items)
    }

    /// Skip to the end: the last pair, consuming the cursor.
    pub fn last(self) -> (r: Option<(&'a K, &'a V)>)
        ensures
            ({
                let rem = self.remaining();
                if rem.len() > 0 {
                    r == Some(rem.last())
                } else {
                    r is None
                }
            }),
    {
        cursor_last(self.items)
    }

    /// Exact remaining count.
    pub fn len(&self) -> (r: usize)
        ensures
            r == self.remaining().len(),
    {
        self.items.len()
    }
}

/// Borrowed-hashed-key-and-value cursor, in insertion order.
pub struct VMIterHash<'a, K: MapKey, V> {
    items: Vec<(BorrowHashed<'a, K>, &'a V)>,
}

impl<'a, K: MapKey, V> VMIterHash<'a, K, V> {
    /// What is left to yield, front first.
    pub closed spec fn remaining(&self) -> Seq<(BorrowHashed<'a, K>, &'a V)> {
        self.items@
    }

    /// The element `n` positions ahead; everything up to and including it is
    /// consumed, and overshooting consumes the rest.
    pub fn nth(&mut self, n: usize) -> (r: Option<(BorrowHashed<'a, K>, &'a V)>)
        ensures
            ({
                let rem = old(self).remaining();
                if n < rem.len() {
                    r matches Some(x) && x == rem[n as int] && final(self).remaining()
                        == rem.subrange(n + 1, rem.len() as int)
                } else {
                    r is None && final(self).remaining().len() == 0
                }
            }),
    {
        cursor_nth(&mut self.items, n)
    }

    /// Exact bounds on what is left: the remaining count, twice.
    pub fn size_hint(&self) -> (r: (usize, Option<usize>))
        ensures
            r.0 == self.remaining().len(),
            r.1 matches Some(m) && m == self.remaining().len(),
    {
        (self.items.len(), Some(self.items.len()))
    }

    /// The exact number of elements left, consuming the cursor.
    pub fn count(self) -> (r: usize)
        ensures
            r == self.remaining().len(),
    {
        self.items.len()
    }

    /// The next pair, front first.
    pub fn next(&mut self) -> (r: Option<(BorrowHashed<'a, K>, &'a V)>)
        ensures
            ({
                let rem = old(self).remaining();
                if rem.len() > 0 {
                    r == Some(rem[0]) && final(self).remaining() == rem.drop_first()
                } else {
                    r is None && final(self).remaining() == rem
                }
            }),
    {
        cursor_next(&mut self.items)
    }

    /// Skip to the end: the last pair, consuming the cursor.
    pub fn last(self) -> (r: Option<(BorrowHashed<'a, K>, &'a V)>)
        ensures
            ({
                let rem = self.remaining();
                if rem.len() > 0 {
                    r == Some(rem.last())
                } else {
                    r is None
                }
            }),
    {
        cursor_last(self.items)
    }

    /// Exact remaining count.
    pub fn len(&self) -> (r: usize)
        ensures
            r == self.remaining().len(),
    {
        self.items.len()
    }
}

/// Consuming key-and-value cursor, in insertion order.
pub struct VMIntoIter<K: MapKey, V> {
    items: Vec<(K, V)>,
}

impl<K: MapKey, V> VMIntoIter<K, V> {
    /// What is left to yield, front first.
    pub closed spec fn remaining(&self) -> Seq<(K, V)> {
        self.items@
    }

    /// The element `n` positions ahead; everything up to and including it is
    /// consumed, and overshooting consumes the rest.
    pub fn nth(&mut self, n: usize) -> (r: Option<(K, V)>)
        ensures
            ({
                let rem = old(self).remaining();
                if n < rem.len() {
                    r matches Some(x) && x == rem[n as int] && final(self).remaining()
                        == rem.subrange(n + 1, rem.len() as int)
                } else {
                    r is None && final(self).remaining().len() == 0
                }
            }),
    {
        cursor_nth(&mut self.items, n)
    }

    /// Exact bounds on what is left: the remaining count, twice.
    pub fn size_hint(&self) -> (r: (usize, Option<usize>))
        ensures
            r.0 == self.remaining().len(),
            r.1 matches Some(m) && m == self.remaining().len(),
    {
        (self.items.len(), Some(self.items.len()))
    }

    /// The exact number of elements left, consuming the cursor.
    pub fn count(self) -> (r: usize)
        ensures
            r == self.remaining().len(),
    {
        self.items.len()
    }

    /// The next pair, front first.
    pub fn next(&mut self) -> (r: Option<(K, V)>)
        ensures
            ({
                let rem = old(self).remaining();
                if rem.len() > 0 {
                    r matches Some(x) && x == rem[0] && final(self).remaining() == rem.drop_first()
                } else {
                    r is None && final(self).remaining() == rem
                }
            }),
    {
        cursor_next(&mut self.items)
    }

    /// Skip to the end: the last pair, consuming the cursor.
    pub fn last(self) -> (r: Option<(K, V)>)
        ensures
            ({
                let rem = self.remaining();
                if rem.len() > 0 {
                    r matches Some(x) && x == rem.last()
                } else {
                    r is None
                }
            }),
    {
        cursor_last(self.items)
    }

    /// Exact remaining count.
    pub fn len(&self) -> (r: usize)
        ensures
            r == self.remaining().len(),
    {
        self.items.len()
    }
}

/// Consuming hashed-key-and-value cursor, in insertion order; each key
/// keeps its stored hash.
pub struct VMIntoIterHash<K: MapKey, V> {
    items: Vec<(Hashed<K>, V)>,
}

impl<K: MapKey, V> VMIntoIterHash<K, V> {
    /// What is left to yield, front first.
    pub closed spec fn remaining(&self) -> Seq<(Hashed<K>, V)> {
        self.items@
    }

    /// The element `n` positions ahead; everything up to and including it is
    /// consumed, and overshooting consumes the rest.
    pub fn nth(&mut self, n: usize) -> (r: Option<(Hashed<K>, V)>)
        ensures
            ({
                let rem = old(self).remaining();
                if n < rem.len() {
                    r matches Some(x) && x == rem[n as int] && final(self).remaining()
                        == rem.subrange(n + 1, rem.len() as int)
                } else {
                    r is None && final(self).remaining().len() == 0
                }
            }),
    {
        cursor_nth(&mut self.items, n)
    }

    /// Exact bounds on what is left: the remaining count, twice.
    pub fn size_hint(&self) -> (r: (usize, Option<usize>))
        ensures
            r.0 == self.remaining().len(),
            r.1 matches Some(m) && m == self.remaining().len(),
    {
        (self.items.len(), Some(self.items.len()))
    }

    /// The exact number of elements left, consuming the cursor.
    pub fn count(self) -> (r: usize)
        ensures
            r == self.remaining().len(),
    {
        self.items.len()
    }

    /// The next pair, front first.
    pub fn next(&mut self) -> (r: Option<(Hashed<K>, V)>)
        ensures
            ({
                let rem = old(self).remaining();
                if rem.len() > 0 {
                    r matches Some(x) && x == rem[0] && final(self).remaining() == rem.drop_first()
                } else {
                    r is None && final(self).remaining() == rem
                }
            }),
    {
        cursor_next(&mut self.items)
    }

    /// Skip to the end: the last pair, consuming the cursor.
    pub fn last(self) -> (r: Option<(Hashed<K>, V)>)
        ensures
            ({
                let rem = self.remaining();
                if rem.len() > 0 {
                    r matches Some(x) && x == rem.last()
                } else {
                    r is None
                }
            }),
    {
        cursor_last(self.items)
    }

    /// Exact remaining count.
    pub fn len(&self) -> (r: usize)
        ensures
            r == self.remaining().len(),
    {
        self.items.len()
    }
}

} // verus!
