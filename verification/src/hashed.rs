//! Keys bundled with their precomputed, truncated hash.
//!
//! A hash is computed once, when a handle is made, and never recomputed on
//! later lookups or inserts. Lookup compares the stored hash first and falls
//! back to the key equivalence relation only on a hash match, so the hash
//! function is required to agree with that relation.

use vstd::prelude::*;
use vstd::string::StrSliceExecFns;

verus! {

/// A fixed-width, truncated hash value cached alongside a key.
#[derive(Clone, Copy, PartialEq, Eq, Structural, Debug)]
pub struct SmallHashResult(pub u32);

/// The contract a key type owes the ordered map: an equivalence relation,
/// a truncated hash that is stable and agrees with that relation, and
/// executable checks for both.
pub trait MapKey: Sized {
    /// The container's equivalence relation on keys.
    spec fn key_eq(&self, other: &Self) -> bool;

    /// The truncated hash of this key.
    spec fn hash_spec(&self) -> SmallHashResult;

    /// Executable equivalence check.
    fn equivalent(&self, other: &Self) -> (r: bool)
        ensures
            r == self.key_eq(other),
    ;

    /// Executable hash computation.
    fn small_hash(&self) -> (r: SmallHashResult)
        ensures
            r == self.hash_spec(),
    ;

    /// Every key is equivalent to itself.
    proof fn lemma_eq_reflexive(&self)
        ensures
            self.key_eq(self),
    ;

    /// Equivalence is symmetric.
    proof fn lemma_eq_symmetric(a: &Self, b: &Self)
        ensures
            a.key_eq(b) == b.key_eq(a),
    ;

    /// Equivalence is transitive.
    proof fn lemma_eq_transitive(a: &Self, b: &Self, c: &Self)
        requires
            a.key_eq(b),
            b.key_eq(c),
        ensures
            a.key_eq(c),
    ;

    /// Equivalent keys hash alike: a hash mismatch proves the keys apart,
    /// while a hash match proves nothing and must be followed by the
    /// equivalence check.
    proof fn lemma_eq_hash(a: &Self, b: &Self)
        requires
            a.key_eq(b),
        ensures
            a.hash_spec() == b.hash_spec(),
    ;
}

/// An owned key with its hash computed once at construction.
pub struct Hashed<K: MapKey> {
    hash: SmallHashResult,
    key: K,
}

impl<K: MapKey> Hashed<K> {
    #[verifier::type_invariant]
    spec fn inv(self) -> bool {
        self.hash == self.key.hash_spec()
    }

    /// The stored hash, for specifications.
    pub closed spec fn hash_view(self) -> SmallHashResult {
        self.hash
    }

    /// The stored key, for specifications.
    pub closed spec fn key_view(self) -> K {
        self.key
    }

    /// Bundle a key with its freshly computed hash.
    pub fn new(key: K) -> (r: Self)
        ensures
            r.key_view() == key,
            r.hash_view() == key.hash_spec(),
    {
        let hash = key.small_hash();
        Hashed { hash, key }
    }

    /// Reattach an already-known hash without recomputation. The caller owes
    /// the proof that the hash really is this key's hash, which holds
    /// exactly where the pair was taken from a well-formed bucket or handle.
    pub fn new_unchecked(hash: SmallHashResult, key: K) -> (r: Self)
        requires
            hash == key.hash_spec(),
        ensures
            r.key_view() == key,
            r.hash_view() == hash,
    {
        Hashed { hash, key }
    }

    /// The precomputed hash, which always is the stored key's own hash.
    pub fn hash(&self) -> (r: SmallHashResult)
        ensures
            r == self.hash_view(),
            r == self.key_view().hash_spec(),
    {
        proof {
            use_type_invariant(self);
        }
        self.hash
    }

    /// The key.
    pub fn key(&self) -> (r: &K)
        ensures
            *r == self.key_view(),
    {
        &self.key
    }

    /// Give up the handle, keeping the key.
    pub fn into_key(self) -> (r: K)
        ensures
            r == self.key_view(),
    {
        self.key
    }

    /// A borrowed handle over the same key, reusing the stored hash.
    pub fn borrow(&self) -> (r: BorrowHashed<'_, K>)
        ensures
            *r.key_view() == self.key_view(),
            r.hash_view() == self.hash_view(),
    {
        proof {
            use_type_invariant(self);
        }
        BorrowHashed { hash: self.hash, key: &self.key }
    }
}

/// A borrowed key with its hash, for lookups that should not take ownership.
pub struct BorrowHashed<'a, K: MapKey> {
    hash: SmallHashResult,
    key: &'a K,
}

impl<'a, K: MapKey> BorrowHashed<'a, K> {
    #[verifier::type_invariant]
    spec fn inv(self) -> bool {
        self.hash == self.key.hash_spec()
    }

    /// The stored hash, for specifications.
    pub closed spec fn hash_view(self) -> SmallHashResult {
        self.hash
    }

    /// The borrowed key, for specifications.
    pub closed spec fn key_view(self) -> &'a K {
        self.key
    }

    /// Bundle a borrowed key with its freshly computed hash.
    pub fn new(key: &'a K) -> (r: Self)
        ensures
            r.key_view() == key,
            r.hash_view() == key.hash_spec(),
    {
        let hash = key.small_hash();
        BorrowHashed { hash, key }
    }

    /// Reattach an already-known hash to a borrowed key without recomputation.
    pub fn new_unchecked(hash: SmallHashResult, key: &'a K) -> (r: Self)
        requires
            hash == key.hash_spec(),
        ensures
            r.key_view() == key,
            r.hash_view() == hash,
    {
        BorrowHashed { hash, key }
    }

    /// The precomputed hash, which always is the borrowed key's own hash.
    pub fn hash(&self) -> (r: SmallHashResult)
        ensures
            r == self.hash_view(),
            r == self.key_view().hash_spec(),
    {
        proof {
            use_type_invariant(self);
        }
        self.hash
    }

    /// The key.
    pub fn key(&self) -> (r: &'a K)
        ensures
            r == self.key_view(),
    {
        self.key
    }
}

/// A key that is a machine word; its hash is the word truncated to 32 bits,
/// so two keys that differ only above the low 32 bits collide.
#[derive(Clone, Copy, PartialEq, Eq, Structural, Debug)]
pub struct IntKey(pub u64);

impl MapKey for IntKey {
    open spec fn key_eq(&self, other: &Self) -> bool {
        self.0 == other.0
    }

    open spec fn hash_spec(&self) -> SmallHashResult {
        SmallHashResult(self.0 as u32)
    }

    fn equivalent(&self, other: &Self) -> (r: bool) {
        self.0 == other.0
    }

    fn small_hash(&self) -> (r: SmallHashResult) {
        SmallHashResult(#[verifier::truncate] (self.0 as u32))
    }

    proof fn lemma_eq_reflexive(&self) {
    }

    proof fn lemma_eq_symmetric(a: &Self, b: &Self) {
    }

    proof fn lemma_eq_transitive(a: &Self, b: &Self, c: &Self) {
    }

    proof fn lemma_eq_hash(a: &Self, b: &Self) {
    }
}

/// The truncated hash of a character sequence: a running 32-bit sum of the
/// characters, wrapping on overflow.
pub open spec fn str_hash(s: Seq<char>) -> u32
    decreases s.len(),
{
    if s.len() == 0 {
        5381u32
    } else {
        vstd::wrapping::u32_specs::wrapping_add(str_hash(s.drop_last()), s.last() as u32)
    }
}

/// The running character sum of a string slice, as [`str_hash`] states it.
pub fn hash_chars(s: &str) -> (r: u32)
    ensures
        r == str_hash(s@),
{
    let n = s.unicode_len();
    let mut h: u32 = 5381;
    let mut i: usize = 0;
    proof {
        assert(s@.subrange(0, 0) =~= Seq::<char>::empty());
    }
    while i < n
        invariant
            n == s@.len(),
            i <= n,
            h == str_hash(s@.subrange(0, i as int)),
        decreases n - i,
    {
        let c = s.get_char(i);
        h = h.wrapping_add(c as u32);
        proof {
            let pre = s@.subrange(0, i as int);
            let post = s@.subrange(0, i + 1 as int);
            assert(post.drop_last() =~= pre);
            assert(post.last() == s@[i as int]);
        }
        i = i + 1;
    }
    proof {
        assert(s@.subrange(0, n as int) =~= s@);
    }
    h
}

/// A string key, equivalent by character content.
#[derive(Debug)]
pub struct StringKey(pub String);

impl MapKey for StringKey {
    open spec fn key_eq(&self, other: &Self) -> bool {
        self.0@ == other.0@
    }

    open spec fn hash_spec(&self) -> SmallHashResult {
        SmallHashResult(str_hash(self.0@))
    }

    fn equivalent(&self, other: &Self) -> (r: bool) {
        self.0 == other.0
    }

    fn small_hash(&self) -> (r: SmallHashResult) {
        SmallHashResult(hash_chars(self.0.as_str()))
    }

    proof fn lemma_eq_reflexive(&self) {
    }

    proof fn lemma_eq_symmetric(a: &Self, b: &Self) {
    }

    proof fn lemma_eq_transitive(a: &Self, b: &Self, c: &Self) {
    }

    proof fn lemma_eq_hash(a: &Self, b: &Self) {
    }
}

} // verus!
