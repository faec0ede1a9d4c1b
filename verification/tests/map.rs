use starlark::hashed::{BorrowHashed, Hashed, IntKey, MapKey, SmallHashResult, StringKey};
use starlark::vec_map::VecMap;

fn skey(s: &str) -> StringKey {
    StringKey(String::from(s))
}

#[test]
fn insert_then_get_full_roundtrip() {
    let mut m: VecMap<StringKey, i64> = VecMap::new();
    m.insert_unique_unchecked(Hashed::new(skey("a")), 1);
    m.insert_unique_unchecked(Hashed::new(skey("b")), 2);
    let k = skey("b");
    let r = m.get_full(BorrowHashed::new(&k));
    let (i, key, v) = r.expect("inserted key must be found");
    assert_eq!(i, 1);
    assert!(key.equivalent(&skey("b")));
    assert_eq!(*v, 2);
}

#[test]
fn scenario_insert_remove_iterate_in_order() {
    let mut m: VecMap<StringKey, i64> = VecMap::new();
    m.insert_unique_unchecked(Hashed::new(skey("a")), 1);
    m.insert_unique_unchecked(Hashed::new(skey("b")), 2);
    m.insert_unique_unchecked(Hashed::new(skey("c")), 3);
    let kb = skey("b");
    let removed = m.remove_hashed_entry(BorrowHashed::new(&kb));
    let (k, v) = removed.expect("b was present");
    assert!(k.equivalent(&skey("b")));
    assert_eq!(v, 2);

    let mut it = m.iter();
    assert_eq!(it.len(), 2);
    let (k0, v0) = it.next().expect("first pair");
    assert!(k0.equivalent(&skey("a")));
    assert_eq!(*v0, 1);
    let (k1, v1) = it.next().expect("second pair");
    assert!(k1.equivalent(&skey("c")));
    assert_eq!(*v1, 3);
    assert!(it.next().is_none());

    let kc = skey("c");
    let (i, _, v) = m.get_full(BorrowHashed::new(&kc)).expect("c still present");
    assert_eq!(i, 1);
    assert_eq!(*v, 3);
}

#[test]
fn forced_hash_collision_never_crosses_keys() {
    // IntKey hashes by truncation to 32 bits, so these two distinct keys
    // collide on their stored hash.
    let a = IntKey(1);
    let b = IntKey(1 + (1u64 << 32));
    assert_eq!(a.small_hash(), b.small_hash());
    assert!(!a.equivalent(&b));

    let mut m: VecMap<IntKey, &'static str> = VecMap::new();
    m.insert_unique_unchecked(Hashed::new(a), "a");
    m.insert_unique_unchecked(Hashed::new(b), "b");

    let (ia, ka, va) = m.get_full(BorrowHashed::new(&a)).expect("a present");
    assert_eq!(ia, 0);
    assert!(ka.equivalent(&a));
    assert_eq!(*va, "a");

    let (ib, kb, vb) = m.get_full(BorrowHashed::new(&b)).expect("b present");
    assert_eq!(ib, 1);
    assert!(kb.equivalent(&b));
    assert_eq!(*vb, "b");
}

#[test]
fn duplicate_keys_hit_first_in_storage_order() {
    // Inserting an equivalent key twice is a caller bug; the container
    // still acts deterministically on the first duplicate.
    let mut m: VecMap<IntKey, i64> = VecMap::new();
    m.insert_unique_unchecked(Hashed::new(IntKey(7)), 10);
    m.insert_unique_unchecked(Hashed::new(IntKey(7)), 20);

    let k = IntKey(7);
    let (i, _, v) = m.get_full(BorrowHashed::new(&k)).expect("present");
    assert_eq!(i, 0);
    assert_eq!(*v, 10);

    let (_, v) = m.remove_hashed_entry(BorrowHashed::new(&k)).expect("present");
    assert_eq!(v, 10);
    // The second duplicate survives and is now the first match.
    let (i, _, v) = m.get_full(BorrowHashed::new(&k)).expect("still present");
    assert_eq!(i, 0);
    assert_eq!(*v, 20);
}

#[test]
fn lookup_miss_is_none_not_error() {
    let m: VecMap<IntKey, i64> = VecMap::new();
    let k = IntKey(1);
    assert!(m.get_full(BorrowHashed::new(&k)).is_none());
    assert!(m.get_index_of_hashed(BorrowHashed::new(&k)).is_none());
    let mut m = m;
    assert!(m.remove_hashed_entry(BorrowHashed::new(&k)).is_none());
}

#[test]
fn default_map_is_empty() {
    let m: VecMap<IntKey, i64> = VecMap::default();
    assert!(m.is_empty());
}

#[test]
fn len_is_empty_clear_with_capacity_reserve() {
    let mut m: VecMap<IntKey, i64> = VecMap::with_capacity(8);
    assert!(m.is_empty());
    assert_eq!(m.len(), 0);
    m.reserve(4);
    m.insert_unique_unchecked(Hashed::new(IntKey(1)), 1);
    assert!(!m.is_empty());
    assert_eq!(m.len(), 1);
    m.clear();
    assert!(m.is_empty());
    assert_eq!(m.len(), 0);
}

#[test]
fn positional_access_and_value_replacement() {
    let mut m: VecMap<IntKey, i64> = VecMap::new();
    m.insert_unique_unchecked(Hashed::new(IntKey(1)), 10);
    m.insert_unique_unchecked(Hashed::new(IntKey(2)), 20);

    let (k, v) = m.get_index(0).expect("index 0");
    assert!(k.equivalent(&IntKey(1)));
    assert_eq!(*v, 10);
    assert!(m.get_index(2).is_none());

    let b = m.get_unchecked(1);
    assert_eq!(*b.key.key(), IntKey(2));
    assert_eq!(b.value, 20);

    let old = m.set_value_unchecked(1, 25);
    assert_eq!(old, 20);
    let (_, v) = m.get_index(1).expect("index 1");
    assert_eq!(*v, 25);
    // The key and its stored hash are untouched by value replacement.
    let k2 = IntKey(2);
    let (i, _, v) = m.get_full(BorrowHashed::new(&k2)).expect("still there");
    assert_eq!(i, 1);
    assert_eq!(*v, 25);
}

#[test]
fn cursors_yield_in_insertion_order() {
    let mut m: VecMap<StringKey, i64> = VecMap::new();
    m.insert_unique_unchecked(Hashed::new(skey("x")), 1);
    m.insert_unique_unchecked(Hashed::new(skey("y")), 2);
    m.insert_unique_unchecked(Hashed::new(skey("z")), 3);

    let mut keys = m.keys();
    assert_eq!(keys.len(), 3);
    assert!(keys.next().unwrap().equivalent(&skey("x")));
    assert!(keys.next().unwrap().equivalent(&skey("y")));
    assert!(keys.next().unwrap().equivalent(&skey("z")));
    assert!(keys.next().is_none());

    let last = m.keys().last().expect("non-empty");
    assert!(last.equivalent(&skey("z")));

    let mut values = m.values();
    assert_eq!(values.len(), 3);
    assert_eq!(*values.next().unwrap(), 1);
    assert_eq!(*values.last().unwrap(), 3);

    let mut pairs = m.iter();
    let (k, v) = pairs.next().unwrap();
    assert!(k.equivalent(&skey("x")));
    assert_eq!(*v, 1);
}

#[test]
fn hashed_cursors_reuse_the_stored_hash() {
    let mut m: VecMap<StringKey, i64> = VecMap::new();
    m.insert_unique_unchecked(Hashed::new(skey("k")), 9);

    let mut it = m.iter_hashed();
    assert_eq!(it.len(), 1);
    let (bh, v) = it.next().expect("one pair");
    assert_eq!(bh.hash(), skey("k").small_hash());
    assert!(bh.key().equivalent(&skey("k")));
    assert_eq!(*v, 9);

    let mut owned = m.into_iter_hashed();
    let (hk, v) = owned.next().expect("one pair");
    assert_eq!(hk.hash(), skey("k").small_hash());
    assert!(hk.key().equivalent(&skey("k")));
    assert_eq!(v, 9);
    assert!(owned.next().is_none());
}

#[test]
fn consuming_cursor_yields_owned_pairs_in_order() {
    let mut m: VecMap<IntKey, i64> = VecMap::new();
    m.insert_unique_unchecked(Hashed::new(IntKey(1)), 10);
    m.insert_unique_unchecked(Hashed::new(IntKey(2)), 20);
    let mut it = m.into_iter();
    assert_eq!(it.len(), 2);
    assert_eq!(it.next(), Some((IntKey(1), 10)));
    assert_eq!(it.last(), Some((IntKey(2), 20)));
}

#[test]
fn cursor_nth_size_hint_and_count() {
    let mut m: VecMap<IntKey, i64> = VecMap::new();
    m.insert_unique_unchecked(Hashed::new(IntKey(1)), 10);
    m.insert_unique_unchecked(Hashed::new(IntKey(2)), 20);
    m.insert_unique_unchecked(Hashed::new(IntKey(3)), 30);

    let keys = m.keys();
    assert_eq!(keys.size_hint(), (3, Some(3)));
    assert_eq!(keys.count(), 3);

    let mut vals = m.values();
    assert_eq!(*vals.nth(1).expect("second value"), 20);
    assert_eq!(vals.len(), 1);
    assert_eq!(*vals.next().expect("third value"), 30);

    let mut owned = m.into_iter();
    assert!(owned.nth(5).is_none());
    assert_eq!(owned.len(), 0);
    assert!(owned.next().is_none());
}

#[test]
fn capacity_is_at_least_the_length() {
    let mut m: VecMap<IntKey, i64> = VecMap::with_capacity(4);
    assert!(m.capacity() >= 0);
    m.insert_unique_unchecked(Hashed::new(IntKey(1)), 1);
    m.insert_unique_unchecked(Hashed::new(IntKey(2)), 2);
    assert!(m.capacity() >= m.len());
    m.reserve(16);
    assert!(m.capacity() >= m.len());
}

#[test]
fn string_key_hash_is_the_running_character_sum() {
    // 5381 + 'a' + 'b' + 'c' = 5381 + 97 + 98 + 99.
    assert_eq!(skey("abc").small_hash(), SmallHashResult(5675));
    assert_eq!(skey("").small_hash(), SmallHashResult(5381));
    // The sum ignores order, so permutations deliberately collide.
    assert_eq!(skey("cba").small_hash(), SmallHashResult(5675));
}

#[test]
fn int_key_hash_truncates_to_low_bits() {
    assert_eq!(IntKey(5).small_hash(), SmallHashResult(5));
    assert_eq!(IntKey(5 + (1u64 << 32)).small_hash(), SmallHashResult(5));
}

#[test]
fn hashed_handles_bundle_key_and_hash_once() {
    let h = Hashed::new(IntKey(3));
    assert_eq!(h.hash(), SmallHashResult(3));
    assert_eq!(*h.key(), IntKey(3));

    let b = h.borrow();
    assert_eq!(b.hash(), SmallHashResult(3));
    assert_eq!(*b.key(), IntKey(3));

    let k = IntKey(3);
    let b2 = BorrowHashed::new_unchecked(SmallHashResult(3), &k);
    assert_eq!(b2.hash(), SmallHashResult(3));

    let h2 = Hashed::new_unchecked(SmallHashResult(3), IntKey(3));
    assert_eq!(h2.into_key(), IntKey(3));
}
