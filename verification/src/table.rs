use vstd::prelude::*;

use crate::coordinates::Coordinates;

verus! {

/// A key of the association lists that stand for the json objects of CDDA data
/// (maps from ids, characters or coordinates to values).
pub trait TableKey: Sized {
    type KeyView;

    spec fn key_view(&self) -> Self::KeyView;

    fn key_eq(&self, other: &Self) -> (b: bool)
        ensures
            b == (self.key_view() == other.key_view()),
    ;
}

impl TableKey for String {
    type KeyView = Seq<char>;

    open spec fn key_view(&self) -> Seq<char> {
        self@
    }

    fn key_eq(&self, other: &Self) -> (b: bool) {
        *self == *other
    }
}

impl TableKey for char {
    type KeyView = char;

    open spec fn key_view(&self) -> char {
        *self
    }

    fn key_eq(&self, other: &Self) -> (b: bool) {
        *self == *other
    }
}

impl TableKey for Coordinates {
    type KeyView = Coordinates;

    open spec fn key_view(&self) -> Coordinates {
        *self
    }

    fn key_eq(&self, other: &Self) -> (b: bool) {
        self.x == other.x && self.y == other.y
    }
}

/// The value of the first entry whose key is `k`, as a json object or hash map
/// lookup gives it when keys are unique.
pub open spec fn lookup<K: TableKey, V>(s: Seq<(K, V)>, k: K::KeyView) -> Option<V>
    decreases s.len(),
{
    if s.len() == 0 {
        None
    } else if s[0].0.key_view() == k {
        Some(s[0].1)
    } else {
        lookup(s.drop_first(), k)
    }
}

/// No key occurs twice.
pub open spec fn keys_unique<K: TableKey, V>(s: Seq<(K, V)>) -> bool {
    forall|i: int, j: int|
        0 <= i < s.len() && 0 <= j < s.len() && i != j ==> #[trigger] s[i].0.key_view()
            != #[trigger] s[j].0.key_view()
}

/// The map that a list with unique keys stands for.
pub open spec fn table_map<K: TableKey, V>(s: Seq<(K, V)>) -> Map<K::KeyView, V> {
    Map::new(|k: K::KeyView| lookup(s, k) is Some, |k: K::KeyView| lookup(s, k).unwrap())
}

/// The lookup finds the first entry with the key, and none when there is no such entry.
pub proof fn lemma_lookup_index<K: TableKey, V>(s: Seq<(K, V)>, k: K::KeyView)
    ensures
        lookup(s, k) is None <==> (forall|i: int| 0 <= i < s.len() ==> s[i].0.key_view() != k),
        lookup(s, k) is Some ==> exists|i: int|
            0 <= i < s.len() && s[i].0.key_view() == k && lookup(s, k) == Some(s[i].1) && (
            forall|j: int| 0 <= j < i ==> s[j].0.key_view() != k),
    decreases s.len(),
{
    if s.len() > 0 {
        lemma_lookup_index(s.drop_first(), k);
        if s[0].0.key_view() != k {
            if lookup(s, k) is Some {
                let i = choose|i: int|
                    0 <= i < s.drop_first().len() && s.drop_first()[i].0.key_view() == k
                        && lookup(s.drop_first(), k) == Some(s.drop_first()[i].1) && (forall|
                        j: int,
                    |
                        0 <= j < i ==> s.drop_first()[j].0.key_view() != k);
                assert(s[i + 1] == s.drop_first()[i]);
                assert forall|j: int| 0 <= j < i + 1 implies s[j].0.key_view() != k by {
                    if j > 0 {
                        assert(s[j] == s.drop_first()[j - 1]);
                    }
                }
            }
            assert forall|i: int|
                0 <= i < s.len() && (forall|j: int|
                    0 <= j < s.drop_first().len() ==> s.drop_first()[j].0.key_view()
                        != k) implies s[i].0.key_view() != k by {
                if i > 0 {
                    assert(s[i] == s.drop_first()[i - 1]);
                }
            }
        }
    }
}

/// With unique keys, an entry with key `k` is what the lookup of `k` gives.
pub proof fn lemma_lookup_unique<K: TableKey, V>(s: Seq<(K, V)>, i: int)
    requires
        keys_unique(s),
        0 <= i < s.len(),
    ensures
        lookup(s, s[i].0.key_view()) == Some(s[i].1),
{
    lemma_lookup_index(s, s[i].0.key_view());
}

/// Removing entry `i` from a list with unique keys removes exactly its key from the map.
pub proof fn lemma_lookup_remove<K: TableKey, V>(s: Seq<(K, V)>, i: int, k: K::KeyView)
    requires
        keys_unique(s),
        0 <= i < s.len(),
    ensures
        keys_unique(s.remove(i)),
        lookup(s.remove(i), k) == (if k == s[i].0.key_view() {
            None
        } else {
            lookup(s, k)
        }),
{
    let r = s.remove(i);
    assert forall|a: int, b: int|
        0 <= a < r.len() && 0 <= b < r.len() && a != b implies #[trigger] r[a].0.key_view()
        != #[trigger] r[b].0.key_view() by {
        let a2 = if a < i { a } else { a + 1 };
        let b2 = if b < i { b } else { b + 1 };
        assert(r[a] == s[a2]);
        assert(r[b] == s[b2]);
    }
    lemma_lookup_index(r, k);
    lemma_lookup_index(s, k);
    if k == s[i].0.key_view() {
        assert forall|j: int| 0 <= j < r.len() implies r[j].0.key_view() != k by {
            let j2 = if j < i { j } else { j + 1 };
            assert(r[j] == s[j2]);
        }
    } else {
        if lookup(s, k) is Some {
            let j = choose|j: int|
                0 <= j < s.len() && s[j].0.key_view() == k && lookup(s, k) == Some(s[j].1) && (
                forall|m: int| 0 <= m < j ==> s[m].0.key_view() != k);
            let j2 = if j < i { j } else { j - 1 };
            assert(r[j2] == s[j]);
            lemma_lookup_unique(r, j2);
        } else {
            assert forall|j: int| 0 <= j < r.len() implies r[j].0.key_view() != k by {
                let j2 = if j < i { j } else { j + 1 };
                assert(r[j] == s[j2]);
            }
        }
    }
}

/// Lookup in `s` starting at `i`.
proof fn lemma_lookup_skip<K: TableKey, V>(s: Seq<(K, V)>, k: K::KeyView, i: int)
    requires
        0 <= i < s.len(),
        s[i].0.key_view() != k,
    ensures
        lookup(s.skip(i), k) == lookup(s.skip(i + 1), k),
{
    assert(s.skip(i).drop_first() =~= s.skip(i + 1));
}

/// The index of the first entry with key `k`.
pub fn find_index<K: TableKey, V>(s: &Vec<(K, V)>, k: &K) -> (r: Option<usize>)
    ensures
        match r {
            None => lookup(s@, k.key_view()) is None,
            Some(i) => i < s.len() && s@[i as int].0.key_view() == k.key_view() && lookup(
                s@,
                k.key_view(),
            ) == Some(s@[i as int].1) && forall|j: int|
                0 <= j < i ==> #[trigger] s@[j].0.key_view() != k.key_view(),
        },
{
    let mut i: usize = 0;
    assert(s@.skip(0) =~= s@);
    while i < s.len()
        invariant
            i <= s.len(),
            lookup(s@, k.key_view()) == lookup(s@.skip(i as int), k.key_view()),
            forall|j: int| 0 <= j < i ==> #[trigger] s@[j].0.key_view() != k.key_view(),
        decreases s.len() - i,
    {
        if s[i].0.key_eq(k) {
            assert(s@.skip(i as int)[0] == s@[i as int]);
            return Some(i);
        }
        proof {
            lemma_lookup_skip(s@, k.key_view(), i as int);
        }
        i = i + 1;
    }
    assert(s@.skip(i as int).len() == 0);
    None
}

/// The value of the first entry with key `k`.
pub fn find<'a, K: TableKey, V>(s: &'a Vec<(K, V)>, k: &K) -> (r: Option<&'a V>)
    ensures
        match r {
            None => lookup(s@, k.key_view()) is None,
            Some(v) => lookup(s@, k.key_view()) == Some(*v),
        },
{
    match find_index(s, k) {
        None => None,
        Some(i) => Some(&s[i].1),
    }
}

/// Sets the value of key `k`: replaces the entry with that key, or appends one.
/// Other keys keep their values, and unique keys stay unique.
pub fn insert<K: TableKey, V>(s: &mut Vec<(K, V)>, k: K, v: V)
    ensures
        lookup(final(s)@, k.key_view()) == Some(v),
        forall|k2: K::KeyView|
            k2 != k.key_view() ==> #[trigger] lookup(final(s)@, k2) == lookup(old(s)@, k2),
        keys_unique(old(s)@) ==> keys_unique(final(s)@),
{
    match find_index(s, &k) {
        Some(i) => {
            proof {
                lemma_lookup_index(s@, k.key_view());
            }
            let ghost old_s = s@;
            s.set(i, (k, v));
            proof {
                assert forall|k2: K::KeyView|
                    k2 != old_s[i as int].0.key_view() implies #[trigger] lookup(s@, k2) == lookup(
                    old_s,
                    k2,
                ) by {
                    lemma_lookup_set(old_s, i as int, (k, v), k2);
                }
                lemma_lookup_set_same(old_s, i as int, (k, v));
            }
        },
        None => {
            let ghost old_s = s@;
            let ghost kv = k.key_view();
            proof {
                lemma_lookup_index(old_s, kv);
            }
            s.push((k, v));
            proof {
                assert forall|k2: K::KeyView| true implies #[trigger] lookup(s@, k2) == (if k2 == kv {
                    Some(v)
                } else {
                    lookup(old_s, k2)
                }) by {
                    lemma_lookup_push(old_s, (k, v), k2);
                }
            }
        },
    }
}

proof fn lemma_lookup_push<K: TableKey, V>(s: Seq<(K, V)>, e: (K, V), k: K::KeyView)
    requires
        lookup(s, e.0.key_view()) is None,
    ensures
        lookup(s.push(e), k) == (if k == e.0.key_view() {
            Some(e.1)
        } else {
            lookup(s, k)
        }),
    decreases s.len(),
{
    if s.len() > 0 {
        assert(s.push(e).drop_first() =~= s.drop_first().push(e));
        assert(s.push(e)[0] == s[0]);
        assert(s[0].0.key_view() != e.0.key_view());
        lemma_lookup_push(s.drop_first(), e, k);
        if s[0].0.key_view() == k {
            assert(lookup(s, k) == Some(s[0].1));
        } else {
            assert(lookup(s.push(e), k) == lookup(s.drop_first().push(e), k));
            assert(lookup(s, k) == lookup(s.drop_first(), k));
        }
    } else {
        assert(s.push(e)[0] == e);
        assert(s.push(e).drop_first().len() == 0);
        assert(lookup(s.push(e).drop_first(), k) is None);
    }
}

proof fn lemma_lookup_set<K: TableKey, V>(s: Seq<(K, V)>, i: int, e: (K, V), k: K::KeyView)
    requires
        0 <= i < s.len(),
        e.0.key_view() == s[i].0.key_view(),
        k != s[i].0.key_view(),
    ensures
        lookup(s.update(i, e), k) == lookup(s, k),
    decreases s.len(),
{
    if s.len() > 0 && i > 0 {
        assert(s.update(i, e).drop_first() =~= s.drop_first().update(i - 1, e));
        lemma_lookup_set(s.drop_first(), i - 1, e, k);
    } else if s.len() > 0 {
        assert(s.update(i, e).drop_first() =~= s.drop_first());
    }
}

proof fn lemma_lookup_set_same<K: TableKey, V>(s: Seq<(K, V)>, i: int, e: (K, V))
    requires
        0 <= i < s.len(),
        e.0.key_view() == s[i].0.key_view(),
        forall|j: int| 0 <= j < i ==> s[j].0.key_view() != e.0.key_view(),
    ensures
        lookup(s.update(i, e), e.0.key_view()) == Some(e.1),
    decreases s.len(),
{
    if i > 0 {
        assert(s.update(i, e).drop_first() =~= s.drop_first().update(i - 1, e));
        assert(s[0].0.key_view() != e.0.key_view());
        assert forall|j: int| 0 <= j < i - 1 implies s.drop_first()[j].0.key_view()
            != e.0.key_view() by {
            assert(s.drop_first()[j] == s[j + 1]);
        }
        lemma_lookup_set_same(s.drop_first(), i - 1, e);
    }
}

} // verus!
