//! Finding a key in an ordered list of keys.

use vstd::prelude::*;

verus! {

/// Whether `i` is the first place at which `key` stands in `keys`.
pub open spec fn is_first_at<A>(keys: Seq<A>, key: A, i: int) -> bool {
    &&& 0 <= i < keys.len()
    &&& keys[i] == key
    &&& forall|j: int| 0 <= j < i ==> keys[j] != key
}

/// The first place at which `key` stands in `keys`, if it stands there.
pub open spec fn first_index<A>(keys: Seq<A>, key: A) -> Option<int> {
    if exists|i: int| is_first_at(keys, key, i) {
        Some(choose|i: int| is_first_at(keys, key, i))
    } else {
        None
    }
}

/// A place that is a first one is the first one.
pub proof fn lemma_first_index_found<A>(keys: Seq<A>, key: A, i: int)
    requires
        is_first_at(keys, key, i),
    ensures
        first_index(keys, key) == Some(i),
{
    let k = choose|k: int| is_first_at(keys, key, k);
    assert(is_first_at(keys, key, k));
    if k < i {
        assert(keys[k] != key);
    } else if i < k {
        assert(keys[i] != key);
    }
}

/// A key that stands nowhere has no first place.
pub proof fn lemma_first_index_absent<A>(keys: Seq<A>, key: A)
    requires
        forall|j: int| 0 <= j < keys.len() ==> keys[j] != key,
    ensures
        first_index(keys, key) is None,
{
}

/// What `first_index` returns is in range and holds the key; none means
/// that the key stands nowhere.
pub proof fn lemma_first_index<A>(keys: Seq<A>, key: A)
    ensures
        match first_index(keys, key) {
            Some(i) => is_first_at(keys, key, i),
            None => forall|j: int| 0 <= j < keys.len() ==> keys[j] != key,
        },
{
    if first_index(keys, key) is None {
        assert forall|j: int| 0 <= j < keys.len() implies keys[j] != key by {
            if keys[j] == key {
                lemma_some_first(keys, key, j);
            }
        }
    }
}

/// A key that stands somewhere has a first place.
proof fn lemma_some_first<A>(keys: Seq<A>, key: A, at: int)
    requires
        0 <= at < keys.len(),
        keys[at] == key,
    ensures
        exists|i: int| is_first_at(keys, key, i),
    decreases at,
{
    if forall|j: int| 0 <= j < at ==> keys[j] != key {
        assert(is_first_at(keys, key, at));
    } else {
        let j = choose|j: int| 0 <= j < at && keys[j] == key;
        lemma_some_first(keys, key, j);
    }
}

/// Whether no key stands twice in `keys`.
pub open spec fn distinct<A>(keys: Seq<A>) -> bool {
    forall|i: int, j: int| 0 <= i < j < keys.len() ==> keys[i] != keys[j]
}

/// Putting a key into a list does not change where another key is first
/// found, but for the shift by one from the place of the new key on.
pub proof fn lemma_first_index_insert<A>(keys: Seq<A>, key: A, p: int, other: A)
    requires
        0 <= p <= keys.len(),
        other != key,
    ensures
        first_index(keys.insert(p, key), other) == match first_index(keys, other) {
            Some(i) => Some(
                if i < p {
                    i
                } else {
                    i + 1
                },
            ),
            None => None,
        },
{
    let longer = keys.insert(p, key);
    keys.insert_ensures(p, key);
    lemma_first_index(keys, other);
    match first_index(keys, other) {
        Some(i) => {
            let k = if i < p {
                i
            } else {
                i + 1
            };
            assert forall|j: int| 0 <= j < k implies longer[j] != other by {
                if j < p {
                    assert(longer[j] == keys[j]);
                } else if j > p {
                    assert(longer[(j - 1) + 1] == keys[j - 1]);
                }
            }
            if i >= p {
                assert(longer[i + 1] == keys[i]);
            }
            assert(is_first_at(longer, other, k));
            lemma_first_index_found(longer, other, k);
        },
        None => {
            assert forall|j: int| 0 <= j < longer.len() implies longer[j] != other by {
                if j < p {
                    assert(longer[j] == keys[j]);
                } else if j > p {
                    assert(longer[(j - 1) + 1] == keys[j - 1]);
                }
            }
            lemma_first_index_absent(longer, other);
        },
    }
}

} // verus!
