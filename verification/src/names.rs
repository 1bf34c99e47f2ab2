//! The order of names, and lists of names kept in that order.
//!
//! Names are ordered as strings are: byte by byte over their UTF-8 encoding,
//! a proper prefix before what it is a prefix of.

use vstd::prelude::*;
use vstd::string::*;
use vstd::utf8::{encode_utf8, encode_utf8_decode_utf8};

verus! {

/// The texts of a list of strings.
pub open spec fn texts(items: Seq<String>) -> Seq<Seq<char>> {
    Seq::new(items.len(), |i: int| items[i]@)
}

/// Whether `a` and `b` agree on their first `k` bytes and `a` comes first
/// by what follows: `a` ends there and `b` goes on, or the next byte of
/// `a` is the smaller one.
pub open spec fn parts_at(a: Seq<u8>, b: Seq<u8>, k: int) -> bool {
    &&& 0 <= k <= a.len()
    &&& k < b.len()
    &&& forall|j: int| 0 <= j < k ==> a[j] == b[j]
    &&& k < a.len() ==> a[k] < b[k]
}

/// Whether `a` comes before `b` in the order of byte strings.
pub open spec fn bytes_before(a: Seq<u8>, b: Seq<u8>) -> bool {
    exists|k: int| parts_at(a, b, k)
}

/// Whether the name `a` comes before the name `b`.
pub open spec fn name_before(a: Seq<char>, b: Seq<char>) -> bool {
    bytes_before(encode_utf8(a), encode_utf8(b))
}

/// No byte string comes before itself, and of two at most one comes before
/// the other.
pub proof fn lemma_before_asymmetric(a: Seq<u8>, b: Seq<u8>)
    requires
        bytes_before(a, b),
    ensures
        !bytes_before(b, a),
        a != b,
{
    let k = choose|k: int| parts_at(a, b, k);
    assert(parts_at(a, b, k));
    if bytes_before(b, a) {
        let m = choose|m: int| parts_at(b, a, m);
        assert(parts_at(b, a, m));
        if m < k {
            assert(a[m] == b[m]);
        } else if k < m {
            assert(a[k] == b[k]);
        }
    }
}

/// What comes before something that comes before a third comes before the
/// third.
pub proof fn lemma_before_transitive(a: Seq<u8>, b: Seq<u8>, c: Seq<u8>)
    requires
        bytes_before(a, b),
        bytes_before(b, c),
    ensures
        bytes_before(a, c),
{
    let k = choose|k: int| parts_at(a, b, k);
    assert(parts_at(a, b, k));
    let m = choose|m: int| parts_at(b, c, m);
    assert(parts_at(b, c, m));
    if k <= m {
        assert(parts_at(a, c, k));
    } else {
        assert(parts_at(a, c, m));
    }
}

/// How one name stands to another.
#[derive(Debug, Clone, Copy, PartialEq, Eq)]
pub enum Place {
    Before,
    Same,
    After,
}

/// Compares two names in the order of strings.
pub fn place_of(a: &str, b: &str) -> (r: Place)
    ensures
        r is Before <==> name_before(a@, b@),
        r is Same <==> a@ == b@,
        r is After <==> name_before(b@, a@),
{
    let x = a.as_bytes();
    let y = b.as_bytes();
    let mut i: usize = 0;
    let mut r = Place::Same;
    let mut done = false;
    while !done
        invariant
            x@ == encode_utf8(a@),
            y@ == encode_utf8(b@),
            i <= x@.len(),
            i <= y@.len(),
            forall|j: int| 0 <= j < i ==> x@[j] == y@[j],
            !done ==> r is Same,
            done ==> (r is Before ==> parts_at(x@, y@, i as int)),
            done ==> (r is After ==> parts_at(y@, x@, i as int)),
            done ==> (r is Same ==> i == x@.len() && i == y@.len()),
        decreases x@.len() - i + (if done { 0int } else { 1int }),
    {
        if i == x.len() {
            if i < y.len() {
                r = Place::Before;
            }
            done = true;
        } else if i == y.len() {
            r = Place::After;
            done = true;
        } else if x[i] < y[i] {
            r = Place::Before;
            done = true;
        } else if x[i] > y[i] {
            r = Place::After;
            done = true;
        } else {
            i = i + 1;
        }
    }
    proof {
        match r {
            Place::Before => {
                lemma_before_asymmetric(x@, y@);
            },
            Place::After => {
                lemma_before_asymmetric(y@, x@);
            },
            Place::Same => {
                assert(x@ =~= y@);
                encode_utf8_decode_utf8(a@);
                encode_utf8_decode_utf8(b@);
                if bytes_before(x@, y@) {
                    lemma_before_asymmetric(x@, y@);
                }
            },
        }
    }
    r
}

/// Whether the names stand in rising order, none twice.
pub open spec fn sorted(names: Seq<Seq<char>>) -> bool {
    forall|i: int, j: int| 0 <= i < j < names.len() ==> name_before(names[i], names[j])
}

/// The place at which a search for `name` stops that starts at `from` and
/// passes every name that comes before `name`: the first place from there
/// on whose name does not come before `name`, or the end of the list.
pub open spec fn stop_at(names: Seq<Seq<char>>, name: Seq<char>, from: int) -> int
    decreases names.len() - from,
{
    if 0 <= from < names.len() && name_before(names[from], name) {
        stop_at(names, name, from + 1)
    } else {
        from
    }
}

/// Whether the search for `name` from the start of the list stops at
/// `name` itself.
pub open spec fn found_at_stop(names: Seq<Seq<char>>, name: Seq<char>) -> bool {
    stop_at(names, name, 0) < names.len() && names[stop_at(names, name, 0)] == name
}

/// `names` with `name` among them: left as it is where the search for the
/// name stops at the name, else with the name put in where the search
/// stops. Of a sorted list this is the sorted list of the same names and
/// `name`.
pub open spec fn with_name(names: Seq<Seq<char>>, name: Seq<char>) -> Seq<Seq<char>> {
    if found_at_stop(names, name) {
        names
    } else {
        names.insert(stop_at(names, name, 0), name)
    }
}

/// A search stops in the list or at its end; the names it has passed come
/// before the name, and the name it stops at does not.
pub proof fn lemma_stop_at(names: Seq<Seq<char>>, name: Seq<char>, from: int)
    requires
        0 <= from <= names.len(),
    ensures
        from <= stop_at(names, name, from) <= names.len(),
        forall|j: int| from <= j < stop_at(names, name, from) ==> name_before(names[j], name),
        stop_at(names, name, from) < names.len() ==> !name_before(
            names[stop_at(names, name, from)],
            name,
        ),
    decreases names.len() - from,
{
    if from < names.len() && name_before(names[from], name) {
        lemma_stop_at(names, name, from + 1);
    }
}

/// Putting a name into a sorted list leaves the list sorted, and holding
/// that name besides the names it held.
pub proof fn lemma_with_name(names: Seq<Seq<char>>, name: Seq<char>)
    requires
        sorted(names),
    ensures
        sorted(with_name(names, name)),
        forall|other: Seq<char>| #[trigger]
            with_name(names, name).contains(other) <==> (names.contains(other) || other == name),
{
    lemma_with_name_sorted(names, name);
    assert forall|other: Seq<char>| #[trigger]
        with_name(names, name).contains(other) <==> (names.contains(other) || other
            == name) by {
        lemma_with_name_holds(names, name, other);
    }
}

/// A list with a name put in holds that name and what it held before.
pub proof fn lemma_with_name_holds(names: Seq<Seq<char>>, name: Seq<char>, other: Seq<char>)
    ensures
        with_name(names, name).contains(other) <==> (names.contains(other) || other == name),
{
    let result = with_name(names, name);
    let p = stop_at(names, name, 0);
    lemma_stop_at(names, name, 0);
    if found_at_stop(names, name) {
        if other == name {
            assert(names[p] == other);
        }
    } else {
        names.insert_ensures(p, name);
        if result.contains(other) {
            let i = choose|i: int| 0 <= i < result.len() && result[i] == other;
            if i < p {
                assert(names[i] == other);
            } else if i > p {
                assert(result[(i - 1) + 1] == names[i - 1]);
                assert(names[i - 1] == other);
            }
        }
        if names.contains(other) {
            let i = choose|i: int| 0 <= i < names.len() && names[i] == other;
            if i < p {
                assert(result[i] == other);
            } else {
                assert(result[i + 1] == other);
            }
        }
        if other == name {
            assert(result[p] == other);
        }
    }
}

/// A sorted list with a name put in is sorted.
pub proof fn lemma_with_name_sorted(names: Seq<Seq<char>>, name: Seq<char>)
    requires
        sorted(names),
    ensures
        sorted(with_name(names, name)),
{
    let result = with_name(names, name);
    let p = stop_at(names, name, 0);
    lemma_stop_at(names, name, 0);
    if !found_at_stop(names, name) {
        names.insert_ensures(p, name);
        if p < names.len() {
            // Names are totally ordered: what is neither the name nor before
            // it comes after it.
            lemma_total(names[p], name);
            assert(name_before(name, names[p]));
        }
        assert forall|i: int, j: int| 0 <= i < j < result.len() implies name_before(
            result[i],
            result[j],
        ) by {
            if j < p {
                assert(result[i] == names[i] && result[j] == names[j]);
            } else if j == p {
                assert(result[i] == names[i] && result[j] == name);
            } else if i < p {
                assert(result[(j - 1) + 1] == names[j - 1]);
                assert(result[i] == names[i] && result[j] == names[j - 1]);
            } else if i == p {
                assert(result[(j - 1) + 1] == names[j - 1]);
                assert(result[i] == name && result[j] == names[j - 1]);
                if j - 1 > p {
                    assert(name_before(names[p], names[j - 1]));
                    lemma_before_transitive(
                        encode_utf8(name),
                        encode_utf8(names[p]),
                        encode_utf8(names[j - 1]),
                    );
                }
            } else {
                assert(result[(i - 1) + 1] == names[i - 1]);
                assert(result[(j - 1) + 1] == names[j - 1]);
                assert(result[i] == names[i - 1] && result[j] == names[j - 1]);
            }
        }
    }
}

/// Of two different names one comes before the other.
pub proof fn lemma_total(a: Seq<char>, b: Seq<char>)
    ensures
        a == b || name_before(a, b) || name_before(b, a),
{
    let x = encode_utf8(a);
    let y = encode_utf8(b);
    if a != b {
        encode_utf8_decode_utf8(a);
        encode_utf8_decode_utf8(b);
        assert(x != y);
        lemma_bytes_total(x, y, 0);
    }
}

proof fn lemma_bytes_total(x: Seq<u8>, y: Seq<u8>, k: int)
    requires
        x != y,
        0 <= k <= x.len(),
        k <= y.len(),
        forall|j: int| 0 <= j < k ==> x[j] == y[j],
    ensures
        bytes_before(x, y) || bytes_before(y, x),
    decreases x.len() - k,
{
    if k == x.len() {
        if k == y.len() {
            assert(x =~= y);
        } else {
            assert(parts_at(x, y, k));
        }
    } else if k == y.len() {
        assert(parts_at(y, x, k));
    } else if x[k] < y[k] {
        assert(parts_at(x, y, k));
    } else if x[k] > y[k] {
        assert(parts_at(y, x, k));
    } else {
        lemma_bytes_total(x, y, k + 1);
    }
}

/// Puts a name into a list of names, unless the search for it stops at it.
pub fn insert_name(names: &mut Vec<String>, name: &str)
    ensures
        texts(final(names)@) == with_name(texts(old(names)@), name@),
{
    let mut i: usize = 0;
    while i < names.len()
        invariant
            i <= names@.len(),
            names@ == old(names)@,
            stop_at(texts(names@), name@, 0) == stop_at(texts(names@), name@, i as int),
        decreases names@.len() - i,
    {
        let place = place_of(names[i].as_str(), name);
        assert(texts(names@)[i as int] == names@[i as int]@);
        match place {
            Place::Same => {
                proof {
                    lemma_same_stops(texts(names@), name@, i as int);
                }
                return ;
            },
            Place::Before => {
                i = i + 1;
            },
            Place::After => {
                proof {
                    lemma_before_asymmetric(encode_utf8(name@), encode_utf8(names@[i as int]@));
                }
                names.insert(i, String::from_str(name));
                assert(texts(names@) =~= texts(old(names)@).insert(i as int, name@));
                return ;
            },
        }
    }
    names.push(String::from_str(name));
    assert(texts(old(names)@).insert(i as int, name@) =~= texts(old(names)@).push(name@));
    assert(texts(names@) =~= texts(old(names)@).push(name@));
}

/// A search stops at the name that it looks for.
pub proof fn lemma_same_stops(names: Seq<Seq<char>>, name: Seq<char>, i: int)
    requires
        0 <= i < names.len(),
        names[i] == name,
    ensures
        stop_at(names, name, i) == i,
{
    if name_before(names[i], name) {
        lemma_before_asymmetric(encode_utf8(name), encode_utf8(name));
    }
}

/// `names` with the first `n` of `more` among them.
pub open spec fn with_names(names: Seq<Seq<char>>, more: Seq<Seq<char>>, n: nat) -> Seq<Seq<char>>
    decreases n,
{
    if n == 0 {
        names
    } else {
        with_name(with_names(names, more, (n - 1) as nat), more[n - 1])
    }
}

/// Whether `name` is one of the first `n` of `more`.
pub open spec fn among_first(more: Seq<Seq<char>>, n: nat, name: Seq<char>) -> bool {
    exists|k: int| 0 <= k < n && more[k] == name
}

/// Putting names into a sorted list leaves the list sorted, and holding
/// those names besides the names it held.
pub proof fn lemma_with_names(names: Seq<Seq<char>>, more: Seq<Seq<char>>, n: nat)
    requires
        sorted(names),
        n <= more.len(),
    ensures
        sorted(with_names(names, more, n)),
        forall|other: Seq<char>| #[trigger]
            with_names(names, more, n).contains(other) <==> (names.contains(other) || among_first(
                more,
                n,
                other,
            )),
    decreases n,
{
    if n > 0 {
        let shorter = with_names(names, more, (n - 1) as nat);
        let result = with_names(names, more, n);
        lemma_with_names(names, more, (n - 1) as nat);
        lemma_with_name(shorter, more[n - 1]);
        assert(result == with_name(shorter, more[n - 1]));
        assert forall|other: Seq<char>| #[trigger]
            result.contains(other) <==> (names.contains(other) || among_first(
                more,
                n,
                other,
            )) by {
            assert(result.contains(other) <==> (shorter.contains(other) || other == more[n - 1]));
            assert(shorter.contains(other) <==> (names.contains(other) || among_first(
                more,
                (n - 1) as nat,
                other,
            )));
            if among_first(more, (n - 1) as nat, other) {
                let k = choose|k: int| 0 <= k < (n - 1) as nat && more[k] == other;
                assert(0 <= k < n && more[k] == other);
            }
            if other == more[n - 1] {
                assert(0 <= n - 1 < n && more[n - 1] == other);
            }
            if among_first(more, n, other) {
                let k = choose|k: int| 0 <= k < n && more[k] == other;
                if k < n - 1 {
                    assert(0 <= k < (n - 1) as nat && more[k] == other);
                }
            }
        }
    } else {
        assert forall|other: Seq<char>| !among_first(more, n, other) by {}
    }
}

} // verus!
