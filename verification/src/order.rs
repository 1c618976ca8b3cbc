//! Transaction ids in ascending order: what the ordered walk of a set is,
//! what its smallest element is, and that the walks of `BTreeSet` and
//! `BTreeMap` are those.

use std::collections::BTreeMap;
use std::collections::BTreeSet;
use vstd::prelude::*;
use vstd::std_specs::btree::increasing_seq;
use vstd::std_specs::cmp::OrdSpec;
use vstd::std_specs::iter::IteratorSpec;

verus! {

/// Strictly ascending: every element is smaller than those after it.
pub open spec fn ascending(s: Seq<u32>) -> bool {
    forall|i: int, j: int| 0 <= i < j < s.len() ==> s[i] < s[j]
}

/// `s` lists exactly the elements of `set`, in ascending order.
pub open spec fn is_ordering_of(s: Seq<u32>, set: Set<u32>) -> bool {
    ascending(s) && s.to_set() == set
}

/// The elements of a finite set in ascending order.
pub open spec fn ordered(set: Set<u32>) -> Seq<u32> {
    choose|s: Seq<u32>| is_ordering_of(s, set)
}

/// `m` is in the set and nothing in the set is smaller.
pub open spec fn is_least(set: Set<u32>, m: u32) -> bool {
    set.contains(m) && forall|x: u32| set.contains(x) ==> m <= x
}

/// The smallest element of a set that has one.
pub open spec fn least(set: Set<u32>) -> u32 {
    choose|m: u32| is_least(set, m)
}

/// A set has at most one smallest element.
pub proof fn lemma_least_unique(set: Set<u32>, m: u32)
    requires
        is_least(set, m),
    ensures
        least(set) == m,
{
    assert(is_least(set, least(set)));
}

/// A finite set that is not empty has a smallest element: the first of its
/// ascending listing.
pub proof fn lemma_least_exists(set: Set<u32>)
    requires
        set.finite(),
        set.len() > 0,
    ensures
        is_least(set, least(set)),
        least(set) == ordered(set)[0],
{
    lemma_ordering_exists(set);
    let order = ordered(set);
    assert(order.to_set().contains(order[0]));
    assert forall|x: u32| set.contains(x) implies order[0] <= x by {
        let k = choose|k: int| 0 <= k < order.len() && order[k] == x;
        assert(k == 0 || order[0] < order[k]);
    }
    lemma_least_unique(set, order[0]);
}

/// An ascending sequence has as many elements as its set.
pub proof fn lemma_ascending_len(s: Seq<u32>)
    requires
        ascending(s),
    ensures
        s.no_duplicates(),
        s.to_set().finite(),
        s.to_set().len() == s.len(),
{
    s.unique_seq_to_set();
    vstd::seq_lib::seq_to_set_is_finite(s);
}

/// Without its last element an ascending sequence lists the set without its
/// largest element.
pub proof fn lemma_ascending_drop_last(s: Seq<u32>)
    requires
        ascending(s),
        s.len() > 0,
    ensures
        ascending(s.drop_last()),
        s.drop_last().to_set() == s.to_set().remove(s.last()),
        forall|x: u32| s.to_set().contains(x) ==> x <= s.last(),
{
    let t = s.drop_last();
    assert forall|x: u32| s.to_set().contains(x) implies x <= s.last() by {
        let i = choose|i: int| 0 <= i < s.len() && s[i] == x;
        assert(s[i] == x);
    }
    assert forall|x: u32| t.to_set().contains(x) <==> s.to_set().remove(s.last()).contains(x) by {
        if t.to_set().contains(x) {
            let i = choose|i: int| 0 <= i < t.len() && t[i] == x;
            assert(s[i] == x);
            assert(s[i] < s[s.len() - 1]);
        }
        if s.to_set().remove(s.last()).contains(x) {
            let i = choose|i: int| 0 <= i < s.len() && s[i] == x;
            assert(i < s.len() - 1);
            assert(t[i] == x);
        }
    }
    assert(t.to_set() =~= s.to_set().remove(s.last()));
}

/// A set has at most one ascending listing.
pub proof fn lemma_ordering_unique(a: Seq<u32>, b: Seq<u32>)
    requires
        ascending(a),
        ascending(b),
        a.to_set() == b.to_set(),
    ensures
        a == b,
    decreases a.len(),
{
    lemma_ascending_len(a);
    lemma_ascending_len(b);
    if a.len() > 0 {
        lemma_ascending_drop_last(a);
        lemma_ascending_drop_last(b);
        assert(a.to_set().contains(a.last())) by {
            assert(a[a.len() - 1] == a.last());
        }
        assert(b.to_set().contains(b.last())) by {
            assert(b[b.len() - 1] == b.last());
        }
        assert(a.last() == b.last());
        lemma_ordering_unique(a.drop_last(), b.drop_last());
        assert(a =~= a.drop_last().push(a.last()));
        assert(b =~= b.drop_last().push(b.last()));
    } else {
        assert(a =~= b);
    }
}

/// Every ascending sequence has a place for `x`: all before it are smaller,
/// none from it on is.
pub proof fn lemma_place_exists(s: Seq<u32>, x: u32) -> (i: int)
    requires
        ascending(s),
    ensures
        0 <= i <= s.len(),
        forall|j: int| 0 <= j < i ==> s[j] < x,
        forall|j: int| i <= j < s.len() ==> x <= s[j],
    decreases s.len(),
{
    if s.len() == 0 {
        0
    } else if s.last() < x {
        assert forall|j: int| 0 <= j < s.len() implies s[j] < x by {
            assert(j == s.len() - 1 || s[j] < s[s.len() - 1]);
        }
        s.len() as int
    } else {
        let t = s.drop_last();
        let i = lemma_place_exists(t, x);
        assert forall|j: int| i <= j < s.len() implies x <= s[j] by {
            if j < t.len() {
                assert(t[j] == s[j]);
            }
        }
        assert forall|j: int| 0 <= j < i implies s[j] < x by {
            assert(t[j] == s[j]);
        }
        i
    }
}

/// Every finite set has its ascending listing.
pub proof fn lemma_ordering_exists(set: Set<u32>)
    requires
        set.finite(),
    ensures
        is_ordering_of(ordered(set), set),
        ordered(set).len() == set.len(),
    decreases set.len(),
{
    if set.len() == 0 {
        let e = Seq::<u32>::empty();
        assert(e.to_set() =~= set);
        assert(is_ordering_of(e, set));
    } else {
        let x = set.choose();
        let rest = set.remove(x);
        lemma_ordering_exists(rest);
        let r = ordered(rest);
        let i = lemma_place_exists(r, x);
        assert forall|j: int| i <= j < r.len() implies x < r[j] by {
            assert(r.to_set().contains(r[j]));
        }
        lemma_insert_ascending(r, i, x);
        assert(rest.insert(x) =~= set);
        assert(is_ordering_of(r.insert(i, x), set));
    }
    lemma_ascending_len(ordered(set));
}

/// Putting `x` at its place keeps a sequence ascending and adds `x` to its
/// set.
pub proof fn lemma_insert_ascending(s: Seq<u32>, i: int, x: u32)
    requires
        ascending(s),
        0 <= i <= s.len(),
        forall|j: int| 0 <= j < i ==> s[j] < x,
        forall|j: int| i <= j < s.len() ==> x < s[j],
    ensures
        ascending(s.insert(i, x)),
        s.insert(i, x).to_set() == s.to_set().insert(x),
{
    let t = s.insert(i, x);
    assert forall|a: int, b: int| 0 <= a < b < t.len() implies t[a] < t[b] by {
        if a < i && b > i {
            assert(t[a] == s[a] && t[b] == s[b - 1]);
        } else if a > i {
            assert(t[a] == s[a - 1] && t[b] == s[b - 1]);
        }
    }
    assert forall|y: u32| t.to_set().contains(y) <==> s.to_set().insert(x).contains(y) by {
        if t.to_set().contains(y) {
            let k = choose|k: int| 0 <= k < t.len() && t[k] == y;
            if k < i {
                assert(s[k] == y);
            } else if k > i {
                assert(s[k - 1] == y);
            }
        }
        if s.to_set().contains(y) {
            let k = choose|k: int| 0 <= k < s.len() && s[k] == y;
            if k < i {
                assert(t[k] == y);
            } else {
                assert(t[k + 1] == y);
            }
        }
        if y == x {
            assert(t[i] == y);
        }
    }
    assert(t.to_set() =~= s.to_set().insert(x));
}

/// A sequence of references that increases by the order of its type is
/// ascending.
pub proof fn lemma_increasing_is_ascending(s: Seq<&u32>)
    requires
        increasing_seq(s),
    ensures
        ascending(s.unref()),
{
    broadcast use vstd::laws_cmp::group_laws_cmp;
    vstd::std_specs::btree::axiom_increasing_seq_meaning::<&u32>(s);
    assert(forall|i: int, j: int|
        0 <= i < j < s.len() ==> OrdSpec::cmp_spec(&s[i], &s[j]) is Less);
    let t = s.unref();
    assert forall|i: int, j: int| 0 <= i < j < t.len() implies t[i] < t[j] by {
        assert(OrdSpec::cmp_spec(&s[i], &s[j]) is Less);
    }
}

/// The walk of a set is its ascending listing, and the set is finite.
pub proof fn lemma_set_walk(set: &BTreeSet<u32>)
    ensures
        set.iter().remaining().unref() == ordered(set@),
        is_ordering_of(ordered(set@), set@),
        set@.finite(),
{
    vstd::std_specs::btree::axiom_spec_btree_keys_iter(set);
    let walk = set.iter().remaining();
    lemma_increasing_is_ascending(walk);
    assert(is_ordering_of(walk.unref(), set@));
    lemma_ordering_unique(ordered(set@), walk.unref());
    lemma_ascending_len(walk.unref());
}

/// The walk of a map's keys is the ascending listing of its domain.
pub proof fn lemma_keys_walk<V>(map: &BTreeMap<u32, V>)
    ensures
        map.keys().remaining().unref() == ordered(map@.dom()),
        is_ordering_of(ordered(map@.dom()), map@.dom()),
{
    vstd::std_specs::btree::axiom_spec_keys_iter(map);
    let walk = map.keys().remaining();
    lemma_increasing_is_ascending(walk);
    assert(is_ordering_of(walk.unref(), map@.dom()));
    lemma_ordering_unique(ordered(map@.dom()), walk.unref());
}

/// The smallest key of a map, if it has any key.
pub fn first_key<V>(map: &BTreeMap<u32, V>) -> (first: Option<u32>)
    ensures
        first is None <==> map@.dom() == Set::<u32>::empty(),
        first matches Some(key) ==> is_least(map@.dom(), key) && key == least(map@.dom()),
{
    let ghost order = ordered(map@.dom());
    proof {
        lemma_keys_walk(map);
    }
    for key in it: map.keys()
        invariant
            it.seq().unref() == order,
            is_ordering_of(order, map@.dom()),
            it.index() == 0,
    {
        proof {
            assert(order[0] == *key);
            assert(order.to_set().contains(order[0]));
            assert forall|x: u32| map@.dom().contains(x) implies *key <= x by {
                let k = choose|k: int| 0 <= k < order.len() && order[k] == x;
                assert(k == 0 || order[0] < order[k]);
            }
            lemma_least_unique(map@.dom(), *key);
        }
        return Some(*key);
    }
    proof {
        assert(order.len() == 0);
        assert(order.to_set() =~= Set::<u32>::empty());
    }
    None
}

/// Takes the entry with the smallest key out of a map, if it has any entry.
pub fn take_first<V>(map: &mut BTreeMap<u32, V>) -> (first: Option<(u32, V)>)
    ensures
        match first {
            Some((key, value)) => {
                &&& is_least(old(map)@.dom(), key)
                &&& key == least(old(map)@.dom())
                &&& value == old(map)@[key]
                &&& final(map)@ == old(map)@.remove(key)
            },
            None => old(map)@.dom() == Set::<u32>::empty() && final(map)@ == old(map)@,
        },
{
    match first_key(map) {
        None => None,
        Some(key) => match map.remove(&key) {
            Some(value) => Some((key, value)),
            None => None,
        },
    }
}

} // verus!
