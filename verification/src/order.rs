//! The order of byte strings, which is the order in which a keyspace keeps
//! and lists its keys.

use vstd::prelude::*;
use vstd::seq_lib::seq_to_set_is_finite;

verus! {

/// Strict lexicographic order on byte strings: the first byte in which two
/// strings differ decides, and a string comes before each of its
/// continuations.
pub open spec fn precedes(a: Seq<u8>, b: Seq<u8>) -> bool
    decreases a.len(),
{
    if b.len() == 0 {
        false
    } else if a.len() == 0 {
        true
    } else if a[0] != b[0] {
        a[0] < b[0]
    } else {
        precedes(a.drop_first(), b.drop_first())
    }
}

/// Each string comes before the next.
pub open spec fn ascending(keys: Seq<Seq<u8>>) -> bool {
    forall|i: int, j: int|
        0 <= i < j < keys.len() ==> precedes(#[trigger] keys[i], #[trigger] keys[j])
}

/// `keys` lists, in ascending order and each once, exactly the keys of
/// `entries` that begin with `prefix`.
pub open spec fn lists_keys(
    keys: Seq<Seq<u8>>,
    entries: Map<Seq<u8>, Seq<u8>>,
    prefix: Seq<u8>,
) -> bool {
    &&& ascending(keys)
    &&& forall|key: Seq<u8>| #[trigger]
        keys.contains(key) <==> entries.contains_key(key) && prefix.is_prefix_of(key)
}

/// The list of the keys of `entries` that begin with `prefix`, in ascending
/// order: the one list there is of them, where they can be listed.
pub open spec fn listing(entries: Map<Seq<u8>, Seq<u8>>, prefix: Seq<u8>) -> Seq<Seq<u8>> {
    choose|keys: Seq<Seq<u8>>| lists_keys(keys, entries, prefix)
}

/// The keys of `entries` that begin with `prefix` can be listed.
pub open spec fn is_listed(entries: Map<Seq<u8>, Seq<u8>>, prefix: Seq<u8>) -> bool {
    lists_keys(listing(entries, prefix), entries, prefix)
}

/// `entries` has `count` keys, and so finitely many.
pub open spec fn holds_exactly(entries: Map<Seq<u8>, Seq<u8>>, count: nat) -> bool {
    entries.dom().finite() && entries.dom().len() == count
}

/// No byte string comes before itself.
pub proof fn lemma_precedes_is_strict(a: Seq<u8>)
    ensures
        !precedes(a, a),
    decreases a.len(),
{
    if a.len() > 0 {
        lemma_precedes_is_strict(a.drop_first());
    }
}

/// What comes before a string comes before all that the string comes before.
pub proof fn lemma_precedes_is_transitive(a: Seq<u8>, b: Seq<u8>, c: Seq<u8>)
    requires
        precedes(a, b),
        precedes(b, c),
    ensures
        precedes(a, c),
    decreases a.len(),
{
    if a.len() > 0 && a[0] == b[0] && b[0] == c[0] {
        lemma_precedes_is_transitive(a.drop_first(), b.drop_first(), c.drop_first());
    }
}

/// Byte strings that begin alike are in the order of what follows.
pub proof fn lemma_order_after_same_start(start: Seq<u8>, x: Seq<u8>, y: Seq<u8>)
    ensures
        precedes(start + x, start + y) == precedes(x, y),
    decreases start.len(),
{
    if start.len() == 0 {
        assert(start + x =~= x);
        assert(start + y =~= y);
    } else {
        lemma_order_after_same_start(start.drop_first(), x, y);
        assert((start + x).drop_first() =~= start.drop_first() + x);
        assert((start + y).drop_first() =~= start.drop_first() + y);
    }
}

/// Byte strings of one length stay in their order, whatever is put behind
/// them.
pub proof fn lemma_order_is_decided_in_front(x: Seq<u8>, y: Seq<u8>, s: Seq<u8>, t: Seq<u8>)
    requires
        x.len() == y.len(),
        precedes(x, y),
    ensures
        precedes(x + s, y + t),
    decreases x.len(),
{
    if x.len() > 0 && x[0] == y[0] {
        lemma_order_is_decided_in_front(x.drop_first(), y.drop_first(), s, t);
        assert((x + s).drop_first() =~= x.drop_first() + s);
        assert((y + t).drop_first() =~= y.drop_first() + t);
    }
}

/// Two ascending lists of the same strings are the same list.
pub proof fn lemma_ascending_is_unique(keys: Seq<Seq<u8>>, other: Seq<Seq<u8>>)
    requires
        ascending(keys),
        ascending(other),
        forall|key: Seq<u8>| keys.contains(key) <==> other.contains(key),
    ensures
        keys == other,
    decreases keys.len(),
{
    if keys.len() == 0 {
        if other.len() > 0 {
            assert(other.contains(other[0]));
        }
        assert(keys =~= other);
    } else {
        let last = keys.last();
        assert(keys.contains(last));
        assert(other.contains(last));
        let j = choose|j: int| 0 <= j < other.len() && other[j] == last;
        let other_last = other.last();
        assert(other.contains(other_last));
        assert(keys.contains(other_last));
        let i = choose|i: int| 0 <= i < keys.len() && keys[i] == other_last;
        if j < other.len() - 1 {
            assert(precedes(other[j], other[other.len() - 1]));
            if i < keys.len() - 1 {
                assert(precedes(keys[i], keys[keys.len() - 1]));
                lemma_precedes_is_transitive(last, other_last, last);
            }
            lemma_precedes_is_strict(last);
            assert(false);
        }
        let front = keys.drop_last();
        let other_front = other.drop_last();
        assert forall|key: Seq<u8>| front.contains(key) <==> other_front.contains(key) by {
            if front.contains(key) {
                let at = choose|at: int| 0 <= at < front.len() && front[at] == key;
                assert(keys[at] == key);
                assert(precedes(keys[at], keys[keys.len() - 1]));
                assert(keys.contains(key));
                let found = choose|found: int| 0 <= found < other.len() && other[found] == key;
                if found == other.len() - 1 {
                    lemma_precedes_is_strict(last);
                }
                assert(other_front[found] == key);
            }
            if other_front.contains(key) {
                let at = choose|at: int| 0 <= at < other_front.len() && other_front[at] == key;
                assert(other[at] == key);
                assert(precedes(other[at], other[other.len() - 1]));
                assert(other.contains(key));
                let found = choose|found: int| 0 <= found < keys.len() && keys[found] == key;
                if found == keys.len() - 1 {
                    lemma_precedes_is_strict(last);
                }
                assert(front[found] == key);
            }
        }
        assert(ascending(front)) by {
            assert forall|a: int, b: int| 0 <= a < b < front.len() implies precedes(
                #[trigger] front[a],
                #[trigger] front[b],
            ) by {
                assert(precedes(keys[a], keys[b]));
            }
        }
        assert(ascending(other_front)) by {
            assert forall|a: int, b: int| 0 <= a < b < other_front.len() implies precedes(
                #[trigger] other_front[a],
                #[trigger] other_front[b],
            ) by {
                assert(precedes(other[a], other[b]));
            }
        }
        lemma_ascending_is_unique(front, other_front);
        assert(keys =~= front.push(last));
        assert(other =~= other_front.push(other_last));
    }
}

/// A keyspace has as many keys as the list of all its keys is long.
pub proof fn lemma_listing_counts(keys: Seq<Seq<u8>>, entries: Map<Seq<u8>, Seq<u8>>)
    requires
        lists_keys(keys, entries, Seq::empty()),
    ensures
        holds_exactly(entries, keys.len()),
{
    assert(keys.no_duplicates()) by {
        assert forall|i: int, j: int| 0 <= i < keys.len() && 0 <= j < keys.len() && i != j implies keys[i]
            != keys[j] by {
            if i < j {
                assert(precedes(keys[i], keys[j]));
            } else {
                assert(precedes(keys[j], keys[i]));
            }
            lemma_precedes_is_strict(keys[i]);
        }
    }
    assert(keys.to_set() =~= entries.dom()) by {
        assert forall|key: Seq<u8>| keys.to_set().contains(key) <==> entries.dom().contains(
            key,
        ) by {
            assert(Seq::<u8>::empty().is_prefix_of(key));
            assert(keys.contains(key) <==> entries.contains_key(key));
        }
    }
    keys.unique_seq_to_set();
    seq_to_set_is_finite(keys);
}

/// A keyspace has one listing of its keys with a prefix: a list that lists
/// them is the list of them.
pub proof fn lemma_listing_is_unique(
    keys: Seq<Seq<u8>>,
    entries: Map<Seq<u8>, Seq<u8>>,
    prefix: Seq<u8>,
)
    requires
        lists_keys(keys, entries, prefix),
    ensures
        listing(entries, prefix) == keys,
{
    lemma_ascending_is_unique(listing(entries, prefix), keys);
}

} // verus!
