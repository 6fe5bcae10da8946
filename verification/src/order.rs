//! The ids of a lobby in the order in which they are visited.

use std::collections::BTreeMap;
use vstd::prelude::*;
use vstd::relations::{sorted_by, total_ordering};
use vstd::std_specs::cmp::OrdSpec;
use vstd::std_specs::iter::IteratorSpec;

verus! {

/// The elements of `s` from the smallest to the largest.
pub open spec fn ascending(s: Set<u32>) -> Seq<u32> {
    s.to_sorted_seq(|a: u32, b: u32| a <= b)
}

/// Whether each element of `s` is larger than those before it.
pub open spec fn strictly_increasing(s: Seq<u32>) -> bool {
    forall|i: int, j: int| 0 <= i < j < s.len() ==> s[i] < s[j]
}

/// Listing a finite set lists each of its elements once.
proof fn lemma_listed_once(s: Set<u32>)
    requires
        s.finite(),
    ensures
        s.to_seq().no_duplicates(),
        s.to_seq().len() == s.len(),
        s.to_seq().to_set() == s,
    decreases s.len(),
{
    s.lemma_to_seq_to_set_id();
    if s.len() > 0 {
        let x = s.choose();
        let rest = s.remove(x).to_seq();
        lemma_listed_once(s.remove(x));
        assert(s.to_seq() =~= seq![x] + rest);
        assert forall|i: int, j: int| 0 <= i < j < s.to_seq().len() implies s.to_seq()[i]
            != s.to_seq()[j] by {
            assert(rest.to_set().contains(rest[j - 1]));
        }
    }
}

/// Two sequences without repetition that hold the same elements hold them equally often.
proof fn lemma_same_multiset(a: Seq<u32>, b: Seq<u32>)
    requires
        a.no_duplicates(),
        b.no_duplicates(),
        a.to_set() == b.to_set(),
    ensures
        a.to_multiset() == b.to_multiset(),
{
    a.lemma_multiset_has_no_duplicates();
    b.lemma_multiset_has_no_duplicates();
    a.to_multiset_ensures();
    b.to_multiset_ensures();
    assert forall|x: u32| a.to_multiset().count(x) == b.to_multiset().count(x) by {
        assert(a.contains(x) <==> a.to_set().contains(x));
        assert(b.contains(x) <==> b.to_set().contains(x));
    }
    assert(a.to_multiset() =~= b.to_multiset());
}

/// A finite set has one strictly increasing listing.
pub proof fn lemma_ascending_unique(s: Set<u32>, listed: Seq<u32>)
    requires
        s.finite(),
        strictly_increasing(listed),
        listed.to_set() == s,
    ensures
        listed == ascending(s),
{
    let leq = |a: u32, b: u32| a <= b;
    assert(total_ordering(leq));
    lemma_listed_once(s);
    s.to_seq().lemma_sort_by_ensures(leq);
    assert(sorted_by(listed, leq));
    assert(listed.no_duplicates());
    lemma_same_multiset(listed, s.to_seq());
    vstd::seq_lib::lemma_sorted_unique(listed, ascending(s), leq);
}

/// `ascending` lists exactly the elements of a set, each once, the smaller ones first.
pub proof fn lemma_ascending(s: Set<u32>)
    requires
        s.finite(),
    ensures
        strictly_increasing(ascending(s)),
        ascending(s).to_set() == s,
        ascending(s).len() == s.len(),
        forall|x: u32| #[trigger] ascending(s).contains(x) <==> s.contains(x),
        forall|i: int| 0 <= i < ascending(s).len() ==> s.contains(#[trigger] ascending(s)[i]),
{
    let leq = |a: u32, b: u32| a <= b;
    let listed = s.to_seq();
    let sorted = ascending(s);
    assert(total_ordering(leq));
    lemma_listed_once(s);
    listed.lemma_sort_by_ensures(leq);
    listed.to_multiset_ensures();
    sorted.to_multiset_ensures();
    listed.lemma_multiset_has_no_duplicates();
    sorted.lemma_multiset_has_no_duplicates_conv();
    assert forall|x: u32| #[trigger] sorted.contains(x) <==> s.contains(x) by {
        assert(listed.contains(x) <==> listed.to_set().contains(x));
        assert(listed.contains(x) <==> listed.to_multiset().count(x) > 0);
        assert(sorted.contains(x) <==> sorted.to_multiset().count(x) > 0);
    }
    assert(sorted.to_set() =~= s);
    assert forall|i: int, j: int| 0 <= i < j < sorted.len() implies sorted[i] < sorted[j] by {
        assert(leq(sorted[i], sorted[j]));
    }
    assert forall|i: int| 0 <= i < sorted.len() implies s.contains(#[trigger] sorted[i]) by {
        assert(sorted.contains(sorted[i]));
    }
}

/// The keys of a map, the smaller ones first.
pub fn keys_in_order<V>(map: &BTreeMap<u32, V>) -> (keys: Vec<u32>)
    ensures
        keys@ == ascending(map@.dom()),
{
    broadcast use vstd::std_specs::btree::group_btree_axioms;
    broadcast use vstd::laws_cmp::group_laws_cmp;

    let listing = map.iter();
    let ghost listed = listing.remaining();
    let mut keys: Vec<u32> = Vec::new();
    for entry in entries: listing
        invariant
            entries.seq() == listed,
            keys@.len() == entries.index(),
            forall|i: int| 0 <= i < keys@.len() ==> keys@[i] == *(#[trigger] listed[i]).0,
    {
        keys.push(*entry.0);
    }
    proof {
        assert(keys@ =~= listed.map_values(|kv: (&u32, &V)| *kv.0));
        assert(vstd::std_specs::btree::increasing_seq(keys@));
        assert forall|i: int, j: int| 0 <= i < j < keys@.len() implies keys@[i] < keys@[j] by {
            assert(keys@[i].cmp_spec(&keys@[j]) is Less);
        }
        assert forall|k: u32| #[trigger] map@.dom().contains(k) implies keys@.contains(k) by {
            assert(map@.contains_key(k));
            let i = choose|i: int| 0 <= i < listed.len() && listed[i] == (&k, &map@[k]);
            assert(keys@[i] == k);
        }
        assert(keys@.to_set() =~= map@.dom());
        lemma_ascending_unique(map@.dom(), keys@);
    }
    keys
}

} // verus!
