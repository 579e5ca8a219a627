//! Increasing listings of identifier sets, and the order in which a map keyed by
//! identifiers is walked.

use std::collections::BTreeMap;
use vstd::prelude::*;
use vstd::std_specs::cmp::OrdSpec;
use vstd::std_specs::iter::IteratorSpec;

verus! {

broadcast use {vstd::std_specs::btree::group_btree_axioms, vstd::laws_cmp::group_laws_cmp};

/// Whether the identifiers in `s` strictly increase.
pub open spec fn strictly_increasing(s: Seq<u128>) -> bool {
    forall|i: int, j: int| 0 <= i < j < s.len() ==> s[i] < s[j]
}

/// Whether `s` lists exactly the elements of `d`, in increasing order.
pub open spec fn orders(s: Seq<u128>, d: Set<u128>) -> bool {
    strictly_increasing(s) && s.to_set() == d
}

/// Two increasing listings of the same set are the same sequence.
pub proof fn lemma_orders_unique(s1: Seq<u128>, s2: Seq<u128>, d: Set<u128>)
    requires
        orders(s1, d),
        orders(s2, d),
    ensures
        s1 == s2,
    decreases s1.len(),
{
    if s1.len() == 0 {
        if s2.len() > 0 {
            assert(s2.to_set().contains(s2[0]));
        }
    } else {
        assert(s1.to_set().contains(s1[0]));
        assert(s2.len() > 0);
        assert(s2.to_set().contains(s2[0]));
        let j1 = choose|j: int| 0 <= j < s2.len() && s2[j] == s1[0];
        let j2 = choose|j: int| 0 <= j < s1.len() && s1[j] == s2[0];
        assert(s1[0] == s2[0]);
        let x = s1[0];
        let r1 = s1.drop_first();
        let r2 = s2.drop_first();
        assert(r1.to_set() =~= d.remove(x)) by {
            assert forall|y: u128| r1.to_set().contains(y) implies d.remove(x).contains(y) by {
                let k = choose|k: int| 0 <= k < r1.len() && r1[k] == y;
                assert(s1[k + 1] == y);
            }
            assert forall|y: u128| d.remove(x).contains(y) implies r1.to_set().contains(y) by {
                let k = choose|k: int| 0 <= k < s1.len() && s1[k] == y;
                assert(k != 0);
                assert(r1[k - 1] == y);
            }
        }
        assert(r2.to_set() =~= d.remove(x)) by {
            assert forall|y: u128| r2.to_set().contains(y) implies d.remove(x).contains(y) by {
                let k = choose|k: int| 0 <= k < r2.len() && r2[k] == y;
                assert(s2[k + 1] == y);
            }
            assert forall|y: u128| d.remove(x).contains(y) implies r2.to_set().contains(y) by {
                let k = choose|k: int| 0 <= k < s2.len() && s2[k] == y;
                assert(k != 0);
                assert(r2[k - 1] == y);
            }
        }
        lemma_orders_unique(r1, r2, d.remove(x));
        assert(s1 =~= s2) by {
            assert forall|k: int| 0 <= k < s1.len() implies s1[k] == s2[k] by {
                if k > 0 {
                    assert(s1[k] == r1[k - 1]);
                    assert(s2[k] == r2[k - 1]);
                }
            }
        }
    }
}

/// An increasing listing of a set has as many entries as the set has elements.
pub proof fn lemma_orders_len(s: Seq<u128>, d: Set<u128>)
    requires
        orders(s, d),
    ensures
        s.len() == d.len(),
        s.no_duplicates(),
{
    assert forall|i: int, j: int| 0 <= i < s.len() && 0 <= j < s.len() && i != j implies s[i] != s[j] by {
        if i < j {
            assert(s[i] < s[j]);
        } else {
            assert(s[j] < s[i]);
        }
    }
    assert(s.no_duplicates());
    s.unique_seq_to_set();
}

/// The keys of a map are walked in increasing order, each once.
pub proof fn lemma_keys_in_order<V>(m: &BTreeMap<u128, V>)
    ensures
        orders(m.keys().remaining().unref(), m@.dom()),
{
    let r = m.keys().remaining();
    let s = r.unref();
    assert(vstd::laws_cmp::obeys_cmp::<u128>());
    assert(vstd::laws_cmp::obeys_cmp::<&u128>());
    vstd::std_specs::btree::axiom_spec_keys_iter(m);
    vstd::std_specs::btree::axiom_increasing_seq_meaning(r);
    assert forall|i: int, j: int| 0 <= i < j < s.len() implies s[i] < s[j] by {
        assert(OrdSpec::cmp_spec(&r[i], &r[j]) is Less);
    }
}

} // verus!
