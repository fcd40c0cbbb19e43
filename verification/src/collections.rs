//! Helpers over hash sets and maps of addresses.

use std::collections::{HashMap, HashSet};
use vstd::prelude::*;
use vstd::std_specs::hash::{spec_hash_keys_iter, spec_keys_iter};
use vstd::std_specs::iter::IteratorSpec;

use crate::sorted::{search_sorted, strictly_sorted};

verus! {

broadcast use vstd::std_specs::hash::group_hash_axioms;

/// A map of address sets, viewed as a map of mathematical sets.
pub open spec fn sets_view(m: Map<u64, HashSet<u64>>) -> Map<u64, Set<u64>> {
    m.map_values(|s: HashSet<u64>| s@)
}

/// The elements of a set, each once, in the set's iteration order.
pub fn set_elements(s: &HashSet<u64>) -> (v: Vec<u64>)
    ensures
        v@.to_set() == s@,
        v@.no_duplicates(),
{
    let mut v: Vec<u64> = Vec::new();
    let keys = s.iter();
    let ghost all = spec_hash_keys_iter(s).remaining().unref();
    for x in it: keys
        invariant
            it.seq().unref() == all,
            v@ == all.take(it.index() as int),
    {
        v.push(*x);
    }
    assert(v@ =~= all);
    v
}

/// The keys of a map, each once, in the map's iteration order.
pub fn map_keys<V>(m: &HashMap<u64, V>) -> (v: Vec<u64>)
    ensures
        v@.to_set() == m@.dom(),
        v@.no_duplicates(),
{
    let mut v: Vec<u64> = Vec::new();
    let keys = m.keys();
    let ghost all = spec_keys_iter(m).remaining().unref();
    for x in it: keys
        invariant
            it.seq().unref() == all,
            v@ == all.take(it.index() as int),
    {
        v.push(*x);
    }
    assert(v@ =~= all);
    v
}

/// The elements of a set in increasing order.
pub fn sorted_elements(s: &HashSet<u64>) -> (v: Vec<u64>)
    ensures
        strictly_sorted(v@),
        v@.to_set() == s@,
{
    let elems = set_elements(s);
    let mut v: Vec<u64> = Vec::new();
    let mut k: usize = 0;
    while k < elems.len()
        invariant
            k <= elems@.len(),
            strictly_sorted(v@),
            v@.to_set() == elems@.take(k as int).to_set(),
        decreases elems.len() - k,
    {
        let x = elems[k];
        let ghost before = v@;
        match search_sorted(v.as_slice(), x) {
            Ok(_) => {},
            Err(p) => {
                v.insert(p, x);
                proof {
                    assert forall|i: int, j: int| 0 <= i < j < v@.len() implies v@[i] < v@[j] by {
                        if j < p {
                        } else if i > p {
                            assert(v@[i] == before[i - 1]);
                            assert(v@[j] == before[j - 1]);
                        } else if i == p {
                            assert(v@[j] == before[j - 1]);
                        } else {
                            if j == p {
                            } else {
                                assert(v@[j] == before[j - 1]);
                            }
                        }
                    }
                    assert(v@.to_set() =~= before.to_set().insert(x)) by {
                        assert forall|y: u64| v@.to_set().contains(y) implies before.to_set().insert(
                            x,
                        ).contains(y) by {
                            let i = choose|i: int| 0 <= i < v@.len() && v@[i] == y;
                            if i < p {
                                assert(before[i] == y);
                            } else if i > p {
                                assert(before[i - 1] == y);
                            }
                        }
                        assert forall|y: u64| before.to_set().insert(x).contains(y) implies v@.to_set().contains(
                            y,
                        ) by {
                            if y == x {
                                assert(v@[p as int] == x);
                            } else {
                                let i = choose|i: int| 0 <= i < before.len() && before[i] == y;
                                if i < p {
                                    assert(v@[i] == y);
                                } else {
                                    assert(v@[i + 1] == y);
                                }
                            }
                        }
                    }
                }
            },
        }
        proof {
            assert(elems@.take(k + 1) =~= elems@.take(k as int).push(x));
            elems@.take(k as int).lemma_push_to_set_commute(x);
            if v@ == before {
                assert(v@.to_set().contains(x)) by {
                    assert(before.contains(x));
                }
                assert(v@.to_set() =~= v@.to_set().insert(x));
            }
        }
        k += 1;
    }
    proof {
        assert(elems@.take(k as int) =~= elems@);
    }
    v
}

/// Add `v` to the set that `m` maps `k` to (an empty set if `k` is new).
pub fn multimap_add(m: &mut HashMap<u64, HashSet<u64>>, k: u64, v: u64)
    ensures
        sets_view(final(m)@) == sets_view(old(m)@).insert(
            k,
            if old(m)@.contains_key(k) {
                old(m)@[k]@.insert(v)
            } else {
                set![v]
            },
        ),
{
    let mut s = match m.remove(&k) {
        Some(s) => s,
        None => HashSet::new(),
    };
    s.insert(v);
    m.insert(k, s);
    proof {
        assert(sets_view(m@) =~= sets_view(old(m)@).insert(
            k,
            if old(m)@.contains_key(k) {
                old(m)@[k]@.insert(v)
            } else {
                set![v]
            },
        ));
    }
}

/// Add every element of `src` to `dst`.
pub fn set_extend(dst: &mut HashSet<u64>, src: &HashSet<u64>)
    ensures
        final(dst)@ == old(dst)@.union(src@),
{
    let elems = set_elements(src);
    let mut k: usize = 0;
    while k < elems.len()
        invariant
            k <= elems@.len(),
            elems@.to_set() == src@,
            dst@ == old(dst)@.union(elems@.take(k as int).to_set()),
        decreases elems.len() - k,
    {
        dst.insert(elems[k]);
        proof {
            assert(elems@.take(k + 1) =~= elems@.take(k as int).push(elems@[k as int]));
            elems@.take(k as int).lemma_push_to_set_commute(elems@[k as int]);
            assert(dst@ =~= old(dst)@.union(elems@.take(k + 1).to_set()));
        }
        k += 1;
    }
    proof {
        assert(elems@.take(k as int) =~= elems@);
    }
}

/// Add every element of `src` to the set that `m` maps `k` to (an empty set
/// if `k` is new).
pub fn multimap_extend(m: &mut HashMap<u64, HashSet<u64>>, k: u64, src: &HashSet<u64>)
    ensures
        sets_view(final(m)@) == sets_view(old(m)@).insert(
            k,
            if old(m)@.contains_key(k) {
                old(m)@[k]@.union(src@)
            } else {
                src@
            },
        ),
{
    let mut s = match m.remove(&k) {
        Some(s) => s,
        None => HashSet::new(),
    };
    let ghost start = s@;
    set_extend(&mut s, src);
    m.insert(k, s);
    proof {
        if !old(m)@.contains_key(k) {
            assert(start.union(src@) =~= src@);
        }
        assert(sets_view(m@) =~= sets_view(old(m)@).insert(
            k,
            if old(m)@.contains_key(k) {
                old(m)@[k]@.union(src@)
            } else {
                src@
            },
        ));
    }
}

} // verus!
