//! Strictly increasing sequences of addresses and searching in them.

use vstd::prelude::*;

verus! {

/// Every element is smaller than the next one.
pub open spec fn strictly_sorted(s: Seq<u64>) -> bool {
    forall|i: int, j: int| 0 <= i < j < s.len() ==> s[i] < s[j]
}

/// Every element is at most the next one.
pub open spec fn sorted(s: Seq<u64>) -> bool {
    forall|i: int, j: int| 0 <= i <= j < s.len() ==> s[i] <= s[j]
}

/// A strictly increasing sequence is sorted.
pub proof fn lemma_strictly_sorted_is_sorted(s: Seq<u64>)
    requires
        strictly_sorted(s),
    ensures
        sorted(s),
{
    assert forall|i: int, j: int| 0 <= i <= j < s.len() implies s[i] <= s[j] by {
        if i < j {
        }
    }
}

/// A strictly increasing sequence has as many distinct elements as entries.
pub proof fn lemma_strictly_sorted_card(s: Seq<u64>)
    requires
        strictly_sorted(s),
    ensures
        s.no_duplicates(),
        s.to_set().len() == s.len(),
        s.to_set().finite(),
{
    assert(s.no_duplicates()) by {
        assert forall|i: int, j: int| 0 <= i < s.len() && 0 <= j < s.len() && i != j implies s[i]
            != s[j] by {
            if i < j {
            } else {
            }
        }
    }
    s.unique_seq_to_set();
    vstd::seq_lib::seq_to_set_is_finite(s);
}

/// A strictly increasing sequence is determined by the set of its elements.
pub proof fn lemma_strictly_sorted_unique(s1: Seq<u64>, s2: Seq<u64>)
    requires
        strictly_sorted(s1),
        strictly_sorted(s2),
        s1.to_set() == s2.to_set(),
    ensures
        s1 == s2,
    decreases s1.len(),
{
    if s1.len() == 0 {
        if s2.len() > 0 {
            assert(s2.to_set().contains(s2[0]));
            assert(!s1.to_set().contains(s2[0]));
        }
    } else if s2.len() == 0 {
        assert(s1.to_set().contains(s1[0]));
    } else {
        // Both first elements are the minimum of the common set.
        assert(s1.to_set().contains(s2[0]));
        assert(s2.to_set().contains(s1[0]));
        let k1 = choose|k: int| 0 <= k < s1.len() && s1[k] == s2[0];
        let k2 = choose|k: int| 0 <= k < s2.len() && s2[k] == s1[0];
        assert(s1[0] <= s2[0]) by {
            if k1 > 0 {
            }
        }
        assert(s2[0] <= s1[0]) by {
            if k2 > 0 {
            }
        }
        let t1 = s1.drop_first();
        let t2 = s2.drop_first();
        assert(t1.to_set() == t2.to_set()) by {
            assert forall|x: u64| t1.to_set().contains(x) implies t2.to_set().contains(x) by {
                let k = choose|k: int| 0 <= k < t1.len() && t1[k] == x;
                assert(s1[k + 1] == x);
                assert(s2.to_set().contains(x));
                let m = choose|m: int| 0 <= m < s2.len() && s2[m] == x;
                assert(m != 0);
                assert(t2[m - 1] == x);
            }
            assert forall|x: u64| t2.to_set().contains(x) implies t1.to_set().contains(x) by {
                let k = choose|k: int| 0 <= k < t2.len() && t2[k] == x;
                assert(s2[k + 1] == x);
                assert(s1.to_set().contains(x));
                let m = choose|m: int| 0 <= m < s1.len() && s1[m] == x;
                assert(m != 0);
                assert(t1[m - 1] == x);
            }
            assert(t1.to_set() =~= t2.to_set());
        }
        lemma_strictly_sorted_unique(t1, t2);
        assert(s1 =~= seq![s1[0]] + t1);
        assert(s2 =~= seq![s2[0]] + t2);
    }
}

/// Binary search in a sorted slice.
///
/// Returns `Ok(i)` with `s[i] == target` when the target occurs, otherwise
/// `Err(p)` where `p` is the number of elements smaller than the target.
pub fn search_sorted(s: &[u64], target: u64) -> (r: Result<usize, usize>)
    requires
        sorted(s@),
    ensures
        match r {
            Ok(i) => i < s@.len() && s@[i as int] == target,
            Err(p) => p <= s@.len() && !s@.contains(target) && (forall|k: int|
                0 <= k < p ==> s@[k] < target) && (forall|k: int| p <= k < s@.len() ==> s@[k]
                > target),
        },
{
    let mut lo: usize = 0;
    let mut hi: usize = s.len();
    while lo < hi
        invariant
            lo <= hi <= s@.len(),
            sorted(s@),
            forall|k: int| 0 <= k < lo ==> s@[k] < target,
            forall|k: int| hi <= k < s@.len() ==> s@[k] > target,
        decreases hi - lo,
    {
        let mid = lo + (hi - lo) / 2;
        if s[mid] < target {
            lo = mid + 1;
        } else if s[mid] > target {
            hi = mid;
        } else {
            return Ok(mid);
        }
    }
    proof {
        assert forall|k: int| 0 <= k < s@.len() implies s@[k] != target by {
            if k < lo {
            } else {
            }
        }
    }
    Err(lo)
}

} // verus!
