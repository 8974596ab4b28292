//! Sorted sets of timeline boundaries, as `sort_unstable` followed by `dedup` leaves them.

use vstd::prelude::*;

verus! {

pub open spec fn spec_strictly_increasing(b: Seq<u64>) -> bool {
    forall|i: int, j: int| 0 <= i < j < b.len() ==> b[i] < b[j]
}

/// Adds `x` to a strictly increasing list, keeping it strictly increasing.
pub fn insert_boundary(v: &mut Vec<u64>, x: u64)
    requires
        spec_strictly_increasing(old(v)@),
    ensures
        spec_strictly_increasing(final(v)@),
        forall|y: u64| final(v)@.contains(y) <==> (old(v)@.contains(y) || y == x),
{
    let mut j: usize = 0;
    let ghost orig = v@;
    while j < v.len() && v[j] < x
        invariant
            v@ == orig,
            orig == old(v)@,
            j <= v@.len(),
            forall|k: int| 0 <= k < j ==> v@[k] < x,
        decreases v.len() - j,
    {
        j += 1;
    }
    if j < v.len() && v[j] == x {
        assert(v@[j as int] == x);
        assert(v@.contains(x));
        return;
    }
    let ghost before = v@;
    v.insert(j, x);
    assert(v@ =~= before.take(j as int).push(x) + before.skip(j as int));
    assert forall|a: int, b: int| 0 <= a < b < v@.len() implies v@[a] < v@[b] by {
        if b < j {
        } else if b == j {
        } else if a < j {
            assert(before[b - 1] > x || before[b - 1] >= x);
        } else if a == j {
            assert(before[b - 1] >= x);
            assert(before[j as int] != x);
        } else {
        }
    }
    assert forall|y: u64|
        #![trigger v@.contains(y)]
        #![trigger before.contains(y)]
        v@.contains(y) <==> (before.contains(y) || y == x) by {
        if v@.contains(y) {
            let k = choose|k: int| 0 <= k < v@.len() && v@[k] == y;
            if k < j {
                assert(before[k] == y);
            } else if k > j {
                assert(before[k - 1] == y);
            }
        }
        if before.contains(y) {
            let k = choose|k: int| 0 <= k < before.len() && before[k] == y;
            if k < j {
                assert(v@[k] == y);
            } else {
                assert(v@[k + 1] == y);
            }
        }
        if y == x {
            assert(v@[j as int] == x);
        }
    }
}

/// Two strictly increasing lists with the same elements are equal.
pub proof fn lemma_increasing_lists_are_determined_by_elements(a: Seq<u64>, b: Seq<u64>)
    requires
        spec_strictly_increasing(a),
        spec_strictly_increasing(b),
        forall|y: u64| a.contains(y) <==> b.contains(y),
    ensures
        a == b,
    decreases a.len() + b.len(),
{
    if a.len() == 0 || b.len() == 0 {
        if a.len() > 0 {
            assert(a.contains(a[0]));
        }
        if b.len() > 0 {
            assert(b.contains(b[0]));
        }
        assert(a =~= b);
    } else {
        let la = a.last();
        let lb = b.last();
        assert(a.contains(la));
        assert(b.contains(lb));
        let ka = choose|k: int| 0 <= k < a.len() && a[k] == lb;
        let kb = choose|k: int| 0 <= k < b.len() && b[k] == la;
        assert(la == lb);
        let a2 = a.drop_last();
        let b2 = b.drop_last();
        assert forall|y: u64| a2.contains(y) <==> b2.contains(y) by {
            if a2.contains(y) {
                let k = choose|k: int| 0 <= k < a2.len() && a2[k] == y;
                assert(a.contains(y));
                assert(y < la);
                let m = choose|m: int| 0 <= m < b.len() && b[m] == y;
                assert(m != b.len() - 1);
                assert(b2[m] == y);
            }
            if b2.contains(y) {
                let k = choose|k: int| 0 <= k < b2.len() && b2[k] == y;
                assert(b.contains(y));
                assert(y < lb);
                let m = choose|m: int| 0 <= m < a.len() && a[m] == y;
                assert(m != a.len() - 1);
                assert(a2[m] == y);
            }
        }
        lemma_increasing_lists_are_determined_by_elements(a2, b2);
        assert(a =~= a2.push(la));
        assert(b =~= b2.push(lb));
    }
}

} // verus!
