//! Finite sets of bit positions listed in order.
use vstd::prelude::*;

verus! {

/// `m` is the smallest element of `s`.
pub open spec fn is_least(s: Set<nat>, m: nat) -> bool {
    s.contains(m) && forall|x: nat| #[trigger] s.contains(x) ==> m <= x
}

/// `m` is the largest element of `s`.
pub open spec fn is_greatest(s: Set<nat>, m: nat) -> bool {
    s.contains(m) && forall|x: nat| #[trigger] s.contains(x) ==> x <= m
}

/// The smallest element of a finite, non-empty set.
pub open spec fn least(s: Set<nat>) -> nat {
    choose|m: nat| is_least(s, m)
}

/// The largest element of a finite, non-empty set.
pub open spec fn greatest(s: Set<nat>) -> nat {
    choose|m: nat| is_greatest(s, m)
}

/// The elements of a finite set, smallest first.
pub open spec fn ascending(s: Set<nat>) -> Seq<nat>
    decreases s.len(),
{
    if s.finite() && s.contains(least(s)) {
        seq![least(s)] + ascending(s.remove(least(s)))
    } else {
        Seq::empty()
    }
}

/// Each element of `q` is smaller than the next.
pub open spec fn strictly_increasing(q: Seq<nat>) -> bool {
    forall|i: int, j: int| 0 <= i < j < q.len() ==> #[trigger] q[i] < #[trigger] q[j]
}

/// Each element of `q` is larger than the next.
pub open spec fn strictly_decreasing(q: Seq<nat>) -> bool {
    forall|i: int, j: int| 0 <= i < j < q.len() ==> #[trigger] q[i] > #[trigger] q[j]
}

/// A finite, non-empty set has a smallest and a largest element.
pub proof fn lemma_least_greatest(s: Set<nat>)
    requires
        s.finite(),
        !s.is_empty(),
    ensures
        is_least(s, least(s)),
        is_greatest(s, greatest(s)),
    decreases s.len(),
{
    let x = s.choose();
    let t = s.remove(x);
    if t.is_empty() {
        assert(is_least(s, x)) by {
            assert forall|y: nat| #[trigger] s.contains(y) implies x <= y by {
                if y != x {
                    assert(t.contains(y));
                }
            }
        }
        assert(is_greatest(s, x)) by {
            assert forall|y: nat| #[trigger] s.contains(y) implies y <= x by {
                if y != x {
                    assert(t.contains(y));
                }
            }
        }
    } else {
        lemma_least_greatest(t);
        let a = least(t);
        let b = greatest(t);
        let lo = if x < a { x } else { a };
        let hi = if x > b { x } else { b };
        assert(is_least(s, lo)) by {
            assert forall|y: nat| #[trigger] s.contains(y) implies lo <= y by {
                if y != x {
                    assert(t.contains(y));
                }
            }
        }
        assert(is_greatest(s, hi)) by {
            assert forall|y: nat| #[trigger] s.contains(y) implies y <= hi by {
                if y != x {
                    assert(t.contains(y));
                }
            }
        }
    }
}

/// The smallest element is the only one that is no larger than every element.
pub proof fn lemma_least_unique(s: Set<nat>, m: nat)
    requires
        is_least(s, m),
    ensures
        least(s) == m,
{
    assert(is_least(s, least(s)));
}

/// The largest element is the only one that is no smaller than every element.
pub proof fn lemma_greatest_unique(s: Set<nat>, m: nat)
    requires
        is_greatest(s, m),
    ensures
        greatest(s) == m,
{
    assert(is_greatest(s, greatest(s)));
}

/// Listing a finite set smallest first gives each element once, in increasing order.
pub proof fn lemma_ascending(s: Set<nat>)
    requires
        s.finite(),
    ensures
        ascending(s).len() == s.len(),
        strictly_increasing(ascending(s)),
        forall|i: int| 0 <= i < ascending(s).len() ==> s.contains(#[trigger] ascending(s)[i]),
        forall|x: nat| #[trigger] s.contains(x) ==> ascending(s).contains(x),
    decreases s.len(),
{
    if s.is_empty() {
        assert(!s.contains(least(s)));
        assert(s.len() == 0);
    } else {
        lemma_least_greatest(s);
        let m = least(s);
        let t = s.remove(m);
        lemma_ascending(t);
        let q = ascending(s);
        assert(q == seq![m] + ascending(t));
        assert forall|i: int, j: int| 0 <= i < j < q.len() implies #[trigger] q[i]
            < #[trigger] q[j] by {
            if i == 0 {
                assert(t.contains(q[j]));
            } else {
                assert(q[i] == ascending(t)[i - 1]);
                assert(q[j] == ascending(t)[j - 1]);
            }
        }
        assert forall|i: int| 0 <= i < q.len() implies s.contains(#[trigger] q[i]) by {
            if i > 0 {
                assert(q[i] == ascending(t)[i - 1]);
            }
        }
        assert forall|x: nat| #[trigger] s.contains(x) implies q.contains(x) by {
            if x == m {
                assert(q[0] == x);
            } else {
                assert(t.contains(x));
                let k = choose|k: int| 0 <= k < ascending(t).len() && ascending(t)[k] == x;
                assert(q[k + 1] == x);
            }
        }
    }
}

/// The last element of the ascending listing is the largest, and removing the largest
/// element drops it from the end of the listing.
pub proof fn lemma_ascending_last(s: Set<nat>)
    requires
        s.finite(),
        !s.is_empty(),
    ensures
        ascending(s).len() > 0,
        ascending(s).last() == greatest(s),
        ascending(s.remove(greatest(s))) == ascending(s).drop_last(),
    decreases s.len(),
{
    lemma_least_greatest(s);
    lemma_ascending(s);
    let m = least(s);
    let g = greatest(s);
    let t = s.remove(m);
    if t.is_empty() {
        assert(m == g) by {
            if m != g {
                assert(t.contains(g));
            }
        }
        assert(s.remove(g) =~= t);
        assert(ascending(t) =~= Seq::<nat>::empty()) by {
            assert(!t.contains(least(t)));
        }
        assert(ascending(s) =~= seq![m]);
    } else {
        lemma_least_greatest(t);
        lemma_ascending_last(t);
        assert(m != g) by {
            let y = t.choose();
            assert(t.contains(y));
        }
        assert(is_greatest(t, g)) by {
            assert(t.contains(g));
        }
        lemma_greatest_unique(t, g);
        let u = s.remove(g);
        assert(is_least(u, m)) by {
            assert(u.contains(m));
        }
        lemma_least_unique(u, m);
        assert(u.finite());
        assert(u.remove(m) =~= t.remove(g));
        assert(ascending(u) == seq![m] + ascending(t.remove(g)));
        assert(ascending(s) == seq![m] + ascending(t));
        assert(ascending(u) =~= ascending(s).drop_last());
    }
}

} // verus!
