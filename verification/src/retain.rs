//! Dropping entries of a sequence by position, keeping the order of the rest.

use vstd::prelude::*;

verus! {

/// The entries of `s` at the positions that `keep` accepts, in their order.
pub open spec fn retained<T>(s: Seq<T>, keep: spec_fn(int) -> bool) -> Seq<T>
    decreases s.len(),
{
    if s.len() == 0 {
        s
    } else if keep(s.len() - 1) {
        retained(s.drop_last(), keep).push(s.last())
    } else {
        retained(s.drop_last(), keep)
    }
}

/// The positions below `n` that `keep` accepts, in increasing order.
pub open spec fn kept_positions(n: nat, keep: spec_fn(int) -> bool) -> Seq<int>
    decreases n,
{
    if n == 0 {
        Seq::empty()
    } else if keep(n - 1) {
        kept_positions((n - 1) as nat, keep).push(n - 1)
    } else {
        kept_positions((n - 1) as nat, keep)
    }
}

/// Whether position `i` occurs among `marked`.
pub open spec fn is_marked(marked: Seq<usize>, i: int) -> bool {
    exists|k: int| 0 <= k < marked.len() && #[trigger] marked[k] == i
}

/// The test that accepts the positions not among `marked`.
pub open spec fn unmarked(marked: Seq<usize>) -> spec_fn(int) -> bool {
    |i: int| !is_marked(marked, i)
}

/// [`kept_positions`] lists exactly the accepted positions below `n`, each
/// once and in increasing order.
pub proof fn lemma_kept_positions(n: nat, keep: spec_fn(int) -> bool)
    ensures
        kept_positions(n, keep).len() <= n,
        forall|j: int|
            0 <= j < kept_positions(n, keep).len() ==> 0 <= #[trigger] kept_positions(n, keep)[j]
                < n && keep(kept_positions(n, keep)[j]),
        forall|a: int, b: int|
            0 <= a < b < kept_positions(n, keep).len() ==> #[trigger] kept_positions(n, keep)[a]
                < #[trigger] kept_positions(n, keep)[b],
        forall|i: int|
            0 <= i < n && #[trigger] keep(i) ==> exists|j: int|
                0 <= j < kept_positions(n, keep).len() && #[trigger] kept_positions(n, keep)[j]
                    == i,
    decreases n,
{
    if n > 0 {
        let before = kept_positions((n - 1) as nat, keep);
        let all = kept_positions(n, keep);
        lemma_kept_positions((n - 1) as nat, keep);
        assert forall|i: int| 0 <= i < n && #[trigger] keep(i) implies exists|j: int|
            0 <= j < all.len() && #[trigger] all[j] == i by {
            if i < n - 1 {
                let j = choose|j: int| 0 <= j < before.len() && #[trigger] before[j] == i;
                assert(all[j] == i);
            } else {
                assert(all[all.len() - 1] == i);
            }
        }
    }
}

/// [`retained`] holds, position by position, the entries of `s` that
/// [`kept_positions`] lists.
pub proof fn lemma_retained_by_position<T>(s: Seq<T>, keep: spec_fn(int) -> bool)
    ensures
        retained(s, keep).len() == kept_positions(s.len(), keep).len(),
        forall|j: int|
            0 <= j < retained(s, keep).len() ==> 0 <= kept_positions(s.len(), keep)[j] < s.len()
                && #[trigger] retained(s, keep)[j] == s[kept_positions(s.len(), keep)[j]],
    decreases s.len(),
{
    if s.len() > 0 {
        lemma_retained_by_position(s.drop_last(), keep);
        lemma_kept_positions(s.len(), keep);
    }
}

/// Two tests that agree on the positions of `s` keep the same entries.
pub proof fn lemma_retained_agree<T>(s: Seq<T>, keep: spec_fn(int) -> bool, other: spec_fn(int) -> bool)
    requires
        forall|i: int| 0 <= i < s.len() ==> #[trigger] keep(i) == other(i),
    ensures
        retained(s, keep) == retained(s, other),
    decreases s.len(),
{
    if s.len() > 0 {
        lemma_retained_agree(s.drop_last(), keep, other);
    }
}

} // verus!
