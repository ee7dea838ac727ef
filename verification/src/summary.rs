//! The pair of counters and its aggregation.

use vstd::prelude::*;
use vstd::std_specs::ops::AddSpec;

verus! {

/// The mathematical content of a summary: how many leaves were counted as
/// safe and how many as unsafe, as unbounded naturals.
pub struct Summary {
    pub safe_count: nat,
    pub unsafe_count: nat,
}

impl Summary {
    /// The summary of nothing: the identity of [`Summary::combine`].
    pub open spec fn zero() -> Summary {
        Summary { safe_count: 0, unsafe_count: 0 }
    }

    /// The summary of a single leaf.
    pub open spec fn leaf(is_unsafe: bool) -> Summary {
        if is_unsafe {
            Summary { safe_count: 0, unsafe_count: 1 }
        } else {
            Summary { safe_count: 1, unsafe_count: 0 }
        }
    }

    /// Counter-wise sum.
    pub open spec fn combine(self, other: Summary) -> Summary {
        Summary {
            safe_count: self.safe_count + other.safe_count,
            unsafe_count: self.unsafe_count + other.unsafe_count,
        }
    }

    /// Repeated [`Summary::combine`] over a sequence, starting from
    /// [`Summary::zero`].
    pub open spec fn fold(items: Seq<Summary>) -> Summary
        decreases items.len(),
    {
        if items.len() == 0 {
            Summary::zero()
        } else {
            Summary::fold(items.drop_last()).combine(items.last())
        }
    }

    /// The executable summary that stands for this one: each counter as it
    /// is where it fits in a `u64`, and `u64::MAX` where it does not.
    pub open spec fn saturated(self) -> SafenessSummary {
        SafenessSummary {
            safe_expressions: if self.safe_count > u64::MAX {
                u64::MAX
            } else {
                self.safe_count as u64
            },
            unsafe_expressions: if self.unsafe_count > u64::MAX {
                u64::MAX
            } else {
                self.unsafe_count as u64
            },
        }
    }
}

/// The executable summary. Its counters saturate at `u64::MAX` instead of
/// wrapping, so every operation on it is total.
#[derive(Debug, Clone, Copy, PartialEq, Eq, Structural)]
pub struct SafenessSummary {
    pub safe_expressions: u64,
    pub unsafe_expressions: u64,
}

impl View for SafenessSummary {
    type V = Summary;

    open spec fn view(&self) -> Summary {
        Summary {
            safe_count: self.safe_expressions as nat,
            unsafe_count: self.unsafe_expressions as nat,
        }
    }
}

impl Default for SafenessSummary {
    /// The identity of `+`: both counters zero.
    fn default() -> (r: Self)
        ensures
            r == Summary::zero().saturated(),
    {
        SafenessSummary { safe_expressions: 0, unsafe_expressions: 0 }
    }
}

impl SafenessSummary {
    /// The summary of one leaf: one safe expression, or one unsafe one.
    pub fn new_leaf(is_unsafe: bool) -> (r: Self)
        ensures
            r == Summary::leaf(is_unsafe).saturated(),
    {
        SafenessSummary {
            safe_expressions: if is_unsafe { 0 } else { 1 },
            unsafe_expressions: if is_unsafe { 1 } else { 0 },
        }
    }

    /// The sum of all items: `+` repeated from the empty summary.
    pub fn fold(items: &[SafenessSummary]) -> (r: Self)
        ensures
            r == Summary::fold(summaries_view(items@)).saturated(),
    {
        let mut total = SafenessSummary::default();
        let mut i: usize = 0;
        while i < items.len()
            invariant
                0 <= i <= items.len(),
                total == Summary::fold(summaries_view(items@.take(i as int))).saturated(),
            decreases items.len() - i,
        {
            proof {
                assert(summaries_view(items@.take(i + 1)).drop_last() == summaries_view(items@.take(i as int)));
                lemma_saturated_combine(
                    Summary::fold(summaries_view(items@.take(i as int))),
                    items@[i as int]@,
                );
            }
            total = total + items[i];
            i += 1;
        }
        proof {
            assert(items@.take(i as int) == items@);
        }
        total
    }
}

/// The views of a sequence of summaries, in order.
pub open spec fn summaries_view(items: Seq<SafenessSummary>) -> Seq<Summary> {
    items.map_values(|item: SafenessSummary| item@)
}

impl core::ops::Add for SafenessSummary {
    type Output = Self;

    /// Counter-wise sum; a counter that would pass `u64::MAX` stays there.
    fn add(self, other: Self) -> (r: Self) {
        SafenessSummary {
            safe_expressions: self.safe_expressions.saturating_add(other.safe_expressions),
            unsafe_expressions: self.unsafe_expressions.saturating_add(other.unsafe_expressions),
        }
    }
}

impl vstd::std_specs::ops::AddSpecImpl for SafenessSummary {
    open spec fn obeys_add_spec() -> bool {
        true
    }

    open spec fn add_req(self, other: Self) -> bool {
        true
    }

    open spec fn add_spec(self, other: Self) -> Self {
        self@.combine(other@).saturated()
    }
}

/// Saturating the sum of two summaries is adding their saturated forms:
/// counting without bound and saturating at the end gives what `+` gives
/// step by step.
pub proof fn lemma_saturated_combine(a: Summary, b: Summary)
    ensures
        a.combine(b).saturated() == a.saturated().add_spec(b.saturated()),
{
}

/// The empty summary is the identity of combining: joined to any summary,
/// on either side, it gives that summary back. The same holds of `+` on the
/// executable type.
pub proof fn lemma_identity(x: Summary, y: SafenessSummary)
    ensures
        Summary::zero().combine(x) == x,
        x.combine(Summary::zero()) == x,
        Summary::zero().saturated().add_spec(y) == y,
        y.add_spec(Summary::zero().saturated()) == y,
{
}

/// Combining is associative and commutative: three summaries give the same
/// total however they are grouped and ordered.
pub proof fn lemma_combine_associative_commutative(a: Summary, b: Summary, c: Summary)
    ensures
        a.combine(b.combine(c)) == a.combine(b).combine(c),
        a.combine(b).combine(c) == a.combine(c.combine(b)),
        a.combine(b) == b.combine(a),
{
}

/// `+` on the executable type is associative and commutative too, although
/// its counters saturate.
pub proof fn lemma_add_associative_commutative(
    a: SafenessSummary,
    b: SafenessSummary,
    c: SafenessSummary,
)
    ensures
        a.add_spec(b.add_spec(c)) == a.add_spec(b).add_spec(c),
        a.add_spec(b).add_spec(c) == a.add_spec(c.add_spec(b)),
        a.add_spec(b) == b.add_spec(a),
{
}

/// Folding a sequence is folding any two parts of it and combining the
/// results: the total does not depend on where the sequence is cut.
pub proof fn lemma_fold_concat(first: Seq<Summary>, second: Seq<Summary>)
    ensures
        Summary::fold(first + second) == Summary::fold(first).combine(Summary::fold(second)),
    decreases second.len(),
{
    if second.len() == 0 {
        assert(first + second == first);
    } else {
        assert((first + second).drop_last() == first + second.drop_last());
        lemma_fold_concat(first, second.drop_last());
    }
}

/// The fold of nothing is the empty summary, and the fold of one summary
/// is that summary.
pub proof fn lemma_fold_small(x: Summary)
    ensures
        Summary::fold(Seq::empty()) == Summary::zero(),
        Summary::fold(seq![x]) == x,
{
    assert(seq![x].drop_last() == Seq::<Summary>::empty());
}

/// Folding a sequence with one item taken out, and then combining with that
/// item, is folding the sequence.
pub proof fn lemma_fold_remove(items: Seq<Summary>, i: int)
    requires
        0 <= i < items.len(),
    ensures
        Summary::fold(items) == Summary::fold(items.remove(i)).combine(items[i]),
{
    let before = items.take(i);
    let after = items.skip(i + 1);
    assert(items == before + seq![items[i]] + after);
    assert(items.remove(i) == before + after);
    lemma_fold_concat(before + seq![items[i]], after);
    lemma_fold_concat(before, seq![items[i]]);
    lemma_fold_concat(before, after);
    lemma_fold_small(items[i]);
}

/// The fold does not depend on the order of the items: two sequences that
/// hold the same summaries, each as often as the other, fold to the same
/// total.
pub proof fn lemma_fold_permutation(first: Seq<Summary>, second: Seq<Summary>)
    requires
        first.to_multiset() == second.to_multiset(),
    ensures
        Summary::fold(first) == Summary::fold(second),
    decreases first.len(),
{
    first.to_multiset_ensures();
    second.to_multiset_ensures();
    if first.len() > 0 {
        let last = first.last();
        assert(first.contains(last));
        assert(first.to_multiset().count(last) > 0);
        assert(second.to_multiset().count(last) > 0);
        assert(second.contains(last));
        let i = choose|i: int| 0 <= i < second.len() && second[i] == last;
        assert(first.drop_last() == first.remove(first.len() - 1));
        assert(first.drop_last().to_multiset() == second.remove(i).to_multiset());
        lemma_fold_permutation(first.drop_last(), second.remove(i));
        lemma_fold_remove(second, i);
    }
}

/// Combining never lowers a counter: what was counted stays counted. The
/// same holds of `+` on the executable type.
pub proof fn lemma_combine_monotone(a: Summary, b: Summary, x: SafenessSummary, y: SafenessSummary)
    ensures
        a.combine(b).safe_count >= a.safe_count,
        a.combine(b).unsafe_count >= a.unsafe_count,
        x.add_spec(y).safe_expressions >= x.safe_expressions,
        x.add_spec(y).unsafe_expressions >= x.unsafe_expressions,
{
}

} // verus!
