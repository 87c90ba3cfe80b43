//! Span coalescing: turning the matched character positions of a document
//! into inclusive `[start, end]` ranges for highlighting.

use vstd::prelude::*;

verus! {

/// The positions never step backwards.
pub open spec fn ascending(s: Seq<usize>) -> bool {
    forall|i: int, j: int| 0 <= i <= j < s.len() ==> s[i] <= s[j]
}

/// The maximal runs of `s` in order, each as an inclusive `(first, last)`
/// pair. A position joins the run before it when it lies at most one past
/// that run's last position, and opens a run of its own otherwise.
pub open spec fn runs(s: Seq<usize>) -> Seq<(usize, usize)>
    decreases s.len(),
{
    if s.len() == 0 {
        Seq::empty()
    } else if s.len() == 1 {
        seq![(s[0], s[0])]
    } else {
        let before = runs(s.drop_last());
        if s.last() - s[s.len() - 2] <= 1 {
            before.drop_last().push((before.last().0, s.last()))
        } else {
            before.push((s.last(), s.last()))
        }
    }
}

/// The highlighted spans of a list of matched positions: its maximal runs,
/// except that fewer than two positions highlight nothing.
pub open spec fn coalesce(s: Seq<usize>) -> Seq<(usize, usize)> {
    if s.len() < 2 {
        Seq::empty()
    } else {
        runs(s)
    }
}

/// A two-element range read as a `(start, end)` pair.
pub open spec fn span_of(range: [usize; 2]) -> (usize, usize) {
    (range[0], range[1])
}

/// A list of two-element ranges read as `(start, end)` pairs.
pub open spec fn spans_of(ranges: Seq<[usize; 2]>) -> Seq<(usize, usize)> {
    ranges.map_values(|range: [usize; 2]| span_of(range))
}

/// Compresses ascending matched positions into the fewest inclusive ranges
/// that cover exactly them. Fewer than two positions give no range at all.
pub fn get_contiguous(v: &[usize]) -> (out: Vec<[usize; 2]>)
    requires
        ascending(v@),
    ensures
        spans_of(out@) == coalesce(v@),
        v@.len() < 2 ==> out@.len() == 0,
{
    if v.len() < 2 {
        let none: Vec<[usize; 2]> = Vec::new();
        assert(spans_of(none@) =~= coalesce(v@));
        return none;
    }
    let mut arr: Vec<[usize; 2]> = Vec::with_capacity(v.len());
    let mut minimum: usize = v[0];
    let mut maximum: usize = v[0];
    let mut i: usize = 1;
    assert(v@.take(1).len() == 1);
    assert(spans_of(arr@).push((minimum, maximum)) =~= runs(v@.take(1)));
    while i < v.len()
        invariant
            1 <= i <= v.len(),
            ascending(v@),
            maximum == v[i - 1],
            spans_of(arr@).push((minimum, maximum)) == runs(v@.take(i as int)),
        decreases v.len() - i,
    {
        let current: usize = v[i];
        let difference: usize = current - maximum;
        proof {
            let prefix = v@.take(i + 1);
            assert(prefix.drop_last() =~= v@.take(i as int));
            assert(prefix.last() == current);
            assert(prefix[prefix.len() - 2] == maximum);
        }
        let ghost closed = spans_of(arr@);
        if difference >= 2 {
            arr.push([minimum, maximum]);
            assert(spans_of(arr@) =~= closed.push((minimum, maximum)));
            minimum = current;
            maximum = current;
        } else {
            assert(closed.push((minimum, maximum)).drop_last() =~= closed);
            maximum = current;
        }
        i += 1;
    }
    assert(v@.take(i as int) =~= v@);
    let ghost closed = spans_of(arr@);
    arr.push([minimum, maximum]);
    assert(spans_of(arr@) =~= closed.push((minimum, maximum)));
    arr
}

/// The position `x` lies inside one of the spans.
pub open spec fn covered(spans: Seq<(usize, usize)>, x: usize) -> bool {
    exists|k: int| 0 <= k < spans.len() && (#[trigger] spans[k]).0 <= x <= spans[k].1
}

/// No span is empty, and each span begins at least two past the end of the
/// span before it, so that no two spans could be merged.
pub open spec fn separated(spans: Seq<(usize, usize)>) -> bool {
    &&& forall|k: int| 0 <= k < spans.len() ==> (#[trigger] spans[k]).0 <= spans[k].1
    &&& forall|k: int| 0 <= k < spans.len() - 1 ==> (#[trigger] spans[k]).1 + 2 <= spans[k + 1].0
}

/// The runs of ascending positions cover exactly the positions, and no two
/// of them could be merged: they begin at the first position and end at the
/// last, each begins at least two past the end of the one before, and a
/// number lies in one of them if and only if it is one of the positions.
pub proof fn lemma_runs_cover_exactly(s: Seq<usize>)
    requires
        s.len() >= 1,
        ascending(s),
    ensures
        runs(s).len() >= 1,
        runs(s)[0].0 == s[0],
        runs(s).last().1 == s.last(),
        separated(runs(s)),
        forall|x: usize| covered(runs(s), x) <==> s.contains(x),
    decreases s.len(),
{
    let after = runs(s);
    if s.len() == 1 {
        assert forall|x: usize| covered(after, x) <==> s.contains(x) by {
            if covered(after, x) {
                assert(s[0] == x);
            }
            if s.contains(x) {
                assert(after[0].0 <= x <= after[0].1);
            }
        }
    } else {
        let front = s.drop_last();
        let before = runs(front);
        let last = s.last();
        assert(ascending(front));
        lemma_runs_cover_exactly(front);
        assert(before.last().1 == s[s.len() - 2]);
        assert(s[s.len() - 2] <= last);
        let joined = last - s[s.len() - 2] <= 1;
        assert forall|x: usize| covered(after, x) <==> s.contains(x) by {
            if covered(after, x) {
                let k = choose|k: int|
                    0 <= k < after.len() && (#[trigger] after[k]).0 <= x <= after[k].1;
                if k < before.len() - 1 || (!joined && k < before.len()) {
                    assert(before[k].0 <= x <= before[k].1);
                    assert(covered(before, x));
                } else if joined && x < last {
                    assert(before[k].0 <= x <= before[k].1);
                    assert(covered(before, x));
                } else {
                    assert(x == last);
                }
                if x == last {
                    assert(s[s.len() - 1] == x);
                } else {
                    assert(front.contains(x));
                    let i = choose|i: int| 0 <= i < front.len() && front[i] == x;
                    assert(s[i] == x);
                }
            }
            if s.contains(x) {
                let i = choose|i: int| 0 <= i < s.len() && s[i] == x;
                if i < s.len() - 1 {
                    assert(front[i] == x);
                    assert(front.contains(x));
                    assert(covered(before, x));
                    let k = choose|k: int|
                        0 <= k < before.len() && (#[trigger] before[k]).0 <= x <= before[k].1;
                    assert(after[k].0 <= x <= after[k].1);
                } else {
                    assert(after[after.len() - 1].0 <= x <= after[after.len() - 1].1);
                }
            }
        }
        assert(separated(after)) by {
            assert forall|k: int| 0 <= k < after.len() implies (#[trigger] after[k]).0
                <= after[k].1 by {
                if k < after.len() - 1 {
                    assert(before[k].0 <= before[k].1);
                }
            }
            assert forall|k: int| 0 <= k < after.len() - 1 implies (#[trigger] after[k]).1 + 2
                <= after[k + 1].0 by {
                if k + 1 < before.len() {
                    assert(before[k].1 + 2 <= before[k + 1].0);
                }
            }
        }
    }
}

/// Every step from one position to the next is at most one.
pub open spec fn gapless(s: Seq<usize>) -> bool {
    forall|i: int| 0 <= i < s.len() - 1 ==> s[i + 1] - #[trigger] s[i] <= 1
}

proof fn lemma_gapless_runs(s: Seq<usize>)
    requires
        s.len() >= 1,
        ascending(s),
        gapless(s),
    ensures
        runs(s) == seq![(s[0], s.last())],
    decreases s.len(),
{
    if s.len() >= 2 {
        let front = s.drop_last();
        assert(ascending(front));
        assert(gapless(front)) by {
            assert forall|i: int| 0 <= i < front.len() - 1 implies front[i + 1]
                - #[trigger] front[i] <= 1 by {
                assert(s[i + 1] - s[i] <= 1);
            }
        }
        lemma_gapless_runs(front);
        assert(s[s.len() - 2 + 1] - s[s.len() - 2] <= 1);
        assert(runs(front).drop_last().push((runs(front).last().0, s.last())) =~= seq![
            (s[0], s.last()),
        ]);
    }
}

/// Two or more ascending positions with no gap wider than one coalesce into
/// exactly one span, from the first position to the last.
pub proof fn lemma_gapless_is_one_span(s: Seq<usize>)
    requires
        s.len() >= 2,
        ascending(s),
        gapless(s),
    ensures
        coalesce(s) == seq![(s[0], s.last())],
{
    lemma_gapless_runs(s);
}

/// Fewer than two positions coalesce into no span at all.
pub proof fn lemma_short_is_empty(s: Seq<usize>)
    requires
        s.len() < 2,
    ensures
        coalesce(s) == Seq::<(usize, usize)>::empty(),
{
}

} // verus!
