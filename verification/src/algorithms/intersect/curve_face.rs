//! The intersection of a curve and a face.

use vstd::prelude::*;
use crate::math::Point1;

verus! {

/// A stretch of a curve, from the first parameter to the second.
pub type CurveFaceIntersectionInterval = [Point1; 2];

/// The stretches of a curve that lie within a face.
///
/// The stretches are in order along the curve and do not overlap: none
/// begins before the one before it has ended.
#[derive(Debug, PartialEq, Eq, Hash)]
pub struct CurveFaceIntersection {
    intervals: Vec<CurveFaceIntersectionInterval>,
}

/// Whether stretch `i` ends no later than stretch `j` begins.
pub open spec fn spec_in_order(
    intervals: Seq<CurveFaceIntersectionInterval>,
    i: int,
    j: int,
) -> bool {
    intervals[i][1].t <= intervals[j][0].t
}

/// Whether the stretches are in order and do not overlap: each ends no
/// earlier than it begins, and no later than any after it begins.
pub open spec fn spec_ordered(intervals: Seq<CurveFaceIntersectionInterval>) -> bool {
    &&& forall|i: int|
        0 <= i < intervals.len() ==> (#[trigger] intervals[i])[0].t <= intervals[i][1].t
    &&& forall|i: int, j: int|
        0 <= i < j < intervals.len() ==> #[trigger] spec_in_order(intervals, i, j)
}

/// Where the part begins that two stretches have in common.
pub open spec fn spec_overlap_start(
    a: CurveFaceIntersectionInterval,
    b: CurveFaceIntersectionInterval,
) -> int {
    if a[0].t >= b[0].t {
        a[0].t as int
    } else {
        b[0].t as int
    }
}

/// Where the part ends that two stretches have in common.
pub open spec fn spec_overlap_end(
    a: CurveFaceIntersectionInterval,
    b: CurveFaceIntersectionInterval,
) -> int {
    if a[1].t <= b[1].t {
        a[1].t as int
    } else {
        b[1].t as int
    }
}

/// Whether two stretches have more than a point in common.
pub open spec fn spec_overlapping(
    a: CurveFaceIntersectionInterval,
    b: CurveFaceIntersectionInterval,
) -> bool {
    spec_overlap_start(a, b) < spec_overlap_end(a, b)
}

/// Whether `r` is the part that `a` and `b` have in common, and more than a
/// point.
pub open spec fn spec_is_overlap(
    a: CurveFaceIntersectionInterval,
    b: CurveFaceIntersectionInterval,
    r: CurveFaceIntersectionInterval,
) -> bool {
    spec_overlapping(a, b) && r[0].t == spec_overlap_start(a, b) && r[1].t == spec_overlap_end(a, b)
}

/// Whether stretch `i` of `a` and stretch `j` of `b` have more than a point
/// in common.
pub open spec fn spec_pair_overlaps(
    a: Seq<CurveFaceIntersectionInterval>,
    b: Seq<CurveFaceIntersectionInterval>,
    i: int,
    j: int,
) -> bool {
    0 <= i < a.len() && 0 <= j < b.len() && spec_overlapping(a[i], b[j])
}

/// Whether `r` is the part that stretch `i` of `a` and stretch `j` of `b`
/// have in common.
pub open spec fn spec_pair_gives(
    a: Seq<CurveFaceIntersectionInterval>,
    b: Seq<CurveFaceIntersectionInterval>,
    i: int,
    j: int,
    r: CurveFaceIntersectionInterval,
) -> bool {
    0 <= i < a.len() && 0 <= j < b.len() && spec_is_overlap(a[i], b[j], r)
}

/// Whether `r` is the part that a stretch of `a` and a stretch of `b` have in
/// common.
pub open spec fn spec_from_pair(
    a: Seq<CurveFaceIntersectionInterval>,
    b: Seq<CurveFaceIntersectionInterval>,
    r: CurveFaceIntersectionInterval,
) -> bool {
    exists|i: int, j: int| #[trigger] spec_pair_gives(a, b, i, j, r)
}

/// Whether stretch `k` of `merged` is the part that stretch `i` of `a` and
/// stretch `j` of `b` have in common.
pub open spec fn spec_found_at(
    merged: Seq<CurveFaceIntersectionInterval>,
    a: Seq<CurveFaceIntersectionInterval>,
    b: Seq<CurveFaceIntersectionInterval>,
    i: int,
    j: int,
    k: int,
) -> bool {
    0 <= k < merged.len() && spec_pair_gives(a, b, i, j, merged[k])
}

/// Whether `merged` holds the part that stretch `i` of `a` and stretch `j`
/// of `b` have in common.
pub open spec fn spec_holds_pair(
    merged: Seq<CurveFaceIntersectionInterval>,
    a: Seq<CurveFaceIntersectionInterval>,
    b: Seq<CurveFaceIntersectionInterval>,
    i: int,
    j: int,
) -> bool {
    exists|k: int| #[trigger] spec_found_at(merged, a, b, i, j, k)
}

/// Whether `merged` holds the stretches that lie within both `a` and `b`:
/// every stretch of it is the common part of a stretch of `a` and one of `b`,
/// the common part of every two that overlap is in it, and its stretches are
/// in order, each longer than a point.
pub open spec fn spec_is_merge(
    a: Seq<CurveFaceIntersectionInterval>,
    b: Seq<CurveFaceIntersectionInterval>,
    merged: Seq<CurveFaceIntersectionInterval>,
) -> bool {
    &&& forall|k: int| 0 <= k < merged.len() ==> spec_from_pair(a, b, #[trigger] merged[k])
    &&& forall|i: int, j: int| #[trigger]
        spec_pair_overlaps(a, b, i, j) ==> spec_holds_pair(merged, a, b, i, j)
    &&& spec_ordered(merged)
    &&& forall|k: int| 0 <= k < merged.len() ==> (#[trigger] merged[k])[0].t < merged[k][1].t
}

/// Whether some stretch of `a` and some stretch of `b` have more than a
/// point in common.
pub open spec fn spec_any_overlap(
    a: Seq<CurveFaceIntersectionInterval>,
    b: Seq<CurveFaceIntersectionInterval>,
) -> bool {
    exists|i: int, j: int| #[trigger] spec_pair_overlaps(a, b, i, j)
}

/// What lies within both is empty exactly if no two stretches overlap.
pub proof fn lemma_merge_empty(
    a: Seq<CurveFaceIntersectionInterval>,
    b: Seq<CurveFaceIntersectionInterval>,
    merged: Seq<CurveFaceIntersectionInterval>,
)
    requires
        spec_is_merge(a, b, merged),
    ensures
        merged.len() == 0 <==> !spec_any_overlap(a, b),
{
    if merged.len() > 0 {
        assert(spec_from_pair(a, b, merged[0]));
        let (i, j) = choose|i: int, j: int| #[trigger] spec_pair_gives(a, b, i, j, merged[0]);
        assert(spec_pair_overlaps(a, b, i, j));
    }
    if spec_any_overlap(a, b) {
        let (i, j) = choose|i: int, j: int| #[trigger] spec_pair_overlaps(a, b, i, j);
        assert(spec_holds_pair(merged, a, b, i, j));
        let k = choose|k: int| #[trigger] spec_found_at(merged, a, b, i, j, k);
        assert(0 <= k < merged.len());
    }
}

/// Whether stretch `i` holds the step of the curve from the parameter `t` to
/// the next.
pub open spec fn spec_covers_at(
    intervals: Seq<CurveFaceIntersectionInterval>,
    i: int,
    t: int,
) -> bool {
    0 <= i < intervals.len() && intervals[i][0].t <= t < intervals[i][1].t
}

/// Whether the stretches hold the step of the curve from the parameter `t`
/// to the next.
pub open spec fn spec_covers(intervals: Seq<CurveFaceIntersectionInterval>, t: int) -> bool {
    exists|i: int| #[trigger] spec_covers_at(intervals, i, t)
}

/// What lies within both holds a step of the curve exactly if both hold it.
pub proof fn lemma_merge_covers(
    a: Seq<CurveFaceIntersectionInterval>,
    b: Seq<CurveFaceIntersectionInterval>,
    merged: Seq<CurveFaceIntersectionInterval>,
    t: int,
)
    requires
        spec_is_merge(a, b, merged),
    ensures
        spec_covers(merged, t) <==> spec_covers(a, t) && spec_covers(b, t),
{
    if spec_covers(merged, t) {
        let k = choose|k: int| #[trigger] spec_covers_at(merged, k, t);
        assert(spec_from_pair(a, b, merged[k]));
        let (i, j) = choose|i: int, j: int| #[trigger] spec_pair_gives(a, b, i, j, merged[k]);
        assert(spec_covers_at(a, i, t));
        assert(spec_covers_at(b, j, t));
    }
    if spec_covers(a, t) && spec_covers(b, t) {
        let i = choose|i: int| #[trigger] spec_covers_at(a, i, t);
        let j = choose|j: int| #[trigger] spec_covers_at(b, j, t);
        assert(spec_pair_overlaps(a, b, i, j));
        assert(spec_holds_pair(merged, a, b, i, j));
        let k = choose|k: int| #[trigger] spec_found_at(merged, a, b, i, j, k);
        assert(spec_covers_at(merged, k, t));
    }
}

/// Whether `found` holds what lies within both `a` and `b` as far as the
/// stretches before place `i` of `a` and before place `j` of `b` go, and
/// nothing of it reaches beyond where both stretch `i` and stretch `j`
/// begin.
pub open spec fn spec_merged_up_to(
    a: Seq<CurveFaceIntersectionInterval>,
    b: Seq<CurveFaceIntersectionInterval>,
    found: Seq<CurveFaceIntersectionInterval>,
    i: int,
    j: int,
) -> bool {
    &&& forall|k: int| 0 <= k < found.len() ==> spec_from_pair(a, b, #[trigger] found[k])
    &&& forall|x: int, y: int| #[trigger]
        spec_pair_overlaps(a, b, x, y) && (x < i || y < j) ==> spec_holds_pair(found, a, b, x, y)
    &&& spec_ordered(found)
    &&& forall|k: int| 0 <= k < found.len() ==> (#[trigger] found[k])[0].t < found[k][1].t
    &&& i < a.len() && j < b.len() ==> forall|k: int|
        0 <= k < found.len() ==> (#[trigger] found[k])[1].t <= a[i][0].t || found[k][1].t
            <= b[j][0].t
}

/// One more stretch keeps what was found in order, where nothing found
/// reaches beyond where it begins.
proof fn lemma_push_ordered(
    found: Seq<CurveFaceIntersectionInterval>,
    r: CurveFaceIntersectionInterval,
)
    requires
        spec_ordered(found),
        r[0].t <= r[1].t,
        forall|k: int| 0 <= k < found.len() ==> (#[trigger] found[k])[1].t <= r[0].t,
    ensures
        spec_ordered(found.push(r)),
{
    let next = found.push(r);
    assert forall|p: int| 0 <= p < next.len() implies (#[trigger] next[p])[0].t
        <= next[p][1].t by {
        if p < found.len() {
            assert(next[p] == found[p]);
        }
    }
    assert forall|p: int, q: int| 0 <= p < q < next.len() implies #[trigger] spec_in_order(
        next,
        p,
        q,
    ) by {
        assert(next[p] == found[p]);
        if q < found.len() {
            assert(next[q] == found[q]);
            assert(spec_in_order(found, p, q));
        }
    }
}

/// A step of the merge: the stretches at places `i` and `j` are compared,
/// their common part is taken if it is more than a point, and the one that
/// ends first is left behind, or both if they end together.
proof fn lemma_merge_step(
    a: Seq<CurveFaceIntersectionInterval>,
    b: Seq<CurveFaceIntersectionInterval>,
    found: Seq<CurveFaceIntersectionInterval>,
    i: int,
    j: int,
    next: Seq<CurveFaceIntersectionInterval>,
    next_i: int,
    next_j: int,
)
    requires
        spec_ordered(a),
        spec_ordered(b),
        0 <= i < a.len(),
        0 <= j < b.len(),
        spec_merged_up_to(a, b, found, i, j),
        spec_overlapping(a[i], b[j]) ==> next.len() == found.len() + 1 && next.drop_last()
            == found && spec_is_overlap(a[i], b[j], next.last()),
        !spec_overlapping(a[i], b[j]) ==> next == found,
        next_i == if a[i][1].t <= b[j][1].t {
            i + 1
        } else {
            i
        },
        next_j == if b[j][1].t <= a[i][1].t {
            j + 1
        } else {
            j
        },
    ensures
        spec_merged_up_to(a, b, next, next_i, next_j),
{
    let taken = spec_overlapping(a[i], b[j]);
    assert forall|k: int| 0 <= k < found.len() implies #[trigger] next[k] == found[k] by {
        if taken {
            assert(next.drop_last()[k] == next[k]);
        }
    }
    if taken {
        let r = next.last();
        assert(next =~= found.push(r));
        assert forall|k: int| 0 <= k < found.len() implies (#[trigger] found[k])[1].t
            <= r[0].t by {}
        lemma_push_ordered(found, r);
        assert(spec_pair_gives(a, b, i, j, r));
    }
    assert forall|k: int| 0 <= k < next.len() implies spec_from_pair(a, b, #[trigger] next[k]) by {
        if k < found.len() {
            assert(next[k] == found[k]);
            assert(spec_from_pair(a, b, found[k]));
        } else {
            assert(spec_pair_gives(a, b, i, j, next[k]));
        }
    }
    assert forall|k: int| 0 <= k < next.len() implies (#[trigger] next[k])[0].t
        < next[k][1].t by {
        if k < found.len() {
            assert(next[k] == found[k]);
        }
    }
    assert forall|x: int, y: int| #[trigger]
        spec_pair_overlaps(a, b, x, y) && (x < next_i || y < next_j) implies spec_holds_pair(
        next,
        a,
        b,
        x,
        y,
    ) by {
        if x < i || y < j {
            assert(spec_holds_pair(found, a, b, x, y));
            let k = choose|k: int| #[trigger] spec_found_at(found, a, b, x, y, k);
            assert(next[k] == found[k]);
            assert(spec_found_at(next, a, b, x, y, k));
        } else if x == i && y == j {
            assert(spec_found_at(next, a, b, x, y, next.len() - 1));
        } else if x == i {
            assert(next_i == i + 1);
            assert(spec_in_order(b, j, y));
            assert(false);
        } else {
            assert(y == j);
            assert(next_j == j + 1);
            assert(spec_in_order(a, i, x));
            assert(false);
        }
    }
    if next_i < a.len() && next_j < b.len() {
        assert forall|k: int| 0 <= k < next.len() implies (#[trigger] next[k])[1].t
            <= a[next_i][0].t || next[k][1].t <= b[next_j][0].t by {
            if next_i > i {
                assert(spec_in_order(a, i, next_i));
            }
            if next_j > j {
                assert(spec_in_order(b, j, next_j));
            }
            if k < found.len() {
                assert(next[k] == found[k]);
            }
        }
    }
}

impl View for CurveFaceIntersection {
    type V = Seq<CurveFaceIntersectionInterval>;

    /// The stretches, in order.
    closed spec fn view(&self) -> Seq<CurveFaceIntersectionInterval> {
        self.intervals@
    }
}

impl Clone for CurveFaceIntersection {
    fn clone(&self) -> (copy: Self)
        ensures
            copy@ == self@,
    {
        proof {
            use_type_invariant(self);
        }
        let mut intervals: Vec<CurveFaceIntersectionInterval> = Vec::new();
        let mut k: usize = 0;
        while k < self.intervals.len()
            invariant
                k <= self.intervals@.len(),
                intervals@ == self.intervals@.subrange(0, k as int),
            decreases self.intervals@.len() - k,
        {
            intervals.push(self.intervals[k]);
            k += 1;
            assert(intervals@ =~= self.intervals@.subrange(0, k as int));
        }
        assert(self.intervals@.subrange(0, k as int) =~= self.intervals@);
        CurveFaceIntersection { intervals }
    }
}

impl CurveFaceIntersection {
    #[verifier::type_invariant]
    spec fn ordered(self) -> bool {
        spec_ordered(self.intervals@)
    }

    /// The intersection that is made of these stretches, where they are in
    /// order and do not overlap.
    pub fn from_intervals(intervals: Vec<CurveFaceIntersectionInterval>) -> (r: Option<Self>)
        ensures
            r is Some <==> spec_ordered(intervals@),
            r matches Some(c) ==> c@ == intervals@,
    {
        let n = intervals.len();
        let mut k: usize = 0;
        while k < n
            invariant
                k <= n,
                n == intervals@.len(),
                spec_ordered(intervals@.subrange(0, k as int)),
            decreases n - k,
        {
            let ghost seen = intervals@.subrange(0, k as int);
            if intervals[k][0].t > intervals[k][1].t {
                return None;
            }
            if k > 0 && intervals[k - 1][1].t > intervals[k][0].t {
                assert(!spec_in_order(intervals@, k - 1, k as int));
                return None;
            }
            k += 1;
            proof {
                let next = intervals@.subrange(0, k as int);
                assert(next =~= seen.push(intervals@[k - 1]));
                assert forall|p: int| 0 <= p < seen.len() implies (#[trigger] seen[p])[1].t
                    <= intervals@[k - 1][0].t by {
                    if p < k - 2 {
                        assert(spec_in_order(seen, p, k - 2));
                        assert(seen[k - 2][0].t <= seen[k - 2][1].t);
                    }
                    assert(seen[k - 2] == intervals@[k - 2]);
                }
                lemma_push_ordered(seen, intervals@[k - 1]);
            }
        }
        assert(intervals@.subrange(0, k as int) =~= intervals@);
        Some(CurveFaceIntersection { intervals })
    }

    /// The stretches, in order.
    pub fn intervals(&self) -> (r: &Vec<CurveFaceIntersectionInterval>)
        ensures
            r@ == self@,
            spec_ordered(self@),
    {
        proof {
            use_type_invariant(self);
        }
        &self.intervals
    }

    /// Whether there is no stretch.
    pub fn is_empty(&self) -> (r: bool)
        ensures
            r == (self@.len() == 0),
    {
        self.intervals.len() == 0
    }

    /// The stretches that lie within both `self` and `other`.
    ///
    /// Both hold stretches of a curve that stands, in the coordinates of two
    /// surfaces, for one curve in space. What lies within both faces lies on
    /// the stretches that both have.
    pub fn merge(&self, other: &Self) -> (merged: Self)
        ensures
            spec_is_merge(self@, other@, merged@),
    {
        proof {
            use_type_invariant(self);
            use_type_invariant(other);
        }
        let a = &self.intervals;
        let b = &other.intervals;
        let mut intervals: Vec<CurveFaceIntersectionInterval> = Vec::new();
        let mut i: usize = 0;
        let mut j: usize = 0;
        while i < a.len() && j < b.len()
            invariant
                i <= a@.len(),
                j <= b@.len(),
                spec_ordered(a@),
                spec_ordered(b@),
                spec_merged_up_to(a@, b@, intervals@, i as int, j as int),
            decreases a@.len() - i + b@.len() - j,
        {
            let ghost found = intervals@;
            let ghost at_i = i as int;
            let ghost at_j = j as int;
            let own = a[i];
            let their = b[j];
            let overlap_start = if own[0].t >= their[0].t {
                own[0]
            } else {
                their[0]
            };
            let overlap_end = if own[1].t <= their[1].t {
                own[1]
            } else {
                their[1]
            };
            if overlap_start.t < overlap_end.t {
                intervals.push([overlap_start, overlap_end]);
                assert(intervals@.drop_last() =~= found);
            }
            if own[1].t <= overlap_end.t {
                i += 1;
            }
            if their[1].t <= overlap_end.t {
                j += 1;
            }
            proof {
                lemma_merge_step(a@, b@, found, at_i, at_j, intervals@, i as int, j as int);
            }
        }
        assert(spec_is_merge(a@, b@, intervals@)) by {
            assert forall|x: int, y: int| #[trigger]
                spec_pair_overlaps(a@, b@, x, y) implies spec_holds_pair(
                intervals@,
                a@,
                b@,
                x,
                y,
            ) by {
                assert(x < i || y < j);
            }
        }
        CurveFaceIntersection { intervals }
    }
}

} // verus!
