//! Breakpoints, and what makes a list of them a curve.

use vstd::prelude::*;
use crate::scalar::{is_finite, ordinal, finite, below};

verus! {

/// One point of a curve: the sensor reading on the x axis and the
/// temperature that belongs to it on the y axis, each a double-precision
/// number by its bit pattern.
#[derive(Clone, Copy, Debug, PartialEq, Eq, Structural)]
pub struct BreakPoint {
    pub sensor_unit: u64,
    pub temp: u64,
}

impl BreakPoint {
    /// The point with the coordinates `x` and `y`.
    pub fn new(x: u64, y: u64) -> (p: Self)
        ensures
            p.sensor_unit == x,
            p.temp == y,
    {
        Self { sensor_unit: x, temp: y }
    }

    /// Both coordinates are finite numbers.
    pub open spec fn is_finite(self) -> bool {
        is_finite(self.sensor_unit) && is_finite(self.temp)
    }

    /// This point lies left of `other`.
    pub open spec fn left_of(self, other: BreakPoint) -> bool {
        ordinal(self.sensor_unit) < ordinal(other.sensor_unit)
    }

    /// Tells whether both coordinates are finite numbers.
    pub fn finite(&self) -> (r: bool)
        ensures
            r == self.is_finite(),
    {
        finite(self.sensor_unit) && finite(self.temp)
    }

    /// Tells whether this point lies left of `other`.
    pub fn is_left_of(&self, other: &BreakPoint) -> (r: bool)
        ensures
            r == self.left_of(*other),
    {
        below(self.sensor_unit, other.sensor_unit)
    }
}

/// Every point of `s` has finite coordinates.
pub open spec fn all_finite(s: Seq<BreakPoint>) -> bool {
    forall|i: int| 0 <= i < s.len() ==> (#[trigger] s[i]).is_finite()
}

/// Each point of `s` lies left of the one that follows it.
pub open spec fn ascending(s: Seq<BreakPoint>) -> bool {
    forall|i: int| 0 <= i < s.len() - 1 ==> (#[trigger] s[i]).left_of(s[i + 1])
}

/// A curve: finite points whose x coordinates strictly ascend.
pub open spec fn is_curve(s: Seq<BreakPoint>) -> bool {
    all_finite(s) && ascending(s)
}

/// In an ascending list every point lies left of every later one, so no two
/// points coincide and no segment between two of them has length zero.
pub proof fn lemma_ascending_apart(s: Seq<BreakPoint>, i: int, j: int)
    requires
        ascending(s),
        0 <= i < j < s.len(),
    ensures
        s[i].left_of(s[j]),
        s[i] != s[j],
    decreases j - i,
{
    if i + 1 < j {
        lemma_ascending_apart(s, i, j - 1);
        assert(s[j - 1].left_of(s[j - 1 + 1]));
    } else {
        assert(s[i].left_of(s[i + 1]));
    }
}

/// The list `s` with the middle point of junction `j` replaced by the two
/// points `first` and `second`.
pub open spec fn splice(s: Seq<BreakPoint>, j: int, first: BreakPoint, second: BreakPoint) -> Seq<
    BreakPoint,
> {
    s.take(j + 1).push(first).push(second) + s.skip(j + 2)
}

/// A curve that loses one point is still a curve.
pub proof fn lemma_remove_keeps_curve(s: Seq<BreakPoint>, i: int)
    requires
        is_curve(s),
        0 <= i < s.len(),
    ensures
        is_curve(s.remove(i)),
        s.remove(i).len() == s.len() - 1,
{
    let t = s.remove(i);
    assert forall|k: int| 0 <= k < t.len() implies (#[trigger] t[k]).is_finite() by {
        if k < i {
            assert(s[k].is_finite());
        } else {
            assert(s[k + 1].is_finite());
        }
    }
    assert forall|k: int| 0 <= k < t.len() - 1 implies (#[trigger] t[k]).left_of(t[k + 1]) by {
        if k + 1 < i {
            assert(s[k].left_of(s[k + 1]));
        } else if k + 1 == i {
            lemma_ascending_apart(s, k, k + 2);
        } else {
            assert(s[k + 1].left_of(s[k + 1 + 1]));
        }
    }
}

/// A curve whose junction `j` gives way to two finite points that lie, in
/// their order, between the two ends of the junction's window is still a
/// curve, with one point more.
pub proof fn lemma_splice_keeps_curve(
    s: Seq<BreakPoint>,
    j: int,
    first: BreakPoint,
    second: BreakPoint,
)
    requires
        is_curve(s),
        0 <= j,
        j + 2 < s.len(),
        first.is_finite(),
        second.is_finite(),
        s[j].left_of(first),
        first.left_of(second),
        second.left_of(s[j + 2]),
    ensures
        is_curve(splice(s, j, first, second)),
        splice(s, j, first, second).len() == s.len() + 1,
{
    let t = splice(s, j, first, second);
    assert forall|k: int| 0 <= k < t.len() implies (#[trigger] t[k]).is_finite() by {
        if k <= j {
            assert(s[k].is_finite());
        } else if k >= j + 3 {
            assert(s[k - 1].is_finite());
        }
    }
    assert forall|k: int| 0 <= k < t.len() - 1 implies (#[trigger] t[k]).left_of(t[k + 1]) by {
        if k < j {
            assert(s[k].left_of(s[k + 1]));
        } else if k >= j + 3 {
            assert(s[k - 1].left_of(s[k - 1 + 1]));
        }
    }
}

} // verus!
