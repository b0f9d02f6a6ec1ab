//! The frame in which a curve is drawn.

use vstd::prelude::*;
use crate::editor::ProcessCurve;
use crate::point::BreakPoint;
use crate::scalar::{ordinal, below};

verus! {

/// The x coordinates of the points of `s`.
pub open spec fn xs(s: Seq<BreakPoint>) -> Seq<u64> {
    Seq::new(s.len(), |i: int| s[i].sensor_unit)
}

/// The y coordinates of the points of `s`.
pub open spec fn ys(s: Seq<BreakPoint>) -> Seq<u64> {
    Seq::new(s.len(), |i: int| s[i].temp)
}

/// The smallest of zero and the numbers of `v`: zero itself unless a number
/// lies below it, and else the first of `v` that no other lies below.
pub open spec fn lowest(v: Seq<u64>) -> u64
    decreases v.len(),
{
    if v.len() == 0 {
        0
    } else {
        let m = lowest(v.drop_last());
        if ordinal(v.last()) < ordinal(m) {
            v.last()
        } else {
            m
        }
    }
}

/// The greatest of zero and the numbers of `v`: zero itself unless a number
/// lies above it, and else the first of `v` that no other lies above.
pub open spec fn highest(v: Seq<u64>) -> u64
    decreases v.len(),
{
    if v.len() == 0 {
        0
    } else {
        let m = highest(v.drop_last());
        if ordinal(m) < ordinal(v.last()) {
            v.last()
        } else {
            m
        }
    }
}

/// Nothing in `v` lies below `lowest(v)`, nor does zero; and `lowest(v)` is
/// zero or one of `v`.
pub proof fn lemma_lowest(v: Seq<u64>)
    ensures
        ordinal(lowest(v)) <= 0,
        forall|k: int| 0 <= k < v.len() ==> ordinal(lowest(v)) <= ordinal(#[trigger] v[k]),
        lowest(v) == 0 || exists|k: int| 0 <= k < v.len() && v[k] == lowest(v),
    decreases v.len(),
{
    assert(0u64 & 0x7FFF_FFFF_FFFF_FFFFu64 == 0) by (bit_vector);
    assert(0u64 & 0x8000_0000_0000_0000u64 == 0) by (bit_vector);
    if v.len() > 0 {
        let w = v.drop_last();
        lemma_lowest(w);
        assert forall|k: int| 0 <= k < v.len() implies ordinal(lowest(v)) <= ordinal(
            #[trigger] v[k],
        ) by {
            if k < w.len() {
                assert(w[k] == v[k]);
            }
        }
        if lowest(v) != 0 {
            if lowest(v) == v.last() {
                assert(v[v.len() - 1] == lowest(v));
            } else {
                let k = choose|k: int| 0 <= k < w.len() && w[k] == lowest(w);
                assert(v[k] == lowest(v));
            }
        }
    }
}

/// Nothing in `v` lies above `highest(v)`, nor does zero; and `highest(v)`
/// is zero or one of `v`.
pub proof fn lemma_highest(v: Seq<u64>)
    ensures
        ordinal(highest(v)) >= 0,
        forall|k: int| 0 <= k < v.len() ==> ordinal(highest(v)) >= ordinal(#[trigger] v[k]),
        highest(v) == 0 || exists|k: int| 0 <= k < v.len() && v[k] == highest(v),
    decreases v.len(),
{
    assert(0u64 & 0x7FFF_FFFF_FFFF_FFFFu64 == 0) by (bit_vector);
    assert(0u64 & 0x8000_0000_0000_0000u64 == 0) by (bit_vector);
    if v.len() > 0 {
        let w = v.drop_last();
        lemma_highest(w);
        assert forall|k: int| 0 <= k < v.len() implies ordinal(highest(v)) >= ordinal(
            #[trigger] v[k],
        ) by {
            if k < w.len() {
                assert(w[k] == v[k]);
            }
        }
        if highest(v) != 0 {
            if highest(v) == v.last() {
                assert(v[v.len() - 1] == highest(v));
            } else {
                let k = choose|k: int| 0 <= k < w.len() && w[k] == highest(w);
                assert(v[k] == highest(v));
            }
        }
    }
}

impl ProcessCurve {
    /// The corners of the smallest frame that holds the origin and every
    /// point of the working curve, as the least x, the greatest x, the least
    /// y and the greatest y. A curve of three points or fewer has no frame
    /// of its own.
    pub fn get_xy(&self) -> (r: Option<(u64, u64, u64, u64)>)
        ensures
            self@.working.len() <= 3 ==> r is None,
            self@.working.len() > 3 ==> r == Some(
                (
                    lowest(xs(self@.working)),
                    highest(xs(self@.working)),
                    lowest(ys(self@.working)),
                    highest(ys(self@.working)),
                ),
            ),
    {
        let points = self.points();
        if points.len() <= 3 {
            return None;
        }
        let mut mini_x: u64 = 0;
        let mut max_x: u64 = 0;
        let mut mini_y: u64 = 0;
        let mut max_y: u64 = 0;
        let mut i: usize = 0;
        while i < points.len()
            invariant
                i <= points.len(),
                mini_x == lowest(xs(points@).take(i as int)),
                max_x == highest(xs(points@).take(i as int)),
                mini_y == lowest(ys(points@).take(i as int)),
                max_y == highest(ys(points@).take(i as int)),
            decreases points.len() - i,
        {
            proof {
                assert(xs(points@).take(i + 1).drop_last() =~= xs(points@).take(i as int));
                assert(ys(points@).take(i + 1).drop_last() =~= ys(points@).take(i as int));
            }
            let p = points[i];
            if below(max_x, p.sensor_unit) {
                max_x = p.sensor_unit;
            }
            if below(p.sensor_unit, mini_x) {
                mini_x = p.sensor_unit;
            }
            if below(max_y, p.temp) {
                max_y = p.temp;
            }
            if below(p.temp, mini_y) {
                mini_y = p.temp;
            }
            i += 1;
        }
        proof {
            assert(xs(points@).take(i as int) =~= xs(points@));
            assert(ys(points@).take(i as int) =~= ys(points@));
        }
        Some((mini_x, max_x, mini_y, max_y))
    }
}

} // verus!
