//! Checking a list of points before it becomes a curve.

use vstd::prelude::*;
use crate::point::{BreakPoint, all_finite, ascending, is_curve};
use crate::scalar::ordinal;

verus! {

/// Why a list of points is no curve that can be edited.
#[derive(Clone, Copy, Debug, PartialEq, Eq, Structural)]
pub enum ValidationError {
    /// The list has fewer than three points, so it has no junction.
    TooFewPoints,
    /// The point at this index has a coordinate that is no finite number.
    NotFinite(usize),
    /// The point at this index lies right of the one that follows it.
    NotAscending(usize),
    /// The point at this index has the x coordinate of the one that follows
    /// it.
    DuplicateX(usize),
}

/// A list of points that can be loaded: at least three points, all finite,
/// with strictly ascending x coordinates.
pub open spec fn is_loadable(s: Seq<BreakPoint>) -> bool {
    s.len() >= 3 && is_curve(s)
}

/// What the validation of `s` has to say of the result `r`. The five
/// results exclude each other, and each index is the first of its kind, so
/// exactly one result fits a list.
pub open spec fn verdict_fits(s: Seq<BreakPoint>, r: Result<(), ValidationError>) -> bool {
    match r {
        Ok(()) => is_loadable(s),
        Err(ValidationError::TooFewPoints) => s.len() < 3,
        Err(ValidationError::NotFinite(i)) => {
            &&& s.len() >= 3
            &&& i < s.len()
            &&& !s[i as int].is_finite()
            &&& all_finite(s.take(i as int))
        },
        Err(ValidationError::NotAscending(i)) => {
            &&& s.len() >= 3
            &&& all_finite(s)
            &&& i + 1 < s.len()
            &&& ordinal(s[i as int].sensor_unit) > ordinal(s[i + 1].sensor_unit)
            &&& ascending(s.take(i + 1))
        },
        Err(ValidationError::DuplicateX(i)) => {
            &&& s.len() >= 3
            &&& all_finite(s)
            &&& i + 1 < s.len()
            &&& ordinal(s[i as int].sensor_unit) == ordinal(s[i + 1].sensor_unit)
            &&& ascending(s.take(i + 1))
        },
    }
}

/// Validates a list of points. A list is refused for the first of these
/// that holds of it: it has fewer than three points; a point has a
/// coordinate that is not finite; a point does not lie left of its
/// successor. Each refusal names the first point at fault.
pub fn validate_bps(points: &Vec<BreakPoint>) -> (r: Result<(), ValidationError>)
    ensures
        verdict_fits(points@, r),
        r is Ok <==> is_loadable(points@),
{
    let n: usize = points.len();
    if n < 3 {
        return Err(ValidationError::TooFewPoints);
    }
    let mut i: usize = 0;
    while i < n
        invariant
            i <= n,
            n == points.len(),
            n >= 3,
            all_finite(points@.take(i as int)),
        decreases n - i,
    {
        if !points[i].finite() {
            return Err(ValidationError::NotFinite(i));
        }
        proof {
            let s = points@.take(i as int);
            let t = points@.take(i + 1);
            assert forall|k: int| 0 <= k < t.len() implies (#[trigger] t[k]).is_finite() by {
                if k < i {
                    assert(s[k].is_finite());
                }
            }
        }
        i += 1;
    }
    assert(points@.take(n as int) =~= points@);
    i = 0;
    while i + 1 < n
        invariant
            i + 1 <= n,
            n == points.len(),
            n >= 3,
            all_finite(points@),
            ascending(points@.take(i + 1)),
        decreases n - i,
    {
        if !points[i].is_left_of(&points[i + 1]) {
            if points[i + 1].is_left_of(&points[i]) {
                return Err(ValidationError::NotAscending(i));
            }
            return Err(ValidationError::DuplicateX(i));
        }
        proof {
            let s = points@.take(i + 1);
            let t = points@.take(i + 2);
            assert forall|k: int| 0 <= k < t.len() - 1 implies (#[trigger] t[k]).left_of(
                t[k + 1],
            ) by {
                if k < i {
                    assert(s[k].left_of(s[k + 1]));
                }
            }
        }
        i += 1;
    }
    assert(points@.take(n as int) =~= points@);
    Ok(())
}

} // verus!
