//! Angle profiles, and the junctions that an edit picks from them.
//!
//! A curve of `n` points has `n - 2` junctions: junction `j` is the middle
//! point of the window of the points `j`, `j + 1` and `j + 2`. Its profile
//! holds, for each junction in turn, the angle between the two segments that
//! meet there, in radians: the half turn where the curve runs straight on,
//! less the sharper it bends, and never zero.

use vstd::prelude::*;
use crate::scalar::{is_positive, ordinal, positive, rank};

verus! {

/// The bit pattern of the half turn: the double nearest to pi.
pub const HALF_TURN: u64 = 0x4009_21FB_5444_2D18;

/// Whether a bit pattern stands for an angle at a junction: a finite number
/// above zero and not above the half turn.
pub open spec fn is_angle(bits: u64) -> bool {
    is_positive(bits) && ordinal(bits) <= ordinal(HALF_TURN)
}

/// Every entry of the profile is an angle at a junction.
pub open spec fn angles_in_range(p: Seq<u64>) -> bool {
    forall|k: int| 0 <= k < p.len() ==> is_angle(#[trigger] p[k])
}

/// `j` is the first junction of `p` that holds the greatest angle.
pub open spec fn is_straightest(p: Seq<u64>, j: int) -> bool {
    &&& 0 <= j < p.len()
    &&& forall|k: int| 0 <= k < p.len() ==> ordinal(#[trigger] p[k]) <= ordinal(p[j])
    &&& forall|k: int| 0 <= k < j ==> ordinal(#[trigger] p[k]) < ordinal(p[j])
}

/// `j` is the first junction of `p` that holds the smallest angle.
pub open spec fn is_sharpest(p: Seq<u64>, j: int) -> bool {
    &&& 0 <= j < p.len()
    &&& forall|k: int| 0 <= k < p.len() ==> ordinal(#[trigger] p[k]) >= ordinal(p[j])
    &&& forall|k: int| 0 <= k < j ==> ordinal(#[trigger] p[k]) > ordinal(p[j])
}

/// The straightest junction of `p`: the first that holds the greatest angle
/// (0 for an empty profile).
pub open spec fn straightest(p: Seq<u64>) -> int
    decreases p.len(),
{
    if p.len() <= 1 {
        0
    } else {
        let j = straightest(p.drop_last());
        if ordinal(p.last()) > ordinal(p[j]) {
            p.len() - 1
        } else {
            j
        }
    }
}

/// The sharpest junction of `p`: the first that holds the smallest angle
/// (0 for an empty profile).
pub open spec fn sharpest(p: Seq<u64>) -> int
    decreases p.len(),
{
    if p.len() <= 1 {
        0
    } else {
        let j = sharpest(p.drop_last());
        if ordinal(p.last()) < ordinal(p[j]) {
            p.len() - 1
        } else {
            j
        }
    }
}

/// The straightest junction holds the greatest angle of the profile, and no
/// junction before it holds an angle as great.
pub proof fn lemma_straightest(p: Seq<u64>)
    requires
        p.len() > 0,
    ensures
        is_straightest(p, straightest(p)),
    decreases p.len(),
{
    if p.len() > 1 {
        let q = p.drop_last();
        lemma_straightest(q);
        let j = straightest(q);
        assert(q[j] == p[j]);
        assert forall|k: int| 0 <= k < p.len() - 1 implies ordinal(#[trigger] p[k]) <= ordinal(
            p[j],
        ) by {
            assert(q[k] == p[k]);
        }
        assert forall|k: int| 0 <= k < j implies ordinal(#[trigger] p[k]) < ordinal(p[j]) by {
            assert(q[k] == p[k]);
        }
    }
}

/// The sharpest junction holds the smallest angle of the profile, and no
/// junction before it holds an angle as small.
pub proof fn lemma_sharpest(p: Seq<u64>)
    requires
        p.len() > 0,
    ensures
        is_sharpest(p, sharpest(p)),
    decreases p.len(),
{
    if p.len() > 1 {
        let q = p.drop_last();
        lemma_sharpest(q);
        let j = sharpest(q);
        assert(q[j] == p[j]);
        assert forall|k: int| 0 <= k < p.len() - 1 implies ordinal(#[trigger] p[k]) >= ordinal(
            p[j],
        ) by {
            assert(q[k] == p[k]);
        }
        assert forall|k: int| 0 <= k < j implies ordinal(#[trigger] p[k]) > ordinal(p[j]) by {
            assert(q[k] == p[k]);
        }
    }
}

/// A profile has one straightest junction only.
pub proof fn lemma_straightest_unique(p: Seq<u64>, i: int, j: int)
    requires
        is_straightest(p, i),
        is_straightest(p, j),
    ensures
        i == j,
{
    if i < j {
        assert(ordinal(p[i]) < ordinal(p[j]));
    } else if j < i {
        assert(ordinal(p[j]) < ordinal(p[i]));
    }
}

/// A profile has one sharpest junction only.
pub proof fn lemma_sharpest_unique(p: Seq<u64>, i: int, j: int)
    requires
        is_sharpest(p, i),
        is_sharpest(p, j),
    ensures
        i == j,
{
    if i < j {
        assert(ordinal(p[i]) > ordinal(p[j]));
    } else if j < i {
        assert(ordinal(p[j]) > ordinal(p[i]));
    }
}

/// The angle that a folded angle stands for: a fold that comes out as zero
/// is the sign of a straight run, and stands for the half turn.
pub open spec fn straightened(bits: u64) -> u64 {
    if ordinal(bits) == 0 {
        HALF_TURN
    } else {
        bits
    }
}

/// Turns a folded angle of zero into the half turn, and leaves every other
/// value as it is.
pub fn straighten(bits: u64) -> (r: u64)
    ensures
        r == straightened(bits),
{
    if rank(bits) == 0 {
        HALF_TURN
    } else {
        bits
    }
}

/// Tells whether a bit pattern stands for an angle at a junction.
pub fn angle(bits: u64) -> (r: bool)
    ensures
        r == is_angle(bits),
{
    positive(bits) && rank(bits) <= rank(HALF_TURN)
}

/// Tells whether every entry of the profile is an angle at a junction.
pub fn check_angles(profile: &Vec<u64>) -> (r: bool)
    ensures
        r == angles_in_range(profile@),
{
    let mut i: usize = 0;
    while i < profile.len()
        invariant
            i <= profile.len(),
            forall|k: int| 0 <= k < i ==> is_angle(#[trigger] profile@[k]),
        decreases profile.len() - i,
    {
        if !angle(profile[i]) {
            return false;
        }
        i += 1;
    }
    true
}

/// Finds the straightest junction of a profile: the candidate whose middle
/// point a curve can lose at the least cost to its shape. An empty profile
/// has none.
pub fn find_straightest(profile: &Vec<u64>) -> (r: Option<usize>)
    ensures
        profile.len() == 0 ==> r is None,
        profile.len() > 0 ==> r == Some(straightest(profile@) as usize) && is_straightest(
            profile@,
            straightest(profile@),
        ),
{
    if profile.len() == 0 {
        return None;
    }
    let mut best: usize = 0;
    let mut i: usize = 1;
    while i < profile.len()
        invariant
            1 <= i <= profile.len(),
            best < i,
            best == straightest(profile@.take(i as int)),
        decreases profile.len() - i,
    {
        proof {
            assert(profile@.take(i + 1).drop_last() =~= profile@.take(i as int));
        }
        if rank(profile[i]) > rank(profile[best]) {
            best = i;
        }
        i += 1;
    }
    proof {
        assert(profile@.take(i as int) =~= profile@);
        lemma_straightest(profile@);
    }
    Some(best)
}

/// Finds the sharpest junction of a profile: the place where a curve gains
/// most from more points. An empty profile has none.
pub fn find_sharpest(profile: &Vec<u64>) -> (r: Option<usize>)
    ensures
        profile.len() == 0 ==> r is None,
        profile.len() > 0 ==> r == Some(sharpest(profile@) as usize) && is_sharpest(
            profile@,
            sharpest(profile@),
        ),
{
    if profile.len() == 0 {
        return None;
    }
    let mut best: usize = 0;
    let mut i: usize = 1;
    while i < profile.len()
        invariant
            1 <= i <= profile.len(),
            best < i,
            best == sharpest(profile@.take(i as int)),
        decreases profile.len() - i,
    {
        proof {
            assert(profile@.take(i + 1).drop_last() =~= profile@.take(i as int));
        }
        if rank(profile[i]) < rank(profile[best]) {
            best = i;
        }
        i += 1;
    }
    proof {
        assert(profile@.take(i as int) =~= profile@);
        lemma_sharpest(profile@);
    }
    Some(best)
}

} // verus!
