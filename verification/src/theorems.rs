//! What holds of every editor, proved over the states of the editor.

use vstd::prelude::*;
use crate::editor::{CurveState, EditError};
use crate::point::{
    BreakPoint, ascending, lemma_remove_keeps_curve, lemma_splice_keeps_curve,
};
use crate::profile::{
    is_straightest, sharpest, straightest, lemma_sharpest, lemma_straightest,
    lemma_straightest_unique,
};
use crate::scalar::is_positive;
use crate::validate::is_loadable;

verus! {

/// A fresh editor is valid.
pub proof fn lemma_fresh_valid()
    ensures
        CurveState::fresh().valid(),
{
    assert(0x4008_0000_0000_0000u64 & 0x7FFF_FFFF_FFFF_FFFFu64 == 0x4008_0000_0000_0000u64)
        by (bit_vector);
    assert(0x4008_0000_0000_0000u64 & 0x8000_0000_0000_0000u64 == 0) by (bit_vector);
}

/// Loading a list that passes validation, a reset, an offered divider and
/// fixing the divider each lead from a valid state to a valid state.
pub proof fn lemma_commands_keep_valid(s: CurveState, points: Seq<BreakPoint>, value: u64)
    requires
        s.valid(),
    ensures
        is_loadable(points) ==> s.load(points).valid(),
        s.reset().valid(),
        s.offer_divider(value).valid(),
        s.lock().valid(),
{
}

/// Ordering: a step of an adjustment leads from a valid state to a valid
/// state, so in every state that an editor can reach the x coordinates of
/// the working curve strictly ascend.
pub proof fn lemma_step_keeps_valid(
    s: CurveState,
    delta: int,
    profile: Seq<u64>,
    placed: Option<(BreakPoint, BreakPoint)>,
)
    requires
        s.valid(),
    ensures
        match s.step(delta, profile, placed) {
            Ok((t, rest)) => t.valid() && ascending(t.working),
            Err(e) => true,
        },
{
    match s.step(delta, profile, placed) {
        Ok((t, rest)) => {
            if delta < 0 {
                lemma_straightest(profile);
                lemma_remove_keeps_curve(s.working, straightest(profile) + 1);
            } else if delta > 0 {
                match placed {
                    Some((first, second)) => {
                        lemma_sharpest(profile);
                        lemma_splice_keeps_curve(s.working, sharpest(profile), first, second);
                    },
                    None => {},
                }
            }
        },
        Err(e) => {},
    }
}

/// Count bounds: a step changes the number of points by one toward the
/// adjustment asked for, and by as much as it takes off the adjustment. The
/// working curve of a loaded editor never has fewer than two points, and a
/// removal is only made where the whole adjustment leaves two.
pub proof fn lemma_step_counts(
    s: CurveState,
    delta: int,
    profile: Seq<u64>,
    placed: Option<(BreakPoint, BreakPoint)>,
)
    requires
        s.valid(),
    ensures
        s.is_loaded() ==> s.working.len() >= 2,
        match s.step(delta, profile, placed) {
            Ok((t, rest)) => {
                &&& t.working.len() == s.working.len() + (delta - rest)
                &&& delta < 0 ==> rest == delta + 1 && t.working.len() + rest >= 2
                &&& delta > 0 ==> rest == delta - 1
                &&& delta == 0 ==> rest == 0 && t == s
                &&& delta != 0 ==> t.working.len() >= 2
            },
            Err(e) => true,
        },
{
    match s.step(delta, profile, placed) {
        Ok((t, rest)) => {
            if delta < 0 {
                lemma_straightest(profile);
                lemma_remove_keeps_curve(s.working, straightest(profile) + 1);
            } else if delta > 0 {
                match placed {
                    Some((first, second)) => {
                        lemma_sharpest(profile);
                        lemma_splice_keeps_curve(s.working, sharpest(profile), first, second);
                    },
                    None => {},
                }
            }
        },
        Err(e) => {},
    }
}

/// Every state on the way of an adjustment is valid: after any number of
/// steps, whatever was measured for them, the x coordinates of the working
/// curve strictly ascend, it has as many points more or fewer as steps were
/// made, never fewer than two, no more steps were made than were asked
/// for, and the loaded curve and the divider are as they were.
pub proof fn lemma_adjustment_keeps_valid<M, P>(
    s: CurveState,
    measure: M,
    place: P,
    delta: int,
    done: nat,
    t: CurveState,
) where
    M: Fn(&Vec<BreakPoint>) -> Vec<u64>,
    P: Fn(&Vec<BreakPoint>, &Vec<u64>, u64) -> Option<(BreakPoint, BreakPoint)>,
    requires
        s.valid(),
        s.leads_to(measure, place, delta, done, t),
    ensures
        t.valid(),
        ascending(t.working),
        done <= vstd::math::abs(delta),
        t.working.len() == s.working.len() + (delta - CurveState::rest_after(delta, done)),
        done > 0 ==> t.working.len() >= 2 && t.locked,
        t.original == s.original,
        t.divider == s.divider,
    decreases done,
{
    if done > 0 {
        let rest = CurveState::rest_after(delta, (done - 1) as nat);
        let (u, points, profile, placed) = choose|
            u: CurveState,
            points: Vec<BreakPoint>,
            profile: Vec<u64>,
            placed: Option<(BreakPoint, BreakPoint)>,
        |
            s.leads_to(measure, place, delta, (done - 1) as nat, u) && #[trigger] u.measured(
                measure,
                place,
                rest,
                points,
                profile,
                placed,
            ) && u.step(rest, profile@, placed) == Ok::<(CurveState, int), EditError>(
                (t, CurveState::rest_after(delta, done)),
            );
        lemma_adjustment_keeps_valid(s, measure, place, delta, (done - 1) as nat, u);
        lemma_step_keeps_valid(u, rest, profile@, placed);
        lemma_step_counts(u, rest, profile@, placed);
    }
}

/// No step touches the loaded curve or the divider.
pub proof fn lemma_step_keeps_original(
    s: CurveState,
    delta: int,
    profile: Seq<u64>,
    placed: Option<(BreakPoint, BreakPoint)>,
)
    ensures
        match s.step(delta, profile, placed) {
            Ok((t, rest)) => t.original == s.original && t.divider == s.divider,
            Err(e) => true,
        },
{
}

/// Round trip: a reset right after loading `points` leaves exactly `points`
/// as the working curve, and changes nothing at all.
pub proof fn lemma_reset_restores_loaded(s: CurveState, points: Seq<BreakPoint>)
    ensures
        s.load(points).reset().working == points,
        s.load(points).reset() == s.load(points),
{
}

/// A reset undoes every adjustment: after any number of steps, whatever was
/// measured for them, a reset leads to the state to which it would have led
/// before the first. So after loading `points` and adjusting at will, a
/// reset leaves exactly `points` as the working curve.
pub proof fn lemma_reset_undoes_adjustment<M, P>(
    s: CurveState,
    measure: M,
    place: P,
    delta: int,
    done: nat,
    t: CurveState,
) where
    M: Fn(&Vec<BreakPoint>) -> Vec<u64>,
    P: Fn(&Vec<BreakPoint>, &Vec<u64>, u64) -> Option<(BreakPoint, BreakPoint)>,
    requires
        s.leads_to(measure, place, delta, done, t),
    ensures
        t.reset() == s.reset(),
        t.reset().working == s.original,
    decreases done,
{
    if done > 0 {
        let rest = CurveState::rest_after(delta, (done - 1) as nat);
        let (u, points, profile, placed) = choose|
            u: CurveState,
            points: Vec<BreakPoint>,
            profile: Vec<u64>,
            placed: Option<(BreakPoint, BreakPoint)>,
        |
            s.leads_to(measure, place, delta, (done - 1) as nat, u) && #[trigger] u.measured(
                measure,
                place,
                rest,
                points,
                profile,
                placed,
            ) && u.step(rest, profile@, placed) == Ok::<(CurveState, int), EditError>(
                (t, CurveState::rest_after(delta, done)),
            );
        lemma_reset_undoes_adjustment(s, measure, place, delta, (done - 1) as nat, u);
        lemma_step_keeps_original(u, rest, profile@, placed);
    }
}

/// A second reset changes nothing.
pub proof fn lemma_reset_idempotent(s: CurveState)
    ensures
        s.reset().reset() == s.reset(),
{
}

/// Selection: a step that removes a point removes the middle point of the
/// junction `j` that holds the greatest angle of the profile handed in, the
/// first such junction where several hold it; `j` is the only junction of
/// which that can be said.
pub proof fn lemma_removal_takes_straightest(
    s: CurveState,
    delta: int,
    profile: Seq<u64>,
    placed: Option<(BreakPoint, BreakPoint)>,
)
    requires
        delta < 0,
        s.step(delta, profile, placed) is Ok,
    ensures
        ({
            let t = s.step(delta, profile, placed)->Ok_0.0;
            let j = straightest(profile);
            &&& is_straightest(profile, j)
            &&& j + 2 < s.working.len()
            &&& t.working == s.working.remove(j + 1)
            &&& forall|k: int| is_straightest(profile, k) ==> k == j
        }),
{
    lemma_straightest(profile);
    let j = straightest(profile);
    assert forall|k: int| is_straightest(profile, k) implies k == j by {
        lemma_straightest_unique(profile, k, j);
    }
}

/// Selection, of a whole adjustment: an adjustment by one point fewer
/// removes the middle point of the first junction that holds the greatest
/// angle of the profile that was measured on the curve just before.
pub proof fn lemma_one_removal_takes_straightest<M, P>(
    s: CurveState,
    measure: M,
    place: P,
    t: CurveState,
) where
    M: Fn(&Vec<BreakPoint>) -> Vec<u64>,
    P: Fn(&Vec<BreakPoint>, &Vec<u64>, u64) -> Option<(BreakPoint, BreakPoint)>,
    requires
        s.leads_to(measure, place, -1, 1, t),
    ensures
        exists|points: Vec<BreakPoint>, profile: Vec<u64>| #[trigger]
            measure.ensures((&points,), profile) && points@ == s.working && is_straightest(
                profile@,
                straightest(profile@),
            ) && t.working == s.working.remove(straightest(profile@) + 1),
{
    let (u, points, profile, placed) = choose|
        u: CurveState,
        points: Vec<BreakPoint>,
        profile: Vec<u64>,
        placed: Option<(BreakPoint, BreakPoint)>,
    |
        s.leads_to(measure, place, -1, 0, u) && #[trigger] u.measured(
            measure,
            place,
            -1,
            points,
            profile,
            placed,
        ) && u.step(-1, profile@, placed) == Ok::<(CurveState, int), EditError>((t, 0int));
    assert(s.leads_to(measure, place, -1, 0, u));
    assert(u == s);
    lemma_straightest(profile@);
    assert(measure.ensures((&points,), profile));
}

/// The divider changes only while it is free: once an edit has been made,
/// an offered divider is ignored until the next reset.
pub proof fn lemma_divider_fixed_by_edit(
    s: CurveState,
    delta: int,
    profile: Seq<u64>,
    placed: Option<(BreakPoint, BreakPoint)>,
    value: u64,
)
    requires
        delta != 0,
        s.step(delta, profile, placed) is Ok,
    ensures
        ({
            let t = s.step(delta, profile, placed)->Ok_0.0;
            &&& t.locked
            &&& t.offer_divider(value) == t
            &&& is_positive(value) ==> t.reset().offer_divider(value).divider == value
        }),
{
}

} // verus!
