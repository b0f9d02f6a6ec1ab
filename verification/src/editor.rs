//! The curve editor: a working curve beside the curve as it was loaded.

use vstd::prelude::*;
use crate::point::{
    BreakPoint, is_curve, splice, lemma_remove_keeps_curve, lemma_splice_keeps_curve,
};
use crate::profile::{
    angles_in_range, is_sharpest, is_straightest, straightest, sharpest, check_angles,
    find_straightest, find_sharpest,
};
use crate::scalar::{is_positive, positive};
use crate::validate::{ValidationError, is_loadable, verdict_fits, validate_bps};

verus! {

/// Why an edit was refused. A refused edit leaves the editor as it was.
#[derive(Clone, Copy, Debug, PartialEq, Eq, Structural)]
pub enum EditError {
    /// A removal would leave fewer than two points, or an insertion was asked
    /// of a curve with fewer than three.
    Bounds,
    /// The profile handed in does not have one angle for each junction of the
    /// working curve: it was measured on another curve.
    ProfileMismatch,
    /// An entry of the profile is no angle between zero and the half turn,
    /// no new points could be placed, or the new points would not lie in
    /// ascending order between their neighbours.
    DegenerateGeometry,
}

/// The section divider of a fresh editor: the bit pattern of three.
pub const DEFAULT_DIVIDER: u64 = 0x4008_0000_0000_0000;

/// What an editor holds, as mathematics.
pub struct CurveState {
    /// The curve being edited.
    pub working: Seq<BreakPoint>,
    /// The curve as it was loaded.
    pub original: Seq<BreakPoint>,
    /// The section divider: how near the junction an insertion places its
    /// two points.
    pub divider: u64,
    /// Whether the divider is fixed because an edit has been made.
    pub locked: bool,
}

impl CurveState {
    /// A curve has been loaded.
    pub open spec fn is_loaded(self) -> bool {
        self.original.len() > 0
    }

    /// What holds of every editor: the divider is a finite number above zero;
    /// once a curve is loaded it has at least three points, and the working
    /// curve is a curve of at least two; before that there are no points.
    pub open spec fn valid(self) -> bool {
        &&& is_positive(self.divider)
        &&& if self.is_loaded() {
            is_loadable(self.original) && self.working.len() >= 2 && is_curve(self.working)
        } else {
            self.working.len() == 0
        }
    }

    /// The state of a fresh editor.
    pub open spec fn fresh() -> CurveState {
        CurveState {
            working: Seq::empty(),
            original: Seq::empty(),
            divider: DEFAULT_DIVIDER,
            locked: false,
        }
    }

    /// The state after `points` were loaded.
    pub open spec fn load(self, points: Seq<BreakPoint>) -> CurveState {
        CurveState { working: points, original: points, divider: self.divider, locked: false }
    }

    /// The state after a reset.
    pub open spec fn reset(self) -> CurveState {
        CurveState {
            working: self.original,
            original: self.original,
            divider: self.divider,
            locked: false,
        }
    }

    /// The state after the divider `value` was offered.
    pub open spec fn offer_divider(self, value: u64) -> CurveState {
        if !self.locked && is_positive(value) {
            CurveState {
                working: self.working,
                original: self.original,
                divider: value,
                locked: self.locked,
            }
        } else {
            self
        }
    }

    /// The state with the divider fixed.
    pub open spec fn lock(self) -> CurveState {
        CurveState {
            working: self.working,
            original: self.original,
            divider: self.divider,
            locked: true,
        }
    }

    /// The profile has one angle for each junction of the working curve.
    pub open spec fn fits(self, profile: Seq<u64>) -> bool {
        self.working.len() == profile.len() + 2
    }

    /// The state after the middle point of the straightest junction left.
    pub open spec fn shrink(self, profile: Seq<u64>) -> CurveState {
        CurveState {
            working: self.working.remove(straightest(profile) + 1),
            original: self.original,
            divider: self.divider,
            locked: true,
        }
    }

    /// The two points can take the place of the middle point of the sharpest
    /// junction: they are finite, and with the two ends of the junction's
    /// window around them the four x coordinates strictly ascend.
    pub open spec fn admits(self, profile: Seq<u64>, first: BreakPoint, second: BreakPoint) -> bool {
        let j = sharpest(profile);
        &&& first.is_finite()
        &&& second.is_finite()
        &&& self.working[j].left_of(first)
        &&& first.left_of(second)
        &&& second.left_of(self.working[j + 2])
    }

    /// The state after the middle point of the sharpest junction gave way to
    /// `first` and `second`.
    pub open spec fn grow(self, profile: Seq<u64>, first: BreakPoint, second: BreakPoint) -> CurveState {
        CurveState {
            working: splice(self.working, sharpest(profile), first, second),
            original: self.original,
            divider: self.divider,
            locked: true,
        }
    }

    /// What one step of an adjustment by `delta` points does: the state after
    /// it together with what is left of `delta`, or the reason why the step
    /// is refused.
    ///
    /// Zero asks for nothing. Below zero, one point leaves, unless fewer than
    /// two points would be left once all of `delta` is done. Above zero, two
    /// points replace one, unless the curve has fewer than three. Either
    /// edit needs a profile that fits the working curve and holds angles
    /// above zero and up to the half turn only; an insertion needs the two
    /// points besides, lying in order between the ends of the window they go
    /// to.
    pub open spec fn step(
        self,
        delta: int,
        profile: Seq<u64>,
        placed: Option<(BreakPoint, BreakPoint)>,
    ) -> Result<(CurveState, int), EditError> {
        if delta == 0 {
            Ok((self, 0int))
        } else if delta < 0 {
            if self.working.len() + delta < 2 {
                Err(EditError::Bounds)
            } else if !self.fits(profile) {
                Err(EditError::ProfileMismatch)
            } else if !angles_in_range(profile) {
                Err(EditError::DegenerateGeometry)
            } else {
                Ok((self.shrink(profile), delta + 1))
            }
        } else {
            if self.working.len() < 3 {
                Err(EditError::Bounds)
            } else if !self.fits(profile) {
                Err(EditError::ProfileMismatch)
            } else if !angles_in_range(profile) {
                Err(EditError::DegenerateGeometry)
            } else {
                match placed {
                    Some((first, second)) => if self.admits(profile, first, second) {
                        Ok((self.grow(profile, first, second), delta - 1))
                    } else {
                        Err(EditError::DegenerateGeometry)
                    },
                    None => Err(EditError::DegenerateGeometry),
                }
            }
        }
    }

    /// An adjustment by `delta` points is refused at once: a removal that
    /// would leave fewer than two points, or an insertion into a curve of
    /// fewer than three.
    pub open spec fn out_of_bounds(self, delta: int) -> bool {
        (delta < 0 && self.working.len() + delta < 2) || (delta > 0 && self.working.len() < 3)
    }

    /// What is left of an adjustment by `delta` points after `done` steps.
    pub open spec fn rest_after(delta: int, done: nat) -> int {
        if delta < 0 {
            delta + done
        } else {
            delta - done
        }
    }

    /// In this state, with `rest` of an adjustment to do, `measure` and
    /// `place` have given `profile` and `placed`: `measure` was asked for the
    /// profile of the working curve, held by `points`; before an insertion
    /// `place` was asked for the new points, given the curve, that profile and
    /// the divider; before a removal no points were asked for.
    pub open spec fn measured<M, P>(
        self,
        measure: M,
        place: P,
        rest: int,
        points: Vec<BreakPoint>,
        profile: Vec<u64>,
        placed: Option<(BreakPoint, BreakPoint)>,
    ) -> bool where
        M: Fn(&Vec<BreakPoint>) -> Vec<u64>,
        P: Fn(&Vec<BreakPoint>, &Vec<u64>, u64) -> Option<(BreakPoint, BreakPoint)>,
    {
        &&& points@ == self.working
        &&& measure.ensures((&points,), profile)
        &&& if rest > 0 {
            place.ensures((&points, &profile, self.divider), placed)
        } else {
            placed is None
        }
    }

    /// `done` steps of an adjustment by `delta` points, measured by `measure`
    /// and `place`, lead from this state to the state `t`: no step leads to
    /// this state itself, and one step more leads on from where the steps
    /// before it led, with what was measured there.
    pub open spec fn leads_to<M, P>(
        self,
        measure: M,
        place: P,
        delta: int,
        done: nat,
        t: CurveState,
    ) -> bool where
        M: Fn(&Vec<BreakPoint>) -> Vec<u64>,
        P: Fn(&Vec<BreakPoint>, &Vec<u64>, u64) -> Option<(BreakPoint, BreakPoint)>,
        decreases done,
    {
        if done == 0 {
            t == self
        } else {
            let rest = Self::rest_after(delta, (done - 1) as nat);
            exists|
                u: CurveState,
                points: Vec<BreakPoint>,
                profile: Vec<u64>,
                placed: Option<(BreakPoint, BreakPoint)>,
            |
                self.leads_to(measure, place, delta, (done - 1) as nat, u) && #[trigger] u.measured(
                    measure,
                    place,
                    rest,
                    points,
                    profile,
                    placed,
                ) && u.step(rest, profile@, placed) == Ok::<(CurveState, int), EditError>(
                    (t, Self::rest_after(delta, done)),
                )
        }
    }
}

/// The editor of one curve.
pub struct ProcessCurve {
    active_bps: Vec<BreakPoint>,
    orig_bps: Vec<BreakPoint>,
    section_dvder: u64,
    divider_hasbeen_set: bool,
}

impl View for ProcessCurve {
    type V = CurveState;

    closed spec fn view(&self) -> CurveState {
        CurveState {
            working: self.active_bps@,
            original: self.orig_bps@,
            divider: self.section_dvder,
            locked: self.divider_hasbeen_set,
        }
    }
}

/// Copies a list of points.
fn copy_points(points: &Vec<BreakPoint>) -> (r: Vec<BreakPoint>)
    ensures
        r@ == points@,
{
    let mut r: Vec<BreakPoint> = Vec::new();
    let mut i: usize = 0;
    while i < points.len()
        invariant
            i <= points.len(),
            r@ == points@.take(i as int),
        decreases points.len() - i,
    {
        r.push(points[i]);
        proof {
            assert(points@.take(i as int).push(points@[i as int]) =~= points@.take(i + 1));
        }
        i += 1;
    }
    proof {
        assert(points@.take(i as int) =~= points@);
    }
    r
}

impl ProcessCurve {
    /// The editor's invariant holds.
    pub open spec fn wf(&self) -> bool {
        self@.valid()
    }

    /// An editor with no curve loaded and the divider three.
    pub fn new() -> (e: Self)
        ensures
            e@ == CurveState::fresh(),
            e.wf(),
    {
        proof {
            assert(is_positive(DEFAULT_DIVIDER)) by {
                assert(0x4008_0000_0000_0000u64 & 0x7FFF_FFFF_FFFF_FFFFu64
                    == 0x4008_0000_0000_0000u64) by (bit_vector);
                assert(0x4008_0000_0000_0000u64 & 0x8000_0000_0000_0000u64 == 0) by (bit_vector);
            }
        }
        Self {
            active_bps: Vec::new(),
            orig_bps: Vec::new(),
            section_dvder: DEFAULT_DIVIDER,
            divider_hasbeen_set: false,
        }
    }

    /// Loads a curve. The points are validated first; a list that fails
    /// leaves the editor as it was. A list that passes becomes both the
    /// working curve and the curve to which a reset goes back, and the
    /// divider is free to change again.
    pub fn load(&mut self, points: Vec<BreakPoint>) -> (r: Result<(), ValidationError>)
        requires
            old(self).wf(),
        ensures
            final(self).wf(),
            verdict_fits(points@, r),
            r is Ok <==> is_loadable(points@),
            r is Ok ==> final(self)@ == old(self)@.load(points@),
            r is Err ==> final(self)@ == old(self)@,
    {
        match validate_bps(&points) {
            Ok(()) => {
                self.active_bps = copy_points(&points);
                self.orig_bps = points;
                self.divider_hasbeen_set = false;
                Ok(())
            },
            Err(e) => Err(e),
        }
    }

    /// Puts the loaded curve back in place of the working curve, and frees
    /// the divider.
    pub fn reset_bps(&mut self)
        requires
            old(self).wf(),
        ensures
            final(self).wf(),
            final(self)@ == old(self)@.reset(),
    {
        self.active_bps = copy_points(&self.orig_bps);
        self.divider_hasbeen_set = false;
    }

    /// Offers a new section divider. It is taken, and `true` returned, if no
    /// edit has fixed the divider and the value is a finite number above
    /// zero; otherwise nothing changes.
    pub fn set_divider(&mut self, dvder: u64) -> (applied: bool)
        requires
            old(self).wf(),
        ensures
            final(self).wf(),
            applied == (!old(self)@.locked && is_positive(dvder)),
            final(self)@ == old(self)@.offer_divider(dvder),
    {
        if !self.divider_hasbeen_set && positive(dvder) {
            self.section_dvder = dvder;
            true
        } else {
            false
        }
    }

    /// The section divider.
    pub fn get_divider(&self) -> (d: u64)
        ensures
            d == self@.divider,
    {
        self.section_dvder
    }

    /// Whether the divider is fixed.
    pub fn get_divider_flag(&self) -> (locked: bool)
        ensures
            locked == self@.locked,
    {
        self.divider_hasbeen_set
    }

    /// Fixes the divider.
    pub fn set_divider_flag(&mut self)
        requires
            old(self).wf(),
        ensures
            final(self).wf(),
            final(self)@ == old(self)@.lock(),
    {
        self.divider_hasbeen_set = true;
    }

    /// The number of points of the working curve.
    pub fn get_number_bps(&self) -> (n: usize)
        ensures
            n == self@.working.len(),
    {
        self.active_bps.len()
    }

    /// The working curve.
    pub fn points(&self) -> (p: &Vec<BreakPoint>)
        ensures
            p@ == self@.working,
    {
        &self.active_bps
    }

    /// The curve as it was loaded.
    pub fn original_points(&self) -> (p: &Vec<BreakPoint>)
        ensures
            p@ == self@.original,
    {
        &self.orig_bps
    }

    /// Does one step of an adjustment of the working curve by
    /// `num_bps_to_update` points, and returns what is left of the
    /// adjustment: call again, with a profile measured anew, until nothing
    /// is left.
    ///
    /// `profile` holds the angle at each junction of the working curve as it
    /// is now. For an insertion `placed` holds the two points that go where
    /// the middle point of the sharpest junction is, or `None` if none could
    /// be computed there; a removal does not look at it. An edit that is
    /// made fixes the divider.
    pub fn process_bps(
        &mut self,
        num_bps_to_update: i32,
        profile: &Vec<u64>,
        placed: Option<(BreakPoint, BreakPoint)>,
    ) -> (r: Result<i32, EditError>)
        requires
            old(self).wf(),
        ensures
            final(self).wf(),
            match r {
                Ok(rest) => old(self)@.step(num_bps_to_update as int, profile@, placed) == Ok::<
                    (CurveState, int),
                    EditError,
                >((final(self)@, rest as int)),
                Err(e) => old(self)@.step(num_bps_to_update as int, profile@, placed) == Err::<
                    (CurveState, int),
                    EditError,
                >(e) && final(self)@ == old(self)@,
            },
            r is Ok && num_bps_to_update < 0 ==> is_straightest(profile@, straightest(profile@))
                && final(self)@.working.len() == old(self)@.working.len() - 1,
            r is Ok && num_bps_to_update > 0 ==> is_sharpest(profile@, sharpest(profile@))
                && final(self)@.working.len() == old(self)@.working.len() + 1,
    {
        if num_bps_to_update == 0 {
            return Ok(0);
        }
        let n: usize = self.active_bps.len();
        if num_bps_to_update < 0 {
            if (n as i128) + (num_bps_to_update as i128) < 2 {
                return Err(EditError::Bounds);
            }
            if profile.len() != n - 2 {
                return Err(EditError::ProfileMismatch);
            }
            if !check_angles(profile) {
                return Err(EditError::DegenerateGeometry);
            }
            match find_straightest(profile) {
                Some(j) => {
                    proof {
                        lemma_remove_keeps_curve(self.active_bps@, j + 1);
                    }
                    self.active_bps.remove(j + 1);
                    self.divider_hasbeen_set = true;
                    Ok(num_bps_to_update + 1)
                },
                // A profile that fits a curve of three points or more is not empty.
                None => Err(EditError::ProfileMismatch),
            }
        } else {
            if n < 3 {
                return Err(EditError::Bounds);
            }
            if profile.len() != n - 2 {
                return Err(EditError::ProfileMismatch);
            }
            if !check_angles(profile) {
                return Err(EditError::DegenerateGeometry);
            }
            match (find_sharpest(profile), placed) {
                (Some(j), Some((first, second))) => {
                    if !(first.finite() && second.finite() && self.active_bps[j].is_left_of(&first)
                        && first.is_left_of(&second) && second.is_left_of(&self.active_bps[j + 2])) {
                        return Err(EditError::DegenerateGeometry);
                    }
                    proof {
                        lemma_splice_keeps_curve(self.active_bps@, j as int, first, second);
                        assert(self.active_bps@.update(j + 1, first).insert(j + 2, second)
                            =~= splice(self.active_bps@, j as int, first, second));
                    }
                    self.active_bps.set(j + 1, first);
                    self.active_bps.insert(j + 2, second);
                    self.divider_hasbeen_set = true;
                    Ok(num_bps_to_update - 1)
                },
                _ => Err(EditError::DegenerateGeometry),
            }
        }
    }

    /// Adjusts the number of points of the working curve by `delta`: below
    /// zero so many points leave, above zero so many are added, one step
    /// after the other. Before each step `measure` is asked for the profile
    /// of the working curve as it then is, and before an insertion `place`
    /// for the two new points, given the curve, its profile and the divider.
    ///
    /// The adjustment is made as a whole or not at all: where a step is
    /// refused, the editor is put back as it was before the first.
    pub fn adjust_count<M, P>(&mut self, delta: i32, measure: M, place: P) -> (r: Result<
        (),
        EditError,
    >) where
        M: Fn(&Vec<BreakPoint>) -> Vec<u64>,
        P: Fn(&Vec<BreakPoint>, &Vec<u64>, u64) -> Option<(BreakPoint, BreakPoint)>,
        requires
            old(self).wf(),
            forall|points: &Vec<BreakPoint>| measure.requires((points,)),
            forall|points: &Vec<BreakPoint>, profile: &Vec<u64>, divider: u64|
                place.requires((points, profile, divider)),
        ensures
            final(self).wf(),
            match r {
                Ok(()) => old(self)@.leads_to(
                    measure,
                    place,
                    delta as int,
                    vstd::math::abs(delta as int) as nat,
                    final(self)@,
                ),
                Err(e) => final(self)@ == old(self)@,
            },
            r is Ok ==> final(self)@.working.len() == old(self)@.working.len() + delta,
            r == Err::<(), EditError>(EditError::Bounds) <==> old(self)@.out_of_bounds(
                delta as int,
            ),
            delta == 0 ==> r is Ok,
    {
        let saved = copy_points(&self.active_bps);
        let was_set: bool = self.divider_hasbeen_set;
        let ghost start = self@;
        let ghost mut done: nat = 0;
        let mut rest: i32 = delta;
        while rest != 0
            invariant
                self.wf(),
                start == old(self)@,
                start.valid(),
                start.leads_to(measure, place, delta as int, done, self@),
                rest == CurveState::rest_after(delta as int, done),
                done <= vstd::math::abs(delta as int),
                done > 0 ==> !start.out_of_bounds(delta as int),
                self@.working.len() == start.working.len() + (delta - rest),
                self@.original == start.original,
                self@.divider == start.divider,
                saved@ == start.working,
                was_set == start.locked,
                forall|points: &Vec<BreakPoint>| measure.requires((points,)),
                forall|points: &Vec<BreakPoint>, profile: &Vec<u64>, divider: u64|
                    place.requires((points, profile, divider)),
            decreases vstd::math::abs(delta as int) - done,
        {
            let profile = measure(&self.active_bps);
            let placed = if rest > 0 {
                place(&self.active_bps, &profile, self.section_dvder)
            } else {
                None
            };
            let ghost before = self@;
            let ghost points = self.active_bps;
            match self.process_bps(rest, &profile, placed) {
                Ok(left) => {
                    proof {
                        assert(before.measured(measure, place, rest as int, points, profile, placed));
                        assert(before.step(rest as int, profile@, placed) == Ok::<
                            (CurveState, int),
                            EditError,
                        >((self@, CurveState::rest_after(delta as int, done + 1))));
                        done = done + 1;
                    }
                    rest = left;
                },
                Err(e) => {
                    self.active_bps = saved;
                    self.divider_hasbeen_set = was_set;
                    return Err(e);
                },
            }
        }
        Ok(())
    }
}

} // verus!
