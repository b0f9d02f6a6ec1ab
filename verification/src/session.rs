//! What the controls of a front end ask of the editor.

use vstd::prelude::*;
use crate::editor::{CurveState, EditError, ProcessCurve};
use crate::point::BreakPoint;

verus! {

/// A control of the front end was used.
#[derive(Clone, Copy, Debug, PartialEq, Eq, Structural)]
pub enum Message {
    /// One point more.
    Increment,
    /// One point fewer.
    Decrement,
    /// A section divider was chosen.
    Choice1Msg,
    /// Back to the loaded curve.
    ResetMsg,
}

impl CurveState {
    /// The state in which a message leaves the editor, or the reason why the
    /// edit that it asks for is refused.
    ///
    /// A curve of fewer than three points has no junction, so there both
    /// `Increment` and `Decrement` are passed over; elsewhere each is one
    /// step of an adjustment by one point. `Choice1Msg` offers `choice` as
    /// the divider, and `ResetMsg` resets.
    pub open spec fn react(
        self,
        msg: Message,
        profile: Seq<u64>,
        placed: Option<(BreakPoint, BreakPoint)>,
        choice: u64,
    ) -> Result<CurveState, EditError> {
        match msg {
            Message::Increment => if self.working.len() < 3 {
                Ok(self)
            } else {
                match self.step(1, profile, placed) {
                    Ok((t, rest)) => Ok(t),
                    Err(e) => Err(e),
                }
            },
            Message::Decrement => if self.working.len() < 3 {
                Ok(self)
            } else {
                match self.step(-1, profile, placed) {
                    Ok((t, rest)) => Ok(t),
                    Err(e) => Err(e),
                }
            },
            Message::Choice1Msg => Ok(self.offer_divider(choice)),
            Message::ResetMsg => Ok(self.reset()),
        }
    }
}

impl ProcessCurve {
    /// Acts on a message of the front end. `profile` and `placed` are what
    /// `process_bps` takes, measured on the working curve as it is now;
    /// `choice` is the divider that `Choice1Msg` offers. A refused edit
    /// leaves the editor as it was.
    pub fn handle(
        &mut self,
        msg: Message,
        profile: &Vec<u64>,
        placed: Option<(BreakPoint, BreakPoint)>,
        choice: u64,
    ) -> (r: Result<(), EditError>)
        requires
            old(self).wf(),
        ensures
            final(self).wf(),
            match r {
                Ok(()) => old(self)@.react(msg, profile@, placed, choice) == Ok::<
                    CurveState,
                    EditError,
                >(final(self)@),
                Err(e) => old(self)@.react(msg, profile@, placed, choice) == Err::<
                    CurveState,
                    EditError,
                >(e) && final(self)@ == old(self)@,
            },
    {
        match msg {
            Message::Increment => {
                if self.get_number_bps() < 3 {
                    return Ok(());
                }
                match self.process_bps(1, profile, placed) {
                    Ok(_) => Ok(()),
                    Err(e) => Err(e),
                }
            },
            Message::Decrement => {
                if self.get_number_bps() < 3 {
                    return Ok(());
                }
                match self.process_bps(-1, profile, placed) {
                    Ok(_) => Ok(()),
                    Err(e) => Err(e),
                }
            },
            Message::Choice1Msg => {
                let _ = self.set_divider(choice);
                Ok(())
            },
            Message::ResetMsg => {
                self.reset_bps();
                Ok(())
            },
        }
    }
}

} // verus!
