use vstd::prelude::*;
use crate::id::new_id;
use crate::rational_time::RationalTime;

verus! {

#[derive(Debug, Clone, Copy, PartialEq, Eq, Hash, Structural)]
pub enum TransitionType {
    Cut,
    CrossDissolve,
    DipToBlack,
    Wipe,
}

/// A junction effect between clips, lasting `duration` from `in_point`.
#[derive(Debug, Clone, PartialEq)]
pub struct Transition {
    pub id: u128,
    pub kind: TransitionType,
    pub duration: RationalTime,
    pub in_point: RationalTime,
}

impl Transition {
    /// A transition with a fresh identifier.
    pub fn new(kind: TransitionType, duration: RationalTime, in_point: RationalTime) -> (r:
        Transition)
        ensures
            r.kind == kind,
            r.duration == duration,
            r.in_point == in_point,
    {
        Transition { id: new_id(), kind, duration, in_point }
    }

    /// A cut at `at_time`: no duration, at the rate of `at_time`.
    pub fn cut(at_time: RationalTime) -> (r: Transition)
        ensures
            r.kind == TransitionType::Cut,
            r.duration == (RationalTime { value: 0, rate: at_time.rate }),
            r.in_point == at_time,
    {
        Transition::new(TransitionType::Cut, RationalTime::new(0, at_time.rate), at_time)
    }

    pub fn cross_dissolve(duration: RationalTime, in_point: RationalTime) -> (r: Transition)
        ensures
            r.kind == TransitionType::CrossDissolve,
            r.duration == duration,
            r.in_point == in_point,
    {
        Transition::new(TransitionType::CrossDissolve, duration, in_point)
    }
}

} // verus!
