use vstd::prelude::*;
use crate::rational_time::RationalTime;

verus! {

/// What can go wrong in an edit addressed by identifier.
#[derive(Debug, Clone, PartialEq, Eq)]
pub enum TimelineError {
    ClipNotFound(u128),
    TrackNotFound(u128),
    /// A range whose start is not before its end.
    InvalidTimeRange { start: i64, end: i64 },
    ClipOverlap { time: RationalTime },
    InvalidFrameRate(u32),
    MediaSourceNotFound(String),
    OperationFailed(String),
    InvalidState(String),
}

} // verus!
