use vstd::prelude::*;
use crate::error::TimelineError;
use crate::id::new_id;
use crate::media_source::MediaSource;
use crate::rational_time::{
    fits_i64, lemma_round_div_bounds, rescale_wide, round_div, round_div_wide, RationalTime,
};
use crate::time_range::TimeRange;

verus! {

/// A placed, trimmed use of a media source: `source_range` is the part of the
/// source used, `timeline_range` where it sits on its track.
#[derive(Debug, Clone, PartialEq)]
pub struct Clip {
    pub id: u128,
    pub name: String,
    pub source: MediaSource,
    pub source_range: TimeRange,
    pub timeline_range: TimeRange,
    pub effects: Vec<String>,
    pub markers: Vec<String>,
    pub enabled: bool,
    pub locked: bool,
}

/// An element-for-element copy of a list of labels.
fn copy_labels(v: &Vec<String>) -> (r: Vec<String>)
    ensures
        r@ == v@,
{
    let r = v.clone();
    proof {
        assert(r@ =~= v@);
    }
    r
}

/// A rounded share `off / d` of `total` lies between zero and `total`.
proof fn lemma_share_between(total: int, off: int, d: int)
    requires
        0 < off < d,
    ensures
        total >= 0 ==> 0 <= round_div(total * off, d) <= total,
        total < 0 ==> total <= round_div(total * off, d) <= 0,
{
    let q = round_div(total * off, d);
    lemma_round_div_bounds(total * off, d);
    if total >= 0 {
        assert(0 <= total * off <= total * d) by (nonlinear_arith)
            requires
                total >= 0,
                0 < off < d,
        ;
        assert(0 <= q <= total) by (nonlinear_arith)
            requires
                -d <= 2 * (q * d - total * off) <= d,
                0 <= total * off <= total * d,
                d > 0,
        ;
    } else {
        assert(total * d <= total * off <= 0) by (nonlinear_arith)
            requires
                total < 0,
                0 < off < d,
        ;
        assert(total <= q <= 0) by (nonlinear_arith)
            requires
                -d <= 2 * (q * d - total * off) <= d,
                total * d <= total * off <= 0,
                d > 0,
        ;
    }
}

impl Clip {
    /// An enabled, unlocked clip with a fresh identifier and zero ranges.
    pub fn new(name: &str, source: MediaSource) -> (r: Clip)
        ensures
            r.name@ == name@,
            r.source == source,
            r.source_range == TimeRange::zero(),
            r.timeline_range == TimeRange::zero(),
            r.effects@.len() == 0,
            r.markers@.len() == 0,
            r.enabled,
            !r.locked,
    {
        Clip {
            id: new_id(),
            name: name.to_owned(),
            source,
            source_range: TimeRange::default(),
            timeline_range: TimeRange::default(),
            effects: Vec::new(),
            markers: Vec::new(),
            enabled: true,
            locked: false,
        }
    }

    pub fn with_source_range(self, range: TimeRange) -> (r: Clip)
        ensures
            r == (Clip { source_range: range, ..self }),
    {
        Clip { source_range: range, ..self }
    }

    pub fn with_timeline_range(self, range: TimeRange) -> (r: Clip)
        ensures
            r == (Clip { timeline_range: range, ..self }),
    {
        Clip { timeline_range: range, ..self }
    }

    /// Equal in every field, the label lists element by element.
    pub open spec fn same_as(&self, other: Clip) -> bool {
        &&& self.id == other.id
        &&& self.name == other.name
        &&& self.source == other.source
        &&& self.source_range == other.source_range
        &&& self.timeline_range == other.timeline_range
        &&& self.effects@ == other.effects@
        &&& self.markers@ == other.markers@
        &&& self.enabled == other.enabled
        &&& self.locked == other.locked
    }

    /// The rate a split is measured in: that of the timeline duration.
    pub open spec fn split_rate(&self) -> int {
        self.timeline_range.duration.rate as int
    }

    /// The timeline start, in ticks of the split rate.
    pub open spec fn split_start(&self) -> int {
        self.timeline_range.start.rescaled_value(self.split_rate())
    }

    /// The split position, in ticks of the split rate.
    pub open spec fn split_point(&self, position: RationalTime) -> int {
        position.rescaled_value(self.split_rate())
    }

    /// How far into the clip the split position lies, in ticks of the split rate.
    pub open spec fn split_offset(&self, position: RationalTime) -> int {
        self.split_point(position) - self.split_start()
    }

    /// The same share of the source duration, rounded to its ticks.
    pub open spec fn source_offset(&self, position: RationalTime) -> int {
        round_div(
            self.source_range.duration.value * self.split_offset(position),
            self.timeline_range.duration.value as int,
        )
    }

    /// Where the second part starts in the source, at the source duration's rate.
    pub open spec fn source_rest_start(&self, position: RationalTime) -> int {
        self.source_range.start.rescaled_value(self.source_range.duration.rate as int)
            + self.source_offset(position)
    }

    /// The position lies strictly inside the clip's timeline range.
    pub open spec fn can_split_at(&self, position: RationalTime) -> bool {
        0 < self.split_offset(position) < self.timeline_range.duration.value
    }

    /// The empty part a position outside the clip would leave, as an error.
    pub open spec fn split_error(&self, position: RationalTime) -> TimelineError {
        if self.split_offset(position) <= 0 {
            TimelineError::InvalidTimeRange {
                start: self.split_start() as i64,
                end: self.split_point(position) as i64,
            }
        } else {
            TimelineError::InvalidTimeRange {
                start: self.split_point(position) as i64,
                end: self.timeline_range.end_value() as i64,
            }
        }
    }

    /// Rates are positive and every tick count a split computes is representable.
    pub open spec fn split_representable(&self, position: RationalTime) -> bool {
        &&& self.timeline_range.valid()
        &&& self.source_range.start.valid()
        &&& self.source_range.duration.valid()
        &&& position.valid()
        &&& fits_i64(self.split_start())
        &&& fits_i64(self.split_point(position))
        &&& self.can_split_at(position) ==> fits_i64(self.source_rest_start(position))
    }

    /// Whether a split of this clip at `position` is representable.
    pub fn split_is_representable(&self, position: &RationalTime) -> (r: bool)
        ensures
            r == self.split_representable(*position),
    {
        if !self.timeline_range.is_valid() || self.source_range.start.rate == 0
            || self.source_range.duration.rate == 0 || position.rate == 0 {
            return false;
        }
        let rate = self.timeline_range.duration.rate;
        let start = rescale_wide(self.timeline_range.start.value, self.timeline_range.start.rate, rate);
        let point = rescale_wide(position.value, position.rate, rate);
        if start < i64::MIN as i128 || start > i64::MAX as i128 || point < i64::MIN as i128
            || point > i64::MAX as i128 {
            return false;
        }
        let offset = point - start;
        let length = self.timeline_range.duration.value;
        if offset <= 0 || offset >= length as i128 {
            return true;
        }
        let source_duration = self.source_range.duration;
        proof {
            let (sv, o, d) = (source_duration.value as int, offset as int, length as int);
            assert(-0x3FFF_FFFF_FFFF_FFFF_0000_0000_0000_0000 <= sv * o
                <= 0x3FFF_FFFF_FFFF_FFFF_0000_0000_0000_0000) by (nonlinear_arith)
                requires
                    -0x8000_0000_0000_0000 <= sv < 0x8000_0000_0000_0000,
                    0 < o < d,
                    d < 0x8000_0000_0000_0000,
            ;
            lemma_share_between(sv, o, d);
        }
        let share = round_div_wide(source_duration.value as i128 * offset, length as i128);
        let source_start = rescale_wide(
            self.source_range.start.value,
            self.source_range.start.rate,
            source_duration.rate,
        );
        let rest_start = source_start + share;
        i64::MIN as i128 <= rest_start && rest_start <= i64::MAX as i128
    }

    /// The part before the split position.
    pub open spec fn first_part(&self, position: RationalTime) -> Clip {
        let rate = self.timeline_range.duration.rate;
        let source_rate = self.source_range.duration.rate;
        Clip {
            timeline_range: TimeRange {
                start: self.timeline_range.start,
                duration: RationalTime { value: self.split_offset(position) as i64, rate },
            },
            source_range: TimeRange {
                start: self.source_range.start,
                duration: RationalTime {
                    value: self.source_offset(position) as i64,
                    rate: source_rate,
                },
            },
            ..*self
        }
    }

    /// The part from the split position on, under identifier `id`.
    pub open spec fn second_part(&self, position: RationalTime, id: u128) -> Clip {
        let rate = self.timeline_range.duration.rate;
        let source_rate = self.source_range.duration.rate;
        Clip {
            id,
            timeline_range: TimeRange {
                start: RationalTime { value: self.split_point(position) as i64, rate },
                duration: RationalTime {
                    value: (self.timeline_range.duration.value - self.split_offset(position))
                        as i64,
                    rate,
                },
            },
            source_range: TimeRange {
                start: RationalTime {
                    value: self.source_rest_start(position) as i64,
                    rate: source_rate,
                },
                duration: RationalTime {
                    value: (self.source_range.duration.value - self.source_offset(position))
                        as i64,
                    rate: source_rate,
                },
            },
            ..*self
        }
    }

    /// Cuts the clip in two at a timeline position strictly inside it. The
    /// first part keeps this clip's identifier, the second gets a fresh one;
    /// the source range is divided in the same proportion as the timeline range.
    /// A position at or before the start, or at or after the end, is an
    /// `InvalidTimeRange` naming the empty part, in ticks of the split rate.
    pub fn split(&self, position: &RationalTime) -> (r: Result<(Clip, Clip), TimelineError>)
        requires
            self.split_representable(*position),
        ensures
            self.can_split_at(*position) ==> (r matches Ok((a, b)) && a.same_as(
                self.first_part(*position),
            ) && b.same_as(self.second_part(*position, b.id))),
            !self.can_split_at(*position) ==> r == Err::<(Clip, Clip), TimelineError>(
                self.split_error(*position),
            ),
    {
        let rate = self.timeline_range.duration.rate;
        let start = self.timeline_range.start.rescaled(rate);
        let point = position.rescaled(rate);
        let length = self.timeline_range.duration.value;
        let offset: i128 = point.value as i128 - start.value as i128;
        if offset <= 0 {
            return Err(TimelineError::InvalidTimeRange { start: start.value, end: point.value });
        }
        if offset >= length as i128 {
            let end = self.timeline_range.end();
            return Err(TimelineError::InvalidTimeRange { start: point.value, end: end.value });
        }
        let offset = offset as i64;
        let source_duration = self.source_range.duration;
        proof {
            let (sv, o, d) = (source_duration.value as int, offset as int, length as int);
            assert(-0x3FFF_FFFF_FFFF_FFFF_0000_0000_0000_0000 <= sv * o
                <= 0x3FFF_FFFF_FFFF_FFFF_0000_0000_0000_0000) by (nonlinear_arith)
                requires
                    -0x8000_0000_0000_0000 <= sv < 0x8000_0000_0000_0000,
                    0 < o < d,
                    d < 0x8000_0000_0000_0000,
            ;
            lemma_share_between(sv, o, d);
        }
        let share = round_div_wide(
            source_duration.value as i128 * offset as i128,
            length as i128,
        ) as i64;
        let source_start = rescale_wide(
            self.source_range.start.value,
            self.source_range.start.rate,
            source_duration.rate,
        );
        let rest_start = (source_start + share as i128) as i64;
        let first = Clip {
            id: self.id,
            name: self.name.clone(),
            source: self.source.duplicate(),
            source_range: TimeRange {
                start: self.source_range.start,
                duration: RationalTime { value: share, rate: source_duration.rate },
            },
            timeline_range: TimeRange {
                start: self.timeline_range.start,
                duration: RationalTime { value: offset, rate },
            },
            effects: copy_labels(&self.effects),
            markers: copy_labels(&self.markers),
            enabled: self.enabled,
            locked: self.locked,
        };
        let second = Clip {
            id: new_id(),
            name: self.name.clone(),
            source: self.source.duplicate(),
            source_range: TimeRange {
                start: RationalTime { value: rest_start, rate: source_duration.rate },
                duration: RationalTime {
                    value: source_duration.value - share,
                    rate: source_duration.rate,
                },
            },
            timeline_range: TimeRange {
                start: point,
                duration: RationalTime { value: length - offset, rate },
            },
            effects: copy_labels(&self.effects),
            markers: copy_labels(&self.markers),
            enabled: self.enabled,
            locked: self.locked,
        };
        Ok((first, second))
    }
}

} // verus!
