use vstd::prelude::*;
use crate::clip::Clip;
use crate::id::new_id;
use crate::rational_time::{latest_max, lemma_latest_max_bounds, RationalTime};
use crate::error::TimelineError;
use crate::time_range::{is_earlier, TimeRange};

verus! {

#[derive(Debug, Clone, Copy, PartialEq, Eq, Hash, Structural)]
pub enum TrackKind {
    Video,
    Audio,
}

/// An ordered lane of clips of one kind.
#[derive(Debug, Clone, PartialEq)]
pub struct Track {
    pub id: u128,
    pub name: String,
    pub kind: TrackKind,
    pub clips: Vec<Clip>,
    pub enabled: bool,
    pub locked: bool,
}

/// An enabled clip whose timeline range holds `time`.
pub open spec fn clip_matches(c: Clip, time: RationalTime) -> bool {
    c.enabled && c.timeline_range.contains_at(time.value as int, time.rate as int)
}

/// Clip `i` of `clips` is the first with identifier `id`.
pub open spec fn first_clip_with_id(clips: Seq<Clip>, id: u128, i: int) -> bool {
    &&& 0 <= i < clips.len()
    &&& clips[i].id == id
    &&& forall|j: int| 0 <= j < i ==> (#[trigger] clips[j]).id != id
}

/// Some clip of `clips` has identifier `id`.
pub open spec fn holds_clip_id(clips: Seq<Clip>, id: u128) -> bool {
    exists|i: int| 0 <= i < clips.len() && (#[trigger] clips[i]).id == id
}

/// The later of the two starts: the first instant two overlapping ranges share.
pub open spec fn later_start(a: TimeRange, b: TimeRange) -> RationalTime {
    if a.start.is_before(b.start) {
        b.start
    } else {
        a.start
    }
}

impl Track {
    /// Every clip, enabled or not, has a valid timeline range.
    pub open spec fn all_ranges_valid(&self) -> bool {
        forall|i: int| 0 <= i < self.clips@.len() ==> (#[trigger] self.clips@[i]).timeline_range.valid()
    }

    /// Clip `i` is the first whose timeline range overlaps `range`.
    pub open spec fn is_first_overlap(&self, range: TimeRange, i: int) -> bool {
        &&& 0 <= i < self.clips@.len()
        &&& self.clips@[i].timeline_range.overlaps_spec(range)
        &&& forall|j: int|
            0 <= j < i ==> !(#[trigger] self.clips@[j]).timeline_range.overlaps_spec(range)
    }

    /// Every enabled clip has a valid timeline range.
    pub open spec fn ranges_valid(&self) -> bool {
        forall|i: int|
            0 <= i < self.clips@.len() && (#[trigger] self.clips@[i]).enabled
                ==> self.clips@[i].timeline_range.valid()
    }

    /// For each clip in order, its timeline end if it is enabled.
    pub open spec fn end_candidates(&self) -> Seq<Option<RationalTime>> {
        self.clips@.map_values(
            |c: Clip|
                if c.enabled {
                    Some(c.timeline_range.end_spec())
                } else {
                    None
                },
        )
    }

    /// The latest end of an enabled clip, or zero at 24 ticks per second.
    pub open spec fn duration_spec(&self) -> RationalTime {
        match latest_max(self.end_candidates()) {
            Some(m) => m,
            None => RationalTime { value: 0, rate: 24 },
        }
    }

    /// Clip `i` is the first enabled clip that holds `time`.
    pub open spec fn is_first_match(&self, time: RationalTime, i: int) -> bool {
        &&& 0 <= i < self.clips@.len()
        &&& clip_matches(self.clips@[i], time)
        &&& forall|j: int| 0 <= j < i ==> !clip_matches(#[trigger] self.clips@[j], time)
    }

    /// Some enabled clip holds `time`.
    pub open spec fn has_clip_at(&self, time: RationalTime) -> bool {
        exists|i: int| 0 <= i < self.clips@.len() && clip_matches(#[trigger] self.clips@[i], time)
    }

    /// Whether every enabled clip has a valid timeline range.
    pub fn ranges_are_valid(&self) -> (r: bool)
        ensures
            r == self.ranges_valid(),
    {
        let mut i: usize = 0;
        while i < self.clips.len()
            invariant
                i <= self.clips@.len(),
                forall|j: int|
                    0 <= j < i && (#[trigger] self.clips@[j]).enabled
                        ==> self.clips@[j].timeline_range.valid(),
            decreases self.clips@.len() - i,
        {
            if self.clips[i].enabled && !self.clips[i].timeline_range.is_valid() {
                return false;
            }
            i += 1;
        }
        true
    }

    /// An empty, enabled, unlocked track with a fresh identifier.
    pub fn new(name: &str, kind: TrackKind) -> (r: Track)
        ensures
            r.name@ == name@,
            r.kind == kind,
            r.clips@.len() == 0,
            r.enabled,
            !r.locked,
    {
        Track {
            id: new_id(),
            name: name.to_owned(),
            kind,
            clips: Vec::new(),
            enabled: true,
            locked: false,
        }
    }

    /// Appends `clip` after the existing clips, with no check of order or overlap.
    pub fn add_clip(&mut self, clip: Clip)
        ensures
            final(self).clips@ == old(self).clips@.push(clip),
            *final(self) == (Track { clips: final(self).clips, ..*old(self) }),
    {
        self.clips.push(clip);
    }

    /// Appends `clip` only if its timeline range overlaps no clip already on
    /// the track; otherwise reports `ClipOverlap` at the first shared instant
    /// with the first such clip, and changes nothing.
    pub fn add_clip_without_overlap(&mut self, clip: Clip) -> (r: Result<(), TimelineError>)
        requires
            old(self).all_ranges_valid(),
            clip.timeline_range.valid(),
        ensures
            r is Ok <==> forall|i: int|
                0 <= i < old(self).clips@.len() ==> !(#[trigger] old(
                    self,
                ).clips@[i]).timeline_range.overlaps_spec(clip.timeline_range),
            r is Ok ==> final(self).clips@ == old(self).clips@.push(clip),
            r is Err ==> *final(self) == *old(self) && exists|i: int|
                old(self).is_first_overlap(clip.timeline_range, i) && r == Err::<(), TimelineError>(
                    TimelineError::ClipOverlap {
                        time: later_start(old(self).clips@[i].timeline_range, clip.timeline_range),
                    },
                ),
            *final(self) == (Track { clips: final(self).clips, ..*old(self) }),
    {
        let mut i: usize = 0;
        while i < self.clips.len()
            invariant
                i <= self.clips@.len(),
                self.all_ranges_valid(),
                clip.timeline_range.valid(),
                forall|j: int|
                    0 <= j < i ==> !(#[trigger] self.clips@[j]).timeline_range.overlaps_spec(
                        clip.timeline_range,
                    ),
            decreases self.clips@.len() - i,
        {
            let existing = &self.clips[i].timeline_range;
            if existing.overlaps(&clip.timeline_range) {
                let time = if is_earlier(&existing.start, &clip.timeline_range.start) {
                    clip.timeline_range.start
                } else {
                    existing.start
                };
                assert(self.is_first_overlap(clip.timeline_range, i as int));
                return Err(TimelineError::ClipOverlap { time });
            }
            i += 1;
        }
        self.clips.push(clip);
        Ok(())
    }

    /// The position of the first clip with identifier `clip_id`.
    pub fn clip_position(&self, clip_id: u128) -> (r: Option<usize>)
        ensures
            r is None <==> !holds_clip_id(self.clips@, clip_id),
            r matches Some(i) ==> first_clip_with_id(self.clips@, clip_id, i as int),
    {
        let mut i: usize = 0;
        while i < self.clips.len()
            invariant
                i <= self.clips@.len(),
                forall|j: int| 0 <= j < i ==> (#[trigger] self.clips@[j]).id != clip_id,
            decreases self.clips@.len() - i,
        {
            if self.clips[i].id == clip_id {
                return Some(i);
            }
            i += 1;
        }
        None
    }

    /// Takes out the first clip with identifier `clip_id`; `None`, and no
    /// change, when there is none.
    pub fn remove_clip(&mut self, clip_id: u128) -> (r: Option<Clip>)
        ensures
            r is None <==> !holds_clip_id(old(self).clips@, clip_id),
            r is None ==> *final(self) == *old(self),
            r matches Some(c) ==> exists|i: int|
                first_clip_with_id(old(self).clips@, clip_id, i) && c == old(self).clips@[i]
                    && final(self).clips@ == old(self).clips@.remove(i),
            *final(self) == (Track { clips: final(self).clips, ..*old(self) }),
    {
        match self.clip_position(clip_id) {
            Some(i) => Some(self.clips.remove(i)),
            None => None,
        }
    }

    /// The first enabled clip, in stored order, whose timeline range holds `time`.
    pub fn clip_at_time(&self, time: &RationalTime) -> (r: Option<&Clip>)
        requires
            self.ranges_valid(),
            time.valid(),
        ensures
            r is None <==> !self.has_clip_at(*time),
            r matches Some(c) ==> exists|i: int| self.is_first_match(*time, i) && *c == self.clips@[i],
    {
        let mut i: usize = 0;
        while i < self.clips.len()
            invariant
                i <= self.clips@.len(),
                self.ranges_valid(),
                time.valid(),
                forall|j: int| 0 <= j < i ==> !clip_matches(#[trigger] self.clips@[j], *time),
            decreases self.clips@.len() - i,
        {
            let c = &self.clips[i];
            if c.enabled && c.timeline_range.contains(time) {
                assert(self.is_first_match(*time, i as int));
                return Some(c);
            }
            i += 1;
        }
        None
    }

    /// The latest timeline end among enabled clips (the later clip on a tie in
    /// seconds); zero at 24 ticks per second when no clip is enabled.
    pub fn duration(&self) -> (r: RationalTime)
        requires
            self.ranges_valid(),
        ensures
            r == self.duration_spec(),
    {
        let ghost ends = self.end_candidates();
        let mut best: Option<RationalTime> = None;
        let mut i: usize = 0;
        while i < self.clips.len()
            invariant
                i <= self.clips@.len(),
                self.ranges_valid(),
                ends == self.end_candidates(),
                best == latest_max(ends.take(i as int)),
            decreases self.clips@.len() - i,
        {
            let c = &self.clips[i];
            proof {
                assert(ends.take(i + 1).drop_last() =~= ends.take(i as int));
            }
            if c.enabled {
                let end = c.timeline_range.end();
                best = match best {
                    None => Some(end),
                    Some(m) => if is_earlier(&end, &m) {
                        Some(m)
                    } else {
                        Some(end)
                    },
                };
            }
            i += 1;
        }
        proof {
            assert(ends.take(self.clips@.len() as int) =~= ends);
        }
        match best {
            Some(m) => m,
            None => RationalTime::new(0, 24),
        }
    }
}

impl Default for Track {
    fn default() -> (r: Track)
        ensures
            r.name@ == "Track"@,
            r.kind == TrackKind::Video,
            r.clips@.len() == 0,
            r.enabled,
            !r.locked,
    {
        Track::new("Track", TrackKind::Video)
    }
}

/// A track's duration is the end of one of its enabled clips and no enabled
/// clip ends later; with no enabled clip it is zero at 24 ticks per second.
pub proof fn lemma_track_duration_is_latest_end(track: Track)
    requires
        track.ranges_valid(),
    ensures
        track.duration_spec().valid(),
        (forall|i: int| 0 <= i < track.clips@.len() ==> !(#[trigger] track.clips@[i]).enabled)
            ==> track.duration_spec() == (RationalTime { value: 0, rate: 24 }),
        (exists|i: int| 0 <= i < track.clips@.len() && (#[trigger] track.clips@[i]).enabled) ==> {
            &&& exists|i: int|
                0 <= i < track.clips@.len() && (#[trigger] track.clips@[i]).enabled
                    && track.duration_spec() == track.clips@[i].timeline_range.end_spec()
            &&& forall|i: int|
                0 <= i < track.clips@.len() && (#[trigger] track.clips@[i]).enabled
                    ==> !track.duration_spec().is_before(track.clips@[i].timeline_range.end_spec())
        },
{
    let ts = track.end_candidates();
    assert forall|i: int| 0 <= i < ts.len() && ts[i] is Some implies (#[trigger] ts[i]).unwrap().valid() by {
        assert(track.clips@[i].enabled);
    }
    lemma_latest_max_bounds(ts);
    assert forall|i: int| 0 <= i < track.clips@.len() implies (#[trigger] track.clips@[i]).enabled
        == (ts[i] is Some) by {}
    match latest_max(ts) {
        None => {},
        Some(m) => {
            let w = choose|i: int| 0 <= i < ts.len() && ts[i] == Some(m);
            assert(track.clips@[w].enabled);
            assert forall|i: int| 0 <= i < track.clips@.len() && (#[trigger] track.clips@[i]).enabled
                implies !m.is_before(track.clips@[i].timeline_range.end_spec()) by {
                assert(ts[i] is Some);
            }
        },
    }
}

} // verus!
