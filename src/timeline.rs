use vstd::prelude::*;
use crate::clip::Clip;
use crate::error::TimelineError;
use crate::id::new_id;
use crate::rational_time::{latest_max, lemma_latest_max_bounds, RationalTime};
use crate::time_range::is_earlier;
use crate::track::{
    first_clip_with_id, holds_clip_id, lemma_track_duration_is_latest_end, Track, TrackKind,
};

verus! {

/// Global settings of a timeline.
#[derive(Debug, Clone, Copy, PartialEq, Eq, Structural)]
pub struct TimelineMetadata {
    pub frame_rate: u32,
    pub width: u32,
    pub height: u32,
    pub sample_rate: u32,
}

impl TimelineMetadata {
    /// 24 frames per second, 1920 by 1080, 48 kHz.
    pub open spec fn standard() -> TimelineMetadata {
        TimelineMetadata { frame_rate: 24, width: 1920, height: 1080, sample_rate: 48000 }
    }
}

impl Default for TimelineMetadata {
    fn default() -> (r: TimelineMetadata)
        ensures
            r == TimelineMetadata::standard(),
    {
        TimelineMetadata { frame_rate: 24, width: 1920, height: 1080, sample_rate: 48000 }
    }
}

/// The root of an edit: an ordered list of tracks and global settings.
#[derive(Debug, Clone, PartialEq)]
pub struct Timeline {
    pub id: u128,
    pub name: String,
    pub metadata: TimelineMetadata,
    pub tracks: Vec<Track>,
    pub global_start_time: RationalTime,
}

/// Track `i` of `tracks` is the first with identifier `id`.
pub open spec fn first_track_with_id(tracks: Seq<Track>, id: u128, i: int) -> bool {
    &&& 0 <= i < tracks.len()
    &&& tracks[i].id == id
    &&& forall|j: int| 0 <= j < i ==> (#[trigger] tracks[j]).id != id
}

/// Some track of `tracks` has identifier `id`.
pub open spec fn holds_track_id(tracks: Seq<Track>, id: u128) -> bool {
    exists|i: int| 0 <= i < tracks.len() && (#[trigger] tracks[i]).id == id
}

/// `after` is `before` with only the clips of track `i` changed.
pub open spec fn only_clips_of_track_changed(before: Seq<Track>, after: Seq<Track>, i: int) -> bool {
    &&& 0 <= i < before.len()
    &&& after.len() == before.len()
    &&& forall|j: int| 0 <= j < before.len() && j != i ==> (#[trigger] after[j]) == before[j]
    &&& after[i] == (Track { clips: after[i].clips, ..before[i] })
}

/// An enabled track with an enabled clip at `time`.
pub open spec fn track_matches(t: Track, time: RationalTime) -> bool {
    t.enabled && t.has_clip_at(time)
}

/// The number of clips over all `tracks`, enabled or not.
pub open spec fn total_clips(tracks: Seq<Track>) -> int
    decreases tracks.len(),
{
    if tracks.len() == 0 {
        0
    } else {
        total_clips(tracks.drop_last()) + tracks.last().clips@.len()
    }
}

impl Timeline {
    /// Every enabled track has valid ranges on its enabled clips.
    pub open spec fn tracks_valid(&self) -> bool {
        forall|i: int|
            0 <= i < self.tracks@.len() && (#[trigger] self.tracks@[i]).enabled
                ==> self.tracks@[i].ranges_valid()
    }

    /// For each track in order, its duration if it is enabled.
    pub open spec fn duration_candidates(&self) -> Seq<Option<RationalTime>> {
        self.tracks@.map_values(
            |t: Track|
                if t.enabled {
                    Some(t.duration_spec())
                } else {
                    None
                },
        )
    }

    /// The latest duration of an enabled track, or zero at the timeline's frame rate.
    pub open spec fn duration_spec(&self) -> RationalTime {
        match latest_max(self.duration_candidates()) {
            Some(m) => m,
            None => RationalTime { value: 0, rate: self.metadata.frame_rate },
        }
    }

    /// Track `i` is the first enabled track with an enabled clip at `time`.
    pub open spec fn is_first_track_match(&self, time: RationalTime, i: int) -> bool {
        &&& 0 <= i < self.tracks@.len()
        &&& track_matches(self.tracks@[i], time)
        &&& forall|j: int| 0 <= j < i ==> !track_matches(#[trigger] self.tracks@[j], time)
    }

    /// Whether every enabled track has valid ranges on its enabled clips.
    pub fn tracks_are_valid(&self) -> (r: bool)
        ensures
            r == self.tracks_valid(),
    {
        let mut i: usize = 0;
        while i < self.tracks.len()
            invariant
                i <= self.tracks@.len(),
                forall|j: int|
                    0 <= j < i && (#[trigger] self.tracks@[j]).enabled
                        ==> self.tracks@[j].ranges_valid(),
            decreases self.tracks@.len() - i,
        {
            if self.tracks[i].enabled && !self.tracks[i].ranges_are_valid() {
                return false;
            }
            i += 1;
        }
        true
    }

    /// The number of clips over all tracks, enabled or not; `None` when it
    /// does not fit a `usize`.
    pub fn clip_count(&self) -> (r: Option<usize>)
        ensures
            r == (if total_clips(self.tracks@) <= usize::MAX {
                Some(total_clips(self.tracks@) as usize)
            } else {
                None::<usize>
            }),
    {
        let mut total: usize = 0;
        let mut i: usize = 0;
        while i < self.tracks.len()
            invariant
                i <= self.tracks@.len(),
                total == total_clips(self.tracks@.take(i as int)),
            decreases self.tracks@.len() - i,
        {
            proof {
                assert(self.tracks@.take(i + 1).drop_last() =~= self.tracks@.take(i as int));
                lemma_total_clips_grows(self.tracks@, i + 1);
            }
            match total.checked_add(self.tracks[i].clips.len()) {
                Some(t) => total = t,
                None => return None,
            }
            i += 1;
        }
        proof {
            assert(self.tracks@.take(self.tracks@.len() as int) =~= self.tracks@);
        }
        Some(total)
    }

    /// An empty timeline with standard settings and a fresh identifier.
    pub fn new(name: &str) -> (r: Timeline)
        ensures
            r.name@ == name@,
            r.metadata == TimelineMetadata::standard(),
            r.tracks@.len() == 0,
            r.global_start_time == (RationalTime { value: 0, rate: 24 }),
    {
        Timeline {
            id: new_id(),
            name: name.to_owned(),
            metadata: TimelineMetadata::default(),
            tracks: Vec::new(),
            global_start_time: RationalTime::default(),
        }
    }

    pub fn with_metadata(self, metadata: TimelineMetadata) -> (r: Timeline)
        ensures
            r == (Timeline { metadata, ..self }),
    {
        Timeline { metadata, ..self }
    }

    /// Sets the frame rate and restarts the global start at zero in that rate;
    /// existing tracks are not rescaled.
    pub fn with_frame_rate(self, frame_rate: u32) -> (r: Timeline)
        ensures
            r == (Timeline {
                metadata: TimelineMetadata { frame_rate, ..self.metadata },
                global_start_time: RationalTime { value: 0, rate: frame_rate },
                ..self
            }),
    {
        let metadata = TimelineMetadata { frame_rate, ..self.metadata };
        Timeline { metadata, global_start_time: RationalTime::new(0, frame_rate), ..self }
    }

    /// Appends `track` after the existing tracks.
    pub fn add_track(&mut self, track: Track)
        ensures
            final(self).tracks@ == old(self).tracks@.push(track),
            *final(self) == (Timeline { tracks: final(self).tracks, ..*old(self) }),
    {
        self.tracks.push(track);
    }

    /// The position of the first track with identifier `track_id`.
    pub fn track_position(&self, track_id: u128) -> (r: Option<usize>)
        ensures
            r is None <==> !holds_track_id(self.tracks@, track_id),
            r matches Some(i) ==> first_track_with_id(self.tracks@, track_id, i as int),
    {
        let mut i: usize = 0;
        while i < self.tracks.len()
            invariant
                i <= self.tracks@.len(),
                forall|j: int| 0 <= j < i ==> (#[trigger] self.tracks@[j]).id != track_id,
            decreases self.tracks@.len() - i,
        {
            if self.tracks[i].id == track_id {
                return Some(i);
            }
            i += 1;
        }
        None
    }

    /// Takes out the first track with identifier `track_id`; `None`, and no
    /// change, when there is none.
    pub fn remove_track(&mut self, track_id: u128) -> (r: Option<Track>)
        ensures
            r is None <==> !holds_track_id(old(self).tracks@, track_id),
            r is None ==> *final(self) == *old(self),
            r matches Some(t) ==> exists|i: int|
                first_track_with_id(old(self).tracks@, track_id, i) && t == old(self).tracks@[i]
                    && final(self).tracks@ == old(self).tracks@.remove(i),
            *final(self) == (Timeline { tracks: final(self).tracks, ..*old(self) }),
    {
        match self.track_position(track_id) {
            Some(i) => Some(self.tracks.remove(i)),
            None => None,
        }
    }

    /// The latest duration among enabled tracks (the later track on a tie in
    /// seconds); zero at the timeline's frame rate when no track is enabled.
    pub fn duration(&self) -> (r: RationalTime)
        requires
            self.tracks_valid(),
        ensures
            r == self.duration_spec(),
    {
        let ghost ds = self.duration_candidates();
        let mut best: Option<RationalTime> = None;
        let mut i: usize = 0;
        while i < self.tracks.len()
            invariant
                i <= self.tracks@.len(),
                self.tracks_valid(),
                ds == self.duration_candidates(),
                best == latest_max(ds.take(i as int)),
            decreases self.tracks@.len() - i,
        {
            let t = &self.tracks[i];
            proof {
                assert(ds.take(i + 1).drop_last() =~= ds.take(i as int));
            }
            if t.enabled {
                let d = t.duration();
                best = match best {
                    None => Some(d),
                    Some(m) => if is_earlier(&d, &m) {
                        Some(m)
                    } else {
                        Some(d)
                    },
                };
            }
            i += 1;
        }
        proof {
            assert(ds.take(self.tracks@.len() as int) =~= ds);
        }
        match best {
            Some(m) => m,
            None => RationalTime::new(0, self.metadata.frame_rate),
        }
    }

    /// The first enabled track, in stored order, with an enabled clip at
    /// `time`, and in it the first such clip.
    pub fn clip_at_time(&self, time: &RationalTime) -> (r: Option<&Clip>)
        requires
            self.tracks_valid(),
            time.valid(),
        ensures
            r is None <==> forall|i: int|
                0 <= i < self.tracks@.len() ==> !track_matches(#[trigger] self.tracks@[i], *time),
            r matches Some(c) ==> exists|i: int, k: int|
                self.is_first_track_match(*time, i) && self.tracks@[i].is_first_match(*time, k)
                    && *c == self.tracks@[i].clips@[k],
    {
        let mut i: usize = 0;
        while i < self.tracks.len()
            invariant
                i <= self.tracks@.len(),
                self.tracks_valid(),
                time.valid(),
                forall|j: int| 0 <= j < i ==> !track_matches(#[trigger] self.tracks@[j], *time),
            decreases self.tracks@.len() - i,
        {
            let t = &self.tracks[i];
            if t.enabled {
                match t.clip_at_time(time) {
                    Some(c) => {
                        assert(self.is_first_track_match(*time, i as int));
                        return Some(c);
                    },
                    None => {},
                }
            }
            i += 1;
        }
        None
    }

    /// Appends `clip` to the first track with identifier `track_id`.
    pub fn add_clip_to_track(&mut self, track_id: u128, clip: Clip) -> (r: Result<
        (),
        TimelineError,
    >)
        ensures
            !holds_track_id(old(self).tracks@, track_id) ==> r == Err::<(), TimelineError>(
                TimelineError::TrackNotFound(track_id),
            ) && *final(self) == *old(self),
            holds_track_id(old(self).tracks@, track_id) ==> r is Ok && exists|i: int|
                first_track_with_id(old(self).tracks@, track_id, i) && only_clips_of_track_changed(
                    old(self).tracks@,
                    final(self).tracks@,
                    i,
                ) && final(self).tracks@[i].clips@ == old(self).tracks@[i].clips@.push(clip),
            *final(self) == (Timeline { tracks: final(self).tracks, ..*old(self) }),
    {
        match self.track_position(track_id) {
            None => Err(TimelineError::TrackNotFound(track_id)),
            Some(i) => {
                self.tracks[i].add_clip(clip);
                Ok(())
            },
        }
    }

    /// Takes the first clip with identifier `clip_id` out of the first track
    /// with identifier `track_id`.
    pub fn remove_clip(&mut self, track_id: u128, clip_id: u128) -> (r: Result<Clip, TimelineError>)
        ensures
            !holds_track_id(old(self).tracks@, track_id) ==> r == Err::<Clip, TimelineError>(
                TimelineError::TrackNotFound(track_id),
            ),
            r is Err ==> *final(self) == *old(self),
            forall|i: int|
                first_track_with_id(old(self).tracks@, track_id, i) ==> {
                    let clips = old(self).tracks@[i].clips@;
                    &&& !holds_clip_id(clips, clip_id) ==> r == Err::<Clip, TimelineError>(
                        TimelineError::ClipNotFound(clip_id),
                    )
                    &&& holds_clip_id(clips, clip_id) ==> exists|k: int|
                        first_clip_with_id(clips, clip_id, k) && r == Ok::<Clip, TimelineError>(
                            clips[k],
                        ) && only_clips_of_track_changed(
                            old(self).tracks@,
                            final(self).tracks@,
                            i,
                        ) && final(self).tracks@[i].clips@ == clips.remove(k)
                },
            *final(self) == (Timeline { tracks: final(self).tracks, ..*old(self) }),
    {
        let i = match self.track_position(track_id) {
            None => {
                return Err(TimelineError::TrackNotFound(track_id));
            },
            Some(i) => i,
        };
        let k = match self.tracks[i].clip_position(clip_id) {
            None => {
                return Err(TimelineError::ClipNotFound(clip_id));
            },
            Some(k) => k,
        };
        Ok(self.tracks[i].clips.remove(k))
    }

    /// Cuts the first clip with identifier `clip_id`, in the first track with
    /// identifier `track_id`, in two at `position` (see `Clip::split`); the
    /// two parts take its place, in order.
    pub fn split_clip(&mut self, track_id: u128, clip_id: u128, position: &RationalTime) -> (r:
        Result<(), TimelineError>)
        requires
            forall|i: int, k: int|
                #[trigger] first_track_with_id(old(self).tracks@, track_id, i)
                    && #[trigger] first_clip_with_id(old(self).tracks@[i].clips@, clip_id, k)
                    ==> old(self).tracks@[i].clips@[k].split_representable(*position),
        ensures
            !holds_track_id(old(self).tracks@, track_id) ==> r == Err::<(), TimelineError>(
                TimelineError::TrackNotFound(track_id),
            ),
            r is Err ==> *final(self) == *old(self),
            forall|i: int|
                first_track_with_id(old(self).tracks@, track_id, i) ==> {
                    let clips = old(self).tracks@[i].clips@;
                    let after = final(self).tracks@[i].clips@;
                    &&& !holds_clip_id(clips, clip_id) ==> r == Err::<(), TimelineError>(
                        TimelineError::ClipNotFound(clip_id),
                    )
                    &&& forall|k: int|
                        first_clip_with_id(clips, clip_id, k) ==> {
                            &&& !clips[k].can_split_at(*position) ==> r == Err::<
                                (),
                                TimelineError,
                            >(clips[k].split_error(*position))
                            &&& clips[k].can_split_at(*position) ==> {
                                &&& r is Ok
                                &&& only_clips_of_track_changed(
                                    old(self).tracks@,
                                    final(self).tracks@,
                                    i,
                                )
                                &&& after.len() == clips.len() + 1
                                &&& after.take(k) == clips.take(k)
                                &&& after[k].same_as(clips[k].first_part(*position))
                                &&& after[k + 1].same_as(
                                    clips[k].second_part(*position, after[k + 1].id),
                                )
                                &&& after.skip(k + 2) == clips.skip(k + 1)
                            }
                        }
                },
            *final(self) == (Timeline { tracks: final(self).tracks, ..*old(self) }),
    {
        let i = match self.track_position(track_id) {
            None => {
                return Err(TimelineError::TrackNotFound(track_id));
            },
            Some(i) => i,
        };
        let k = match self.tracks[i].clip_position(clip_id) {
            None => {
                return Err(TimelineError::ClipNotFound(clip_id));
            },
            Some(k) => k,
        };
        let (first, second) = match self.tracks[i].clips[k].split(position) {
            Err(e) => {
                return Err(e);
            },
            Ok(parts) => parts,
        };
        let ghost clips = self.tracks@[i as int].clips@;
        let mut track = self.tracks.remove(i);
        assert(track.clips@ == clips);
        assert(k < track.clips.len());
        track.clips.set(k, first);
        track.clips.insert(k + 1, second);
        self.tracks.insert(i, track);
        proof {
            let after = self.tracks@[i as int].clips@;
            assert(after.take(k as int) =~= clips.take(k as int));
            assert(after.skip(k + 2) =~= clips.skip(k + 1));
            assert forall|j: int| 0 <= j < old(self).tracks@.len() && j != i implies (#[trigger] self.tracks@[j]) == old(self).tracks@[j] by {
                if j < i {
                } else {
                }
            }
            assert(first_clip_with_id(clips, clip_id, k as int));
        }
        Ok(())
    }

    /// The tracks of one kind, in order.
    pub open spec fn kind_view(&self, kind: TrackKind) -> Seq<Track> {
        self.tracks@.filter(|t: Track| t.kind == kind)
    }

    /// The video tracks, in order.
    pub fn video_tracks(&self) -> (r: Vec<&Track>)
        ensures
            r@.len() == self.kind_view(TrackKind::Video).len(),
            forall|i: int| 0 <= i < r@.len() ==> *r@[i] == self.kind_view(TrackKind::Video)[i],
    {
        self.tracks_of_kind(TrackKind::Video)
    }

    /// The audio tracks, in order.
    pub fn audio_tracks(&self) -> (r: Vec<&Track>)
        ensures
            r@.len() == self.kind_view(TrackKind::Audio).len(),
            forall|i: int| 0 <= i < r@.len() ==> *r@[i] == self.kind_view(TrackKind::Audio)[i],
    {
        self.tracks_of_kind(TrackKind::Audio)
    }

    fn tracks_of_kind(&self, kind: TrackKind) -> (r: Vec<&Track>)
        ensures
            r@.len() == self.kind_view(kind).len(),
            forall|i: int| 0 <= i < r@.len() ==> *r@[i] == self.kind_view(kind)[i],
    {
        let ghost pred = |t: Track| t.kind == kind;
        let mut r: Vec<&Track> = Vec::new();
        let mut i: usize = 0;
        while i < self.tracks.len()
            invariant
                i <= self.tracks@.len(),
                pred == (|t: Track| t.kind == kind),
                r@.len() == self.tracks@.take(i as int).filter(pred).len(),
                forall|j: int|
                    0 <= j < r@.len() ==> *r@[j] == self.tracks@.take(i as int).filter(pred)[j],
            decreases self.tracks@.len() - i,
        {
            let ghost before = self.tracks@.take(i as int).filter(pred);
            let ghost next = self.tracks@.take(i + 1);
            proof {
                reveal(Seq::filter);
                assert(next.drop_last() =~= self.tracks@.take(i as int));
                assert(next.last() == self.tracks@[i as int]);
                assert(pred(next.last()) == (self.tracks@[i as int].kind == kind));
                assert(next.filter(pred) == if pred(next.last()) {
                    before.push(next.last())
                } else {
                    before
                });
            }
            if self.tracks[i].kind == kind {
                r.push(&self.tracks[i]);
            }
            i += 1;
        }
        proof {
            assert(self.tracks@.take(self.tracks@.len() as int) =~= self.tracks@);
        }
        r
    }
}

impl Default for Timeline {
    fn default() -> (r: Timeline)
        ensures
            r.name@ == "Timeline"@,
            r.metadata == TimelineMetadata::standard(),
            r.tracks@.len() == 0,
            r.global_start_time == (RationalTime { value: 0, rate: 24 }),
    {
        Timeline::new("Timeline")
    }
}

/// Counting more tracks never lowers the total.
proof fn lemma_total_clips_grows(tracks: Seq<Track>, i: int)
    requires
        0 <= i <= tracks.len(),
    ensures
        total_clips(tracks.take(i)) <= total_clips(tracks),
    decreases tracks.len(),
{
    if i < tracks.len() {
        assert(tracks.drop_last().take(i) =~= tracks.take(i));
        lemma_total_clips_grows(tracks.drop_last(), i);
    } else {
        assert(tracks.take(i) =~= tracks);
    }
}

/// A timeline's duration is the duration of one of its enabled tracks and no
/// enabled track lasts longer; with no enabled track it is zero at the
/// timeline's frame rate.
pub proof fn lemma_timeline_duration_is_latest_track(timeline: Timeline)
    requires
        timeline.tracks_valid(),
    ensures
        (forall|i: int|
            0 <= i < timeline.tracks@.len() ==> !(#[trigger] timeline.tracks@[i]).enabled)
            ==> timeline.duration_spec() == (RationalTime {
            value: 0,
            rate: timeline.metadata.frame_rate,
        }),
        (exists|i: int| 0 <= i < timeline.tracks@.len() && (#[trigger] timeline.tracks@[i]).enabled)
            ==> {
            &&& exists|i: int|
                0 <= i < timeline.tracks@.len() && (#[trigger] timeline.tracks@[i]).enabled
                    && timeline.duration_spec() == timeline.tracks@[i].duration_spec()
            &&& forall|i: int|
                0 <= i < timeline.tracks@.len() && (#[trigger] timeline.tracks@[i]).enabled
                    ==> !timeline.duration_spec().is_before(timeline.tracks@[i].duration_spec())
        },
{
    let ts = timeline.duration_candidates();
    assert forall|i: int| 0 <= i < ts.len() && ts[i] is Some implies (#[trigger] ts[i]).unwrap().valid() by {
        assert(timeline.tracks@[i].enabled);
        lemma_track_duration_is_latest_end(timeline.tracks@[i]);
    }
    lemma_latest_max_bounds(ts);
    assert forall|i: int| 0 <= i < timeline.tracks@.len() implies (#[trigger] timeline.tracks@[i]).enabled
        == (ts[i] is Some) by {}
    match latest_max(ts) {
        None => {},
        Some(m) => {
            let w = choose|i: int| 0 <= i < ts.len() && ts[i] == Some(m);
            assert(timeline.tracks@[w].enabled);
            assert forall|i: int| 0 <= i < timeline.tracks@.len() && (#[trigger] timeline.tracks@[i]).enabled
                implies !m.is_before(timeline.tracks@[i].duration_spec()) by {
                assert(ts[i] is Some);
            }
        },
    }
}

} // verus!
