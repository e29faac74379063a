use timeline_core::{
    Clip, MarkerColor, MediaMetadata, MediaSource, RationalTime, TimeRange, Timeline,
    TimelineError, TimelineMetadata, Track, TrackKind, Transition, TransitionType,
};
use timeline_core::marker::Marker;

fn secs(s: i64) -> RationalTime {
    RationalTime::new(s * 24, 24)
}

fn span(start: i64, duration: i64) -> TimeRange {
    TimeRange::new(secs(start), secs(duration))
}

fn placed(name: &str, start: i64, duration: i64) -> Clip {
    Clip::new(name, MediaSource::new("media/shot.mov"))
        .with_timeline_range(span(start, duration))
        .with_source_range(span(0, duration))
}

#[test]
fn frames_and_fields_of_new_time() {
    let t = RationalTime::new(-37, 30);
    assert_eq!(t.to_frames(), -37);
    assert_eq!(t.value, -37);
    assert_eq!(t.rate, 30);
    assert_eq!(RationalTime::default(), RationalTime::new(0, 24));
}

#[test]
fn rescale_to_multiple_is_exact_and_reversible() {
    let t = RationalTime::new(10, 24);
    let up = t.rescaled(48);
    assert_eq!(up, RationalTime::new(20, 48));
    assert_eq!(up.rescaled(24), t);
}

#[test]
fn rescale_rounds_halves_away_from_zero() {
    assert_eq!(RationalTime::new(1, 3).rescaled(2), RationalTime::new(1, 2));
    assert_eq!(RationalTime::new(1, 4).rescaled(2), RationalTime::new(1, 2));
    assert_eq!(RationalTime::new(-1, 4).rescaled(2), RationalTime::new(-1, 2));
    assert_eq!(RationalTime::new(1, 5).rescaled(2), RationalTime::new(0, 2));
}

#[test]
fn rescale_round_trip_within_one_tick() {
    for value in -50..50 {
        let t = RationalTime::new(value, 24);
        let back = t.rescaled(30).rescaled(24);
        assert!((back.value - value).abs() <= 1);
    }
}

#[test]
fn add_and_subtract_follow_the_right_operand_rate() {
    let a = RationalTime::new(5, 24);
    let b = RationalTime::new(7, 24);
    assert_eq!(a.add(&b), RationalTime::new(12, 24));
    assert_eq!(a.subtract(&b), RationalTime::new(-2, 24));
    let half = RationalTime::new(1, 2);
    let three_quarters = RationalTime::new(3, 4);
    assert_eq!(half.add(&three_quarters), RationalTime::new(5, 4));
    assert_eq!(half.subtract(&three_quarters), RationalTime::new(-1, 4));
    assert_eq!(three_quarters.add(&half), RationalTime::new(3, 2));
}

#[test]
fn range_end_and_default() {
    assert_eq!(span(2, 3).end(), secs(5));
    let mixed = TimeRange::new(RationalTime::new(1, 2), RationalTime::new(3, 4));
    assert_eq!(mixed.end(), RationalTime::new(5, 4));
    assert_eq!(TimeRange::default(), TimeRange::new(RationalTime::new(0, 24), RationalTime::new(0, 24)));
}

#[test]
fn contains_is_half_open() {
    let r = span(2, 3);
    assert!(r.contains(&r.start));
    assert!(!r.contains(&r.end()));
    assert!(r.contains(&secs(4)));
    assert!(!r.contains(&secs(1)));
    assert!(r.contains(&RationalTime::new(5, 2)));
    assert!(!r.contains(&RationalTime::new(10, 2)));
    assert!(!span(2, 0).contains(&secs(2)));
}

#[test]
fn overlap_is_symmetric_and_excludes_touching() {
    let a = span(0, 5);
    let b = span(3, 5);
    let c = span(5, 5);
    let d = span(20, 1);
    assert!(a.overlaps(&b) && b.overlaps(&a));
    assert!(!a.overlaps(&c) && !c.overlaps(&a));
    assert!(!a.overlaps(&d) && !d.overlaps(&a));
    let e = TimeRange::new(RationalTime::new(9, 2), RationalTime::new(1, 1));
    assert!(a.overlaps(&e) && e.overlaps(&a));
}

#[test]
fn track_duration_is_latest_enabled_end() {
    let mut track = Track::new("V1", TrackKind::Video);
    assert_eq!(track.duration(), RationalTime::new(0, 24));
    track.add_clip(placed("a", 0, 5));
    track.add_clip(placed("b", 8, 4));
    track.add_clip(placed("c", 2, 3));
    assert_eq!(track.duration(), secs(12));
    track.clips[1].enabled = false;
    assert_eq!(track.duration(), secs(5));
}

#[test]
fn track_duration_falls_back_when_all_disabled() {
    let mut track = Track::new("A1", TrackKind::Audio);
    let mut c = placed("a", 0, 5);
    c.enabled = false;
    track.add_clip(c);
    assert_eq!(track.duration(), RationalTime::new(0, 24));
}

#[test]
fn timeline_duration_falls_back_to_frame_rate() {
    let mut timeline = Timeline::new("Edit").with_frame_rate(30);
    assert_eq!(timeline.duration(), RationalTime::new(0, 30));
    let mut track = Track::new("V1", TrackKind::Video);
    track.add_clip(placed("a", 0, 5));
    track.enabled = false;
    timeline.add_track(track);
    assert_eq!(timeline.duration(), RationalTime::new(0, 30));
}

#[test]
fn timeline_duration_is_longest_enabled_track() {
    let mut timeline = Timeline::new("Edit");
    let mut v = Track::new("V1", TrackKind::Video);
    v.add_clip(placed("a", 0, 5));
    let mut a = Track::new("A1", TrackKind::Audio);
    a.add_clip(placed("b", 0, 9));
    timeline.add_track(v);
    timeline.add_track(a);
    assert_eq!(timeline.duration(), secs(9));
    timeline.tracks[1].enabled = false;
    assert_eq!(timeline.duration(), secs(5));
}

#[test]
fn clip_at_time_prefers_lowest_index() {
    let mut track = Track::new("V1", TrackKind::Video);
    let first = placed("first", 0, 10);
    let second = placed("second", 2, 10);
    let first_id = first.id;
    let second_id = second.id;
    track.add_clip(first);
    track.add_clip(second);
    assert_eq!(track.clip_at_time(&secs(5)).unwrap().id, first_id);
    assert_eq!(track.clip_at_time(&secs(11)).unwrap().id, second_id);
    assert!(track.clip_at_time(&secs(12)).is_none());
    track.clips[0].enabled = false;
    assert_eq!(track.clip_at_time(&secs(5)).unwrap().id, second_id);
}

#[test]
fn timeline_clip_at_time_uses_first_enabled_track() {
    let mut timeline = Timeline::new("Edit");
    let mut audio = Track::new("A1", TrackKind::Audio);
    let under = placed("music", 0, 10);
    let under_id = under.id;
    audio.add_clip(under);
    let mut video = Track::new("V1", TrackKind::Video);
    let over = placed("shot", 0, 10);
    let over_id = over.id;
    video.add_clip(over);
    timeline.add_track(audio);
    timeline.add_track(video);
    assert_eq!(timeline.clip_at_time(&secs(3)).unwrap().id, under_id);
    timeline.tracks[0].enabled = false;
    assert_eq!(timeline.clip_at_time(&secs(3)).unwrap().id, over_id);
    assert!(timeline.clip_at_time(&secs(30)).is_none());
}

#[test]
fn two_adjacent_clips_scenario() {
    let mut timeline = Timeline::new("Edit").with_frame_rate(24);
    let mut track = Track::new("V1", TrackKind::Video);
    let a = placed("a", 0, 5);
    let b = placed("b", 5, 5);
    let b_id = b.id;
    track.add_clip(a);
    track.add_clip(b);
    timeline.add_track(track);
    assert_eq!(timeline.duration(), secs(10));
    assert_eq!(timeline.clip_at_time(&secs(7)).unwrap().id, b_id);
    assert_eq!(timeline.clip_at_time(&secs(5)).unwrap().id, b_id);
}

#[test]
fn removing_unknown_track_changes_nothing() {
    let mut timeline = Timeline::new("Edit");
    timeline.add_track(Track::new("V1", TrackKind::Video));
    timeline.add_track(Track::new("A1", TrackKind::Audio));
    let before = timeline.clone();
    let unknown = timeline.tracks[0].id ^ timeline.tracks[1].id ^ 1;
    assert!(timeline.remove_track(unknown).is_none());
    assert_eq!(timeline.tracks.len(), 2);
    assert_eq!(timeline, before);
}

#[test]
fn removing_track_takes_first_match() {
    let mut timeline = Timeline::new("Edit");
    timeline.add_track(Track::new("V1", TrackKind::Video));
    timeline.add_track(Track::new("A1", TrackKind::Audio));
    let id = timeline.tracks[1].id;
    let removed = timeline.remove_track(id).unwrap();
    assert_eq!(removed.name, "A1");
    assert_eq!(timeline.tracks.len(), 1);
    assert_eq!(timeline.tracks[0].name, "V1");
}

#[test]
fn track_remove_clip_by_id() {
    let mut track = Track::new("V1", TrackKind::Video);
    let a = placed("a", 0, 1);
    let b = placed("b", 1, 1);
    let b_id = b.id;
    track.add_clip(a);
    track.add_clip(b);
    assert!(track.remove_clip(b_id ^ track.clips[0].id ^ 1).is_none());
    assert_eq!(track.clips.len(), 2);
    assert_eq!(track.remove_clip(b_id).unwrap().name, "b");
    assert_eq!(track.clips.len(), 1);
    assert_eq!(track.clip_position(b_id), None);
}

#[test]
fn splitting_a_clip_scenario() {
    let mut timeline = Timeline::new("Edit");
    let mut track = Track::new("V1", TrackKind::Video);
    let clip = placed("shot", 2, 6);
    let clip_id = clip.id;
    track.add_clip(clip);
    let track_id = track.id;
    timeline.add_track(track);
    assert_eq!(timeline.split_clip(track_id, clip_id, &secs(5)), Ok(()));
    let clips = &timeline.tracks[0].clips;
    assert_eq!(clips.len(), 2);
    assert_eq!(clips[0].timeline_range, span(2, 3));
    assert_eq!(clips[1].timeline_range, span(5, 3));
    assert_eq!(clips[0].source_range, span(0, 3));
    assert_eq!(clips[1].source_range, span(3, 3));
    assert_eq!(clips[0].id, clip_id);
    assert_ne!(clips[1].id, clip_id);
    assert_eq!(clips[1].name, "shot");
}

#[test]
fn split_trims_source_proportionally() {
    let clip = Clip::new("slow", MediaSource::new("a.mov"))
        .with_timeline_range(span(0, 8))
        .with_source_range(TimeRange::new(secs(10), secs(4)));
    let (a, b) = clip.split(&secs(2)).unwrap();
    assert_eq!(a.source_range, TimeRange::new(secs(10), secs(1)));
    assert_eq!(b.source_range, TimeRange::new(secs(11), secs(3)));
    assert_eq!(a.timeline_range, span(0, 2));
    assert_eq!(b.timeline_range, span(2, 6));
}

#[test]
fn split_outside_the_clip_is_rejected() {
    let clip = placed("shot", 2, 6);
    assert_eq!(
        clip.split(&secs(2)).unwrap_err(),
        TimelineError::InvalidTimeRange { start: 48, end: 48 }
    );
    assert_eq!(
        clip.split(&secs(9)).unwrap_err(),
        TimelineError::InvalidTimeRange { start: 216, end: 192 }
    );
}

#[test]
fn edits_report_missing_track_and_clip() {
    let mut timeline = Timeline::new("Edit");
    let track = Track::new("V1", TrackKind::Video);
    let track_id = track.id;
    timeline.add_track(track);
    let missing = track_id ^ 1;
    let clip = placed("a", 0, 4);
    let clip_id = clip.id;
    assert_eq!(
        timeline.add_clip_to_track(missing, clip.clone()),
        Err(TimelineError::TrackNotFound(missing))
    );
    assert_eq!(timeline.add_clip_to_track(track_id, clip), Ok(()));
    assert_eq!(timeline.tracks[0].clips.len(), 1);
    assert_eq!(
        timeline.remove_clip(missing, clip_id),
        Err(TimelineError::TrackNotFound(missing))
    );
    assert_eq!(
        timeline.remove_clip(track_id, clip_id ^ 1),
        Err(TimelineError::ClipNotFound(clip_id ^ 1))
    );
    assert_eq!(
        timeline.split_clip(track_id, clip_id ^ 1, &secs(1)),
        Err(TimelineError::ClipNotFound(clip_id ^ 1))
    );
    assert_eq!(
        timeline.split_clip(missing, clip_id, &secs(1)),
        Err(TimelineError::TrackNotFound(missing))
    );
    let before = timeline.clone();
    assert_eq!(
        timeline.split_clip(track_id, clip_id, &secs(4)),
        Err(TimelineError::InvalidTimeRange { start: 96, end: 96 })
    );
    assert_eq!(timeline, before);
    assert_eq!(timeline.remove_clip(track_id, clip_id).unwrap().name, "a");
    assert!(timeline.tracks[0].clips.is_empty());
}

#[test]
fn tracks_by_kind_keep_order() {
    let mut timeline = Timeline::new("Edit");
    timeline.add_track(Track::new("V1", TrackKind::Video));
    timeline.add_track(Track::new("A1", TrackKind::Audio));
    timeline.add_track(Track::new("V2", TrackKind::Video));
    let video: Vec<&str> = timeline.video_tracks().iter().map(|t| t.name.as_str()).collect();
    let audio: Vec<&str> = timeline.audio_tracks().iter().map(|t| t.name.as_str()).collect();
    assert_eq!(video, vec!["V1", "V2"]);
    assert_eq!(audio, vec!["A1"]);
}

#[test]
fn timeline_builders_and_defaults() {
    let timeline = Timeline::default();
    assert_eq!(timeline.name, "Timeline");
    assert_eq!(timeline.metadata, TimelineMetadata::default());
    assert_eq!(timeline.metadata.sample_rate, 48000);
    assert_eq!(timeline.global_start_time, RationalTime::new(0, 24));
    let changed = timeline.with_frame_rate(30);
    assert_eq!(changed.metadata.frame_rate, 30);
    assert_eq!(changed.metadata.width, 1920);
    assert_eq!(changed.global_start_time, RationalTime::new(0, 30));
    let meta = TimelineMetadata { frame_rate: 25, width: 720, height: 576, sample_rate: 44100 };
    assert_eq!(changed.with_metadata(meta).metadata, meta);
    let track = Track::default();
    assert_eq!(track.name, "Track");
    assert_eq!(track.kind, TrackKind::Video);
    assert!(track.enabled && !track.locked);
}

#[test]
fn clip_defaults() {
    let clip = Clip::new("shot", MediaSource::new("a.mov"));
    assert_eq!(clip.name, "shot");
    assert_eq!(clip.source.path, "a.mov");
    assert_eq!(clip.source.hash, None);
    assert_eq!(clip.source_range, TimeRange::default());
    assert_eq!(clip.timeline_range, TimeRange::default());
    assert!(clip.effects.is_empty() && clip.markers.is_empty());
    assert!(clip.enabled && !clip.locked);
}

#[test]
fn media_source_and_metadata() {
    let source = MediaSource::new("a.mov").with_hash("abc123");
    assert_eq!(source.path, "a.mov");
    assert_eq!(source.hash.as_deref(), Some("abc123"));
    assert_eq!(source.duplicate(), source);
    let meta = MediaMetadata::default();
    assert_eq!(meta.duration, RationalTime::new(0, 24));
    assert_eq!((meta.frame_rate, meta.width, meta.height), (24, 1920, 1080));
    assert!(meta.has_audio && meta.has_video);
}

#[test]
fn markers_and_colors() {
    let marker = Marker::new("beat", secs(3));
    assert_eq!(marker.name, "beat");
    assert_eq!(marker.color, MarkerColor::blue());
    assert_eq!(marker.color.as_str(), "blue");
    assert_eq!(marker.duration, None);
    let id = marker.id;
    let marker = marker
        .with_color(MarkerColor::red())
        .with_duration(secs(1))
        .with_comment("drop here");
    assert_eq!(marker.id, id);
    assert_eq!(marker.color.as_str(), "red");
    assert_eq!(marker.duration, Some(secs(1)));
    assert_eq!(marker.comment.as_deref(), Some("drop here"));
    let names: Vec<String> = vec![
        MarkerColor::green(),
        MarkerColor::yellow(),
        MarkerColor::orange(),
        MarkerColor::purple(),
        MarkerColor::new("#ff00ff"),
        MarkerColor::default(),
    ]
    .iter()
    .map(|c| c.as_str().to_string())
    .collect();
    assert_eq!(names, vec!["green", "yellow", "orange", "purple", "#ff00ff", "blue"]);
}

#[test]
fn transitions() {
    let cut = Transition::cut(RationalTime::new(48, 24));
    assert_eq!(cut.kind, TransitionType::Cut);
    assert_eq!(cut.duration, RationalTime::new(0, 24));
    assert_eq!(cut.in_point, RationalTime::new(48, 24));
    let dissolve = Transition::cross_dissolve(secs(1), secs(4));
    assert_eq!(dissolve.kind, TransitionType::CrossDissolve);
    assert_eq!(dissolve.duration, secs(1));
    assert_eq!(dissolve.in_point, secs(4));
    let wipe = Transition::new(TransitionType::Wipe, secs(2), secs(0));
    assert_eq!(wipe.kind, TransitionType::Wipe);
}

#[test]
fn fresh_identifiers_differ() {
    let a = Track::new("a", TrackKind::Video);
    let b = Track::new("b", TrackKind::Video);
    let c = Clip::new("c", MediaSource::new("c.mov"));
    assert_ne!(a.id, b.id);
    assert_ne!(a.id, c.id);
    assert_eq!((a.id >> 76) & 0xF, 4);
}
