//! Exact rational-time model of a non-linear editing timeline: tracks of
//! clips placed in time, with duration and lookup queries and structural edits.

pub mod clip;
pub mod error;
mod id;
pub mod marker;
pub mod media_source;
pub mod rational_time;
pub mod time_range;
pub mod timeline;
pub mod track;
pub mod transition;

pub use clip::Clip;
pub use error::TimelineError;
pub use marker::{Marker, MarkerColor};
pub use media_source::{MediaMetadata, MediaSource};
pub use rational_time::RationalTime;
pub use time_range::TimeRange;
pub use timeline::{Timeline, TimelineMetadata};
pub use track::{Track, TrackKind};
pub use transition::{Transition, TransitionType};
