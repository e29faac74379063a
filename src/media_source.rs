use vstd::prelude::*;
use crate::rational_time::RationalTime;

verus! {

/// The media file a clip refers to, with an optional content hash.
#[derive(Debug, Clone, PartialEq, Eq, Hash)]
pub struct MediaSource {
    pub path: String,
    pub hash: Option<String>,
}

impl MediaSource {
    pub fn new(path: &str) -> (r: MediaSource)
        ensures
            r.path@ == path@,
            r.hash is None,
    {
        MediaSource { path: path.to_owned(), hash: None }
    }

    pub fn with_hash(self, hash: &str) -> (r: MediaSource)
        ensures
            r.path == self.path,
            r.hash matches Some(h) && h@ == hash@,
    {
        MediaSource { path: self.path, hash: Some(hash.to_owned()) }
    }

    /// A field-for-field copy.
    pub fn duplicate(&self) -> (r: MediaSource)
        ensures
            r == *self,
    {
        let hash = match &self.hash {
            Some(h) => Some(h.clone()),
            None => None,
        };
        MediaSource { path: self.path.clone(), hash }
    }
}

/// Intrinsic properties of a media file.
#[derive(Debug, Clone, PartialEq)]
pub struct MediaMetadata {
    pub duration: RationalTime,
    pub frame_rate: u32,
    pub width: u32,
    pub height: u32,
    pub has_audio: bool,
    pub has_video: bool,
}

impl Default for MediaMetadata {
    fn default() -> (r: MediaMetadata)
        ensures
            r.duration == (RationalTime { value: 0, rate: 24 }),
            r.frame_rate == 24,
            r.width == 1920,
            r.height == 1080,
            r.has_audio,
            r.has_video,
    {
        MediaMetadata {
            duration: RationalTime::new(0, 24),
            frame_rate: 24,
            width: 1920,
            height: 1080,
            has_audio: true,
            has_video: true,
        }
    }
}

} // verus!
