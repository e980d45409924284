//! Small playback types that the player front end shares with the library.

use vstd::prelude::*;
use vstd::string::*;

use crate::text::has_prefix;

verus! {

/// How the player repeats the queue.
#[derive(Debug, Clone, Copy, PartialEq, Eq, Structural, Default)]
pub enum RepeatMode {
    #[default]
    Off,
    All,
    One,
}

impl RepeatMode {
    /// The mode that follows this one: off, all, one, and back to off.
    pub open spec fn next_mode(self) -> RepeatMode {
        match self {
            RepeatMode::Off => RepeatMode::All,
            RepeatMode::All => RepeatMode::One,
            RepeatMode::One => RepeatMode::Off,
        }
    }

    pub fn cycle(&self) -> (r: RepeatMode)
        ensures
            r == self.next_mode(),
    {
        match self {
            RepeatMode::Off => RepeatMode::All,
            RepeatMode::All => RepeatMode::One,
            RepeatMode::One => RepeatMode::Off,
        }
    }
}

/// Where the bytes of a track come from.
#[derive(Debug, Clone)]
pub enum TrackSource {
    /// An HTTP or HTTPS stream.
    HttpStream { url: String },
    /// A file on the local disk.
    LocalFile { path: String },
}

/// Whether a location names an HTTP or HTTPS stream.
pub open spec fn is_http_location(s: Seq<char>) -> bool {
    "http://"@.is_prefix_of(s) || "https://"@.is_prefix_of(s)
}

impl TrackSource {
    /// Reads a location: `http://` and `https://` locations are streams,
    /// anything else is a path on disk.
    pub fn from_url(url: &str) -> (r: TrackSource)
        ensures
            match r {
                TrackSource::HttpStream { url: u } => u@ == url@ && is_http_location(url@),
                TrackSource::LocalFile { path } => path@ == url@ && !is_http_location(url@),
            },
    {
        if has_prefix(url, "http://") || has_prefix(url, "https://") {
            TrackSource::HttpStream { url: String::from_str(url) }
        } else {
            TrackSource::LocalFile { path: String::from_str(url) }
        }
    }
}

/// Sent when a track has played to its end.
#[derive(Debug, Clone)]
pub struct TrackEndedEvent {
    pub track_id: String,
}

} // verus!
