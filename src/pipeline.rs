//! The per-track state machine and the bounded pool of track workers that an
//! album fans out to.

use vstd::prelude::*;
use vstd::string::*;

use crate::engine::{
    pos_of, add_track_spec, remove_track_spec, set_track_status_spec, AlbumOutcome, DownloaderStateInner,
    EngineView,
};
use crate::model::{ProgressStage, TrackStatus};

verus! {

/// At most this many tracks of one album are worked on at a time.
pub const MAX_CONCURRENT_TRACKS: usize = 3;

/// What the outside world answered to the last action of a track pipeline.
#[derive(Debug, Clone)]
pub enum TrackEvent {
    /// The pipeline starts; tells whether the track's file is already on disk.
    Begin { file_exists: bool },
    /// The search answered with a media identifier, or found nothing.
    Searched(Option<String>),
    /// The download succeeded or failed.
    Downloaded(bool),
    /// The tags were written (or writing them failed, which is ignored).
    Tagged,
}

/// How a track pipeline ended.
#[derive(Debug, Clone, Copy, PartialEq, Eq, Structural)]
pub enum TrackOutcome {
    Done,
    NotFound,
    DownloadFailed,
    Cancelled,
}

/// What the host must do next for a track.
#[derive(Debug, Clone)]
pub enum TrackAction {
    /// Search for the track's media.
    Search,
    /// Download the media with this identifier.
    Download { video_id: String },
    /// Write the tags into the downloaded file.
    Tag,
    /// The pipeline is over.
    Finish(TrackOutcome),
}

impl TrackAction {
    /// Whether the action calls the media fetcher.
    pub open spec fn contacts_fetcher(self) -> bool {
        self is Search || self is Download
    }
}

/// One transition of the track pipeline of the track `track_idx` named
/// `name` in the entry `id`.
pub open spec fn track_step(
    e: EngineView,
    id: u64,
    track_idx: usize,
    name: Seq<char>,
    ev: TrackEvent,
) -> (EngineView, TrackAction) {
    let idx = pos_of(e, id);
    match ev {
        TrackEvent::Begin { file_exists } => if e.cancel {
            (e, TrackAction::Finish(TrackOutcome::Cancelled))
        } else if file_exists {
            (e, TrackAction::Finish(TrackOutcome::Done))
        } else {
            (add_track_spec(e, idx, track_idx, name, TrackStatus::Searching), TrackAction::Search)
        },
        TrackEvent::Searched(found) => match found {
            None => (remove_track_spec(e, idx, track_idx), TrackAction::Finish(TrackOutcome::NotFound)),
            Some(id) => if e.cancel {
                (remove_track_spec(e, idx, track_idx), TrackAction::Finish(TrackOutcome::Cancelled))
            } else {
                (
                    set_track_status_spec(e, idx, track_idx, TrackStatus::Downloading),
                    TrackAction::Download { video_id: id },
                )
            },
        },
        TrackEvent::Downloaded(ok) => if !ok {
            (remove_track_spec(e, idx, track_idx), TrackAction::Finish(TrackOutcome::DownloadFailed))
        } else if e.cancel {
            (remove_track_spec(e, idx, track_idx), TrackAction::Finish(TrackOutcome::Cancelled))
        } else {
            (set_track_status_spec(e, idx, track_idx, TrackStatus::Tagging), TrackAction::Tag)
        },
        TrackEvent::Tagged => (remove_track_spec(e, idx, track_idx), TrackAction::Finish(TrackOutcome::Done)),
    }
}

impl DownloaderStateInner {
    /// Advances the pipeline of one track: records its stage in the display
    /// entry and says what to do next. The cancellation signal is read at
    /// the start, after the search and after the download.
    pub fn track_advance(&mut self, album_id: u64, track_idx: usize, track_name: &str, ev: TrackEvent) -> (r:
        TrackAction)
        ensures
            (final(self)@, r) == track_step(old(self)@, album_id, track_idx, track_name@, ev),
    {
        match ev {
            TrackEvent::Begin { file_exists } => {
                if self.cancel {
                    TrackAction::Finish(TrackOutcome::Cancelled)
                } else if file_exists {
                    TrackAction::Finish(TrackOutcome::Done)
                } else {
                    self.add_active_track(album_id, track_idx, track_name, TrackStatus::Searching);
                    TrackAction::Search
                }
            },
            TrackEvent::Searched(found) => match found {
                None => {
                    self.remove_active_track(album_id, track_idx);
                    TrackAction::Finish(TrackOutcome::NotFound)
                },
                Some(id) => {
                    if self.cancel {
                        self.remove_active_track(album_id, track_idx);
                        TrackAction::Finish(TrackOutcome::Cancelled)
                    } else {
                        self.update_active_track_status(album_id, track_idx, TrackStatus::Downloading);
                        TrackAction::Download { video_id: id }
                    }
                },
            },
            TrackEvent::Downloaded(ok) => {
                if !ok {
                    self.remove_active_track(album_id, track_idx);
                    TrackAction::Finish(TrackOutcome::DownloadFailed)
                } else if self.cancel {
                    self.remove_active_track(album_id, track_idx);
                    TrackAction::Finish(TrackOutcome::Cancelled)
                } else {
                    self.update_active_track_status(album_id, track_idx, TrackStatus::Tagging);
                    TrackAction::Tag
                }
            },
            TrackEvent::Tagged => {
                self.remove_active_track(album_id, track_idx);
                TrackAction::Finish(TrackOutcome::Done)
            },
        }
    }
}

impl TrackAction {
    /// The stage that a progress notification reports for this action; a
    /// cancelled track reports nothing.
    pub open spec fn stage_spec(self) -> Option<ProgressStage> {
        match self {
            TrackAction::Search => Some(ProgressStage::Searching),
            TrackAction::Download { .. } => Some(ProgressStage::Downloading),
            TrackAction::Tag => Some(ProgressStage::Tagging),
            TrackAction::Finish(TrackOutcome::Done) => Some(ProgressStage::Done),
            TrackAction::Finish(TrackOutcome::Cancelled) => None,
            TrackAction::Finish(_) => Some(ProgressStage::Error),
        }
    }

    pub fn progress_stage(&self) -> (r: Option<ProgressStage>)
        ensures
            r == self.stage_spec(),
    {
        match self {
            TrackAction::Search => Some(ProgressStage::Searching),
            TrackAction::Download { .. } => Some(ProgressStage::Downloading),
            TrackAction::Tag => Some(ProgressStage::Tagging),
            TrackAction::Finish(TrackOutcome::Done) => Some(ProgressStage::Done),
            TrackAction::Finish(TrackOutcome::Cancelled) => None,
            TrackAction::Finish(_) => Some(ProgressStage::Error),
        }
    }
}

impl TrackOutcome {
    /// The message recorded with a failed track.
    pub fn error_message(&self) -> (r: Option<String>)
        ensures
            *self == TrackOutcome::NotFound ==> (r matches Some(m) && m@ == "Not found on YouTube"@),
            *self == TrackOutcome::DownloadFailed ==> (r matches Some(m) && m@ == "Download failed"@),
            (*self == TrackOutcome::Done || *self == TrackOutcome::Cancelled) ==> r is None,
    {
        match self {
            TrackOutcome::NotFound => Some(String::from_str("Not found on YouTube")),
            TrackOutcome::DownloadFailed => Some(String::from_str("Download failed")),
            _ => None,
        }
    }
}

/// The number of track workers for an album of `n` tracks.
pub open spec fn worker_limit(n: nat) -> nat {
    if n < MAX_CONCURRENT_TRACKS {
        n
    } else {
        MAX_CONCURRENT_TRACKS as nat
    }
}

pub fn worker_count(total_tracks: usize) -> (r: usize)
    ensures
        r == worker_limit(total_tracks as nat),
{
    if total_tracks < MAX_CONCURRENT_TRACKS {
        total_tracks
    } else {
        MAX_CONCURRENT_TRACKS
    }
}

/// The tracks of one album, handed out in order to a bounded set of
/// workers.
pub struct TrackPool {
    tracks: Vec<String>,
    next: usize,
    in_flight: usize,
    completed: usize,
    cancelled: bool,
}

pub struct PoolView {
    pub tracks: Seq<Seq<char>>,
    pub next: nat,
    pub in_flight: nat,
    pub completed: nat,
    pub cancelled: bool,
}

impl View for TrackPool {
    type V = PoolView;

    closed spec fn view(&self) -> PoolView {
        PoolView {
            tracks: self.tracks@.map_values(|t: String| t@),
            next: self.next as nat,
            in_flight: self.in_flight as nat,
            completed: self.completed as nat,
            cancelled: self.cancelled,
        }
    }
}

impl PoolView {
    /// Tracks are handed out in order; no more than the worker limit are in
    /// flight, and only finished tracks are counted complete.
    pub open spec fn wf(self) -> bool {
        &&& self.next <= self.tracks.len()
        &&& self.in_flight <= worker_limit(self.tracks.len())
        &&& self.in_flight <= self.next
        &&& self.completed + self.in_flight <= self.next
    }

    /// A claim: when cancelled (by the signal or earlier), nothing more is
    /// handed out; otherwise the next track, if any is left and a worker
    /// slot is free.
    pub open spec fn claim(self, signal: bool) -> (PoolView, Option<(usize, Seq<char>)>) {
        if self.cancelled || signal {
            (PoolView { cancelled: true, ..self }, None)
        } else if self.next < self.tracks.len() && self.in_flight < worker_limit(self.tracks.len()) {
            (
                PoolView { next: self.next + 1, in_flight: self.in_flight + 1, ..self },
                Some((self.next as usize, self.tracks[self.next as int])),
            )
        } else {
            (self, None)
        }
    }

    /// A release: the worker slot is freed; a finished track is counted, a
    /// cancelled one stops the pool.
    pub open spec fn release(self, outcome: TrackOutcome) -> PoolView {
        PoolView {
            in_flight: (self.in_flight - 1) as nat,
            completed: if outcome == TrackOutcome::Done { self.completed + 1 } else { self.completed },
            cancelled: self.cancelled || outcome == TrackOutcome::Cancelled,
            ..self
        }
    }

    pub open spec fn result(self) -> AlbumOutcome {
        if self.cancelled {
            AlbumOutcome::Cancelled
        } else {
            AlbumOutcome::Complete
        }
    }
}

impl TrackPool {
    pub fn new(tracks: Vec<String>) -> (r: TrackPool)
        ensures
            r@.wf(),
            r@.tracks == tracks@.map_values(|t: String| t@),
            r@.next == 0,
            r@.in_flight == 0,
            r@.completed == 0,
            !r@.cancelled,
    {
        TrackPool { tracks, next: 0, in_flight: 0, completed: 0, cancelled: false }
    }

    pub fn total(&self) -> (r: usize)
        ensures
            r == self@.tracks.len(),
    {
        self.tracks.len()
    }

    pub fn completed(&self) -> (r: usize)
        ensures
            r == self@.completed,
    {
        self.completed
    }

    /// Hands the next track to a worker, with its index. `signal` is the
    /// cancellation signal as the worker read it.
    pub fn claim(&mut self, signal: bool) -> (r: Option<(usize, String)>)
        requires
            old(self)@.wf(),
        ensures
            final(self)@.wf(),
            final(self)@ == old(self)@.claim(signal).0,
            match (r, old(self)@.claim(signal).1) {
                (Some((i, s)), Some((j, t))) => i == j && s@ == t,
                (None, None) => true,
                _ => false,
            },
    {
        if self.cancelled || signal {
            self.cancelled = true;
            return None;
        }
        if self.next < self.tracks.len() && self.in_flight < worker_count(self.tracks.len()) {
            let i = self.next;
            let name = self.tracks[i].clone();
            self.next = self.next + 1;
            self.in_flight = self.in_flight + 1;
            Some((i, name))
        } else {
            None
        }
    }

    /// Gives a worker slot back. Returns the new number of finished tracks
    /// when this track finished.
    pub fn release(&mut self, outcome: TrackOutcome) -> (r: Option<usize>)
        requires
            old(self)@.wf(),
            old(self)@.in_flight > 0,
        ensures
            final(self)@.wf(),
            final(self)@ == old(self)@.release(outcome),
            outcome == TrackOutcome::Done ==> r == Some(final(self)@.completed as usize),
            outcome != TrackOutcome::Done ==> r is None,
    {
        self.in_flight = self.in_flight - 1;
        if outcome == TrackOutcome::Cancelled {
            self.cancelled = true;
        }
        if outcome == TrackOutcome::Done {
            self.completed = self.completed + 1;
            Some(self.completed)
        } else {
            None
        }
    }

    /// How the album ended once every worker has returned: cancelled when
    /// cancellation was seen, complete otherwise (failed tracks do not fail
    /// the album).
    pub fn outcome(&self) -> (r: AlbumOutcome)
        ensures
            r == self@.result(),
    {
        if self.cancelled {
            AlbumOutcome::Cancelled
        } else {
            AlbumOutcome::Complete
        }
    }
}

} // verus!
