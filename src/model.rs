//! The data that flows through the download engine, and its views.

use vstd::prelude::*;

verus! {

/// Where an album or song entry stands in the display list.
#[derive(Debug, Clone, Copy, PartialEq, Eq, Structural)]
pub enum AlbumStatus {
    Pending,
    Downloading,
    Complete,
    Error,
    Cancelled,
}

impl AlbumStatus {
    /// Complete, failed or cancelled: the entry will not change again.
    pub open spec fn is_terminal(self) -> bool {
        match self {
            AlbumStatus::Complete | AlbumStatus::Error | AlbumStatus::Cancelled => true,
            _ => false,
        }
    }

    /// Waiting in the queue or being worked on.
    pub open spec fn is_unfinished(self) -> bool {
        !self.is_terminal()
    }

    pub fn is_finished(&self) -> (r: bool)
        ensures
            r == self.is_terminal(),
    {
        match self {
            AlbumStatus::Complete | AlbumStatus::Error | AlbumStatus::Cancelled => true,
            _ => false,
        }
    }
}

/// The stage that an in-flight track is in.
#[derive(Debug, Clone, Copy, PartialEq, Eq, Structural)]
pub enum TrackStatus {
    Searching,
    Downloading,
    Tagging,
}

/// The stage that a progress notification reports.
#[derive(Debug, Clone, Copy, PartialEq, Eq, Structural)]
pub enum ProgressStage {
    FetchingCover,
    FetchingTracklist,
    Searching,
    Downloading,
    Tagging,
    Done,
    Error,
}

/// A request to acquire a whole album.
#[derive(Debug, Clone)]
pub struct AlbumRequest {
    pub artist: String,
    pub album: String,
    pub year: String,
    pub genre: String,
    /// Track names chosen by the caller; when absent or empty the tracklist
    /// is looked up.
    pub tracks: Option<Vec<String>>,
}

/// A request to acquire one song whose media identifier is already known.
#[derive(Debug, Clone)]
pub struct SongRequest {
    pub title: String,
    pub artist: String,
    /// Empty for a song that belongs to no album.
    pub album: String,
    pub year: String,
    pub genre: String,
    pub track_num: Option<usize>,
}

/// A unit of work waiting for the drain loop.
#[derive(Debug, Clone)]
pub enum QueueItem {
    Album(AlbumRequest),
    Song { song: SongRequest, video_id: String },
}

/// The display label of a single song: its title followed by ` (Single)`.
pub open spec fn single_label(title: Seq<char>) -> Seq<char> {
    title + " (Single)"@
}

impl QueueItem {
    /// The artist under which the item is displayed.
    pub open spec fn artist_view(self) -> Seq<char> {
        match self {
            QueueItem::Album(r) => r.artist@,
            QueueItem::Song { song, .. } => song.artist@,
        }
    }

    /// The label under which the item is displayed.
    pub open spec fn label_view(self) -> Seq<char> {
        match self {
            QueueItem::Album(r) => r.album@,
            QueueItem::Song { song, .. } => single_label(song.title@),
        }
    }

    pub open spec fn is_song(self) -> bool {
        self is Song
    }

    pub fn display_artist(&self) -> (r: String)
        ensures
            r@ == self.artist_view(),
    {
        match self {
            QueueItem::Album(r) => r.artist.clone(),
            QueueItem::Song { song, .. } => song.artist.clone(),
        }
    }

    pub fn display_label(&self) -> (r: String)
        ensures
            r@ == self.label_view(),
    {
        match self {
            QueueItem::Album(r) => r.album.clone(),
            QueueItem::Song { song, .. } => song.title.clone().concat(" (Single)"),
        }
    }
}

/// A track that a pipeline is working on.
#[derive(Debug, Clone)]
pub struct ActiveTrack {
    pub track_index: usize,
    pub track_name: String,
    pub status: TrackStatus,
}

pub struct ActiveTrackView {
    pub track_index: usize,
    pub track_name: Seq<char>,
    pub status: TrackStatus,
}

impl View for ActiveTrack {
    type V = ActiveTrackView;

    open spec fn view(&self) -> ActiveTrackView {
        ActiveTrackView {
            track_index: self.track_index,
            track_name: self.track_name@,
            status: self.status,
        }
    }
}

/// The display record of one enqueued album or song.
#[derive(Debug, Clone)]
pub struct AlbumDownloadState {
    /// Given when the entry is enqueued and never reused; the work on the
    /// entry finds it by this identity, whatever its position.
    pub id: u64,
    pub artist: String,
    pub album: String,
    pub status: AlbumStatus,
    pub completed_tracks: usize,
    /// Zero until the tracklist is known.
    pub total_tracks: usize,
    pub error: Option<String>,
    pub active_tracks: Vec<ActiveTrack>,
}

pub struct AlbumView {
    pub id: u64,
    pub artist: Seq<char>,
    pub album: Seq<char>,
    pub status: AlbumStatus,
    pub completed_tracks: usize,
    pub total_tracks: usize,
    pub error: Option<Seq<char>>,
    pub active_tracks: Seq<ActiveTrackView>,
}

pub open spec fn tracks_view(v: Seq<ActiveTrack>) -> Seq<ActiveTrackView> {
    v.map_values(|t: ActiveTrack| t@)
}

pub open spec fn opt_text_view(o: Option<String>) -> Option<Seq<char>> {
    match o {
        Some(s) => Some(s@),
        None => None,
    }
}

impl View for AlbumDownloadState {
    type V = AlbumView;

    open spec fn view(&self) -> AlbumView {
        AlbumView {
            id: self.id,
            artist: self.artist@,
            album: self.album@,
            status: self.status,
            completed_tracks: self.completed_tracks,
            total_tracks: self.total_tracks,
            error: opt_text_view(self.error),
            active_tracks: tracks_view(self.active_tracks@),
        }
    }
}

impl ActiveTrack {
    /// A copy with the same contents.
    pub fn snapshot(&self) -> (r: ActiveTrack)
        ensures
            r@ == self@,
    {
        ActiveTrack { track_index: self.track_index, track_name: self.track_name.clone(), status: self.status }
    }
}

impl AlbumDownloadState {
    /// A copy with the same contents.
    pub fn snapshot(&self) -> (r: AlbumDownloadState)
        ensures
            r@ == self@,
    {
        let n = self.active_tracks.len();
        let mut ts: Vec<ActiveTrack> = Vec::new();
        let mut i: usize = 0;
        while i < n
            invariant
                n == self.active_tracks@.len(),
                i <= n,
                tracks_view(ts@) == tracks_view(self.active_tracks@).subrange(0, i as int),
            decreases n - i,
        {
            let t = self.active_tracks[i].snapshot();
            let ghost before = ts@;
            ts.push(t);
            assert(tracks_view(ts@) =~= tracks_view(before).push(t@));
            assert(tracks_view(ts@) =~= tracks_view(self.active_tracks@).subrange(0, i + 1));
            i = i + 1;
        }
        assert(tracks_view(self.active_tracks@).subrange(0, n as int) =~= tracks_view(self.active_tracks@));
        let error = match &self.error {
            Some(e) => Some(e.clone()),
            None => None,
        };
        AlbumDownloadState {
            id: self.id,
            artist: self.artist.clone(),
            album: self.album.clone(),
            status: self.status,
            completed_tracks: self.completed_tracks,
            total_tracks: self.total_tracks,
            error,
            active_tracks: ts,
        }
    }
}

/// A fresh display record: pending, nothing done, no error, no active track.
pub open spec fn pending_entry(id: u64, artist: Seq<char>, label: Seq<char>, total: usize) -> AlbumView {
    AlbumView {
        id,
        artist,
        album: label,
        status: AlbumStatus::Pending,
        completed_tracks: 0,
        total_tracks: total,
        error: None,
        active_tracks: Seq::empty(),
    }
}

/// The caller-visible state of the whole download run.
#[derive(Debug, Clone)]
pub struct DownloadState {
    pub is_active: bool,
    pub albums: Vec<AlbumDownloadState>,
}

pub struct DownloadView {
    pub is_active: bool,
    pub albums: Seq<AlbumView>,
}

pub open spec fn albums_view(v: Seq<AlbumDownloadState>) -> Seq<AlbumView> {
    v.map_values(|a: AlbumDownloadState| a@)
}

impl View for DownloadState {
    type V = DownloadView;

    open spec fn view(&self) -> DownloadView {
        DownloadView { is_active: self.is_active, albums: albums_view(self.albums@) }
    }
}

/// One progress notification about a track or an album.
#[derive(Debug, Clone)]
pub struct DownloadProgress {
    pub album_index: usize,
    pub total_albums: usize,
    pub artist: String,
    pub album: String,
    pub track_index: usize,
    pub total_tracks: usize,
    pub track_name: String,
    pub status: ProgressStage,
    pub error: Option<String>,
}

/// An artist found by the metadata service.
#[derive(Debug, Clone)]
pub struct MbArtist {
    pub id: String,
    pub name: String,
    pub disambiguation: String,
}

/// A release group of an artist.
#[derive(Debug, Clone)]
pub struct MbAlbum {
    pub id: String,
    pub title: String,
    pub year: String,
    pub release_type: String,
    pub secondary_types: Vec<String>,
}

/// A media search hit.
#[derive(Debug, Clone)]
pub struct YtSearchResult {
    pub id: String,
    pub title: String,
    pub duration: String,
    pub channel: String,
}

} // verus!
