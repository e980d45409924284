//! What an album or a song turns into before any outside work: directory
//! names, file names, the track list to use and the tag fields.

use vstd::prelude::*;
use vstd::string::*;

use crate::model::{AlbumRequest, DownloadProgress, ProgressStage, SongRequest};
use crate::text::{push_two_digits, sanitize_filename, sanitized, two_digits};

verus! {

/// The caller's own track list, when it gave a non-empty one; otherwise the
/// list must be looked up.
pub fn explicit_tracks(req: &AlbumRequest) -> (r: Option<Vec<String>>)
    ensures
        match req.tracks {
            Some(t) => if t@.len() > 0 {
                r matches Some(v) && v@ == t@
            } else {
                r is None
            },
            None => r is None,
        },
{
    match &req.tracks {
        Some(t) => {
            if t.len() == 0 {
                return None;
            }
            let mut v: Vec<String> = Vec::new();
            let mut i: usize = 0;
            while i < t.len()
                invariant
                    i <= t@.len(),
                    v@ == t@.subrange(0, i as int),
                decreases t@.len() - i,
            {
                v.push(t[i].clone());
                assert(v@ =~= t@.subrange(0, i + 1));
                i = i + 1;
            }
            assert(t@.subrange(0, t@.len() as int) =~= t@);
            Some(v)
        },
        None => None,
    }
}

/// The base name of a track's file: its number (from one, two digits at
/// least), a dash and its sanitised name.
pub open spec fn track_stem(number: nat, name: Seq<char>) -> Seq<char> {
    two_digits(number) + seq!['-'] + sanitized(name)
}

pub fn track_file_stem(number: usize, name: &str) -> (r: String)
    ensures
        r@ == track_stem(number as nat, name@),
{
    let mut s = String::new();
    push_two_digits(&mut s, number);
    s.append("-");
    let safe = sanitize_filename(name);
    s.append(safe.as_str());
    proof {
        reveal_strlit("-");
    }
    assert(s@ =~= track_stem(number as nat, name@));
    s
}

/// The finished file of a track: its stem with `.mp3`.
pub fn track_file_name(number: usize, name: &str) -> (r: String)
    ensures
        r@ == track_stem(number as nat, name@) + ".mp3"@,
{
    track_file_stem(number, name).concat(".mp3")
}

/// The output template handed to the fetcher: the stem with the extension
/// left for the fetcher to fill in.
pub fn track_output_template(number: usize, name: &str) -> (r: String)
    ensures
        r@ == track_stem(number as nat, name@) + ".%(ext)s"@,
{
    track_file_stem(number, name).concat(".%(ext)s")
}

/// The two directory levels under the music root: artist and album.
pub fn album_dirs(artist: &str, album: &str) -> (r: (String, String))
    ensures
        r.0@ == sanitized(artist@),
        r.1@ == sanitized(album@),
{
    (sanitize_filename(artist), sanitize_filename(album))
}

/// What a single song becomes on disk and in its tags.
#[derive(Debug, Clone)]
pub struct SongPlan {
    pub artist_dir: String,
    pub album_dir: String,
    pub track_num: usize,
    pub file_name: String,
    pub output_template: String,
    /// The album written into the tags.
    pub tag_album: String,
    /// The genre written into the tags.
    pub tag_genre: String,
    /// Whether cover art is looked up (only for a song with an album).
    pub fetch_cover: bool,
}

/// A song without an album goes to `Singles`.
pub open spec fn song_album_dir(album: Seq<char>) -> Seq<char> {
    if album.len() == 0 {
        "Singles"@
    } else {
        sanitized(album)
    }
}

pub open spec fn song_track_num(song: SongRequest) -> nat {
    match song.track_num {
        Some(n) => n as nat,
        None => 1,
    }
}

pub fn song_plan(song: &SongRequest) -> (r: SongPlan)
    ensures
        r.artist_dir@ == sanitized(song.artist@),
        r.album_dir@ == song_album_dir(song.album@),
        r.track_num == song_track_num(*song),
        r.file_name@ == track_stem(song_track_num(*song), song.title@) + ".mp3"@,
        r.output_template@ == track_stem(song_track_num(*song), song.title@) + ".%(ext)s"@,
        r.tag_album@ == if song.album@.len() == 0 { "Singles"@ } else { song.album@ },
        r.tag_genre@ == if song.genre@.len() == 0 { "Rock"@ } else { song.genre@ },
        r.fetch_cover == (song.album@.len() > 0),
{
    let no_album = song.album.as_str().unicode_len() == 0;
    let album_dir = if no_album {
        String::from_str("Singles")
    } else {
        sanitize_filename(song.album.as_str())
    };
    let track_num = match song.track_num {
        Some(n) => n,
        None => 1,
    };
    let tag_album = if no_album {
        String::from_str("Singles")
    } else {
        song.album.clone()
    };
    let tag_genre = if song.genre.as_str().unicode_len() == 0 {
        String::from_str("Rock")
    } else {
        song.genre.clone()
    };
    SongPlan {
        artist_dir: sanitize_filename(song.artist.as_str()),
        album_dir,
        track_num,
        file_name: track_file_name(track_num, song.title.as_str()),
        output_template: track_output_template(track_num, song.title.as_str()),
        tag_album,
        tag_genre,
        fetch_cover: !no_album,
    }
}

fn copy_opt(o: &Option<String>) -> (r: Option<String>)
    ensures
        r == *o,
{
    match o {
        Some(s) => Some(s.clone()),
        None => None,
    }
}

/// A progress notification about a track of an album.
pub fn track_progress(
    album_idx: usize,
    total_albums: usize,
    req: &AlbumRequest,
    track_idx: usize,
    total_tracks: usize,
    track_name: &str,
    status: ProgressStage,
    error: &Option<String>,
) -> (r: DownloadProgress)
    ensures
        r.album_index == album_idx,
        r.total_albums == total_albums,
        r.artist@ == req.artist@,
        r.album@ == req.album@,
        r.track_index == track_idx,
        r.total_tracks == total_tracks,
        r.track_name@ == track_name@,
        r.status == status,
        r.error == *error,
{
    DownloadProgress {
        album_index: album_idx,
        total_albums,
        artist: req.artist.clone(),
        album: req.album.clone(),
        track_index: track_idx,
        total_tracks,
        track_name: String::from_str(track_name),
        status,
        error: copy_opt(error),
    }
}

/// A progress notification about a single song. The song's first
/// notification names it by its display label, later ones by its title.
pub fn song_progress(album_idx: usize, total_albums: usize, song: &SongRequest, status: ProgressStage, labelled: bool) -> (r:
    DownloadProgress)
    ensures
        r.album_index == album_idx,
        r.total_albums == total_albums,
        r.artist@ == song.artist@,
        r.album@ == if labelled { crate::model::single_label(song.title@) } else { song.title@ },
        r.track_index == 0,
        r.total_tracks == 1,
        r.track_name@ == song.title@,
        r.status == status,
        r.error is None,
{
    let album = if labelled {
        song.title.clone().concat(" (Single)")
    } else {
        song.title.clone()
    };
    DownloadProgress {
        album_index: album_idx,
        total_albums,
        artist: song.artist.clone(),
        album,
        track_index: 0,
        total_tracks: 1,
        track_name: song.title.clone(),
        status,
        error: None,
    }
}


/// What the outside world answered to the last action for a single song.
#[derive(Debug, Clone, Copy, PartialEq, Eq, Structural)]
pub enum SongEvent {
    /// The work starts; tells whether the song's file is already on disk.
    Begin { file_exists: bool },
    /// The download succeeded or failed.
    Downloaded(bool),
    /// The tags were written (failures to write them are ignored).
    Tagged,
}

/// What the host must do next for a single song.
#[derive(Debug, Clone, PartialEq, Eq)]
pub enum SongAction {
    /// Download the song's media.
    Download,
    /// Look up cover art when the plan asks for it, then write the tags.
    Tag,
    /// The song is on disk.
    Done,
    /// The song failed with this message.
    Failed(String),
}

/// The decisions for a single song: a file already on disk is done at once;
/// a failed download fails the song; a downloaded song is tagged and done.
pub fn song_step(ev: SongEvent) -> (r: SongAction)
    ensures
        ev == (SongEvent::Begin { file_exists: true }) ==> r == SongAction::Done,
        ev == (SongEvent::Begin { file_exists: false }) ==> r == SongAction::Download,
        ev == SongEvent::Downloaded(true) ==> r == SongAction::Tag,
        ev == SongEvent::Downloaded(false) ==> (r matches SongAction::Failed(m) && m@ == "Download failed"@),
        ev == SongEvent::Tagged ==> r == SongAction::Done,
{
    match ev {
        SongEvent::Begin { file_exists } => {
            if file_exists {
                SongAction::Done
            } else {
                SongAction::Download
            }
        },
        SongEvent::Downloaded(ok) => {
            if ok {
                SongAction::Tag
            } else {
                SongAction::Failed(String::from_str("Download failed"))
            }
        },
        SongEvent::Tagged => SongAction::Done,
    }
}

} // verus!
