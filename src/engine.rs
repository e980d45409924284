//! The download engine: the pending queue, the display list, the worker
//! flag and the cancellation signal, held together in one aggregate that the
//! host guards with one lock. Each method is one short critical section.

use vstd::prelude::*;
use vstd::string::*;

use crate::model::{
    albums_view, pending_entry, single_label, tracks_view, ActiveTrack, ActiveTrackView, AlbumDownloadState, AlbumRequest,
    AlbumStatus, AlbumView, DownloadState, DownloadView, QueueItem, SongRequest, TrackStatus,
};

verus! {

/// Everything the drain loop and the callers share.
pub struct DownloaderStateInner {
    pub state: DownloadState,
    /// Set by a cancel request, cleared when a fresh drain loop starts.
    pub cancel: bool,
    /// Whether a drain loop is running.
    pub worker_running: bool,
    /// Items that no drain loop has taken yet, oldest first.
    pub pending_queue: Vec<QueueItem>,
    /// The identity the next display entry will get.
    pub next_id: u64,
}

/// The shared engine handle that the host keeps for its callers.
pub struct DownloaderState(pub DownloaderStateInner);

pub struct EngineView {
    pub state: DownloadView,
    pub cancel: bool,
    pub worker_running: bool,
    pub pending: Seq<QueueItem>,
    pub next_id: u64,
}

impl View for DownloaderStateInner {
    type V = EngineView;

    open spec fn view(&self) -> EngineView {
        EngineView {
            state: self.state@,
            cancel: self.cancel,
            worker_running: self.worker_running,
            pending: self.pending_queue@,
            next_id: self.next_id,
        }
    }
}

/// What the drain loop does next.
#[derive(Debug)]
pub enum DrainStep {
    /// Work on this item; its display entry, found at `album_idx` and known
    /// by `album_id` from now on, is now `Downloading`.
    Process { item: QueueItem, album_idx: usize, album_id: u64, total_albums: usize },
    /// The item had no pending display entry (it was removed or handled).
    Skipped,
    /// A cancel request was seen: the queue is dropped and the loop ends.
    Cancelled,
    /// The queue is empty and the loop ends; when `all_complete`, no entry
    /// is pending or downloading any more.
    Finished { all_complete: bool },
}

/// How the work on one queue item ended.
#[derive(Debug, Clone)]
pub enum AlbumOutcome {
    Complete,
    Failed(String),
    Cancelled,
}

pub open spec fn entry_matches(a: AlbumView, artist: Seq<char>, label: Seq<char>) -> bool {
    a.artist == artist && a.album == label && a.status == AlbumStatus::Pending
}

/// The first pending entry at or after `k` with this artist and label.
pub open spec fn first_match_from(
    albums: Seq<AlbumView>,
    artist: Seq<char>,
    label: Seq<char>,
    k: int,
) -> Option<int>
    decreases albums.len() - k,
{
    if k < 0 || k >= albums.len() {
        None
    } else if entry_matches(albums[k], artist, label) {
        Some(k)
    } else {
        first_match_from(albums, artist, label, k + 1)
    }
}

pub open spec fn with_status(a: AlbumView, st: AlbumStatus) -> AlbumView {
    AlbumView { status: st, ..a }
}

pub open spec fn cancel_entry(a: AlbumView) -> AlbumView {
    if a.status.is_unfinished() {
        with_status(a, AlbumStatus::Cancelled)
    } else {
        a
    }
}

pub open spec fn any_unfinished(albums: Seq<AlbumView>) -> bool {
    exists|j: int| 0 <= j < albums.len() && (#[trigger] albums[j]).status.is_unfinished()
}

/// The state after the caller-facing enqueue of albums, before the worker
/// check.
pub open spec fn push_albums(e: EngineView, reqs: Seq<AlbumRequest>) -> EngineView {
    EngineView {
        state: DownloadView {
            is_active: true,
            albums: e.state.albums + Seq::new(
                reqs.len(),
                |k: int| pending_entry((e.next_id + k) as u64, reqs[k].artist@, reqs[k].album@, 0),
            ),
        },
        pending: e.pending + reqs.map_values(|r: AlbumRequest| QueueItem::Album(r)),
        next_id: (e.next_id + reqs.len()) as u64,
        ..e
    }
}

pub open spec fn song_item(s: SongRequest, id: String) -> QueueItem {
    QueueItem::Song { song: s, video_id: id }
}

pub open spec fn push_songs(e: EngineView, songs: Seq<SongRequest>, ids: Seq<String>) -> EngineView {
    EngineView {
        state: DownloadView {
            is_active: true,
            albums: e.state.albums + Seq::new(
                songs.len(),
                |k: int| pending_entry((e.next_id + k) as u64, songs[k].artist@, single_label(songs[k].title@), 1),
            ),
        },
        pending: e.pending + Seq::new(songs.len(), |i: int| song_item(songs[i], ids[i])),
        next_id: (e.next_id + songs.len()) as u64,
        ..e
    }
}

/// The worker check: a running loop is left alone; otherwise one is marked
/// running and the cancellation signal is cleared.
pub open spec fn worker_started(e: EngineView) -> EngineView {
    if e.worker_running {
        e
    } else {
        EngineView { worker_running: true, cancel: false, ..e }
    }
}

/// One turn of the drain loop. A raised cancellation signal ends the loop
/// first: the queue is dropped and every pending or downloading entry
/// becomes cancelled.
pub open spec fn drain_step(e: EngineView) -> (EngineView, DrainStep) {
    let albums = e.state.albums;
    if e.cancel {
        (
            EngineView {
                worker_running: false,
                pending: Seq::empty(),
                state: DownloadView {
                    is_active: false,
                    albums: albums.map_values(|a: AlbumView| cancel_entry(a)),
                },
                ..e
            },
            DrainStep::Cancelled,
        )
    } else if e.pending.len() == 0 {
        let done = !any_unfinished(albums);
        (
            EngineView {
                worker_running: false,
                state: DownloadView { is_active: if done { false } else { e.state.is_active }, ..e.state },
                ..e
            },
            DrainStep::Finished { all_complete: done },
        )
    } else {
        let item = e.pending[0];
        let rest = e.pending.drop_first();
        match first_match_from(albums, item.artist_view(), item.label_view(), 0) {
            None => (EngineView { pending: rest, ..e }, DrainStep::Skipped),
            Some(i) => (
                EngineView {
                    pending: rest,
                    state: DownloadView {
                        albums: albums.update(i, with_status(albums[i], AlbumStatus::Downloading)),
                        ..e.state
                    },
                    ..e
                },
                DrainStep::Process {
                    item,
                    album_idx: i as usize,
                    album_id: albums[i].id,
                    total_albums: albums.len() as usize,
                },
            ),
        }
    }
}

pub open spec fn finished_entry(a: AlbumView, is_song: bool, outcome: AlbumOutcome) -> AlbumView {
    match outcome {
        AlbumOutcome::Complete => AlbumView {
            status: AlbumStatus::Complete,
            completed_tracks: if is_song { 1 } else { a.completed_tracks },
            ..a
        },
        AlbumOutcome::Failed(m) => AlbumView { status: AlbumStatus::Error, error: Some(m@), ..a },
        AlbumOutcome::Cancelled => with_status(a, AlbumStatus::Cancelled),
    }
}

/// The first entry at or after `k` with this identity.
pub open spec fn first_id_from(albums: Seq<AlbumView>, id: u64, k: int) -> Option<int>
    decreases albums.len() - k,
{
    if k < 0 || k >= albums.len() {
        None
    } else if albums[k].id == id {
        Some(k)
    } else {
        first_id_from(albums, id, k + 1)
    }
}

/// The position of the entry with this identity, or -1 when there is none.
pub open spec fn pos_of(e: EngineView, id: u64) -> int {
    match first_id_from(e.state.albums, id, 0) {
        Some(i) => i,
        None => -1,
    }
}

/// Records how the work on the entry `id` ended. Only that entry changes,
/// and only when it is downloading; otherwise nothing changes.
pub open spec fn finish_spec(e: EngineView, id: u64, is_song: bool, outcome: AlbumOutcome) -> EngineView {
    let i = pos_of(e, id);
    if 0 <= i < e.state.albums.len() && e.state.albums[i].status == AlbumStatus::Downloading {
        EngineView {
            state: DownloadView {
                albums: e.state.albums.update(i, finished_entry(e.state.albums[i], is_song, outcome)),
                ..e.state
            },
            ..e
        }
    } else {
        e
    }
}

/// Entry identities increase along the list and stay below the next one
/// to be given, so each identity names at most one entry.
pub open spec fn ids_increasing(albums: Seq<AlbumView>) -> bool {
    forall|i: int, j: int| 0 <= i < j < albums.len() ==> (#[trigger] albums[i]).id < (#[trigger] albums[j]).id
}

impl EngineView {
    pub open spec fn wf(self) -> bool {
        &&& ids_increasing(self.state.albums)
        &&& forall|i: int| 0 <= i < self.state.albums.len() ==> (#[trigger] self.state.albums[i]).id < self.next_id
    }
}

/// The display list without its complete, failed and cancelled entries.
pub open spec fn unfinished_only(albums: Seq<AlbumView>) -> Seq<AlbumView> {
    albums.filter(|a: AlbumView| a.status.is_unfinished())
}

pub open spec fn clear_spec(e: EngineView) -> EngineView {
    let kept = unfinished_only(e.state.albums);
    EngineView {
        state: DownloadView {
            albums: kept,
            is_active: if kept.len() == 0 { false } else { e.state.is_active },
        },
        ..e
    }
}

pub open spec fn initial_engine() -> EngineView {
    EngineView {
        state: DownloadView { is_active: false, albums: Seq::empty() },
        cancel: false,
        worker_running: false,
        pending: Seq::empty(),
        next_id: 0,
    }
}

/// Puts `a` at `idx`; an index that does not exist leaves
/// the engine unchanged.
pub open spec fn update_entry(e: EngineView, idx: int, a: AlbumView) -> EngineView {
    if 0 <= idx < e.state.albums.len() {
        EngineView { state: DownloadView { albums: e.state.albums.update(idx, a), ..e.state }, ..e }
    } else {
        e
    }
}

pub open spec fn entry_at(e: EngineView, idx: int) -> AlbumView {
    e.state.albums[idx]
}

pub open spec fn set_completed_spec(e: EngineView, idx: int, count: usize) -> EngineView {
    update_entry(e, idx, AlbumView { completed_tracks: count, ..entry_at(e, idx) })
}

/// One more finished track; the count stops at the largest `usize`.
pub open spec fn count_done_spec(e: EngineView, idx: int) -> EngineView {
    let c = entry_at(e, idx).completed_tracks;
    update_entry(
        e,
        idx,
        AlbumView { completed_tracks: if c < usize::MAX { (c + 1) as usize } else { c }, ..entry_at(e, idx) },
    )
}

pub open spec fn set_total_spec(e: EngineView, idx: int, total: usize) -> EngineView {
    update_entry(e, idx, AlbumView { total_tracks: total, ..entry_at(e, idx) })
}

pub open spec fn add_track_spec(
    e: EngineView,
    idx: int,
    track_idx: usize,
    name: Seq<char>,
    st: TrackStatus,
) -> EngineView {
    let a = entry_at(e, idx);
    update_entry(
        e,
        idx,
        AlbumView {
            active_tracks: a.active_tracks.push(
                ActiveTrackView { track_index: track_idx, track_name: name, status: st },
            ),
            ..a
        },
    )
}

/// The first active track at or after `k` with this track index.
pub open spec fn first_track_from(ts: Seq<ActiveTrackView>, track_idx: usize, k: int) -> Option<int>
    decreases ts.len() - k,
{
    if k < 0 || k >= ts.len() {
        None
    } else if ts[k].track_index == track_idx {
        Some(k)
    } else {
        first_track_from(ts, track_idx, k + 1)
    }
}

pub open spec fn restatus_tracks(ts: Seq<ActiveTrackView>, track_idx: usize, st: TrackStatus) -> Seq<
    ActiveTrackView,
> {
    match first_track_from(ts, track_idx, 0) {
        Some(j) => ts.update(j, ActiveTrackView { status: st, ..ts[j] }),
        None => ts,
    }
}

pub open spec fn set_track_status_spec(e: EngineView, idx: int, track_idx: usize, st: TrackStatus) -> EngineView {
    let a = entry_at(e, idx);
    update_entry(e, idx, AlbumView { active_tracks: restatus_tracks(a.active_tracks, track_idx, st), ..a })
}

pub open spec fn without_track(ts: Seq<ActiveTrackView>, track_idx: usize) -> Seq<ActiveTrackView> {
    ts.filter(|t: ActiveTrackView| t.track_index != track_idx)
}

pub open spec fn remove_track_spec(e: EngineView, idx: int, track_idx: usize) -> EngineView {
    let a = entry_at(e, idx);
    update_entry(e, idx, AlbumView { active_tracks: without_track(a.active_tracks, track_idx), ..a })
}

proof fn lemma_tracks_view_update(v: Seq<ActiveTrack>, i: int, t: ActiveTrack)
    requires
        0 <= i < v.len(),
    ensures
        tracks_view(v.update(i, t)) == tracks_view(v).update(i, t@),
{
    assert(tracks_view(v.update(i, t)) =~= tracks_view(v).update(i, t@));
}

proof fn lemma_tracks_view_push(v: Seq<ActiveTrack>, t: ActiveTrack)
    ensures
        tracks_view(v.push(t)) == tracks_view(v).push(t@),
{
    assert(tracks_view(v.push(t)) =~= tracks_view(v).push(t@));
}

/// Filtering a prefix one element longer adds that element when it passes.
pub proof fn lemma_filter_extend<A>(s: Seq<A>, k: int, p: spec_fn(A) -> bool)
    requires
        0 <= k < s.len(),
    ensures
        s.subrange(0, k + 1).filter(p) == if p(s[k]) {
            s.subrange(0, k).filter(p).push(s[k])
        } else {
            s.subrange(0, k).filter(p)
        },
{
    reveal(Seq::filter);
    assert(s.subrange(0, k + 1).drop_last() =~= s.subrange(0, k));
}

/// With increasing identities, the identity of the entry at `i` leads back
/// to `i`.
pub proof fn lemma_pos_of_unique(albums: Seq<AlbumView>, i: int, k: int)
    requires
        ids_increasing(albums),
        0 <= k <= i < albums.len(),
    ensures
        first_id_from(albums, albums[i].id, k) == Some(i),
    decreases i - k,
{
    if k < i {
        assert(albums[k].id < albums[i].id);
        lemma_pos_of_unique(albums, i, k + 1);
    }
}

/// An identity that no entry has leads nowhere.
pub proof fn lemma_pos_of_absent(albums: Seq<AlbumView>, id: u64, k: int)
    requires
        0 <= k,
        forall|j: int| 0 <= j < albums.len() ==> (#[trigger] albums[j]).id != id,
    ensures
        first_id_from(albums, id, k) is None,
    decreases albums.len() - k,
{
    if k < albums.len() {
        lemma_pos_of_absent(albums, id, k + 1);
    }
}

/// Clearing finished entries keeps identities increasing and below `bound`.
pub proof fn lemma_unfinished_ids(s: Seq<AlbumView>, bound: u64)
    requires
        ids_increasing(s),
        forall|i: int| 0 <= i < s.len() ==> (#[trigger] s[i]).id < bound,
    ensures
        ids_increasing(unfinished_only(s)),
        forall|i: int| 0 <= i < unfinished_only(s).len() ==> (#[trigger] unfinished_only(s)[i]).id < bound,
    decreases s.len(),
{
    reveal(Seq::filter);
    if s.len() > 0 {
        let t = s.drop_last();
        let last = s.last();
        assert forall|i: int| 0 <= i < t.len() implies (#[trigger] t[i]).id < last.id by {
            assert(s[i].id < s[s.len() - 1].id);
        }
        lemma_unfinished_ids(t, last.id);
    }
}

/// A match is a pending entry with that artist and label, and no earlier
/// entry from `k` on matches.
pub proof fn lemma_first_match_from(albums: Seq<AlbumView>, artist: Seq<char>, label: Seq<char>, k: int)
    requires
        0 <= k,
    ensures
        first_match_from(albums, artist, label, k) matches Some(i) ==> k <= i < albums.len()
            && entry_matches(albums[i], artist, label) && forall|j: int|
            k <= j < i ==> !entry_matches(#[trigger] albums[j], artist, label),
        first_match_from(albums, artist, label, k) is None ==> forall|j: int|
            k <= j < albums.len() ==> !entry_matches(#[trigger] albums[j], artist, label),
    decreases albums.len() - k,
{
    if k < albums.len() && !entry_matches(albums[k], artist, label) {
        lemma_first_match_from(albums, artist, label, k + 1);
    }
}

proof fn lemma_albums_view_update(v: Seq<AlbumDownloadState>, i: int, a: AlbumDownloadState)
    requires
        0 <= i < v.len(),
    ensures
        albums_view(v.update(i, a)) == albums_view(v).update(i, a@),
{
    assert(albums_view(v.update(i, a)) =~= albums_view(v).update(i, a@));
}

proof fn lemma_albums_view_push(v: Seq<AlbumDownloadState>, a: AlbumDownloadState)
    ensures
        albums_view(v.push(a)) == albums_view(v).push(a@),
{
    assert(albums_view(v.push(a)) =~= albums_view(v).push(a@));
}

impl DownloaderStateInner {
    /// An idle engine: nothing queued, nothing displayed, no loop running.
    pub fn new() -> (r: DownloaderStateInner)
        ensures
            r@ == initial_engine(),
            r@.wf(),
    {
        let r = DownloaderStateInner {
            state: DownloadState { is_active: false, albums: Vec::new() },
            cancel: false,
            worker_running: false,
            pending_queue: Vec::new(),
            next_id: 0,
        };
        assert(r@.state.albums =~= Seq::empty());
        assert(r@.pending =~= Seq::empty());
        r
    }

    /// Makes sure a drain loop exists. Returns `true` when the caller must
    /// start one; a loop that is already running will see the new items.
    pub fn ensure_worker(&mut self) -> (spawn: bool)
        ensures
            spawn == !old(self).worker_running,
            final(self)@ == worker_started(old(self)@),
    {
        if self.worker_running {
            return false;
        }
        self.worker_running = true;
        self.cancel = false;
        true
    }

    /// Whether `n` more entries can still get fresh identities.
    pub fn has_room_for(&self, n: usize) -> (r: bool)
        ensures
            r == (self.next_id + n <= u64::MAX),
    {
        n as u64 <= u64::MAX - self.next_id
    }

    /// Appends albums to the display list, each with a fresh identity, and
    /// to the queue, then runs the worker check. Returns `true` when a drain
    /// loop must be started.
    pub fn enqueue_albums(&mut self, albums: Vec<AlbumRequest>) -> (spawn: bool)
        requires
            old(self).next_id + albums@.len() <= u64::MAX,
        ensures
            spawn == !old(self).worker_running,
            final(self)@ == worker_started(push_albums(old(self)@, albums@)),
    {
        let ghost e0 = self@;
        let ghost reqs = albums@;
        let ghost f = |k: int| pending_entry((e0.next_id + k) as u64, reqs[k].artist@, reqs[k].album@, 0);
        let mut albums = albums;
        self.state.is_active = true;
        let n = albums.len();
        let mut k: usize = 0;
        while albums.len() > 0
            invariant
                n == reqs.len(),
                e0.next_id + n <= u64::MAX,
                k + albums@.len() == n,
                albums@ == reqs.subrange(k as int, n as int),
                self.state.is_active,
                self.cancel == e0.cancel,
                self.worker_running == e0.worker_running,
                self.next_id == e0.next_id + k,
                f == (|k: int| pending_entry((e0.next_id + k) as u64, reqs[k].artist@, reqs[k].album@, 0)),
                albums_view(self.state.albums@) == e0.state.albums + Seq::new(k as nat, f),
                self.pending_queue@ == e0.pending + reqs.subrange(0, k as int).map_values(
                    |r: AlbumRequest| QueueItem::Album(r),
                ),
            decreases albums.len(),
        {
            let a = albums.remove(0);
            assert(a == reqs[k as int]);
            let entry = AlbumDownloadState {
                id: self.next_id,
                artist: a.artist.clone(),
                album: a.album.clone(),
                status: AlbumStatus::Pending,
                completed_tracks: 0,
                total_tracks: 0,
                error: None,
                active_tracks: Vec::new(),
            };
            assert(entry@.active_tracks =~= Seq::<ActiveTrackView>::empty());
            proof {
                lemma_albums_view_push(self.state.albums@, entry);
                assert(entry@ == f(k as int));
                assert(Seq::new((k + 1) as nat, f) =~= Seq::new(k as nat, f).push(f(k as int)));
            }
            self.state.albums.push(entry);
            self.pending_queue.push(QueueItem::Album(a));
            self.next_id = self.next_id + 1;
            proof {
                assert(reqs.subrange(0, k + 1) =~= reqs.subrange(0, k as int).push(a));
                assert(reqs.subrange(k + 1, n as int) =~= albums@);
            }
            k = k + 1;
        }
        assert(reqs.subrange(0, n as int) =~= reqs);
        assert(self@ == push_albums(e0, reqs)) by {
            assert(self@.state.albums =~= push_albums(e0, reqs).state.albums);
            assert(self@.pending =~= push_albums(e0, reqs).pending);
        }
        self.ensure_worker()
    }

    /// Appends single songs, each paired with its media identifier, to the
    /// display list (each with a fresh identity) and the queue, then runs the
    /// worker check.
    pub fn enqueue_songs(&mut self, songs: Vec<SongRequest>, video_ids: Vec<String>) -> (spawn: bool)
        requires
            songs@.len() == video_ids@.len(),
            old(self).next_id + songs@.len() <= u64::MAX,
        ensures
            spawn == !old(self).worker_running,
            final(self)@ == worker_started(push_songs(old(self)@, songs@, video_ids@)),
    {
        let ghost e0 = self@;
        let ghost ss = songs@;
        let ghost ids = video_ids@;
        let ghost f = |k: int| pending_entry((e0.next_id + k) as u64, ss[k].artist@, single_label(ss[k].title@), 1);
        let mut songs = songs;
        let mut video_ids = video_ids;
        self.state.is_active = true;
        let n = songs.len();
        let mut k: usize = 0;
        while songs.len() > 0
            invariant
                n == ss.len(),
                n == ids.len(),
                e0.next_id + n <= u64::MAX,
                k + songs@.len() == n,
                songs@ == ss.subrange(k as int, n as int),
                video_ids@ == ids.subrange(k as int, n as int),
                self.state.is_active,
                self.cancel == e0.cancel,
                self.worker_running == e0.worker_running,
                self.next_id == e0.next_id + k,
                f == (|k: int| pending_entry((e0.next_id + k) as u64, ss[k].artist@, single_label(ss[k].title@), 1)),
                albums_view(self.state.albums@) == e0.state.albums + Seq::new(k as nat, f),
                self.pending_queue@ == e0.pending + Seq::new(k as nat, |i: int| song_item(ss[i], ids[i])),
            decreases songs.len(),
        {
            let s = songs.remove(0);
            let id = video_ids.remove(0);
            assert(s == ss[k as int]);
            let entry = AlbumDownloadState {
                id: self.next_id,
                artist: s.artist.clone(),
                album: s.title.clone().concat(" (Single)"),
                status: AlbumStatus::Pending,
                completed_tracks: 0,
                total_tracks: 1,
                error: None,
                active_tracks: Vec::new(),
            };
            assert(entry@.active_tracks =~= Seq::<ActiveTrackView>::empty());
            proof {
                lemma_albums_view_push(self.state.albums@, entry);
                assert(entry@ == f(k as int));
                assert(Seq::new((k + 1) as nat, f) =~= Seq::new(k as nat, f).push(f(k as int)));
            }
            self.state.albums.push(entry);
            self.pending_queue.push(QueueItem::Song { song: s, video_id: id });
            self.next_id = self.next_id + 1;
            proof {
                assert(Seq::new((k + 1) as nat, |i: int| song_item(ss[i], ids[i])) =~= Seq::new(
                    k as nat,
                    |i: int| song_item(ss[i], ids[i]),
                ).push(song_item(s, id)));
            }
            k = k + 1;
        }
        assert(self@ == push_songs(e0, ss, ids)) by {
            assert(self@.state.albums =~= push_songs(e0, ss, ids).state.albums);
            assert(self@.pending =~= push_songs(e0, ss, ids).pending);
        }
        self.ensure_worker()
    }

    /// Takes the oldest item off the queue, if there is one.
    pub fn dequeue_next(&mut self) -> (r: Option<QueueItem>)
        ensures
            old(self)@.pending.len() == 0 ==> r is None && final(self)@ == old(self)@,
            old(self)@.pending.len() > 0 ==> r == Some(old(self)@.pending[0]) && final(self)@
                == (EngineView { pending: old(self)@.pending.drop_first(), ..old(self)@ }),
    {
        if self.pending_queue.len() == 0 {
            return None;
        }
        let ghost e0 = self@;
        let item = self.pending_queue.remove(0);
        assert(self@.pending =~= e0.pending.drop_first());
        Some(item)
    }

    /// The index of the first pending entry with this artist and label.
    pub fn first_pending_match(&self, artist: &String, label: &String) -> (r: Option<usize>)
        ensures
            r matches Some(i) ==> first_match_from(self@.state.albums, artist@, label@, 0) == Some(i as int),
            r is None ==> first_match_from(self@.state.albums, artist@, label@, 0) is None,
    {
        let ghost albums = self@.state.albums;
        let n = self.state.albums.len();
        let mut i: usize = 0;
        while i < n
            invariant
                n == albums.len(),
                albums == albums_view(self.state.albums@),
                i <= n,
                first_match_from(albums, artist@, label@, 0) == first_match_from(
                    albums,
                    artist@,
                    label@,
                    i as int,
                ),
            decreases n - i,
        {
            let a = &self.state.albums[i];
            if a.artist == *artist && a.album == *label && a.status == AlbumStatus::Pending {
                return Some(i);
            }
            i = i + 1;
        }
        None
    }

    /// Whether some entry is still pending or downloading.
    pub fn has_unfinished(&self) -> (r: bool)
        ensures
            r == any_unfinished(self@.state.albums),
    {
        let ghost albums = self@.state.albums;
        let n = self.state.albums.len();
        let mut i: usize = 0;
        while i < n
            invariant
                n == albums.len(),
                albums == albums_view(self.state.albums@),
                i <= n,
                forall|j: int| 0 <= j < i ==> !(#[trigger] albums[j]).status.is_unfinished(),
            decreases n - i,
        {
            if !self.state.albums[i].status.is_finished() {
                assert(albums[i as int].status.is_unfinished());
                return true;
            }
            i = i + 1;
        }
        false
    }

    /// Marks every pending or downloading entry as cancelled.
    fn cancel_unfinished(&mut self)
        ensures
            final(self)@ == (EngineView {
                state: DownloadView {
                    albums: old(self)@.state.albums.map_values(|a: AlbumView| cancel_entry(a)),
                    ..old(self)@.state
                },
                ..old(self)@
            }),
    {
        let ghost e0 = self@;
        let n = self.state.albums.len();
        let mut i: usize = 0;
        while i < n
            invariant
                n == e0.state.albums.len(),
                n == self.state.albums@.len(),
                i <= n,
                self.state.is_active == e0.state.is_active,
                self.cancel == e0.cancel,
                self.worker_running == e0.worker_running,
                self.pending_queue@ == e0.pending,
                self.next_id == e0.next_id,
                forall|j: int|
                    0 <= j < i ==> #[trigger] albums_view(self.state.albums@)[j] == cancel_entry(
                        e0.state.albums[j],
                    ),
                forall|j: int|
                    i <= j < n ==> #[trigger] albums_view(self.state.albums@)[j] == e0.state.albums[j],
            decreases n - i,
        {
            if !self.state.albums[i].status.is_finished() {
                let ghost before = self.state.albums@;
                self.state.albums[i].status = AlbumStatus::Cancelled;
                proof {
                    lemma_albums_view_update(before, i as int, self.state.albums@[i as int]);
                    assert(self.state.albums@ == before.update(i as int, self.state.albums@[i as int]));
                    assert(albums_view(self.state.albums@)[i as int] == cancel_entry(e0.state.albums[i as int]));
                }
            } else {
                assert(albums_view(self.state.albums@)[i as int] == cancel_entry(e0.state.albums[i as int]));
            }
            i = i + 1;
        }
        assert(albums_view(self.state.albums@) =~= e0.state.albums.map_values(
            |a: AlbumView| cancel_entry(a),
        ));
    }

    /// One turn of the drain loop, taken under the lock: either the next
    /// item to work on, or the end of the loop. The loop's end and the
    /// emptiness check happen in the same critical section, so an item
    /// enqueued meanwhile is never stranded.
    pub fn next_step(&mut self) -> (r: DrainStep)
        ensures
            (final(self)@, r) == drain_step(old(self)@),
    {
        let ghost e0 = self@;
        if self.cancel {
            self.pending_queue.clear();
            assert(self.pending_queue@ =~= Seq::<QueueItem>::empty());
            self.cancel_unfinished();
            self.state.is_active = false;
            self.worker_running = false;
            return DrainStep::Cancelled;
        }
        if self.pending_queue.len() == 0 {
            self.worker_running = false;
            let done = !self.has_unfinished();
            if done {
                self.state.is_active = false;
            }
            return DrainStep::Finished { all_complete: done };
        }
        let item = self.pending_queue.remove(0);
        assert(self.pending_queue@ =~= e0.pending.drop_first());
        let artist = item.display_artist();
        let label = item.display_label();
        let found = self.first_pending_match(&artist, &label);
        proof {
            lemma_first_match_from(self@.state.albums, artist@, label@, 0);
        }
        match found {
            None => DrainStep::Skipped,
            Some(i) => {
                let ghost before = self.state.albums@;
                self.state.albums[i].status = AlbumStatus::Downloading;
                proof {
                    lemma_albums_view_update(before, i as int, self.state.albums@[i as int]);
                    assert(self.state.albums@ == before.update(i as int, self.state.albums@[i as int]));
                }
                let total = self.state.albums.len();
                let album_id = self.state.albums[i].id;
                DrainStep::Process { item, album_idx: i, album_id, total_albums: total }
            },
        }
    }

    /// The position of the entry with this identity.
    pub fn find_entry(&self, id: u64) -> (r: Option<usize>)
        ensures
            r matches Some(i) ==> i as int == pos_of(self@, id) && i < self@.state.albums.len(),
            r is None ==> pos_of(self@, id) == -1,
    {
        let ghost albums = self@.state.albums;
        let n = self.state.albums.len();
        let mut i: usize = 0;
        while i < n
            invariant
                n == albums.len(),
                albums == albums_view(self.state.albums@),
                i <= n,
                first_id_from(albums, id, 0) == first_id_from(albums, id, i as int),
            decreases n - i,
        {
            if self.state.albums[i].id == id {
                return Some(i);
            }
            i = i + 1;
        }
        None
    }

    /// Records how the work on the entry `id` ended. Only that entry
    /// changes, and only when it is downloading.
    pub fn finish_item(&mut self, id: u64, is_song: bool, outcome: AlbumOutcome)
        ensures
            final(self)@ == finish_spec(old(self)@, id, is_song, outcome),
    {
        let album_idx = match self.find_entry(id) {
            Some(i) => i,
            None => return,
        };
        if self.state.albums[album_idx].status != AlbumStatus::Downloading {
            return;
        }
        let ghost before = self.state.albums@;
        match outcome {
            AlbumOutcome::Complete => {
                self.state.albums[album_idx].status = AlbumStatus::Complete;
                if is_song {
                    self.state.albums[album_idx].completed_tracks = 1;
                }
            },
            AlbumOutcome::Failed(m) => {
                self.state.albums[album_idx].status = AlbumStatus::Error;
                self.state.albums[album_idx].error = Some(m);
            },
            AlbumOutcome::Cancelled => {
                self.state.albums[album_idx].status = AlbumStatus::Cancelled;
            },
        }
        proof {
            lemma_albums_view_update(before, album_idx as int, self.state.albums@[album_idx as int]);
            assert(self.state.albums@ == before.update(album_idx as int, self.state.albums@[album_idx as int]));
        }
    }

    /// Raises the cancellation signal; the run stops at its next checkpoint.
    pub fn cancel(&mut self)
        ensures
            final(self)@ == (EngineView { cancel: true, ..old(self)@ }),
    {
        self.cancel = true;
    }

    /// Removes every complete, failed and cancelled entry from the display
    /// list; when nothing is left, the run is no longer active. The queue is
    /// not touched.
    pub fn clear_finished(&mut self)
        ensures
            final(self)@ == clear_spec(old(self)@),
    {
        let ghost e0 = self@;
        let ghost orig = self.state.albums@;
        let mut rest: Vec<AlbumDownloadState> = Vec::new();
        core::mem::swap(&mut rest, &mut self.state.albums);
        let n = rest.len();
        let mut k: usize = 0;
        assert(orig.subrange(0, 0).map_values(|a: AlbumDownloadState| a@).filter(
            |a: AlbumView| a.status.is_unfinished(),
        ) =~= Seq::empty()) by {
            reveal(Seq::filter);
        }
        while rest.len() > 0
            invariant
                n == orig.len(),
                k + rest@.len() == n,
                rest@ == orig.subrange(k as int, n as int),
                self.state.is_active == e0.state.is_active,
                self.cancel == e0.cancel,
                self.worker_running == e0.worker_running,
                self.pending_queue@ == e0.pending,
                self.next_id == e0.next_id,
                e0.state.albums == albums_view(orig),
                albums_view(self.state.albums@) == unfinished_only(albums_view(orig.subrange(0, k as int))),
            decreases rest.len(),
        {
            let a = rest.remove(0);
            proof {
                assert(albums_view(orig.subrange(0, k + 1)) =~= albums_view(orig).subrange(0, k + 1));
                assert(albums_view(orig.subrange(0, k as int)) =~= albums_view(orig).subrange(0, k as int));
                lemma_filter_extend(albums_view(orig), k as int, |a: AlbumView| a.status.is_unfinished());
                assert(a == orig[k as int]);
                assert(rest@ =~= orig.subrange(k + 1, n as int));
            }
            if !a.status.is_finished() {
                proof {
                    lemma_albums_view_push(self.state.albums@, a);
                }
                self.state.albums.push(a);
            }
            k = k + 1;
        }
        assert(orig.subrange(0, n as int) =~= orig);
        if self.state.albums.len() == 0 {
            self.state.is_active = false;
        }
    }

    /// A consistent copy of the display state.
    pub fn get_status(&self) -> (r: DownloadState)
        ensures
            r@ == self@.state,
    {
        let n = self.state.albums.len();
        let mut albums: Vec<AlbumDownloadState> = Vec::new();
        let mut i: usize = 0;
        while i < n
            invariant
                n == self.state.albums@.len(),
                i <= n,
                albums_view(albums@) == albums_view(self.state.albums@).subrange(0, i as int),
            decreases n - i,
        {
            let a = self.state.albums[i].snapshot();
            proof {
                lemma_albums_view_push(albums@, a);
            }
            albums.push(a);
            proof {
                assert(albums_view(self.state.albums@).subrange(0, i + 1) =~= albums_view(
                    self.state.albums@,
                ).subrange(0, i as int).push(a@));
            }
            i = i + 1;
        }
        assert(albums_view(self.state.albums@).subrange(0, n as int) =~= albums_view(self.state.albums@));
        DownloadState { is_active: self.state.is_active, albums }
    }

    /// Records the number of finished tracks of an entry.
    fn completed_at(&mut self, album_idx: usize, count: usize)
        ensures
            final(self)@ == set_completed_spec(old(self)@, album_idx as int, count),
    {
        if album_idx < self.state.albums.len() {
            let ghost before = self.state.albums@;
            self.state.albums[album_idx].completed_tracks = count;
            proof {
                lemma_albums_view_update(before, album_idx as int, self.state.albums@[album_idx as int]);
                assert(self.state.albums@ == before.update(album_idx as int, self.state.albums@[album_idx as int]));
            }
        }
    }

    /// Records the number of tracks of an entry once it is known.
    fn total_at(&mut self, album_idx: usize, total: usize)
        ensures
            final(self)@ == set_total_spec(old(self)@, album_idx as int, total),
    {
        if album_idx < self.state.albums.len() {
            let ghost before = self.state.albums@;
            self.state.albums[album_idx].total_tracks = total;
            proof {
                lemma_albums_view_update(before, album_idx as int, self.state.albums@[album_idx as int]);
                assert(self.state.albums@ == before.update(album_idx as int, self.state.albums@[album_idx as int]));
            }
        }
    }

    /// Adds an in-flight track to an entry.
    fn add_track_at(&mut self, album_idx: usize, track_idx: usize, track_name: &str, status: TrackStatus)
        ensures
            final(self)@ == add_track_spec(old(self)@, album_idx as int, track_idx, track_name@, status),
    {
        if album_idx < self.state.albums.len() {
            let ghost before = self.state.albums@;
            let ghost tracks_before = self.state.albums@[album_idx as int].active_tracks@;
            let t = ActiveTrack { track_index: track_idx, track_name: String::from_str(track_name), status };
            self.state.albums[album_idx].active_tracks.push(t);
            proof {
                lemma_tracks_view_push(tracks_before, t);
                lemma_albums_view_update(before, album_idx as int, self.state.albums@[album_idx as int]);
                assert(self.state.albums@ == before.update(album_idx as int, self.state.albums@[album_idx as int]));
            }
        }
    }

    /// Moves the first in-flight track with this index to a new stage.
    fn restatus_track_at(&mut self, album_idx: usize, track_idx: usize, status: TrackStatus)
        ensures
            final(self)@ == set_track_status_spec(old(self)@, album_idx as int, track_idx, status),
    {
        if album_idx < self.state.albums.len() {
            let ghost before = self.state.albums@;
            let ghost ts = self.state.albums@[album_idx as int].active_tracks@;
            let m = self.state.albums[album_idx].active_tracks.len();
            let mut j: usize = 0;
            while j < m
                invariant
                    album_idx < self.state.albums@.len(),
                    self.state.albums@ == before,
                    before == old(self).state.albums@,
                    self.state.is_active == old(self).state.is_active,
                    self.cancel == old(self).cancel,
                    self.worker_running == old(self).worker_running,
                    self.pending_queue@ == old(self).pending_queue@,
                    self.next_id == old(self).next_id,
                    ts == self.state.albums@[album_idx as int].active_tracks@,
                    m == ts.len(),
                    j <= m,
                    first_track_from(tracks_view(ts), track_idx, 0) == first_track_from(
                        tracks_view(ts),
                        track_idx,
                        j as int,
                    ),
                decreases m - j,
            {
                if self.state.albums[album_idx].active_tracks[j].track_index == track_idx {
                    assert(first_track_from(tracks_view(ts), track_idx, j as int) == Some(j as int));
                    self.state.albums[album_idx].active_tracks[j].status = status;
                    proof {
                        lemma_tracks_view_update(ts, j as int, self.state.albums@[album_idx as int].active_tracks@[j as int]);
                        assert(self.state.albums@[album_idx as int].active_tracks@ == ts.update(
                            j as int,
                            self.state.albums@[album_idx as int].active_tracks@[j as int],
                        ));
                        lemma_albums_view_update(before, album_idx as int, self.state.albums@[album_idx as int]);
                        assert(self.state.albums@ == before.update(album_idx as int, self.state.albums@[album_idx as int]));
                        let tv = tracks_view(ts);
                        assert(tracks_view(self.state.albums@[album_idx as int].active_tracks@) == restatus_tracks(tv, track_idx, status));
                        let a0 = entry_at(old(self)@, album_idx as int);
                        assert(a0 == before[album_idx as int]@);
                        assert(a0.active_tracks == tv);
                        assert(self.state.albums@[album_idx as int]@ == (AlbumView { active_tracks: restatus_tracks(a0.active_tracks, track_idx, status), ..a0 }));
                        assert(self@.state.albums =~= set_track_status_spec(old(self)@, album_idx as int, track_idx, status).state.albums);
                    }
                    return;
                }
                j = j + 1;
            }
            let ghost a0 = entry_at(old(self)@, album_idx as int);
            assert(a0 == before[album_idx as int]@);
            assert(restatus_tracks(a0.active_tracks, track_idx, status) == a0.active_tracks);
            assert((AlbumView { active_tracks: a0.active_tracks, ..a0 }) == a0);
            assert(set_track_status_spec(old(self)@, album_idx as int, track_idx, status).state.albums
                =~= old(self)@.state.albums);
        }
    }

    /// Drops every in-flight track with this index from an entry.
    fn remove_track_at(&mut self, album_idx: usize, track_idx: usize)
        ensures
            final(self)@ == remove_track_spec(old(self)@, album_idx as int, track_idx),
    {
        if album_idx < self.state.albums.len() {
            let ghost before = self.state.albums@;
            let ghost orig = self.state.albums@[album_idx as int].active_tracks@;
            let mut rest: Vec<ActiveTrack> = Vec::new();
            core::mem::swap(&mut rest, &mut self.state.albums[album_idx].active_tracks);
            let mut kept: Vec<ActiveTrack> = Vec::new();
            let n = rest.len();
            let mut k: usize = 0;
            assert(tracks_view(orig.subrange(0, 0)).filter(
                |t: ActiveTrackView| t.track_index != track_idx,
            ) =~= Seq::empty()) by {
                reveal(Seq::filter);
            }
            while rest.len() > 0
                invariant
                    n == orig.len(),
                    k + rest@.len() == n,
                    rest@ == orig.subrange(k as int, n as int),
                    tracks_view(kept@) == without_track(tracks_view(orig.subrange(0, k as int)), track_idx),
                decreases rest.len(),
            {
                let t = rest.remove(0);
                proof {
                    assert(tracks_view(orig.subrange(0, k + 1)) =~= tracks_view(orig).subrange(0, k + 1));
                    assert(tracks_view(orig.subrange(0, k as int)) =~= tracks_view(orig).subrange(0, k as int));
                    lemma_filter_extend(tracks_view(orig), k as int, |t: ActiveTrackView| t.track_index != track_idx);
                    assert(t == orig[k as int]);
                    assert(rest@ =~= orig.subrange(k + 1, n as int));
                }
                if t.track_index != track_idx {
                    proof {
                        lemma_tracks_view_push(kept@, t);
                    }
                    kept.push(t);
                }
                k = k + 1;
            }
            assert(orig.subrange(0, n as int) =~= orig);
            let ghost mid = self.state.albums@;
            self.state.albums[album_idx].active_tracks = kept;
            proof {
                lemma_albums_view_update(before, album_idx as int, self.state.albums@[album_idx as int]);
                assert(self.state.albums@ =~= before.update(album_idx as int, self.state.albums@[album_idx as int]));
            }
        }
    }

    /// Records the number of finished tracks of the entry `id`.
    pub fn update_album_completed(&mut self, id: u64, count: usize)
        ensures
            final(self)@ == set_completed_spec(old(self)@, pos_of(old(self)@, id), count),
    {
        if let Some(i) = self.find_entry(id) {
            self.completed_at(i, count);
        }
    }

    /// Counts one more finished track of the entry `id`, in the same
    /// critical section that reads the count.
    pub fn count_track_done(&mut self, id: u64)
        ensures
            final(self)@ == count_done_spec(old(self)@, pos_of(old(self)@, id)),
    {
        if let Some(i) = self.find_entry(id) {
            let c = self.state.albums[i].completed_tracks;
            if c < usize::MAX {
                self.completed_at(i, c + 1);
            } else {
                self.completed_at(i, c);
            }
        }
    }

    /// Records the number of tracks of the entry `id` once it is known.
    pub fn set_total_tracks(&mut self, id: u64, total: usize)
        ensures
            final(self)@ == set_total_spec(old(self)@, pos_of(old(self)@, id), total),
    {
        if let Some(i) = self.find_entry(id) {
            self.total_at(i, total);
        }
    }

    /// Adds an in-flight track to the entry `id`.
    pub fn add_active_track(&mut self, id: u64, track_idx: usize, track_name: &str, status: TrackStatus)
        ensures
            final(self)@ == add_track_spec(old(self)@, pos_of(old(self)@, id), track_idx, track_name@, status),
    {
        if let Some(i) = self.find_entry(id) {
            self.add_track_at(i, track_idx, track_name, status);
        }
    }

    /// Moves the first in-flight track with this index of the entry `id` to a
    /// new stage.
    pub fn update_active_track_status(&mut self, id: u64, track_idx: usize, status: TrackStatus)
        ensures
            final(self)@ == set_track_status_spec(old(self)@, pos_of(old(self)@, id), track_idx, status),
    {
        if let Some(i) = self.find_entry(id) {
            self.restatus_track_at(i, track_idx, status);
        }
    }

    /// Drops every in-flight track with this index from the entry `id`.
    pub fn remove_active_track(&mut self, id: u64, track_idx: usize)
        ensures
            final(self)@ == remove_track_spec(old(self)@, pos_of(old(self)@, id), track_idx),
    {
        if let Some(i) = self.find_entry(id) {
            self.remove_track_at(i, track_idx);
        }
    }
}

impl Default for DownloaderState {
    /// An idle engine.
    fn default() -> (r: DownloaderState)
        ensures
            r.0@ == initial_engine(),
    {
        DownloaderState(DownloaderStateInner::new())
    }
}

} // verus!
