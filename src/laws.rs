//! Properties of the engine that hold for every state and input.

use vstd::prelude::*;

use crate::engine::{
    add_track_spec, count_done_spec, remove_track_spec, set_completed_spec, set_total_spec,
    set_track_status_spec, update_entry, clear_spec, drain_step, finish_spec, ids_increasing, lemma_first_match_from, lemma_pos_of_unique,
    lemma_unfinished_ids, pos_of, push_albums, unfinished_only, worker_started, AlbumOutcome, DrainStep,
    EngineView,
};
use crate::model::{AlbumRequest, AlbumStatus, AlbumView, QueueItem, TrackStatus};
use crate::pipeline::{track_step, worker_limit, PoolView, TrackAction, TrackEvent, TrackOutcome};

verus! {

/// Bounded parallelism: in a well-formed pool of `n` tracks at most
/// `min(3, n)` tracks are in flight, and every claim and release keeps the
/// pool well formed, so the bound holds at every point of the run.
pub proof fn lemma_bounded_parallelism(p: PoolView, signal: bool, outcome: TrackOutcome)
    requires
        p.wf(),
    ensures
        p.in_flight <= worker_limit(p.tracks.len()),
        worker_limit(p.tracks.len()) <= 3,
        worker_limit(p.tracks.len()) <= p.tracks.len(),
        p.claim(signal).0.wf(),
        p.in_flight > 0 ==> p.release(outcome).wf(),
{
}

/// Order preservation: the drain loop takes the oldest item first, and when
/// the entry of that item is finished, the next item that starts works on
/// another entry while the first one stays terminal.
pub proof fn lemma_order_preserved(e: EngineView, outcome: AlbumOutcome)
    requires
        e.wf(),
        !e.cancel,
        e.pending.len() >= 2,
        e.state.albums.len() <= usize::MAX,
    ensures
        ({
            let (e1, s1) = drain_step(e);
            &&& e1.pending == e.pending.drop_first()
            &&& (s1 matches DrainStep::Process { item, album_idx, album_id, .. } ==> {
                let i = album_idx as int;
                let e2 = finish_spec(e1, album_id, item.is_song(), outcome);
                let (e3, s2) = drain_step(e2);
                &&& item == e.pending[0]
                &&& album_id == e.state.albums[i].id
                &&& e.state.albums[i].status == AlbumStatus::Pending
                &&& e1.state.albums[i].status == AlbumStatus::Downloading
                &&& e2.state.albums[i].status.is_terminal()
                &&& e3.state.albums[i].status.is_terminal()
                &&& (s2 matches DrainStep::Process { item: item2, album_idx: k, .. } ==> k != album_idx
                    && item2 == e.pending[1])
            })
        }),
{
    let (e1, s1) = drain_step(e);
    assert(e1.pending =~= e.pending.drop_first());
    if let DrainStep::Process { item, album_idx, album_id, .. } = s1 {
        let i = album_idx as int;
        let first = e.pending[0];
        lemma_first_match_from(e.state.albums, first.artist_view(), first.label_view(), 0);
        assert(ids_increasing(e1.state.albums)) by {
            assert forall|x: int, y: int| 0 <= x < y < e1.state.albums.len() implies
                (#[trigger] e1.state.albums[x]).id < (#[trigger] e1.state.albums[y]).id by {
                assert(e.state.albums[x].id < e.state.albums[y].id);
            }
        }
        lemma_pos_of_unique(e1.state.albums, i, 0);
        let e2 = finish_spec(e1, album_id, item.is_song(), outcome);
        let (e3, s2) = drain_step(e2);
        let second = e2.pending[0];
        lemma_first_match_from(e2.state.albums, second.artist_view(), second.label_view(), 0);
        assert(e2.state.albums[i].status.is_terminal());
        if let DrainStep::Process { album_idx: k, .. } = s2 {
            assert(k != album_idx);
        }
    }
}

/// Stable identity: whatever entries are cleared between the start of an
/// item and its end, the end is recorded on the entry that started, which
/// leaves downloading for a terminal status, and on no other entry.
pub proof fn lemma_finish_hits_dispatched_entry(e: EngineView, outcome: AlbumOutcome, is_song: bool)
    requires
        e.wf(),
        !e.cancel,
        e.pending.len() >= 1,
        e.state.albums.len() <= usize::MAX,
    ensures
        ({
            let (e1, s1) = drain_step(e);
            s1 matches DrainStep::Process { album_id, .. } ==> {
                let e2 = clear_spec(e1);
                let e3 = finish_spec(e2, album_id, is_song, outcome);
                let j = pos_of(e2, album_id);
                &&& 0 <= j < e2.state.albums.len()
                &&& e2.state.albums[j].id == album_id
                &&& e2.state.albums[j].status == AlbumStatus::Downloading
                &&& e3.state.albums[j].status.is_terminal()
                &&& e3.state.albums.len() == e2.state.albums.len()
                &&& forall|m: int| 0 <= m < e2.state.albums.len() && m != j ==> #[trigger] e3.state.albums[m]
                    == e2.state.albums[m]
            }
        }),
{
    let (e1, s1) = drain_step(e);
    if let DrainStep::Process { album_idx, album_id, .. } = s1 {
        let i = album_idx as int;
        let first = e.pending[0];
        lemma_first_match_from(e.state.albums, first.artist_view(), first.label_view(), 0);
        assert(ids_increasing(e1.state.albums)) by {
            assert forall|x: int, y: int| 0 <= x < y < e1.state.albums.len() implies
                (#[trigger] e1.state.albums[x]).id < (#[trigger] e1.state.albums[y]).id by {
                assert(e.state.albums[x].id < e.state.albums[y].id);
            }
        }
        assert forall|x: int| 0 <= x < e1.state.albums.len() implies (#[trigger] e1.state.albums[x]).id
            < e1.next_id by {
            assert(e.state.albums[x].id < e.next_id);
        }
        let kept = unfinished_only(e1.state.albums);
        lemma_unfinished_ids(e1.state.albums, e1.next_id);
        let p = |a: AlbumView| a.status.is_unfinished();
        e1.state.albums.lemma_filter_contains(p, i);
        let j = choose|j: int| 0 <= j < kept.len() && kept[j] == e1.state.albums[i];
        lemma_pos_of_unique(kept, j, 0);
    }
}

/// One item at a time: when no entry is downloading, a turn of the drain
/// loop leaves at most the entry it starts downloading, and every other
/// entry keeps a status other than downloading.
pub proof fn lemma_single_in_flight(e: EngineView)
    requires
        forall|j: int| 0 <= j < e.state.albums.len() ==> (#[trigger] e.state.albums[j]).status != AlbumStatus::Downloading,
        e.state.albums.len() <= usize::MAX,
    ensures
        ({
            let (e1, s) = drain_step(e);
            forall|j: int|
                0 <= j < e1.state.albums.len() && (#[trigger] e1.state.albums[j]).status == AlbumStatus::Downloading
                    ==> (s matches DrainStep::Process { album_idx, .. } && j == album_idx)
        }),
{
    if e.pending.len() > 0 && !e.cancel {
        let item = e.pending[0];
        crate::engine::lemma_first_match_from(e.state.albums, item.artist_view(), item.label_view(), 0);
    }
}

/// Mid-run enqueue: while a drain loop runs, enqueueing starts no second
/// loop, keeps the running loop and its queue, and appends the new items
/// behind the old ones, so the running loop does not stop before taking
/// them.
pub proof fn lemma_mid_run_enqueue(e: EngineView, reqs: Seq<AlbumRequest>)
    requires
        e.worker_running,
    ensures
        ({
            let e1 = worker_started(push_albums(e, reqs));
            &&& e1.worker_running
            &&& e1.cancel == e.cancel
            &&& e1.pending == e.pending + reqs.map_values(|r: AlbumRequest| QueueItem::Album(r))
            &&& e1.pending.len() > 0 ==> !(drain_step(e1).1 is Finished)
        }),
{
}

/// Cancellation: once the signal is raised, the next turn of the drain loop
/// drops the queue, turns every pending or downloading entry into a
/// cancelled one (never a failed one) and ends the loop.
pub proof fn lemma_cancel_marks_cancelled(e: EngineView)
    requires
        e.cancel,
    ensures
        ({
            let (e1, s) = drain_step(e);
            &&& s is Cancelled
            &&& e1.pending.len() == 0
            &&& !e1.worker_running
            &&& !e1.state.is_active
            &&& e1.state.albums.len() == e.state.albums.len()
            &&& forall|j: int|
                0 <= j < e.state.albums.len() ==> {
                    &&& (e.state.albums[j].status.is_unfinished() ==> #[trigger] e1.state.albums[j].status
                        == AlbumStatus::Cancelled)
                    &&& (e.state.albums[j].status.is_terminal() ==> e1.state.albums[j] == e.state.albums[j])
                }
        }),
{
}

/// Cancellation: with the signal raised, no step of a track pipeline asks
/// for a search or a download, and a pool hands out no more tracks.
pub proof fn lemma_no_fetch_after_cancel(
    e: EngineView,
    id: u64,
    track_idx: usize,
    name: Seq<char>,
    ev: TrackEvent,
    p: PoolView,
)
    requires
        e.cancel,
    ensures
        !track_step(e, id, track_idx, name, ev).1.contacts_fetcher(),
        p.claim(true).1 is None,
        p.claim(true).0.cancelled,
{
}

proof fn lemma_filter_idempotent<A>(s: Seq<A>, p: spec_fn(A) -> bool)
    ensures
        s.filter(p).filter(p) == s.filter(p),
    decreases s.len(),
{
    reveal(Seq::filter);
    if s.len() > 0 {
        lemma_filter_idempotent(s.drop_last(), p);
        let sub = s.drop_last().filter(p);
        if p(s.last()) {
            let f = sub.push(s.last());
            assert(f.drop_last() =~= sub);
        }
    }
}

/// Clearing finished entries twice in a row changes nothing the second
/// time, and a run whose list it empties is no longer active.
pub proof fn lemma_clear_finished_idempotent(e: EngineView)
    ensures
        clear_spec(clear_spec(e)) == clear_spec(e),
        clear_spec(e).state.albums.len() == 0 ==> !clear_spec(e).state.is_active,
        forall|j: int|
            0 <= j < clear_spec(e).state.albums.len() ==> (#[trigger] clear_spec(
                e,
            ).state.albums[j]).status.is_unfinished(),
{
    lemma_filter_idempotent(e.state.albums, |a: AlbumView| a.status.is_unfinished());
    let kept = unfinished_only(e.state.albums);
    assert forall|j: int| 0 <= j < kept.len() implies (#[trigger] kept[j]).status.is_unfinished() by {
        e.state.albums.lemma_filter_pred(|a: AlbumView| a.status.is_unfinished(), j);
    }
}

/// A pool served by one worker whose every track is already on disk: each
/// round claims the next track and releases it as done.
pub open spec fn serve_present(p: PoolView, k: nat) -> PoolView
    decreases k,
{
    if k == 0 {
        p
    } else {
        serve_present(p.claim(false).0.release(TrackOutcome::Done), (k - 1) as nat)
    }
}

proof fn lemma_serve_present(p: PoolView, k: nat)
    requires
        p.wf(),
        !p.cancelled,
        p.in_flight == 0,
        p.completed == p.next,
        p.next + k <= p.tracks.len(),
    ensures
        serve_present(p, k).completed == p.next + k,
        serve_present(p, k).next == p.next + k,
    decreases k,
{
    if k > 0 {
        lemma_serve_present(p.claim(false).0.release(TrackOutcome::Done), (k - 1) as nat);
    }
}

/// Idempotent skip: a track whose file is already on disk finishes as done
/// at once, without touching the display entry and without any search or
/// download; an album all of whose files are present ends with every track
/// counted complete.
pub proof fn lemma_present_files_skip_fetch(e: EngineView, id: u64, track_idx: usize, name: Seq<char>, p: PoolView)
    requires
        !e.cancel,
        p.wf(),
        !p.cancelled,
        p.next == 0,
        p.in_flight == 0,
        p.completed == 0,
    ensures
        track_step(e, id, track_idx, name, TrackEvent::Begin { file_exists: true }) == (e, TrackAction::Finish(
            TrackOutcome::Done,
        )),
        serve_present(p, p.tracks.len()).completed == p.tracks.len(),
{
    lemma_serve_present(p, p.tracks.len());
}


/// Every track handed out so far either is in flight or finished done.
pub open spec fn all_done_so_far(p: PoolView) -> bool {
    p.completed + p.in_flight == p.next
}

/// Idempotent skip, for any number of workers in any interleaving: while
/// every released track finishes done (as a track whose file is present
/// does), claims and releases keep every handed-out track counted, so once
/// all tracks are handed out and back, every track is counted complete.
pub proof fn lemma_present_files_any_interleaving(p: PoolView)
    requires
        p.wf(),
        all_done_so_far(p),
    ensures
        all_done_so_far(p.claim(false).0),
        p.in_flight > 0 ==> all_done_so_far(p.release(TrackOutcome::Done)),
        (p.next == p.tracks.len() && p.in_flight == 0) ==> p.completed == p.tracks.len(),
{
}

/// Entry identities stay increasing and below the next one to be given
/// through every change the engine makes.
pub proof fn lemma_identities_kept(
    e: EngineView,
    reqs: Seq<AlbumRequest>,
    id: u64,
    is_song: bool,
    outcome: AlbumOutcome,
    track_idx: usize,
    name: Seq<char>,
    st: TrackStatus,
    n: usize,
)
    requires
        e.wf(),
        e.next_id + reqs.len() <= u64::MAX,
    ensures
        count_done_spec(e, pos_of(e, id)).wf(),
        set_completed_spec(e, pos_of(e, id), n).wf(),
        set_total_spec(e, pos_of(e, id), n).wf(),
        add_track_spec(e, pos_of(e, id), track_idx, name, st).wf(),
        set_track_status_spec(e, pos_of(e, id), track_idx, st).wf(),
        remove_track_spec(e, pos_of(e, id), track_idx).wf(),
        worker_started(push_albums(e, reqs)).wf(),
        drain_step(e).0.wf(),
        finish_spec(e, id, is_song, outcome).wf(),
        clear_spec(e).wf(),
{
    let e1 = push_albums(e, reqs);
    assert forall|x: int, y: int| 0 <= x < y < e1.state.albums.len() implies
        (#[trigger] e1.state.albums[x]).id < (#[trigger] e1.state.albums[y]).id by {
        if y >= e.state.albums.len() {
            if x < e.state.albums.len() {
                assert(e.state.albums[x].id < e.next_id);
            }
        } else {
            assert(e.state.albums[x].id < e.state.albums[y].id);
        }
    }
    assert forall|x: int| 0 <= x < e1.state.albums.len() implies (#[trigger] e1.state.albums[x]).id
        < e1.next_id by {
        if x < e.state.albums.len() {
            assert(e.state.albums[x].id < e.next_id);
        }
    }
    let (e2, st) = drain_step(e);
    if !e.cancel && e.pending.len() > 0 {
        let item = e.pending[0];
        lemma_first_match_from(e.state.albums, item.artist_view(), item.label_view(), 0);
    }
    assert(e2.state.albums.len() == e.state.albums.len());
    assert forall|x: int| 0 <= x < e2.state.albums.len() implies (#[trigger] e2.state.albums[x]).id
        == e.state.albums[x].id by {}
    assert forall|x: int, y: int| 0 <= x < y < e2.state.albums.len() implies
        (#[trigger] e2.state.albums[x]).id < (#[trigger] e2.state.albums[y]).id by {
        assert(e.state.albums[x].id < e.state.albums[y].id);
    }
    assert forall|x: int| 0 <= x < e2.state.albums.len() implies (#[trigger] e2.state.albums[x]).id
        < e2.next_id by {
        assert(e.state.albums[x].id < e.next_id);
    }
    let e3 = finish_spec(e, id, is_song, outcome);
    assert forall|x: int, y: int| 0 <= x < y < e3.state.albums.len() implies
        (#[trigger] e3.state.albums[x]).id < (#[trigger] e3.state.albums[y]).id by {
        assert(e.state.albums[x].id < e.state.albums[y].id);
    }
    assert forall|x: int| 0 <= x < e3.state.albums.len() implies (#[trigger] e3.state.albums[x]).id
        < e3.next_id by {
        assert(e.state.albums[x].id < e.next_id);
    }
    lemma_unfinished_ids(e.state.albums, e.next_id);
    let i = pos_of(e, id);
    assert forall|a: AlbumView| a.id == e.state.albums[i].id implies #[trigger] update_entry(e, i, a).wf() by {
        let u = update_entry(e, i, a);
        assert forall|x: int, y: int| 0 <= x < y < u.state.albums.len() implies
            (#[trigger] u.state.albums[x]).id < (#[trigger] u.state.albums[y]).id by {
            assert(e.state.albums[x].id < e.state.albums[y].id);
        }
        assert forall|x: int| 0 <= x < u.state.albums.len() implies (#[trigger] u.state.albums[x]).id
            < u.next_id by {
            assert(e.state.albums[x].id < e.next_id);
        }
    }
}

} // verus!
