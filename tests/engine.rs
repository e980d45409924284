use lumina_downloader::engine::{AlbumOutcome, DownloaderState, DownloaderStateInner, DrainStep};
use lumina_downloader::model::{AlbumRequest, AlbumStatus, QueueItem, SongRequest, TrackStatus};

fn album(artist: &str, title: &str) -> AlbumRequest {
    AlbumRequest {
        artist: artist.to_string(),
        album: title.to_string(),
        year: "1999".to_string(),
        genre: "Rock".to_string(),
        tracks: None,
    }
}

fn song(title: &str, artist: &str) -> SongRequest {
    SongRequest {
        title: title.to_string(),
        artist: artist.to_string(),
        album: String::new(),
        year: String::new(),
        genre: String::new(),
        track_num: None,
    }
}

fn process_id(step: &DrainStep) -> u64 {
    match step {
        DrainStep::Process { album_id, .. } => *album_id,
        other => panic!("expected an item to process, got {:?}", other),
    }
}

fn process_idx(step: &DrainStep) -> usize {
    match step {
        DrainStep::Process { album_idx, .. } => *album_idx,
        other => panic!("expected an item to process, got {:?}", other),
    }
}

#[test]
fn new_engine_is_idle() {
    let e = DownloaderStateInner::new();
    assert!(!e.state.is_active);
    assert!(e.state.albums.is_empty());
    assert!(!e.cancel);
    assert!(!e.worker_running);
    assert!(e.pending_queue.is_empty());
    let d = DownloaderState::default();
    assert!(d.0.state.albums.is_empty());
}

#[test]
fn enqueue_starts_one_worker_only() {
    let mut e = DownloaderStateInner::new();
    assert!(e.enqueue_albums(vec![album("A", "One")]));
    assert!(e.worker_running);
    assert!(e.state.is_active);
    assert_eq!(e.state.albums.len(), 1);
    assert_eq!(e.state.albums[0].status, AlbumStatus::Pending);
    assert_eq!(e.state.albums[0].total_tracks, 0);
    // a second enqueue while the loop runs spawns nothing and queues behind
    assert!(!e.enqueue_albums(vec![album("B", "Two"), album("C", "Three")]));
    assert!(e.worker_running);
    assert_eq!(e.pending_queue.len(), 3);
    assert_eq!(e.state.albums[2].album, "Three");
}

#[test]
fn ensure_worker_clears_cancel_on_fresh_start() {
    let mut e = DownloaderStateInner::new();
    e.cancel();
    assert!(e.cancel);
    assert!(e.ensure_worker());
    assert!(!e.cancel);
    e.cancel();
    assert!(!e.ensure_worker());
    assert!(e.cancel);
}

#[test]
fn songs_are_labelled_singles() {
    let mut e = DownloaderStateInner::new();
    let spawn = e.enqueue_songs(vec![song("Hey", "X")], vec!["vid1".to_string()]);
    assert!(spawn);
    assert_eq!(e.state.albums[0].album, "Hey (Single)");
    assert_eq!(e.state.albums[0].artist, "X");
    assert_eq!(e.state.albums[0].total_tracks, 1);
    match &e.pending_queue[0] {
        QueueItem::Song { song, video_id } => {
            assert_eq!(song.title, "Hey");
            assert_eq!(video_id, "vid1");
        }
        _ => panic!("expected a song"),
    }
}

#[test]
fn drain_processes_in_order() {
    let mut e = DownloaderStateInner::new();
    e.enqueue_albums(vec![album("A", "One"), album("B", "Two")]);
    let s1 = e.next_step();
    let i = process_idx(&s1);
    assert_eq!(i, 0);
    let id1 = process_id(&s1);
    if let DrainStep::Process { item: QueueItem::Album(r), total_albums, .. } = &s1 {
        assert_eq!(r.album, "One");
        assert_eq!(*total_albums, 2);
    } else {
        panic!("expected an album");
    }
    assert_eq!(e.state.albums[0].status, AlbumStatus::Downloading);
    assert_eq!(e.state.albums[1].status, AlbumStatus::Pending);
    e.finish_item(id1, false, AlbumOutcome::Complete);
    assert_eq!(e.state.albums[0].status, AlbumStatus::Complete);
    let s2 = e.next_step();
    assert_eq!(process_idx(&s2), 1);
    assert_eq!(e.state.albums[0].status, AlbumStatus::Complete);
    e.finish_item(process_id(&s2), false, AlbumOutcome::Failed("No release found on MusicBrainz".to_string()));
    assert_eq!(e.state.albums[1].status, AlbumStatus::Error);
    assert_eq!(e.state.albums[1].error.as_deref(), Some("No release found on MusicBrainz"));
    match e.next_step() {
        DrainStep::Finished { all_complete } => assert!(all_complete),
        other => panic!("expected the end, got {:?}", other),
    }
    assert!(!e.worker_running);
    assert!(!e.state.is_active);
}

#[test]
fn song_completion_counts_one_track() {
    let mut e = DownloaderStateInner::new();
    e.enqueue_songs(vec![song("Hey", "X")], vec!["v".to_string()]);
    let id = process_id(&e.next_step());
    e.finish_item(id, true, AlbumOutcome::Complete);
    assert_eq!(e.state.albums[0].completed_tracks, 1);
    assert_eq!(e.state.albums[0].status, AlbumStatus::Complete);
}

#[test]
fn item_without_pending_entry_is_skipped() {
    let mut e = DownloaderStateInner::new();
    e.enqueue_albums(vec![album("A", "One")]);
    e.state.albums[0].status = AlbumStatus::Complete;
    e.clear_finished();
    assert!(matches!(e.next_step(), DrainStep::Skipped));
    assert!(e.pending_queue.is_empty());
}

#[test]
fn cancel_marks_pending_cancelled_not_error() {
    let mut e = DownloaderStateInner::new();
    e.enqueue_albums(vec![album("A", "One"), album("B", "Two"), album("C", "Three")]);
    let id = process_id(&e.next_step());
    e.cancel();
    e.finish_item(id, false, AlbumOutcome::Cancelled);
    assert!(matches!(e.next_step(), DrainStep::Cancelled));
    for a in &e.state.albums {
        assert_eq!(a.status, AlbumStatus::Cancelled);
    }
    assert!(e.pending_queue.is_empty());
    assert!(!e.worker_running);
    assert!(!e.state.is_active);
}

#[test]
fn cancel_keeps_finished_entries() {
    let mut e = DownloaderStateInner::new();
    e.enqueue_albums(vec![album("A", "One"), album("B", "Two")]);
    let id = process_id(&e.next_step());
    e.finish_item(id, false, AlbumOutcome::Complete);
    e.cancel();
    assert!(matches!(e.next_step(), DrainStep::Cancelled));
    assert_eq!(e.state.albums[0].status, AlbumStatus::Complete);
    assert_eq!(e.state.albums[1].status, AlbumStatus::Cancelled);
}

#[test]
fn clear_finished_twice_is_a_no_op() {
    let mut e = DownloaderStateInner::new();
    e.enqueue_albums(vec![album("A", "One"), album("B", "Two"), album("C", "Three")]);
    e.state.albums[0].status = AlbumStatus::Complete;
    e.state.albums[2].status = AlbumStatus::Error;
    e.clear_finished();
    assert_eq!(e.state.albums.len(), 1);
    assert_eq!(e.state.albums[0].album, "Two");
    assert!(e.state.is_active);
    e.clear_finished();
    assert_eq!(e.state.albums.len(), 1);
    assert!(e.state.is_active);
}

#[test]
fn clear_finished_emptying_list_deactivates() {
    let mut e = DownloaderStateInner::new();
    e.enqueue_albums(vec![album("A", "One")]);
    e.state.albums[0].status = AlbumStatus::Cancelled;
    e.clear_finished();
    assert!(e.state.albums.is_empty());
    assert!(!e.state.is_active);
    // the queue is left alone
    assert_eq!(e.pending_queue.len(), 1);
}

#[test]
fn status_snapshot_copies_everything() {
    let mut e = DownloaderStateInner::new();
    e.enqueue_albums(vec![album("A", "One")]);
    let id = e.state.albums[0].id;
    e.add_active_track(id, 2, "Song", TrackStatus::Searching);
    e.set_total_tracks(id, 9);
    let snap = e.get_status();
    assert!(snap.is_active);
    assert_eq!(snap.albums.len(), 1);
    assert_eq!(snap.albums[0].total_tracks, 9);
    assert_eq!(snap.albums[0].active_tracks.len(), 1);
    assert_eq!(snap.albums[0].active_tracks[0].track_name, "Song");
}

#[test]
fn active_track_bookkeeping() {
    let mut e = DownloaderStateInner::new();
    e.enqueue_albums(vec![album("A", "One")]);
    e.add_active_track(0, 0, "a", TrackStatus::Searching);
    e.add_active_track(0, 1, "b", TrackStatus::Searching);
    e.update_active_track_status(0, 1, TrackStatus::Tagging);
    assert_eq!(e.state.albums[0].active_tracks[1].status, TrackStatus::Tagging);
    assert_eq!(e.state.albums[0].active_tracks[0].status, TrackStatus::Searching);
    e.remove_active_track(0, 0);
    assert_eq!(e.state.albums[0].active_tracks.len(), 1);
    assert_eq!(e.state.albums[0].active_tracks[0].track_index, 1);
    e.update_album_completed(0, 4);
    assert_eq!(e.state.albums[0].completed_tracks, 4);
    // an index past the list is ignored
    e.update_album_completed(5, 4);
    e.add_active_track(5, 0, "x", TrackStatus::Searching);
    assert_eq!(e.state.albums.len(), 1);
}

#[test]
fn dequeue_next_takes_the_oldest() {
    let mut e = DownloaderStateInner::new();
    assert!(e.dequeue_next().is_none());
    e.enqueue_albums(vec![album("A", "One"), album("B", "Two")]);
    match e.dequeue_next() {
        Some(QueueItem::Album(r)) => assert_eq!(r.album, "One"),
        _ => panic!("expected the first album"),
    }
    assert_eq!(e.pending_queue.len(), 1);
}

#[test]
fn entries_get_fresh_identities() {
    let mut e = DownloaderStateInner::new();
    e.enqueue_albums(vec![album("A", "One"), album("B", "Two")]);
    e.enqueue_songs(vec![song("S", "X")], vec!["v".to_string()]);
    let ids: Vec<u64> = e.state.albums.iter().map(|a| a.id).collect();
    assert_eq!(ids, vec![0, 1, 2]);
    assert_eq!(e.next_id, 3);
    assert!(e.has_room_for(10));
    e.next_id = u64::MAX - 1;
    assert!(e.has_room_for(1));
    assert!(!e.has_room_for(2));
}

#[test]
fn clear_during_a_run_keeps_the_dispatched_entry() {
    let mut e = DownloaderStateInner::new();
    e.enqueue_albums(vec![album("A", "One"), album("B", "Two"), album("C", "Three")]);
    let first = process_id(&e.next_step());
    e.finish_item(first, false, AlbumOutcome::Complete);
    let step = e.next_step();
    let second = process_id(&step);
    assert_eq!(process_idx(&step), 1);
    // [complete, downloading, pending]; clearing shifts the entry in progress
    e.clear_finished();
    assert_eq!(e.state.albums.len(), 2);
    e.set_total_tracks(second, 4);
    e.count_track_done(second);
    e.finish_item(second, false, AlbumOutcome::Complete);
    assert_eq!(e.state.albums[0].album, "Two");
    assert_eq!(e.state.albums[0].status, AlbumStatus::Complete);
    assert_eq!(e.state.albums[0].total_tracks, 4);
    assert_eq!(e.state.albums[0].completed_tracks, 1);
    assert_eq!(e.state.albums[1].album, "Three");
    assert_eq!(e.state.albums[1].status, AlbumStatus::Pending);
    assert_eq!(process_idx(&e.next_step()), 1);
}

#[test]
fn finish_leaves_entries_that_are_not_downloading() {
    let mut e = DownloaderStateInner::new();
    e.enqueue_albums(vec![album("A", "One")]);
    let id = e.state.albums[0].id;
    e.finish_item(id, false, AlbumOutcome::Complete);
    assert_eq!(e.state.albums[0].status, AlbumStatus::Pending);
    e.finish_item(99, false, AlbumOutcome::Complete);
    assert_eq!(e.state.albums[0].status, AlbumStatus::Pending);
}

#[test]
fn track_counts_accumulate() {
    let mut e = DownloaderStateInner::new();
    e.enqueue_albums(vec![album("A", "One")]);
    let id = e.state.albums[0].id;
    e.count_track_done(id);
    e.count_track_done(id);
    assert_eq!(e.state.albums[0].completed_tracks, 2);
    e.state.albums[0].completed_tracks = usize::MAX;
    e.count_track_done(id);
    assert_eq!(e.state.albums[0].completed_tracks, usize::MAX);
}

#[test]
fn cancel_with_empty_queue_still_cancels() {
    let mut e = DownloaderStateInner::new();
    e.enqueue_albums(vec![album("A", "One")]);
    e.pending_queue.clear();
    e.cancel();
    assert!(matches!(e.next_step(), DrainStep::Cancelled));
    assert_eq!(e.state.albums[0].status, AlbumStatus::Cancelled);
    assert!(!e.worker_running);
}
