use lumina_downloader::plan::{song_step, SongAction, SongEvent};
use lumina_downloader::engine::{AlbumOutcome, DownloaderStateInner, DrainStep};
use lumina_downloader::model::{AlbumRequest, AlbumStatus, ProgressStage, TrackStatus};
use lumina_downloader::pipeline::{worker_count, TrackAction, TrackEvent, TrackOutcome, TrackPool};
use lumina_downloader::metadata::tracklist_from;

fn req(artist: &str, title: &str, tracks: Option<Vec<String>>) -> AlbumRequest {
    AlbumRequest {
        artist: artist.to_string(),
        album: title.to_string(),
        year: String::new(),
        genre: String::new(),
        tracks,
    }
}

fn names(n: usize) -> Vec<String> {
    (0..n).map(|i| format!("t{i}")).collect()
}

#[test]
fn worker_count_is_at_most_three() {
    assert_eq!(worker_count(0), 0);
    assert_eq!(worker_count(1), 1);
    assert_eq!(worker_count(3), 3);
    assert_eq!(worker_count(12), 3);
}

#[test]
fn pool_never_exceeds_three_in_flight() {
    let mut p = TrackPool::new(names(5));
    let a = p.claim(false).unwrap();
    let b = p.claim(false).unwrap();
    let c = p.claim(false).unwrap();
    assert_eq!((a.0, b.0, c.0), (0, 1, 2));
    assert_eq!(a.1, "t0");
    assert!(p.claim(false).is_none());
    assert_eq!(p.release(TrackOutcome::Done), Some(1));
    let d = p.claim(false).unwrap();
    assert_eq!(d.0, 3);
    assert!(p.claim(false).is_none());
}

#[test]
fn pool_of_two_tracks_has_two_slots() {
    let mut p = TrackPool::new(names(2));
    assert!(p.claim(false).is_some());
    assert!(p.claim(false).is_some());
    assert!(p.claim(false).is_none());
    assert_eq!(p.total(), 2);
}

#[test]
fn pool_counts_only_done_tracks() {
    let mut p = TrackPool::new(names(3));
    p.claim(false);
    p.claim(false);
    p.claim(false);
    assert_eq!(p.release(TrackOutcome::NotFound), None);
    assert_eq!(p.release(TrackOutcome::DownloadFailed), None);
    assert_eq!(p.release(TrackOutcome::Done), Some(1));
    assert_eq!(p.completed(), 1);
    assert!(matches!(p.outcome(), AlbumOutcome::Complete));
}

#[test]
fn pool_stops_after_cancel() {
    let mut p = TrackPool::new(names(4));
    p.claim(false);
    assert!(p.claim(true).is_none());
    assert!(p.claim(false).is_none());
    assert!(matches!(p.outcome(), AlbumOutcome::Cancelled));
    let mut q = TrackPool::new(names(4));
    q.claim(false);
    assert_eq!(q.release(TrackOutcome::Cancelled), None);
    assert!(matches!(q.outcome(), AlbumOutcome::Cancelled));
}

#[test]
fn track_runs_search_download_tag() {
    let mut e = DownloaderStateInner::new();
    e.enqueue_albums(vec![req("A", "One", None)]);
    e.next_step();
    let a = e.track_advance(0, 4, "Song", TrackEvent::Begin { file_exists: false });
    assert!(matches!(a, TrackAction::Search));
    assert_eq!(a.progress_stage(), Some(ProgressStage::Searching));
    assert_eq!(e.state.albums[0].active_tracks[0].status, TrackStatus::Searching);
    let a = e.track_advance(0, 4, "Song", TrackEvent::Searched(Some("vid".to_string())));
    match &a {
        TrackAction::Download { video_id } => assert_eq!(video_id, "vid"),
        _ => panic!("expected a download"),
    }
    assert_eq!(e.state.albums[0].active_tracks[0].status, TrackStatus::Downloading);
    let a = e.track_advance(0, 4, "Song", TrackEvent::Downloaded(true));
    assert!(matches!(a, TrackAction::Tag));
    assert_eq!(e.state.albums[0].active_tracks[0].status, TrackStatus::Tagging);
    let a = e.track_advance(0, 4, "Song", TrackEvent::Tagged);
    assert!(matches!(a, TrackAction::Finish(TrackOutcome::Done)));
    assert_eq!(a.progress_stage(), Some(ProgressStage::Done));
    assert!(e.state.albums[0].active_tracks.is_empty());
}

#[test]
fn track_not_found_and_download_failure() {
    let mut e = DownloaderStateInner::new();
    e.enqueue_albums(vec![req("A", "One", None)]);
    e.track_advance(0, 0, "x", TrackEvent::Begin { file_exists: false });
    let a = e.track_advance(0, 0, "x", TrackEvent::Searched(None));
    assert!(matches!(a, TrackAction::Finish(TrackOutcome::NotFound)));
    assert_eq!(a.progress_stage(), Some(ProgressStage::Error));
    assert_eq!(TrackOutcome::NotFound.error_message().as_deref(), Some("Not found on YouTube"));
    assert!(e.state.albums[0].active_tracks.is_empty());
    e.track_advance(0, 1, "y", TrackEvent::Begin { file_exists: false });
    e.track_advance(0, 1, "y", TrackEvent::Searched(Some("v".to_string())));
    let a = e.track_advance(0, 1, "y", TrackEvent::Downloaded(false));
    assert!(matches!(a, TrackAction::Finish(TrackOutcome::DownloadFailed)));
    assert_eq!(TrackOutcome::DownloadFailed.error_message().as_deref(), Some("Download failed"));
    assert_eq!(TrackOutcome::Done.error_message(), None);
    assert!(e.state.albums[0].active_tracks.is_empty());
}

#[test]
fn cancel_is_checked_between_stages() {
    let mut e = DownloaderStateInner::new();
    e.enqueue_albums(vec![req("A", "One", None)]);
    e.track_advance(0, 0, "x", TrackEvent::Begin { file_exists: false });
    e.cancel();
    let a = e.track_advance(0, 0, "x", TrackEvent::Searched(Some("v".to_string())));
    assert!(matches!(a, TrackAction::Finish(TrackOutcome::Cancelled)));
    assert_eq!(a.progress_stage(), None);
    assert!(e.state.albums[0].active_tracks.is_empty());
    let b = e.track_advance(0, 1, "y", TrackEvent::Begin { file_exists: false });
    assert!(matches!(b, TrackAction::Finish(TrackOutcome::Cancelled)));
    let c = e.track_advance(0, 1, "y", TrackEvent::Downloaded(true));
    assert!(matches!(c, TrackAction::Finish(TrackOutcome::Cancelled)));
}

#[test]
fn present_file_skips_the_fetcher() {
    let mut e = DownloaderStateInner::new();
    e.enqueue_albums(vec![req("A", "One", None)]);
    let a = e.track_advance(0, 0, "x", TrackEvent::Begin { file_exists: true });
    assert!(matches!(a, TrackAction::Finish(TrackOutcome::Done)));
    assert!(e.state.albums[0].active_tracks.is_empty());
}

/// Two albums: the first with both files already present, the second whose
/// tracklist lookup fails.
#[test]
fn two_album_run_scenario() {
    let mut e = DownloaderStateInner::new();
    let spawn = e.enqueue_albums(vec![
        req("A", "Present", Some(vec!["x".to_string(), "y".to_string()])),
        req("B", "Missing", None),
    ]);
    assert!(spawn);
    let mut all_complete_count = 0;
    loop {
        match e.next_step() {
            DrainStep::Process { item, album_id, .. } => {
                let r = match item {
                    lumina_downloader::model::QueueItem::Album(r) => r,
                    _ => panic!("expected albums only"),
                };
                let tracks = match lumina_downloader::plan::explicit_tracks(&r) {
                    Some(t) => Ok(t),
                    None => tracklist_from(&vec![]),
                };
                let outcome = match tracks {
                    Err(m) => AlbumOutcome::Failed(m),
                    Ok(t) => {
                        e.set_total_tracks(album_id, t.len());
                        let mut pool = TrackPool::new(t);
                        while let Some((i, name)) = pool.claim(e.cancel) {
                            let act = e.track_advance(album_id, i, &name, TrackEvent::Begin { file_exists: true });
                            let o = match act {
                                TrackAction::Finish(o) => o,
                                _ => panic!("present files need no fetch"),
                            };
                            if pool.release(o).is_some() {
                                e.count_track_done(album_id);
                            }
                        }
                        pool.outcome()
                    }
                };
                e.finish_item(album_id, false, outcome);
            }
            DrainStep::Skipped => {}
            DrainStep::Cancelled => panic!("nothing was cancelled"),
            DrainStep::Finished { all_complete } => {
                if all_complete {
                    all_complete_count += 1;
                }
                break;
            }
        }
    }
    let a = &e.state.albums[0];
    assert_eq!(a.status, AlbumStatus::Complete);
    assert_eq!(a.completed_tracks, 2);
    assert_eq!(a.total_tracks, 2);
    let b = &e.state.albums[1];
    assert_eq!(b.status, AlbumStatus::Error);
    assert!(!b.error.as_deref().unwrap_or("").is_empty());
    assert!(!e.state.is_active);
    assert_eq!(all_complete_count, 1);
}

#[test]
fn song_steps() {
    assert_eq!(song_step(SongEvent::Begin { file_exists: true }), SongAction::Done);
    assert_eq!(song_step(SongEvent::Begin { file_exists: false }), SongAction::Download);
    assert_eq!(song_step(SongEvent::Downloaded(true)), SongAction::Tag);
    assert_eq!(song_step(SongEvent::Downloaded(false)), SongAction::Failed("Download failed".to_string()));
    assert_eq!(song_step(SongEvent::Tagged), SongAction::Done);
}
