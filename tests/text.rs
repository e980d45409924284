use lumina_downloader::paths::expand_home;
use lumina_downloader::plan::{
    album_dirs, explicit_tracks, song_plan, song_progress, track_file_name, track_output_template,
    track_progress,
};
use lumina_downloader::model::{AlbumRequest, ProgressStage, SongRequest};
use lumina_downloader::playback::{RepeatMode, TrackSource};
use lumina_downloader::text::{has_prefix, is_whitespace, push_decimal, push_two_digits, sanitize_filename, trim_blanks};

#[test]
fn sanitize_replaces_unsafe_characters_and_trims() {
    assert_eq!(sanitize_filename("AC/DC"), "AC-DC");
    assert_eq!(sanitize_filename("  What? Why: <Now>|\"*\\  "), "What- Why- -Now-----");
    assert_eq!(sanitize_filename("\u{3000}x\t"), "x");
    assert_eq!(sanitize_filename("   "), "");
    assert_eq!(sanitize_filename(""), "");
}

#[test]
fn trim_drops_unicode_blanks() {
    assert_eq!(trim_blanks(" \u{00A0}a b\u{2029}\n"), "a b");
    assert_eq!(trim_blanks("ab"), "ab");
}

#[test]
fn decimal_and_padding() {
    let mut s = String::new();
    push_decimal(&mut s, 0);
    push_decimal(&mut s, 1234);
    assert_eq!(s, "01234");
    let mut t = String::from("#");
    push_two_digits(&mut t, 7);
    push_two_digits(&mut t, 10);
    push_two_digits(&mut t, 123);
    assert_eq!(t, "#0710123");
}

#[test]
fn prefix_check() {
    assert!(has_prefix("https://x", "https://"));
    assert!(!has_prefix("http", "https://"));
    assert!(has_prefix("anything", ""));
}

#[test]
fn track_file_names() {
    assert_eq!(track_file_name(1, "Intro"), "01-Intro.mp3");
    assert_eq!(track_file_name(12, "A/B "), "12-A-B.mp3");
    assert_eq!(track_output_template(3, "x"), "03-x.%(ext)s");
}

#[test]
fn album_directories() {
    let (a, b) = album_dirs("Sigur Rós", "( )?");
    assert_eq!(a, "Sigur Rós");
    assert_eq!(b, "( )-");
}

#[test]
fn explicit_tracks_only_when_non_empty() {
    let mut r = AlbumRequest {
        artist: "A".into(),
        album: "B".into(),
        year: String::new(),
        genre: String::new(),
        tracks: None,
    };
    assert!(explicit_tracks(&r).is_none());
    r.tracks = Some(vec![]);
    assert!(explicit_tracks(&r).is_none());
    r.tracks = Some(vec!["x".into(), "y".into()]);
    assert_eq!(explicit_tracks(&r), Some(vec!["x".to_string(), "y".to_string()]));
}

#[test]
fn song_without_album_goes_to_singles() {
    let s = SongRequest {
        title: "Hey: You".into(),
        artist: "Pink".into(),
        album: String::new(),
        year: "1979".into(),
        genre: String::new(),
        track_num: None,
    };
    let p = song_plan(&s);
    assert_eq!(p.artist_dir, "Pink");
    assert_eq!(p.album_dir, "Singles");
    assert_eq!(p.track_num, 1);
    assert_eq!(p.file_name, "01-Hey- You.mp3");
    assert_eq!(p.output_template, "01-Hey- You.%(ext)s");
    assert_eq!(p.tag_album, "Singles");
    assert_eq!(p.tag_genre, "Rock");
    assert!(!p.fetch_cover);
}

#[test]
fn song_with_album_keeps_it() {
    let s = SongRequest {
        title: "T".into(),
        artist: "A".into(),
        album: "The/Wall".into(),
        year: String::new(),
        genre: "Prog".into(),
        track_num: Some(14),
    };
    let p = song_plan(&s);
    assert_eq!(p.album_dir, "The-Wall");
    assert_eq!(p.file_name, "14-T.mp3");
    assert_eq!(p.tag_album, "The/Wall");
    assert_eq!(p.tag_genre, "Prog");
    assert!(p.fetch_cover);
}

#[test]
fn progress_records() {
    let r = AlbumRequest {
        artist: "A".into(),
        album: "B".into(),
        year: String::new(),
        genre: String::new(),
        tracks: None,
    };
    let p = track_progress(1, 3, &r, 2, 9, "n", ProgressStage::Error, &Some("Download failed".into()));
    assert_eq!((p.album_index, p.total_albums, p.track_index, p.total_tracks), (1, 3, 2, 9));
    assert_eq!(p.artist, "A");
    assert_eq!(p.album, "B");
    assert_eq!(p.error.as_deref(), Some("Download failed"));
    let s = SongRequest {
        title: "T".into(),
        artist: "A".into(),
        album: String::new(),
        year: String::new(),
        genre: String::new(),
        track_num: None,
    };
    assert_eq!(song_progress(0, 1, &s, ProgressStage::Downloading, true).album, "T (Single)");
    assert_eq!(song_progress(0, 1, &s, ProgressStage::Done, false).album, "T");
}

#[test]
fn repeat_mode_cycles() {
    assert_eq!(RepeatMode::Off.cycle(), RepeatMode::All);
    assert_eq!(RepeatMode::All.cycle(), RepeatMode::One);
    assert_eq!(RepeatMode::One.cycle(), RepeatMode::Off);
    assert_eq!(RepeatMode::default(), RepeatMode::Off);
}

#[test]
fn track_source_from_url() {
    match TrackSource::from_url("https://host/x.mp3") {
        TrackSource::HttpStream { url } => assert_eq!(url, "https://host/x.mp3"),
        _ => panic!("expected a stream"),
    }
    match TrackSource::from_url("http://host") {
        TrackSource::HttpStream { .. } => {}
        _ => panic!("expected a stream"),
    }
    match TrackSource::from_url("/music/a.mp3") {
        TrackSource::LocalFile { path } => assert_eq!(path, "/music/a.mp3"),
        _ => panic!("expected a file"),
    }
    match TrackSource::from_url("httpx://a") {
        TrackSource::LocalFile { .. } => {}
        _ => panic!("expected a file"),
    }
}

#[test]
fn home_expansion() {
    let home = Some("/home/u".to_string());
    assert_eq!(expand_home("~/src", &home), "/home/u/src");
    assert_eq!(expand_home("~", &home), "/home/u");
    assert_eq!(expand_home("~x", &home), "~x");
    assert_eq!(expand_home("/tmp", &home), "/tmp");
    assert_eq!(expand_home("~/src", &None), "~/src");
}

#[test]
fn whitespace_matches_std() {
    for u in 0u32..0x3100 {
        if let Some(c) = char::from_u32(u) {
            assert_eq!(is_whitespace(c), c.is_whitespace(), "U+{:04X}", u);
        }
    }
    assert!(!is_whitespace('x'));
}
