use lumina_downloader::discography::{
    albums_from, dedup_by_keys, discography_from, sort_by_year, text_before, ReleaseGroupRecord,
};
use lumina_downloader::metadata::{
    artist_search_url, artists_from, cover_art_url, cover_mime, cover_search_url, download_args,
    format_duration, is_cover_image, media_id_from_output, next_page_offset, release_groups_url,
    release_id_from, release_search_url, release_url, scan_url, search_args, search_hits,
    song_search_args, tracklist_from, watch_url, ArtistRecord, SearchRecord,
};
use lumina_downloader::model::MbAlbum;

fn s(x: &str) -> String {
    x.to_string()
}

#[test]
fn artist_search_encodes_the_name() {
    assert_eq!(
        artist_search_url("Sigur Rós & co"),
        "https://musicbrainz.org/ws/2/artist/?query=Sigur%20R%C3%B3s%20%26%20co&fmt=json&limit=8"
    );
    assert_eq!(
        artist_search_url("a-b_c.d~e"),
        "https://musicbrainz.org/ws/2/artist/?query=a-b_c.d~e&fmt=json&limit=8"
    );
}

#[test]
fn release_searches() {
    assert_eq!(
        release_search_url("Muse", "Absolution"),
        "https://musicbrainz.org/ws/2/release/?query=release%3AAbsolution%20AND%20artist%3AMuse&fmt=json&limit=1"
    );
    assert_eq!(
        cover_search_url("Muse", "Absolution"),
        "https://musicbrainz.org/ws/2/release-group/?query=release%3AAbsolution%20AND%20artist%3AMuse&fmt=json&limit=1"
    );
    assert_eq!(release_url("r1"), "https://musicbrainz.org/ws/2/release/r1?inc=recordings&fmt=json");
    assert_eq!(cover_art_url("g1"), "https://coverartarchive.org/release-group/g1/front-500");
}

#[test]
fn release_group_pages() {
    assert_eq!(
        release_groups_url("id9", 200),
        "https://musicbrainz.org/ws/2/release-group/?artist=id9&fmt=json&limit=100&offset=200"
    );
    assert_eq!(next_page_offset(0, 250), Some(100));
    assert_eq!(next_page_offset(200, 250), None);
    assert_eq!(next_page_offset(0, 100), None);
    assert_eq!(next_page_offset(usize::MAX - 5, u64::MAX), None);
}

#[test]
fn scan_and_watch_urls() {
    assert_eq!(
        scan_url("http://srv", "u", "p"),
        "http://srv/rest/startScan?u=u&p=p&v=1.16.1&c=Lumina&f=json"
    );
    assert_eq!(watch_url("abc"), "https://www.youtube.com/watch?v=abc");
}

#[test]
fn cover_bytes_are_checked() {
    assert!(is_cover_image(&[0xFF, 0xD8, 0, 0]));
    assert!(is_cover_image(&[0x89, 0x50, 0x4E, 0x47]));
    assert!(!is_cover_image(&[0xFF, 0xD8, 0]));
    assert!(!is_cover_image(&[0x00, 0xD8, 0, 0]));
    assert_eq!(cover_mime(&[0x89, 0x50, 0x4E, 0x47]), "image/png");
    assert_eq!(cover_mime(&[0xFF, 0xD8, 0, 0]), "image/jpeg");
}

#[test]
fn release_id_or_error() {
    assert_eq!(release_id_from(Some(s("r"))), Ok(s("r")));
    assert_eq!(release_id_from(None), Err(s("No release found on MusicBrainz")));
}

#[test]
fn tracklist_collects_titles() {
    let media = vec![vec![Some(s("a")), None, Some(s("b"))], vec![], vec![Some(s("c"))]];
    assert_eq!(tracklist_from(&media), Ok(vec![s("a"), s("b"), s("c")]));
    assert_eq!(tracklist_from(&vec![vec![None]]), Err(s("No tracks found on MusicBrainz")));
    assert_eq!(tracklist_from(&vec![]), Err(s("No tracks found on MusicBrainz")));
}

#[test]
fn search_output_is_trimmed() {
    assert_eq!(media_id_from_output(true, "abc123\n"), Some(s("abc123")));
    assert_eq!(media_id_from_output(true, " \n"), None);
    assert_eq!(media_id_from_output(false, "abc"), None);
}

#[test]
fn fetcher_arguments() {
    assert_eq!(search_args("Muse", "Hysteria"), vec![s("--no-update"), s("--print"), s("id"), s("ytsearch1:Muse Hysteria")]);
    assert_eq!(song_search_args("q"), vec![s("--no-update"), s("--flat-playlist"), s("-j"), s("ytsearch10:q")]);
    let plain = download_args("v1", "/o/01-x.%(ext)s", &None);
    assert_eq!(plain.len(), 11);
    assert_eq!(plain[9], "/o/01-x.%(ext)s");
    assert_eq!(plain[10], "https://www.youtube.com/watch?v=v1");
    let with = download_args("v1", "o", &Some(s("/bin")));
    assert_eq!(with.len(), 13);
    assert_eq!(with[11], "--ffmpeg-location");
    assert_eq!(with[12], "/bin");
}

#[test]
fn durations() {
    assert_eq!(format_duration(0), "0:00");
    assert_eq!(format_duration(65), "1:05");
    assert_eq!(format_duration(3600), "60:00");
}

#[test]
fn artists_need_id_and_name() {
    let recs = vec![
        ArtistRecord { id: Some(s("1")), name: Some(s("A")), disambiguation: None },
        ArtistRecord { id: None, name: Some(s("B")), disambiguation: None },
        ArtistRecord { id: Some(s("3")), name: Some(s("C")), disambiguation: Some(s("band")) },
    ];
    let out = artists_from(&recs);
    assert_eq!(out.len(), 2);
    assert_eq!(out[0].name, "A");
    assert_eq!(out[0].disambiguation, "");
    assert_eq!(out[1].disambiguation, "band");
}

#[test]
fn search_hits_need_id_and_title() {
    let recs = vec![
        SearchRecord { id: Some(s("v")), title: Some(s("T")), duration_secs: 125, channel: None, uploader: Some(s("U")) },
        SearchRecord { id: Some(s("")), title: Some(s("T")), duration_secs: 1, channel: None, uploader: None },
        SearchRecord { id: Some(s("w")), title: Some(s("X")), duration_secs: 9, channel: Some(s("C")), uploader: Some(s("U")) },
    ];
    let out = search_hits(&recs);
    assert_eq!(out.len(), 2);
    assert_eq!(out[0].duration, "2:05");
    assert_eq!(out[0].channel, "U");
    assert_eq!(out[1].channel, "C");
    assert_eq!(out[1].duration, "0:09");
}

fn rg(id: &str, title: &str, date: Option<&str>) -> ReleaseGroupRecord {
    ReleaseGroupRecord {
        id: Some(s(id)),
        title: Some(s(title)),
        first_release_date: date.map(s),
        primary_type: Some(s("Album")),
        secondary_types: vec![Some(s("Live")), None],
    }
}

#[test]
fn release_groups_become_albums() {
    let mut recs = vec![rg("1", "A", Some("1999-05-01")), rg("2", "B", None)];
    recs.push(ReleaseGroupRecord { id: None, title: Some(s("C")), first_release_date: None, primary_type: None, secondary_types: vec![] });
    let out = albums_from(&recs);
    assert_eq!(out.len(), 2);
    assert_eq!(out[0].year, "1999");
    assert_eq!(out[0].release_type, "Album");
    assert_eq!(out[0].secondary_types, vec![s("Live")]);
    assert_eq!(out[1].year, "");
}

#[test]
fn text_order() {
    assert!(text_before("1999", "2001"));
    assert!(text_before("", "1"));
    assert!(!text_before("2001", "2001"));
    assert!(text_before("200", "2001"));
}

fn alb(title: &str, year: &str) -> MbAlbum {
    MbAlbum { id: s(title), title: s(title), year: s(year), release_type: s(""), secondary_types: vec![] }
}

#[test]
fn sort_is_stable_by_year() {
    let out = sort_by_year(vec![alb("c", "2001"), alb("a", "1999"), alb("d", "2001"), alb("b", "")]);
    let titles: Vec<&str> = out.iter().map(|a| a.title.as_str()).collect();
    assert_eq!(titles, vec!["b", "a", "c", "d"]);
}

#[test]
fn dedup_drops_repeated_keys() {
    let out = dedup_by_keys(
        vec![alb("x", "1"), alb("X", "1"), alb("y", "1"), alb("x", "2")],
        vec![s("x"), s("x"), s("y"), s("x")],
    );
    let titles: Vec<&str> = out.iter().map(|a| a.title.as_str()).collect();
    assert_eq!(titles, vec!["x", "y", "x"]);
}

#[test]
fn discography_sorts_and_drops_case_duplicates() {
    let recs = vec![
        rg("1", "Live", Some("2003")),
        rg("2", "Origin", Some("2001-01")),
        rg("3", "ORIGIN", Some("2001-09")),
        rg("4", "Showbiz", Some("1999")),
    ];
    let out = discography_from(&recs);
    let titles: Vec<&str> = out.iter().map(|a| a.title.as_str()).collect();
    assert_eq!(titles, vec!["Showbiz", "Origin", "Live"]);
}
