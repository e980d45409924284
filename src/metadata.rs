//! The requests sent to the metadata service, the cover-art archive and the
//! media fetcher, and the reading of what they answer.

use vstd::prelude::*;
use vstd::string::*;
use vstd::utf8::encode_utf8;

use crate::model::{MbAlbum, MbArtist, YtSearchResult};
use crate::text::{decimal, push_decimal, push_two_digits, trim_blanks, trimmed, two_digits};

verus! {

/// Bytes that percent-encoding leaves as they are.
pub open spec fn is_unreserved(b: u8) -> bool {
    (0x30 <= b <= 0x39) || (0x41 <= b <= 0x5A) || (0x61 <= b <= 0x7A) || b == 0x2D || b == 0x2E
        || b == 0x5F || b == 0x7E
}

/// An upper-case hexadecimal digit for `d < 16`.
pub open spec fn hex_digit(d: u8) -> char {
    if d < 10 {
        ((0x30 + d) as u8) as char
    } else {
        ((0x41 + d - 10) as u8) as char
    }
}

/// Every byte but the unreserved ones becomes `%` and two hex digits.
pub open spec fn percent_encoded(bs: Seq<u8>) -> Seq<char>
    decreases bs.len(),
{
    if bs.len() == 0 {
        Seq::empty()
    } else {
        let b = bs[0];
        let head = if is_unreserved(b) {
            seq![b as char]
        } else {
            seq!['%', hex_digit(b / 16), hex_digit(b % 16)]
        };
        head + percent_encoded(bs.drop_first())
    }
}

/// Relies on `urlencoding::encode`: every byte of the UTF-8 text except
/// ASCII letters, digits and `-._~` becomes `%XX` with upper-case hex.
#[verifier::external_body]
fn url_encode(s: &str) -> (r: String)
    ensures
        r@ == percent_encoded(encode_utf8(s@)),
{
    urlencoding::encode(s).into_owned()
}

/// The artist search for a name.
pub fn artist_search_url(artist: &str) -> (r: String)
    ensures
        r@ == "https://musicbrainz.org/ws/2/artist/?query="@ + percent_encoded(encode_utf8(artist@))
            + "&fmt=json&limit=8"@,
{
    let mut s = String::from_str("https://musicbrainz.org/ws/2/artist/?query=");
    let q = url_encode(artist);
    s.append(q.as_str());
    s.append("&fmt=json&limit=8");
    s
}

/// Release groups are listed this many to a page.
pub const PAGE_SIZE: usize = 100;

/// One page of an artist's release groups.
pub fn release_groups_url(artist_id: &str, offset: usize) -> (r: String)
    ensures
        r@ == "https://musicbrainz.org/ws/2/release-group/?artist="@ + artist_id@
            + "&fmt=json&limit=100&offset="@ + decimal(offset as nat),
{
    let mut s = String::from_str("https://musicbrainz.org/ws/2/release-group/?artist=");
    s.append(artist_id);
    s.append("&fmt=json&limit=100&offset=");
    push_decimal(&mut s, offset);
    s
}

/// The offset of the next page, or none when the listing is exhausted.
pub fn next_page_offset(offset: usize, total: u64) -> (r: Option<usize>)
    ensures
        r matches Some(n) ==> n == offset + PAGE_SIZE && (n as int) < total,
        r is None ==> offset + PAGE_SIZE >= total || offset + PAGE_SIZE > usize::MAX,
{
    if offset > usize::MAX - PAGE_SIZE {
        return None;
    }
    let n = offset + PAGE_SIZE;
    if (n as u64) >= total {
        None
    } else {
        Some(n)
    }
}

/// The search text naming a release of an artist.
pub open spec fn release_query(artist: Seq<char>, album: Seq<char>) -> Seq<char> {
    "release:"@ + album + " AND artist:"@ + artist
}

fn release_query_text(artist: &str, album: &str) -> (r: String)
    ensures
        r@ == release_query(artist@, album@),
{
    let mut s = String::from_str("release:");
    s.append(album);
    s.append(" AND artist:");
    s.append(artist);
    s
}

/// The search for the release of an album (for its tracklist).
pub fn release_search_url(artist: &str, album: &str) -> (r: String)
    ensures
        ({
            let q = encode_utf8(release_query(artist@, album@));
            r@ == "https://musicbrainz.org/ws/2/release/?query="@ + percent_encoded(q) + "&fmt=json&limit=1"@
        }),
{
    let q = release_query_text(artist, album);
    let mut s = String::from_str("https://musicbrainz.org/ws/2/release/?query=");
    let e = url_encode(q.as_str());
    s.append(e.as_str());
    s.append("&fmt=json&limit=1");
    s
}


/// A release with its recordings.
pub fn release_url(release_id: &str) -> (r: String)
    ensures
        r@ == "https://musicbrainz.org/ws/2/release/"@ + release_id@ + "?inc=recordings&fmt=json"@,
{
    let mut s = String::from_str("https://musicbrainz.org/ws/2/release/");
    s.append(release_id);
    s.append("?inc=recordings&fmt=json");
    s
}

/// The search for the release group of an album (for its cover).
pub fn cover_search_url(artist: &str, album: &str) -> (r: String)
    ensures
        ({
            let q = encode_utf8(release_query(artist@, album@));
            r@ == "https://musicbrainz.org/ws/2/release-group/?query="@ + percent_encoded(q)
                + "&fmt=json&limit=1"@
        }),
{
    let q = release_query_text(artist, album);
    let mut s = String::from_str("https://musicbrainz.org/ws/2/release-group/?query=");
    let e = url_encode(q.as_str());
    s.append(e.as_str());
    s.append("&fmt=json&limit=1");
    s
}

/// The front cover of a release group in the cover-art archive.
pub fn cover_art_url(release_group_id: &str) -> (r: String)
    ensures
        r@ == "https://coverartarchive.org/release-group/"@ + release_group_id@ + "/front-500"@,
{
    let mut s = String::from_str("https://coverartarchive.org/release-group/");
    s.append(release_group_id);
    s.append("/front-500");
    s
}

/// The request that asks a media server to rescan its library.
pub fn scan_url(server_url: &str, username: &str, password: &str) -> (r: String)
    ensures
        r@ == server_url@ + "/rest/startScan?u="@ + username@ + "&p="@ + password@
            + "&v=1.16.1&c=Lumina&f=json"@,
{
    let mut s = String::from_str(server_url);
    s.append("/rest/startScan?u=");
    s.append(username);
    s.append("&p=");
    s.append(password);
    s.append("&v=1.16.1&c=Lumina&f=json");
    s
}

/// The page of a media identifier.
pub fn watch_url(video_id: &str) -> (r: String)
    ensures
        r@ == "https://www.youtube.com/watch?v="@ + video_id@,
{
    let mut s = String::from_str("https://www.youtube.com/watch?v=");
    s.append(video_id);
    s
}

/// Cover art is accepted only as JPEG (`FF D8`) or PNG (`89 50 4E`), and
/// only when it holds more than three bytes.
pub open spec fn is_cover_image_spec(b: Seq<u8>) -> bool {
    b.len() > 3 && ((b[0] == 0xFF && b[1] == 0xD8) || (b[0] == 0x89 && b[1] == 0x50 && b[2] == 0x4E))
}

pub open spec fn is_png_spec(b: Seq<u8>) -> bool {
    b.len() > 3 && b[0] == 0x89 && b[1] == 0x50 && b[2] == 0x4E
}

pub fn is_cover_image(bytes: &[u8]) -> (r: bool)
    ensures
        r == is_cover_image_spec(bytes@),
{
    bytes.len() > 3 && ((bytes[0] == 0xFF && bytes[1] == 0xD8) || (bytes[0] == 0x89 && bytes[1] == 0x50
        && bytes[2] == 0x4E))
}

/// The MIME type under which cover art is embedded.
pub fn cover_mime(bytes: &[u8]) -> (r: String)
    ensures
        is_png_spec(bytes@) ==> r@ == "image/png"@,
        !is_png_spec(bytes@) ==> r@ == "image/jpeg"@,
{
    if bytes.len() > 3 && bytes[0] == 0x89 && bytes[1] == 0x50 && bytes[2] == 0x4E {
        String::from_str("image/png")
    } else {
        String::from_str("image/jpeg")
    }
}

/// The release found for an album, or the error that none was.
pub fn release_id_from(first: Option<String>) -> (r: Result<String, String>)
    ensures
        first matches Some(id) ==> r == Ok::<String, String>(id),
        first is None ==> (r matches Err(m) && m@ == "No release found on MusicBrainz"@),
{
    match first {
        Some(id) => Ok(id),
        None => Err(String::from_str("No release found on MusicBrainz")),
    }
}

/// The titles of all tracks of all media, in order; tracks without a title
/// are left out.
pub open spec fn titles_of(media: Seq<Seq<Option<String>>>) -> Seq<Seq<char>>
    decreases media.len(),
{
    if media.len() == 0 {
        Seq::empty()
    } else {
        titles_of(media.drop_last()) + titles_in(media.last())
    }
}

pub open spec fn titles_in(tracks: Seq<Option<String>>) -> Seq<Seq<char>>
    decreases tracks.len(),
{
    if tracks.len() == 0 {
        Seq::empty()
    } else {
        let sub = titles_in(tracks.drop_last());
        match tracks.last() {
            Some(t) => sub.push(t@),
            None => sub,
        }
    }
}

pub open spec fn media_view(media: Seq<Vec<Option<String>>>) -> Seq<Seq<Option<String>>> {
    media.map_values(|m: Vec<Option<String>>| m@)
}

/// The tracklist of a release from the titles of its media's tracks; a
/// release without any titled track is an error.
pub fn tracklist_from(media: &Vec<Vec<Option<String>>>) -> (r: Result<Vec<String>, String>)
    ensures
        ({
            let titles = titles_of(media_view(media@));
            &&& titles.len() > 0 ==> (r matches Ok(v) && v@.map_values(|s: String| s@) == titles)
            &&& titles.len() == 0 ==> (r matches Err(m) && m@ == "No tracks found on MusicBrainz"@)
        }),
{
    let mut out: Vec<String> = Vec::new();
    let mut i: usize = 0;
    while i < media.len()
        invariant
            i <= media@.len(),
            out@.map_values(|s: String| s@) == titles_of(media_view(media@.subrange(0, i as int))),
        decreases media@.len() - i,
    {
        let tracks = &media[i];
        let ghost start = out@.map_values(|s: String| s@);
        let mut j: usize = 0;
        while j < tracks.len()
            invariant
                j <= tracks@.len(),
                out@.map_values(|s: String| s@) == start + titles_in(tracks@.subrange(0, j as int)),
            decreases tracks@.len() - j,
        {
            assert(tracks@.subrange(0, j + 1).drop_last() =~= tracks@.subrange(0, j as int));
            assert(tracks@.subrange(0, j + 1).last() == tracks@[j as int]);
            let ghost before = out@;
            match &tracks[j] {
                Some(t) => {
                    out.push(t.clone());
                    assert(out@.map_values(|s: String| s@) =~= before.map_values(|s: String| s@).push(t@));
                },
                None => {},
            }
            assert(out@.map_values(|s: String| s@) =~= start + titles_in(tracks@.subrange(0, j + 1)));
            j = j + 1;
        }
        assert(tracks@.subrange(0, tracks@.len() as int) =~= tracks@);
        assert(media_view(media@.subrange(0, i + 1)).drop_last() =~= media_view(media@.subrange(0, i as int)));
        assert(media_view(media@.subrange(0, i + 1)).last() == tracks@);
        i = i + 1;
    }
    assert(media@.subrange(0, media@.len() as int) =~= media@);
    if out.len() == 0 {
        Err(String::from_str("No tracks found on MusicBrainz"))
    } else {
        Ok(out)
    }
}

/// The media identifier printed by a search, when the search succeeded and
/// printed something besides blanks.
pub fn media_id_from_output(success: bool, stdout: &str) -> (r: Option<String>)
    ensures
        (success && trimmed(stdout@).len() > 0) ==> (r matches Some(id) && id@ == trimmed(stdout@)),
        !(success && trimmed(stdout@).len() > 0) ==> r is None,
{
    if !success {
        return None;
    }
    let id = trim_blanks(stdout);
    if id.as_str().unicode_len() == 0 {
        None
    } else {
        Some(id)
    }
}

pub open spec fn texts_view(v: Seq<String>) -> Seq<Seq<char>> {
    v.map_values(|s: String| s@)
}

/// The fetcher's arguments for finding the single best match of a track.
pub fn search_args(artist: &str, track: &str) -> (r: Vec<String>)
    ensures
        texts_view(r@) == seq![
            "--no-update"@,
            "--print"@,
            "id"@,
            "ytsearch1:"@ + artist@ + " "@ + track@,
        ],
{
    let mut q = String::from_str("ytsearch1:");
    q.append(artist);
    q.append(" ");
    q.append(track);
    let mut v: Vec<String> = Vec::new();
    v.push(String::from_str("--no-update"));
    v.push(String::from_str("--print"));
    v.push(String::from_str("id"));
    v.push(q);
    assert(texts_view(v@) =~= seq!["--no-update"@, "--print"@, "id"@, "ytsearch1:"@ + artist@ + " "@ + track@]);
    v
}

/// The fetcher's arguments for a search that lists ten matches.
pub fn song_search_args(query: &str) -> (r: Vec<String>)
    ensures
        texts_view(r@) == seq!["--no-update"@, "--flat-playlist"@, "-j"@, "ytsearch10:"@ + query@],
{
    let mut q = String::from_str("ytsearch10:");
    q.append(query);
    let mut v: Vec<String> = Vec::new();
    v.push(String::from_str("--no-update"));
    v.push(String::from_str("--flat-playlist"));
    v.push(String::from_str("-j"));
    v.push(q);
    assert(texts_view(v@) =~= seq!["--no-update"@, "--flat-playlist"@, "-j"@, "ytsearch10:"@ + query@]);
    v
}

/// The fixed part of the download arguments: best-quality MP3 audio written
/// to `output`.
pub open spec fn download_args_spec(video_id: Seq<char>, output: Seq<char>) -> Seq<Seq<char>> {
    seq![
        "--no-update"@,
        "--extractor-args"@,
        "youtube:player_client=android"@,
        "-x"@,
        "--audio-format"@,
        "mp3"@,
        "--audio-quality"@,
        "0"@,
        "-o"@,
        output,
        "https://www.youtube.com/watch?v="@ + video_id,
    ]
}

/// The fetcher's arguments for downloading a media identifier; the
/// transcoder's directory is passed on when it is known.
pub fn download_args(video_id: &str, output: &str, ffmpeg_dir: &Option<String>) -> (r: Vec<String>)
    ensures
        ffmpeg_dir is None ==> texts_view(r@) == download_args_spec(video_id@, output@),
        ffmpeg_dir matches Some(d) ==> texts_view(r@) == download_args_spec(video_id@, output@)
            + seq!["--ffmpeg-location"@, d@],
{
    let mut v: Vec<String> = Vec::new();
    v.push(String::from_str("--no-update"));
    v.push(String::from_str("--extractor-args"));
    v.push(String::from_str("youtube:player_client=android"));
    v.push(String::from_str("-x"));
    v.push(String::from_str("--audio-format"));
    v.push(String::from_str("mp3"));
    v.push(String::from_str("--audio-quality"));
    v.push(String::from_str("0"));
    v.push(String::from_str("-o"));
    v.push(String::from_str(output));
    v.push(watch_url(video_id));
    assert(texts_view(v@) =~= download_args_spec(video_id@, output@));
    match ffmpeg_dir {
        Some(d) => {
            v.push(String::from_str("--ffmpeg-location"));
            v.push(d.clone());
            assert(texts_view(v@) =~= download_args_spec(video_id@, output@) + seq!["--ffmpeg-location"@, d@]);
        },
        None => {},
    }
    v
}

/// A duration in whole seconds as `m:ss`; minutes stop at the largest
/// 32-bit value.
pub open spec fn duration_text(secs: u64) -> Seq<char> {
    let m = secs / 60;
    let mins = if m > u32::MAX { u32::MAX as nat } else { m as nat };
    decimal(mins) + seq![':'] + two_digits((secs % 60) as nat)
}

pub fn format_duration(secs: u64) -> (r: String)
    ensures
        r@ == duration_text(secs),
{
    let m = secs / 60;
    let mins: usize = if m > 0xFFFF_FFFF {
        0xFFFF_FFFF
    } else {
        m as usize
    };
    let mut s = String::new();
    push_decimal(&mut s, mins);
    s.append(":");
    push_two_digits(&mut s, (secs % 60) as usize);
    proof {
        reveal_strlit(":");
    }
    assert(s@ =~= duration_text(secs));
    s
}


pub open spec fn or_empty(o: Option<String>) -> Seq<char> {
    match o {
        Some(s) => s@,
        None => Seq::empty(),
    }
}

fn text_or_empty(o: &Option<String>) -> (r: String)
    ensures
        r@ == or_empty(*o),
{
    match o {
        Some(s) => s.clone(),
        None => String::new(),
    }
}

/// An artist as the metadata service describes it; any field may be absent.
#[derive(Debug, Clone)]
pub struct ArtistRecord {
    pub id: Option<String>,
    pub name: Option<String>,
    pub disambiguation: Option<String>,
}

pub struct ArtistView {
    pub id: Seq<char>,
    pub name: Seq<char>,
    pub disambiguation: Seq<char>,
}

impl View for MbArtist {
    type V = ArtistView;

    open spec fn view(&self) -> ArtistView {
        ArtistView { id: self.id@, name: self.name@, disambiguation: self.disambiguation@ }
    }
}

/// A record with an identifier and a name becomes an artist; a missing
/// disambiguation is empty.
pub open spec fn artist_of(r: ArtistRecord) -> Option<ArtistView> {
    match (r.id, r.name) {
        (Some(id), Some(name)) => Some(
            ArtistView { id: id@, name: name@, disambiguation: or_empty(r.disambiguation) },
        ),
        _ => None,
    }
}

pub open spec fn artists_of(recs: Seq<ArtistRecord>) -> Seq<ArtistView>
    decreases recs.len(),
{
    if recs.len() == 0 {
        Seq::empty()
    } else {
        let sub = artists_of(recs.drop_last());
        match artist_of(recs.last()) {
            Some(a) => sub.push(a),
            None => sub,
        }
    }
}

/// The artists of a search answer, in order, without incomplete records.
pub fn artists_from(recs: &Vec<ArtistRecord>) -> (r: Vec<MbArtist>)
    ensures
        r@.map_values(|a: MbArtist| a@) == artists_of(recs@),
{
    let mut out: Vec<MbArtist> = Vec::new();
    let mut i: usize = 0;
    while i < recs.len()
        invariant
            i <= recs@.len(),
            out@.map_values(|a: MbArtist| a@) == artists_of(recs@.subrange(0, i as int)),
        decreases recs@.len() - i,
    {
        let rec = &recs[i];
        assert(recs@.subrange(0, i + 1).drop_last() =~= recs@.subrange(0, i as int));
        assert(recs@.subrange(0, i + 1).last() == recs@[i as int]);
        let ghost before = out@;
        match (&rec.id, &rec.name) {
            (Some(id), Some(name)) => {
                let a = MbArtist {
                    id: id.clone(),
                    name: name.clone(),
                    disambiguation: text_or_empty(&rec.disambiguation),
                };
                out.push(a);
                assert(out@.map_values(|a: MbArtist| a@) =~= before.map_values(|a: MbArtist| a@).push(a@));
            },
            _ => {},
        }
        i = i + 1;
    }
    assert(recs@.subrange(0, recs@.len() as int) =~= recs@);
    out
}

/// A media search hit as the fetcher prints it; any field may be absent.
#[derive(Debug, Clone)]
pub struct SearchRecord {
    pub id: Option<String>,
    pub title: Option<String>,
    /// Whole seconds.
    pub duration_secs: u64,
    pub channel: Option<String>,
    pub uploader: Option<String>,
}

pub struct HitView {
    pub id: Seq<char>,
    pub title: Seq<char>,
    pub duration: Seq<char>,
    pub channel: Seq<char>,
}

impl View for YtSearchResult {
    type V = HitView;

    open spec fn view(&self) -> HitView {
        HitView { id: self.id@, title: self.title@, duration: self.duration@, channel: self.channel@ }
    }
}

/// A hit with a non-empty identifier and title is kept; the channel falls
/// back to the uploader.
pub open spec fn hit_of(r: SearchRecord) -> Option<HitView> {
    let id = or_empty(r.id);
    let title = or_empty(r.title);
    if id.len() > 0 && title.len() > 0 {
        Some(
            HitView {
                id,
                title,
                duration: duration_text(r.duration_secs),
                channel: if r.channel is Some { or_empty(r.channel) } else { or_empty(r.uploader) },
            },
        )
    } else {
        None
    }
}

pub open spec fn hits_of(recs: Seq<SearchRecord>) -> Seq<HitView>
    decreases recs.len(),
{
    if recs.len() == 0 {
        Seq::empty()
    } else {
        let sub = hits_of(recs.drop_last());
        match hit_of(recs.last()) {
            Some(h) => sub.push(h),
            None => sub,
        }
    }
}

/// The usable hits of a search, in order.
pub fn search_hits(recs: &Vec<SearchRecord>) -> (r: Vec<YtSearchResult>)
    ensures
        r@.map_values(|h: YtSearchResult| h@) == hits_of(recs@),
{
    let mut out: Vec<YtSearchResult> = Vec::new();
    let mut i: usize = 0;
    while i < recs.len()
        invariant
            i <= recs@.len(),
            out@.map_values(|h: YtSearchResult| h@) == hits_of(recs@.subrange(0, i as int)),
        decreases recs@.len() - i,
    {
        let rec = &recs[i];
        assert(recs@.subrange(0, i + 1).drop_last() =~= recs@.subrange(0, i as int));
        assert(recs@.subrange(0, i + 1).last() == recs@[i as int]);
        let ghost before = out@;
        let id = text_or_empty(&rec.id);
        let title = text_or_empty(&rec.title);
        if id.as_str().unicode_len() > 0 && title.as_str().unicode_len() > 0 {
            let channel = match &rec.channel {
                Some(c) => c.clone(),
                None => text_or_empty(&rec.uploader),
            };
            let h = YtSearchResult { id, title, duration: format_duration(rec.duration_secs), channel };
            out.push(h);
            assert(out@.map_values(|h: YtSearchResult| h@) =~= before.map_values(|h: YtSearchResult| h@).push(
                h@,
            ));
        }
        i = i + 1;
    }
    assert(recs@.subrange(0, recs@.len() as int) =~= recs@);
    out
}

} // verus!
