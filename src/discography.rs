//! An artist's discography: release groups read from the metadata service,
//! ordered by year, with repeated titles dropped.

use vstd::prelude::*;
use vstd::string::*;

use crate::metadata::{or_empty, texts_view};
use crate::model::MbAlbum;

verus! {

/// A release group as the metadata service describes it; any field may be
/// absent.
#[derive(Debug, Clone)]
pub struct ReleaseGroupRecord {
    pub id: Option<String>,
    pub title: Option<String>,
    pub first_release_date: Option<String>,
    pub primary_type: Option<String>,
    /// The secondary types; entries that are not text are absent.
    pub secondary_types: Vec<Option<String>>,
}

pub struct AlbumInfoView {
    pub id: Seq<char>,
    pub title: Seq<char>,
    pub year: Seq<char>,
    pub release_type: Seq<char>,
    pub secondary_types: Seq<Seq<char>>,
}

impl View for MbAlbum {
    type V = AlbumInfoView;

    open spec fn view(&self) -> AlbumInfoView {
        AlbumInfoView {
            id: self.id@,
            title: self.title@,
            year: self.year@,
            release_type: self.release_type@,
            secondary_types: texts_view(self.secondary_types@),
        }
    }
}

/// The first four characters of a text (all of it when shorter).
pub open spec fn first_four(s: Seq<char>) -> Seq<char> {
    if s.len() <= 4 {
        s
    } else {
        s.subrange(0, 4)
    }
}

/// The present entries, in order.
pub open spec fn present_texts(v: Seq<Option<String>>) -> Seq<Seq<char>>
    decreases v.len(),
{
    if v.len() == 0 {
        Seq::empty()
    } else {
        let sub = present_texts(v.drop_last());
        match v.last() {
            Some(s) => sub.push(s@),
            None => sub,
        }
    }
}

/// A record with a title and an identifier becomes an album; its year is
/// the start of its first release date.
pub open spec fn album_of(r: ReleaseGroupRecord) -> Option<AlbumInfoView> {
    match (r.title, r.id) {
        (Some(t), Some(id)) => Some(
            AlbumInfoView {
                id: id@,
                title: t@,
                year: first_four(or_empty(r.first_release_date)),
                release_type: or_empty(r.primary_type),
                secondary_types: present_texts(r.secondary_types@),
            },
        ),
        _ => None,
    }
}

pub open spec fn albums_of(recs: Seq<ReleaseGroupRecord>) -> Seq<AlbumInfoView>
    decreases recs.len(),
{
    if recs.len() == 0 {
        Seq::empty()
    } else {
        let sub = albums_of(recs.drop_last());
        match album_of(recs.last()) {
            Some(a) => sub.push(a),
            None => sub,
        }
    }
}

fn present_strings(v: &Vec<Option<String>>) -> (r: Vec<String>)
    ensures
        texts_view(r@) == present_texts(v@),
{
    let mut out: Vec<String> = Vec::new();
    let mut i: usize = 0;
    while i < v.len()
        invariant
            i <= v@.len(),
            texts_view(out@) == present_texts(v@.subrange(0, i as int)),
        decreases v@.len() - i,
    {
        assert(v@.subrange(0, i + 1).drop_last() =~= v@.subrange(0, i as int));
        assert(v@.subrange(0, i + 1).last() == v@[i as int]);
        let ghost before = out@;
        match &v[i] {
            Some(s) => {
                out.push(s.clone());
                assert(texts_view(out@) =~= texts_view(before).push(s@));
            },
            None => {},
        }
        i = i + 1;
    }
    assert(v@.subrange(0, v@.len() as int) =~= v@);
    out
}

fn first_four_of(s: &Option<String>) -> (r: String)
    ensures
        r@ == first_four(or_empty(*s)),
{
    match s {
        Some(t) => {
            let n = t.as_str().unicode_len();
            if n <= 4 {
                t.clone()
            } else {
                String::from_str(t.as_str().substring_char(0, 4))
            }
        },
        None => String::new(),
    }
}

fn or_empty_text(o: &Option<String>) -> (r: String)
    ensures
        r@ == or_empty(*o),
{
    match o {
        Some(s) => s.clone(),
        None => String::new(),
    }
}

/// The albums of the release-group records, in the order given.
pub fn albums_from(recs: &Vec<ReleaseGroupRecord>) -> (r: Vec<MbAlbum>)
    ensures
        r@.map_values(|a: MbAlbum| a@) == albums_of(recs@),
{
    let mut out: Vec<MbAlbum> = Vec::new();
    let mut i: usize = 0;
    while i < recs.len()
        invariant
            i <= recs@.len(),
            out@.map_values(|a: MbAlbum| a@) == albums_of(recs@.subrange(0, i as int)),
        decreases recs@.len() - i,
    {
        let rec = &recs[i];
        assert(recs@.subrange(0, i + 1).drop_last() =~= recs@.subrange(0, i as int));
        assert(recs@.subrange(0, i + 1).last() == recs@[i as int]);
        let ghost before = out@;
        match (&rec.title, &rec.id) {
            (Some(t), Some(id)) => {
                let a = MbAlbum {
                    id: id.clone(),
                    title: t.clone(),
                    year: first_four_of(&rec.first_release_date),
                    release_type: or_empty_text(&rec.primary_type),
                    secondary_types: present_strings(&rec.secondary_types),
                };
                out.push(a);
                assert(out@.map_values(|a: MbAlbum| a@) =~= before.map_values(|a: MbAlbum| a@).push(a@));
            },
            _ => {},
        }
        i = i + 1;
    }
    assert(recs@.subrange(0, recs@.len() as int) =~= recs@);
    out
}

/// `a` comes strictly before `b` in character order.
pub open spec fn text_less(a: Seq<char>, b: Seq<char>) -> bool
    decreases a.len(),
{
    if a.len() == 0 {
        b.len() > 0
    } else if b.len() == 0 {
        false
    } else if a[0] != b[0] {
        a[0] < b[0]
    } else {
        text_less(a.drop_first(), b.drop_first())
    }
}

pub fn text_before(a: &str, b: &str) -> (r: bool)
    ensures
        r == text_less(a@, b@),
{
    let n = a.unicode_len();
    let m = b.unicode_len();
    let mut i: usize = 0;
    assert(a@.subrange(0, n as int) =~= a@);
    assert(b@.subrange(0, m as int) =~= b@);
    while i < n && i < m
        invariant
            n == a@.len(),
            m == b@.len(),
            i <= n,
            i <= m,
            text_less(a@, b@) == text_less(a@.subrange(i as int, n as int), b@.subrange(i as int, m as int)),
        decreases n - i,
    {
        let x = a.get_char(i);
        let y = b.get_char(i);
        assert(a@.subrange(i as int, n as int)[0] == x);
        assert(b@.subrange(i as int, m as int)[0] == y);
        if x != y {
            return x < y;
        }
        assert(a@.subrange(i as int, n as int).drop_first() =~= a@.subrange(i + 1, n as int));
        assert(b@.subrange(i as int, m as int).drop_first() =~= b@.subrange(i + 1, m as int));
        i = i + 1;
    }
    i == n && i < m
}

/// Inserts `x` into a list ordered by year, after every entry whose year
/// does not come after its own.
pub open spec fn insert_by_year(s: Seq<AlbumInfoView>, x: AlbumInfoView) -> Seq<AlbumInfoView>
    decreases s.len(),
{
    if s.len() == 0 {
        seq![x]
    } else if text_less(x.year, s.last().year) {
        insert_by_year(s.drop_last(), x).push(s.last())
    } else {
        s.push(x)
    }
}

/// The albums ordered by year; albums of the same year keep their order.
pub open spec fn sorted_by_year(s: Seq<AlbumInfoView>) -> Seq<AlbumInfoView>
    decreases s.len(),
{
    if s.len() == 0 {
        s
    } else {
        insert_by_year(sorted_by_year(s.drop_last()), s.last())
    }
}

proof fn lemma_insert_at(s: Seq<AlbumInfoView>, x: AlbumInfoView, j: int)
    requires
        0 <= j <= s.len(),
        forall|m: int| j <= m < s.len() ==> text_less(x.year, (#[trigger] s[m]).year),
        j == 0 || !text_less(x.year, s[j - 1].year),
    ensures
        insert_by_year(s, x) == s.subrange(0, j).push(x) + s.subrange(j, s.len() as int),
    decreases s.len(),
{
    if s.len() == j {
        if s.len() == 0 {
            assert(s.subrange(0, j).push(x) + s.subrange(j, s.len() as int) =~= seq![x]);
        } else {
            assert(s.subrange(0, j) =~= s);
            assert(s.subrange(0, j).push(x) + s.subrange(j, s.len() as int) =~= s.push(x));
        }
    } else {
        let t = s.drop_last();
        assert forall|m: int| j <= m < t.len() implies text_less(x.year, (#[trigger] t[m]).year) by {
            assert(t[m] == s[m]);
        }
        lemma_insert_at(t, x, j);
        assert(t.subrange(0, j) =~= s.subrange(0, j));
        assert(s.subrange(j, s.len() as int) =~= t.subrange(j, t.len() as int).push(s.last()));
        assert(insert_by_year(s, x) =~= s.subrange(0, j).push(x) + s.subrange(j, s.len() as int));
    }
}

pub open spec fn albums_view(v: Seq<MbAlbum>) -> Seq<AlbumInfoView> {
    v.map_values(|a: MbAlbum| a@)
}

/// Orders albums by year, keeping the order of albums of the same year.
pub fn sort_by_year(albums: Vec<MbAlbum>) -> (r: Vec<MbAlbum>)
    ensures
        albums_view(r@) == sorted_by_year(albums_view(albums@)),
{
    let ghost orig = albums@;
    let mut rest = albums;
    let mut out: Vec<MbAlbum> = Vec::new();
    let n = rest.len();
    let mut k: usize = 0;
    while rest.len() > 0
        invariant
            n == orig.len(),
            k + rest@.len() == n,
            rest@ == orig.subrange(k as int, n as int),
            albums_view(out@) == sorted_by_year(albums_view(orig.subrange(0, k as int))),
        decreases rest.len(),
    {
        let x = rest.remove(0);
        let ghost s = albums_view(out@);
        let mut j: usize = out.len();
        while j > 0 && text_before(x.year.as_str(), out[j - 1].year.as_str())
            invariant
                j <= out@.len(),
                s == albums_view(out@),
                forall|m: int| j <= m < s.len() ==> text_less(x@.year, (#[trigger] s[m]).year),
            decreases j,
        {
            j = j - 1;
        }
        proof {
            lemma_insert_at(s, x@, j as int);
        }
        out.insert(j, x);
        proof {
            assert(albums_view(out@) =~= s.subrange(0, j as int).push(x@) + s.subrange(j as int, s.len() as int));
            assert(orig.subrange(0, k + 1).drop_last() =~= orig.subrange(0, k as int));
            assert(albums_view(orig.subrange(0, k + 1)).drop_last() =~= albums_view(orig.subrange(0, k as int)));
            assert(x == orig[k as int]);
            assert(albums_view(orig.subrange(0, k + 1)).last() == x@);
            assert(rest@ =~= orig.subrange(k + 1, n as int));
        }
        k = k + 1;
    }
    assert(orig.subrange(0, n as int) =~= orig);
    out
}

/// Keeps an album unless its key equals the key of the album kept last.
pub open spec fn dedup_keyed(s: Seq<(AlbumInfoView, Seq<char>)>) -> Seq<(AlbumInfoView, Seq<char>)>
    decreases s.len(),
{
    if s.len() == 0 {
        s
    } else {
        let d = dedup_keyed(s.drop_last());
        if d.len() > 0 && d.last().1 == s.last().1 {
            d
        } else {
            d.push(s.last())
        }
    }
}

pub open spec fn keyed(albums: Seq<AlbumInfoView>, keys: Seq<Seq<char>>) -> Seq<(AlbumInfoView, Seq<char>)> {
    Seq::new(albums.len(), |i: int| (albums[i], keys[i]))
}

pub open spec fn firsts(s: Seq<(AlbumInfoView, Seq<char>)>) -> Seq<AlbumInfoView> {
    s.map_values(|p: (AlbumInfoView, Seq<char>)| p.0)
}

/// Drops each album whose key equals that of the album kept before it.
pub fn dedup_by_keys(albums: Vec<MbAlbum>, keys: Vec<String>) -> (r: Vec<MbAlbum>)
    requires
        albums@.len() == keys@.len(),
    ensures
        albums_view(r@) == firsts(dedup_keyed(keyed(albums_view(albums@), texts_view(keys@)))),
{
    let ghost orig = albums@;
    let ghost ks = texts_view(keys@);
    let ghost all = keyed(albums_view(orig), ks);
    let mut rest = albums;
    let mut out: Vec<MbAlbum> = Vec::new();
    let mut last_key: Option<String> = None;
    let n = rest.len();
    let mut k: usize = 0;
    while rest.len() > 0
        invariant
            n == orig.len(),
            n == keys@.len(),
            ks == texts_view(keys@),
            all == keyed(albums_view(orig), ks),
            k + rest@.len() == n,
            rest@ == orig.subrange(k as int, n as int),
            albums_view(out@) == firsts(dedup_keyed(all.subrange(0, k as int))),
            match last_key {
                None => dedup_keyed(all.subrange(0, k as int)).len() == 0,
                Some(lk) => dedup_keyed(all.subrange(0, k as int)).len() > 0 && lk@ == dedup_keyed(
                    all.subrange(0, k as int),
                ).last().1,
            },
        decreases rest.len(),
    {
        let x = rest.remove(0);
        let key = keys[k].clone();
        let ghost d = dedup_keyed(all.subrange(0, k as int));
        proof {
            assert(all.subrange(0, k + 1).drop_last() =~= all.subrange(0, k as int));
            assert(all.subrange(0, k + 1).last() == (x@, key@));
            assert(rest@ =~= orig.subrange(k + 1, n as int));
        }
        let same = match &last_key {
            Some(lk) => *lk == key,
            None => false,
        };
        if !same {
            let ghost before = out@;
            out.push(x);
            assert(albums_view(out@) =~= albums_view(before).push(x@));
            assert(firsts(d.push((x@, key@))) =~= firsts(d).push(x@));
            last_key = Some(key);
        }
        k = k + 1;
    }
    assert(all.subrange(0, n as int) =~= all);
    out
}

/// Relies on `str::to_lowercase`: the result depends on the text alone.
#[verifier::external_body]
fn lowercase(s: &str) -> (r: String)
    ensures
        r@ == lower_of(s@),
{
    s.to_lowercase()
}

/// The lower-case form of a text, as `str::to_lowercase` computes it.
pub uninterp spec fn lower_of(s: Seq<char>) -> Seq<char>;

/// The discography from the release-group records: albums ordered by year,
/// then each album whose lower-cased title equals that of the album kept
/// before it dropped.
pub fn discography_from(recs: &Vec<ReleaseGroupRecord>) -> (r: Vec<MbAlbum>)
    ensures
        ({
            let sorted = sorted_by_year(albums_of(recs@));
            albums_view(r@) == firsts(
                dedup_keyed(keyed(sorted, sorted.map_values(|a: AlbumInfoView| lower_of(a.title)))),
            )
        }),
{
    let sorted = sort_by_year(albums_from(recs));
    let mut keys: Vec<String> = Vec::new();
    let mut i: usize = 0;
    while i < sorted.len()
        invariant
            i <= sorted@.len(),
            texts_view(keys@) == albums_view(sorted@).subrange(0, i as int).map_values(
                |a: AlbumInfoView| lower_of(a.title),
            ),
        decreases sorted@.len() - i,
    {
        let key = lowercase(sorted[i].title.as_str());
        let ghost before = keys@;
        keys.push(key);
        assert(texts_view(keys@) =~= texts_view(before).push(key@));
        assert(albums_view(sorted@)[i as int].title == sorted@[i as int].title@);
        assert(texts_view(keys@) =~= albums_view(sorted@).subrange(0, i + 1).map_values(
            |a: AlbumInfoView| lower_of(a.title),
        ));
        i = i + 1;
    }
    let ghost sv = albums_view(sorted@);
    assert(sv.subrange(0, sv.len() as int) =~= sv);
    dedup_by_keys(sorted, keys)
}

} // verus!
