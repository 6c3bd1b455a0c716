//! Turning a detected chart's identity into the display record that
//! subscribers receive: plain metadata, one per-difficulty entry,
//! and the cover image inlined as a base64 data URL. Reading the
//! cover file from disk is the surrounding application's work; the
//! bytes come in as an argument.
use base64::Engine;
use vstd::prelude::*;

use crate::monitor::ChartIdentity;

verus! {

/// One rating shown on a difficulty entry, in milli-points.
#[derive(Clone, Debug)]
pub struct RatingInfo {
    pub rating_type: String,
    pub rating_value: u64,
}

impl Default for RatingInfo {
    /// The placeholder rating entry.
    fn default() -> (r: RatingInfo)
        ensures
            r.rating_type@ == "osu"@,
            r.rating_value == 5000,
    {
        let mut name = String::new();
        name.append("osu");
        proof {
            assert(name@ =~= "osu"@);
        }
        RatingInfo { rating_type: name, rating_value: 5000 }
    }
}

/// One difficulty of a chart set, as shown to subscribers.
#[derive(Clone, Debug)]
pub struct BeatmapInfo {
    pub beatmap_osu_id: i32,
    pub name: String,
    pub count_circles: i32,
    pub count_sliders: i32,
    pub count_spinners: i32,
    pub od_tenths: u32,
    pub hp_tenths: u32,
    pub ratings: Vec<RatingInfo>,
}

impl Default for BeatmapInfo {
    /// The placeholder difficulty entry.
    fn default() -> (r: BeatmapInfo)
        ensures
            r.beatmap_osu_id == 123456,
            r.name@ == "Test Difficulty"@,
            r.count_circles == 100,
            r.count_sliders == 50,
            r.count_spinners == 5,
            r.od_tenths == 80,
            r.hp_tenths == 75,
            r.ratings@.len() == 0,
    {
        let mut name = String::new();
        name.append("Test Difficulty");
        proof {
            assert(name@ =~= "Test Difficulty"@);
        }
        BeatmapInfo {
            beatmap_osu_id: 123456,
            name,
            count_circles: 100,
            count_sliders: 50,
            count_spinners: 5,
            od_tenths: 80,
            hp_tenths: 75,
            ratings: Vec::new(),
        }
    }
}

/// A chart set as shown to subscribers: metadata, flags, optional
/// artwork links, and its difficulty entries.
#[derive(Clone, Debug)]
pub struct Beatmapset {
    pub id: Option<i32>,
    pub osu_id: Option<i32>,
    pub artist: String,
    pub artist_unicode: Option<String>,
    pub title: String,
    pub title_unicode: Option<String>,
    pub creator: String,
    pub source: Option<String>,
    pub tags: Option<Vec<String>>,
    pub has_video: bool,
    pub has_storyboard: bool,
    pub is_explicit: bool,
    pub is_featured: bool,
    pub cover_url: Option<String>,
    pub preview_url: Option<String>,
    pub osu_file_url: Option<String>,
    pub beatmaps: Vec<BeatmapInfo>,
}

impl Default for Beatmapset {
    /// The placeholder chart set.
    fn default() -> (r: Beatmapset)
        ensures
            r.id is None,
            r.osu_id == Some(123456i32),
            r.artist@ == "Test Artist"@,
            r.artist_unicode is None,
            r.title@ == "Test Song"@,
            r.title_unicode is None,
            r.creator@ == "Test Mapper"@,
            r.source is None,
            r.tags is None,
            !r.has_video,
            !r.has_storyboard,
            !r.is_explicit,
            !r.is_featured,
            r.cover_url is None,
            r.preview_url is None,
            r.osu_file_url is None,
            r.beatmaps@.len() == 0,
    {
        let mut artist = String::new();
        artist.append("Test Artist");
        let mut title = String::new();
        title.append("Test Song");
        let mut creator = String::new();
        creator.append("Test Mapper");
        proof {
            assert(artist@ =~= "Test Artist"@);
            assert(title@ =~= "Test Song"@);
            assert(creator@ =~= "Test Mapper"@);
        }
        Beatmapset {
            id: None,
            osu_id: Some(123456),
            artist,
            artist_unicode: None,
            title,
            title_unicode: None,
            creator,
            source: None,
            tags: None,
            has_video: false,
            has_storyboard: false,
            is_explicit: false,
            is_featured: false,
            cover_url: None,
            preview_url: None,
            osu_file_url: None,
            beatmaps: Vec::new(),
        }
    }
}

/// What base64's standard alphabet, with padding, encodes a byte
/// sequence to: a function of the bytes alone.
pub uninterp spec fn base64_of(bytes: Seq<u8>) -> Seq<char>;

/// Relies on base64's `STANDARD` engine `encode`: the padded
/// standard-alphabet encoding, four characters for every three
/// bytes. The length bound keeps the encoded size within `usize`,
/// which the engine otherwise refuses.
#[verifier::external_body]
fn base64_encode(bytes: &Vec<u8>) -> (r: String)
    requires
        bytes@.len() <= usize::MAX as nat / 8,
    ensures
        r@ == base64_of(bytes@),
        r@.len() == 4 * ((bytes@.len() + 2) / 3),
{
    base64::engine::general_purpose::STANDARD.encode(bytes)
}

/// Joins the songs directory, a chart folder and a file name with
/// `/` separators, the shape every chart-relative path takes.
pub fn joined_path(base: &str, folder: &str, file: &str) -> (r: String)
    ensures
        r@ == base@ + "/"@ + folder@ + "/"@ + file@,
{
    let mut s = String::new();
    s.append(base);
    s.append("/");
    s.append(folder);
    s.append("/");
    s.append(file);
    proof {
        assert(s@ =~= base@ + "/"@ + folder@ + "/"@ + file@);
    }
    s
}

/// Builds the display record of a detected chart: title, artist and
/// creator carried over, one difficulty entry with the counts and
/// settings, no ratings yet (they are attached after computation),
/// and the cover bytes, when read, inlined as a JPEG data URL. The
/// remaining fields keep their placeholder defaults.
pub fn serialize_beatmap(info: &ChartIdentity, cover: Option<&Vec<u8>>) -> (b: Beatmapset)
    requires
        cover matches Some(c) ==> c@.len() <= usize::MAX as nat / 8,
    ensures
        b.title@ == info.title@,
        b.artist@ == info.artist@,
        b.creator@ == info.creator@,
        match cover {
            None => b.cover_url is None,
            Some(c) => b.cover_url matches Some(u) && u@ == "data:image/jpeg;base64,"@
                + base64_of(c@),
        },
        b.beatmaps@.len() == 1,
        b.beatmaps@[0].beatmap_osu_id == info.beatmap_id,
        b.beatmaps@[0].name@ == info.difficulty@,
        b.beatmaps@[0].count_circles == info.object_count,
        b.beatmaps@[0].count_sliders == info.slider_count,
        b.beatmaps@[0].count_spinners == 0,
        b.beatmaps@[0].od_tenths == info.od_tenths,
        b.beatmaps@[0].hp_tenths == info.hp_tenths,
        b.beatmaps@[0].ratings@.len() == 0,
        b.id is None,
        b.osu_id == Some(123456i32),
        b.artist_unicode is None,
        b.title_unicode is None,
        b.source is None,
        b.tags is None,
        !b.has_video,
        !b.has_storyboard,
        !b.is_explicit,
        !b.is_featured,
        b.preview_url is None,
        b.osu_file_url is None,
{
    let mut b = Beatmapset::default();
    b.title = info.title.clone();
    b.artist = info.artist.clone();
    b.creator = info.creator.clone();
    b.cover_url = match cover {
        None => None,
        Some(bytes) => {
            let encoded = base64_encode(bytes);
            let mut url = String::new();
            url.append("data:image/jpeg;base64,");
            url.append(encoded.as_str());
            proof {
                assert(url@ =~= "data:image/jpeg;base64,"@ + base64_of(bytes@));
            }
            Some(url)
        },
    };
    let mut entry = BeatmapInfo::default();
    entry.beatmap_osu_id = info.beatmap_id;
    entry.name = info.difficulty.clone();
    entry.count_circles = info.object_count;
    entry.count_sliders = info.slider_count;
    entry.count_spinners = 0;
    entry.od_tenths = info.od_tenths;
    entry.hp_tenths = info.hp_tenths;
    entry.ratings = Vec::new();
    let mut beatmaps: Vec<BeatmapInfo> = Vec::new();
    beatmaps.push(entry);
    b.beatmaps = beatmaps;
    b
}

/// Builds the demonstration chart set for a counter: placeholder
/// data with the counter woven into the names and the id.
pub fn build_demo_beatmap(counter: u32) -> (b: Beatmapset)
    requires
        100000 + counter <= i32::MAX,
    ensures
        b.artist@ == "Demo Artist "@ + crate::strings::dec_of(counter as nat),
        b.title@ == "Demo Song "@ + crate::strings::dec_of(counter as nat),
        b.creator@ == "Demo Mapper "@ + crate::strings::dec_of(counter as nat),
        b.osu_id == Some((100000 + counter) as i32),
        b.beatmaps@.len() == 0,
{
    let mut b = Beatmapset::default();
    let digits = crate::strings::u64_to_dec(counter as u64);
    let mut artist = String::new();
    artist.append("Demo Artist ");
    artist.append(digits.as_str());
    let mut title = String::new();
    title.append("Demo Song ");
    title.append(digits.as_str());
    let mut creator = String::new();
    creator.append("Demo Mapper ");
    creator.append(digits.as_str());
    proof {
        assert(artist@ =~= "Demo Artist "@ + crate::strings::dec_of(counter as nat));
        assert(title@ =~= "Demo Song "@ + crate::strings::dec_of(counter as nat));
        assert(creator@ =~= "Demo Mapper "@ + crate::strings::dec_of(counter as nat));
    }
    b.artist = artist;
    b.title = title;
    b.creator = creator;
    b.osu_id = Some(100000 + counter as i32);
    b
}

/// Copies a rating entry.
pub fn clone_rating_info(r: &RatingInfo) -> (c: RatingInfo)
    ensures
        c == *r,
{
    RatingInfo { rating_type: r.rating_type.clone(), rating_value: r.rating_value }
}

fn clone_opt_string(o: &Option<String>) -> (r: Option<String>)
    ensures
        r == *o,
{
    match o {
        None => None,
        Some(s) => Some(s.clone()),
    }
}

fn clone_string_vec(v: &Vec<String>) -> (r: Vec<String>)
    ensures
        r@ == v@,
{
    let mut out: Vec<String> = Vec::new();
    let mut i: usize = 0;
    while i < v.len()
        invariant
            i <= v@.len(),
            out@ == v@.subrange(0, i as int),
        decreases v@.len() - i,
    {
        out.push(v[i].clone());
        i += 1;
        proof {
            assert(out@ =~= v@.subrange(0, i as int));
        }
    }
    proof {
        assert(out@ =~= v@);
    }
    out
}

/// Field-for-field equality of two difficulty entries.
pub open spec fn info_like(a: BeatmapInfo, b: BeatmapInfo) -> bool {
    &&& a.beatmap_osu_id == b.beatmap_osu_id
    &&& a.name == b.name
    &&& a.count_circles == b.count_circles
    &&& a.count_sliders == b.count_sliders
    &&& a.count_spinners == b.count_spinners
    &&& a.od_tenths == b.od_tenths
    &&& a.hp_tenths == b.hp_tenths
    &&& a.ratings@ == b.ratings@
}

/// Copies a difficulty entry.
pub fn clone_beatmap_info(b: &BeatmapInfo) -> (c: BeatmapInfo)
    ensures
        info_like(c, *b),
{
    let mut ratings: Vec<RatingInfo> = Vec::new();
    let mut i: usize = 0;
    while i < b.ratings.len()
        invariant
            i <= b.ratings@.len(),
            ratings@ == b.ratings@.subrange(0, i as int),
        decreases b.ratings@.len() - i,
    {
        ratings.push(clone_rating_info(&b.ratings[i]));
        i += 1;
        proof {
            assert(ratings@ =~= b.ratings@.subrange(0, i as int));
        }
    }
    proof {
        assert(ratings@ =~= b.ratings@);
        assert(b.ratings@.subrange(0, b.ratings@.len() as int) =~= b.ratings@);
    }
    BeatmapInfo {
        beatmap_osu_id: b.beatmap_osu_id,
        name: b.name.clone(),
        count_circles: b.count_circles,
        count_sliders: b.count_sliders,
        count_spinners: b.count_spinners,
        od_tenths: b.od_tenths,
        hp_tenths: b.hp_tenths,
        ratings,
    }
}

/// Field-for-field equality of two chart-set display records.
pub open spec fn beatmapset_like(a: Beatmapset, b: Beatmapset) -> bool {
    &&& a.id == b.id
    &&& a.osu_id == b.osu_id
    &&& a.artist == b.artist
    &&& a.artist_unicode == b.artist_unicode
    &&& a.title == b.title
    &&& a.title_unicode == b.title_unicode
    &&& a.creator == b.creator
    &&& a.source == b.source
    &&& (match (a.tags, b.tags) {
        (Option::None, Option::None) => true,
        (Option::Some(x), Option::Some(y)) => x@ == y@,
        _ => false,
    })
    &&& a.has_video == b.has_video
    &&& a.has_storyboard == b.has_storyboard
    &&& a.is_explicit == b.is_explicit
    &&& a.is_featured == b.is_featured
    &&& a.cover_url == b.cover_url
    &&& a.preview_url == b.preview_url
    &&& a.osu_file_url == b.osu_file_url
    &&& a.beatmaps@.len() == b.beatmaps@.len()
    &&& forall|i: int| 0 <= i < a.beatmaps@.len() ==> info_like(#[trigger] a.beatmaps@[i], b.beatmaps@[i])
}

/// Copies a chart-set display record.
pub fn clone_beatmapset(b: &Beatmapset) -> (c: Beatmapset)
    ensures
        beatmapset_like(c, *b),
{
    let mut beatmaps: Vec<BeatmapInfo> = Vec::new();
    let mut i: usize = 0;
    while i < b.beatmaps.len()
        invariant
            i <= b.beatmaps@.len(),
            beatmaps@.len() == i,
            forall|j: int| 0 <= j < i ==> info_like(#[trigger] beatmaps@[j], b.beatmaps@[j]),
        decreases b.beatmaps@.len() - i,
    {
        beatmaps.push(clone_beatmap_info(&b.beatmaps[i]));
        i += 1;
    }
    let tags: Option<Vec<String>> = match &b.tags {
        None => None,
        Some(ts) => Some(clone_string_vec(ts)),
    };
    Beatmapset {
        id: b.id,
        osu_id: b.osu_id,
        artist: b.artist.clone(),
        artist_unicode: clone_opt_string(&b.artist_unicode),
        title: b.title.clone(),
        title_unicode: clone_opt_string(&b.title_unicode),
        creator: b.creator.clone(),
        source: clone_opt_string(&b.source),
        tags,
        has_video: b.has_video,
        has_storyboard: b.has_storyboard,
        is_explicit: b.is_explicit,
        is_featured: b.is_featured,
        cover_url: clone_opt_string(&b.cover_url),
        preview_url: clone_opt_string(&b.preview_url),
        osu_file_url: clone_opt_string(&b.osu_file_url),
        beatmaps,
    }
}

} // verus!
