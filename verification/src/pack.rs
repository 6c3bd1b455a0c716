//! The pack maker: a working set of charts being assembled into a
//! pack, each kept as its display record plus, when its file was
//! parsed, the chart itself. Entries can be renamed and transformed
//! in place; a public view without the parsed charts is handed to
//! subscribers. Loading chart files is the surrounding application's
//! work.
use vstd::prelude::*;

use crate::chart::{Chart, ChartView, HitEvent};
use crate::edit::{full_ln_view, noln_view};
use crate::ln::{full_ln, gap_fits, noln};
use crate::rescale::{chart_fits, rescale, rescaled_tagged_view, TransformError};
use crate::serialize::{clone_beatmap_info, clone_beatmapset, Beatmapset};
use crate::strings::{chars_of, push_char, str_eq, string_from_chars};

verus! {

/// The pack's own name, author and creator.
#[derive(Clone, Debug)]
pub struct PackMetadata {
    pub name: String,
    pub author: String,
    pub creator: String,
}

impl Default for PackMetadata {
    /// Empty metadata.
    fn default() -> (m: PackMetadata)
        ensures
            m.name@ == Seq::<char>::empty(),
            m.author@ == Seq::<char>::empty(),
            m.creator@ == Seq::<char>::empty(),
    {
        PackMetadata { name: String::new(), author: String::new(), creator: String::new() }
    }
}

/// One pack entry: the display record, and the parsed chart when
/// the entry's file has been loaded.
pub struct BeatmapData {
    pub beatmap: Beatmapset,
    pub chart: Option<Chart>,
}

/// A pack entry as handed to subscribers: the display record alone.
pub struct PublicBeatmapData {
    pub beatmap: Beatmapset,
}

/// The pack under assembly.
pub struct PackMaker {
    pub metadata: PackMetadata,
    pub beatmaps: Vec<BeatmapData>,
}

impl PackMaker {
    /// An empty pack.
    pub fn new() -> (p: PackMaker)
        ensures
            p.metadata.name@ == Seq::<char>::empty(),
            p.metadata.author@ == Seq::<char>::empty(),
            p.metadata.creator@ == Seq::<char>::empty(),
            p.beatmaps@.len() == 0,
    {
        PackMaker { metadata: PackMetadata::default(), beatmaps: Vec::new() }
    }
}

/// Why a pack operation was refused.
#[derive(Clone, Copy, Debug, PartialEq, Eq, Structural)]
pub enum PackError {
    /// The index names no pack entry.
    InvalidIndex,
    /// The entry's chart file has not been parsed.
    NoChart,
    /// The entry's chart breaks the chart invariant (unsorted
    /// events or a lane out of range).
    MalformedChart,
    /// The requested rate was zero.
    InvalidRate,
    /// A scaled or synthesized time leaves the time type.
    TimeOverflow,
}

/// Appends the current chart to the pack.
pub fn add_current_to_pack(pack: &mut PackMaker, beatmap: Beatmapset, chart: Option<Chart>)
    ensures
        final(pack).metadata == old(pack).metadata,
        final(pack).beatmaps@.len() == old(pack).beatmaps@.len() + 1,
        forall|i: int|
            0 <= i < old(pack).beatmaps@.len() ==> final(pack).beatmaps@[i] == old(
                pack,
            ).beatmaps@[i],
        final(pack).beatmaps@.last().beatmap == beatmap,
        match chart {
            Some(c) => final(pack).beatmaps@.last().chart matches Some(c2) && c2@ == c@,
            None => final(pack).beatmaps@.last().chart is None,
        },
{
    pack.beatmaps.push(BeatmapData { beatmap, chart });
}

/// The public view of the pack: its metadata and each entry's
/// display record, without the parsed charts.
pub fn get_public_pack(pack: &PackMaker) -> (r: (PackMetadata, Vec<PublicBeatmapData>))
    ensures
        r.0.name@ == pack.metadata.name@,
        r.0.author@ == pack.metadata.author@,
        r.0.creator@ == pack.metadata.creator@,
        r.1@.len() == pack.beatmaps@.len(),
        forall|i: int|
            0 <= i < pack.beatmaps@.len() ==> crate::serialize::beatmapset_like(
                (#[trigger] r.1@[i]).beatmap,
                pack.beatmaps@[i].beatmap,
            ),
{
    let meta = PackMetadata {
        name: pack.metadata.name.clone(),
        author: pack.metadata.author.clone(),
        creator: pack.metadata.creator.clone(),
    };
    let mut list: Vec<PublicBeatmapData> = Vec::new();
    let mut i: usize = 0;
    while i < pack.beatmaps.len()
        invariant
            i <= pack.beatmaps@.len(),
            list@.len() == i,
            forall|j: int|
                0 <= j < i ==> crate::serialize::beatmapset_like(
                    (#[trigger] list@[j]).beatmap,
                    pack.beatmaps@[j].beatmap,
                ),
        decreases pack.beatmaps@.len() - i,
    {
        list.push(PublicBeatmapData { beatmap: clone_beatmapset(&pack.beatmaps[i].beatmap) });
        i += 1;
    }
    (meta, list)
}

/// Replaces the whole pack metadata.
pub fn update_pack_metadata(pack: &mut PackMaker, metadata: PackMetadata)
    ensures
        final(pack).metadata == metadata,
        final(pack).beatmaps == old(pack).beatmaps,
{
    pack.metadata = metadata;
}

/// The modifications a pack entry's chart may receive; unlike a
/// one-off request, setting fields carries no version annotation,
/// and the difficulty name can be replaced outright.
#[derive(Clone, Debug)]
pub struct PackBeatmapModifications {
    pub od_tenths: Option<u32>,
    pub hp_tenths: Option<u32>,
    pub target_centirate: Option<u64>,
    pub ln_mode: Option<String>,
    pub ln_gap: Option<u64>,
    pub ln_min_distance: Option<u64>,
    pub version_name: Option<String>,
}

/// The entry's display record with the fields the modifications
/// touch carried onto its first difficulty entry.
pub open spec fn display_updated(
    pre: Beatmapset,
    post: Beatmapset,
    od: Option<u32>,
    hp: Option<u32>,
    name: Option<Seq<char>>,
) -> bool {
    if pre.beatmaps@.len() == 0 {
        post == pre
    } else {
        &&& post.beatmaps@.len() == pre.beatmaps@.len()
        &&& forall|i: int| 1 <= i < pre.beatmaps@.len() ==> post.beatmaps@[i] == pre.beatmaps@[i]
        &&& post.beatmaps@[0].od_tenths == (match od {
            Some(v) => v,
            None => pre.beatmaps@[0].od_tenths,
        })
        &&& post.beatmaps@[0].hp_tenths == (match hp {
            Some(v) => v,
            None => pre.beatmaps@[0].hp_tenths,
        })
        &&& post.beatmaps@[0].name@ == (match name {
            Some(nm) => nm,
            None => pre.beatmaps@[0].name@,
        })
        &&& post.beatmaps@[0].beatmap_osu_id == pre.beatmaps@[0].beatmap_osu_id
        &&& post.beatmaps@[0].count_circles == pre.beatmaps@[0].count_circles
        &&& post.beatmaps@[0].count_sliders == pre.beatmaps@[0].count_sliders
        &&& post.beatmaps@[0].count_spinners == pre.beatmaps@[0].count_spinners
        &&& post.beatmaps@[0].ratings == pre.beatmaps@[0].ratings
        &&& post.id == pre.id
        &&& post.osu_id == pre.osu_id
        &&& post.artist == pre.artist
        &&& post.title == pre.title
        &&& post.creator == pre.creator
        &&& post.cover_url == pre.cover_url
    }
}

/// Renames a pack entry: the chart's version field and the entry's
/// displayed difficulty name both take the new name. Refused on a
/// bad index or an entry whose chart was never parsed; the pack is
/// then untouched.
pub fn update_pack_beatmap_version(pack: &mut PackMaker, index: usize, new_version: String) -> (r:
    Result<(), PackError>)
    ensures
        final(pack).metadata == old(pack).metadata,
        index >= old(pack).beatmaps@.len() <==> r == Result::<(), PackError>::Err(
            PackError::InvalidIndex,
        ),
        index < old(pack).beatmaps@.len() && old(pack).beatmaps@[index as int].chart is None <==> r
            == Result::<(), PackError>::Err(PackError::NoChart),
        index < old(pack).beatmaps@.len() && old(pack).beatmaps@[index as int].chart is Some <==> r
            is Ok,
        r is Err ==> final(pack).beatmaps@ == old(pack).beatmaps@,
        r is Ok ==> ({
            let pre = old(pack).beatmaps@[index as int];
            let post = final(pack).beatmaps@[index as int];
            &&& final(pack).beatmaps@.len() == old(pack).beatmaps@.len()
            &&& forall|i: int|
                0 <= i < old(pack).beatmaps@.len() && i != index ==> final(pack).beatmaps@[i]
                    == old(pack).beatmaps@[i]
            &&& pre.chart matches Some(c1) && post.chart matches Some(c2) && c2@ == (ChartView {
                version: new_version@,
                ..c1@
            })
            &&& display_updated(pre.beatmap, post.beatmap, None, None, Some(new_version@))
        }),
{
    if index >= pack.beatmaps.len() {
        return Err(PackError::InvalidIndex);
    }
    if matches!(pack.beatmaps[index].chart, None) {
        return Err(PackError::NoChart);
    }
    let ghost pre_jobs = pack.beatmaps@;
    let mut item = pack.beatmaps.remove(index);
    match &mut item.chart {
        Some(ch) => {
            ch.version = new_version.clone();
        },
        None => {},
    }
    if item.beatmap.beatmaps.len() > 0 {
        let mut first = item.beatmap.beatmaps.remove(0);
        let ghost pre_infos = pre_jobs[index as int].beatmap.beatmaps@;
        first.name = new_version;
        item.beatmap.beatmaps.insert(0, first);
        proof {
            assert(item.beatmap.beatmaps@ =~= pre_infos.update(0, item.beatmap.beatmaps@[0]));
        }
    }
    pack.beatmaps.insert(index, item);
    proof {
        assert(pack.beatmaps@ =~= pre_jobs.update(index as int, pack.beatmaps@[index as int]));
    }
    Ok(())
}

/// How the pack modifications rewrite a chart: the settings are set
/// outright, a rate other than 1.0 rescales (tagging version and
/// audio), the long-note mode synthesizes or strips, and a given
/// name replaces the version field last.
pub open spec fn pack_chart_spec(c: ChartView, m: PackBeatmapModifications) -> Result<
    ChartView,
    PackError,
> {
    let c1 = match m.od_tenths {
        Some(v) => ChartView { od_tenths: v as nat, ..c },
        None => c,
    };
    let c2 = match m.hp_tenths {
        Some(v) => ChartView { hp_tenths: v as nat, ..c1 },
        None => c1,
    };
    let r3 = match m.target_centirate {
        None => Ok(c2),
        Some(cr) => if cr == 100 {
            Ok(c2)
        } else if cr == 0 {
            Err(PackError::InvalidRate)
        } else if !chart_fits(c2, cr as nat, 100) {
            Err(PackError::TimeOverflow)
        } else {
            Ok(rescaled_tagged_view(c2, cr as nat))
        },
    };
    match r3 {
        Err(e) => Err(e),
        Ok(c3) => {
            let r4 = match m.ln_mode {
                None => Ok(c3),
                Some(mode) => if mode@ == "fullln"@ {
                    if m.ln_gap is Some && m.ln_min_distance is Some {
                        if !gap_fits(c3.events, m.ln_gap->0) {
                            Err(PackError::TimeOverflow)
                        } else {
                            Ok(full_ln_view(c3, m.ln_gap->0, m.ln_min_distance->0))
                        }
                    } else {
                        Ok(c3)
                    }
                } else if mode@ == "noln"@ {
                    Ok(noln_view(c3))
                } else {
                    Ok(c3)
                },
            };
            match r4 {
                Err(e) => Err(e),
                Ok(c4) => Ok(
                    match m.version_name {
                        Some(nm) => ChartView { version: nm@, ..c4 },
                        None => c4,
                    },
                ),
            }
        },
    }
}

/// Applies pack modifications to one entry: the chart is rewritten
/// as `pack_chart_spec` says and the displayed first difficulty
/// carries the set values. Refused, leaving the pack untouched, on
/// a bad index, an unparsed or malformed chart, a zero rate, or a
/// time overflow.
pub fn update_pack_beatmap(pack: &mut PackMaker, index: usize, m: &PackBeatmapModifications) -> (r:
    Result<(), PackError>)
    ensures
        final(pack).metadata == old(pack).metadata,
        index >= old(pack).beatmaps@.len() <==> r == Result::<(), PackError>::Err(
            PackError::InvalidIndex,
        ),
        index < old(pack).beatmaps@.len() && old(pack).beatmaps@[index as int].chart is None <==> r
            == Result::<(), PackError>::Err(PackError::NoChart),
        (index < old(pack).beatmaps@.len() && old(pack).beatmaps@[index as int].chart is Some
            && !old(pack).beatmaps@[index as int].chart->0@.wf()) <==> r == Result::<
            (),
            PackError,
        >::Err(PackError::MalformedChart),
        r is Err ==> final(pack).beatmaps@ == old(pack).beatmaps@,
        (index < old(pack).beatmaps@.len() && old(pack).beatmaps@[index as int].chart is Some
            && old(pack).beatmaps@[index as int].chart->0@.wf()) ==> ({
            let pre = old(pack).beatmaps@[index as int];
            match pack_chart_spec(pre.chart->0@, *m) {
                Err(e) => r == Result::<(), PackError>::Err(e),
                Ok(cv) => r is Ok && ({
                    let post = final(pack).beatmaps@[index as int];
                    &&& final(pack).beatmaps@.len() == old(pack).beatmaps@.len()
                    &&& forall|i: int|
                        0 <= i < old(pack).beatmaps@.len() && i != index
                            ==> final(pack).beatmaps@[i] == old(pack).beatmaps@[i]
                    &&& post.chart matches Some(c2) && c2@ == cv
                    &&& display_updated(
                        pre.beatmap,
                        post.beatmap,
                        m.od_tenths,
                        m.hp_tenths,
                        match m.version_name {
                            Some(nm) => Some(nm@),
                            None => None,
                        },
                    )
                }),
            }
        }),
{
    if index >= pack.beatmaps.len() {
        return Err(PackError::InvalidIndex);
    }
    if matches!(pack.beatmaps[index].chart, None) {
        return Err(PackError::NoChart);
    }
    match &pack.beatmaps[index].chart {
        Some(c) => {
            if !is_well_formed_pack(c) {
                return Err(PackError::MalformedChart);
            }
        },
        None => {
            return Err(PackError::NoChart);  // ruled out above
        },
    }
    let ghost pre_jobs = pack.beatmaps@;
    let mut item = pack.beatmaps.remove(index);
    let work = match item.chart {
        Some(c) => c,
        None => {
            return Err(PackError::NoChart);  // ruled out above
        },
    };
    let ghost c0 = work@;
    proof {
        assert(c0.wf());
    }
    let ghost c2 = pack_step_settings(c0, *m);
    proof {
        assert(c2.events == c0.events);
        assert(c2.timing == c0.timing);
        assert(chart_fits(c2, 1, 1) == chart_fits(c0, 1, 1));
    }
    // the fallible steps run first, against untouched data, so a
    // refused request leaves the pack exactly as it was
    let mut scaled: Option<Chart> = None;
    if let Some(cr) = m.target_centirate {
        if cr != 100 {
            if cr == 0 {
                item.chart = Some(work);
                pack.beatmaps.insert(index, item);
                proof {
                    assert(pack.beatmaps@ =~= pre_jobs);
                }
                return Err(PackError::InvalidRate);
            }
            match rescale(&work, cr) {
                Ok(c) => {
                    proof {
                        assert(chart_fits(c2, cr as nat, 100)) by {
                            assert(chart_fits(c0, cr as nat, 100));
                        }
                        assert(c@ =~= rescaled_tagged_view(c0, cr as nat));
                    }
                    scaled = Some(c);
                },
                Err(e) => {
                    proof {
                        assert(!chart_fits(c2, cr as nat, 100)) by {
                            assert(!chart_fits(c0, cr as nat, 100));
                        }
                    }
                    item.chart = Some(work);
                    pack.beatmaps.insert(index, item);
                    proof {
                        assert(pack.beatmaps@ =~= pre_jobs);
                    }
                    return Err(
                        match e {
                            TransformError::InvalidRate => PackError::InvalidRate,
                            TransformError::TimeOverflow => PackError::TimeOverflow,
                        },
                    );
                },
            };
        }
    }
    let ghost c3_pre = match scaled {
        Some(ref c) => c@,
        None => c2,
    };
    let mut wants_full_ln = false;
    let mut gap_val: u64 = 0;
    let mut min_val: u64 = 0;
    let mut wants_noln = false;
    if let Some(mode) = &m.ln_mode {
        if str_eq(mode.as_str(), "fullln") {
            if let (Some(gap), Some(min_distance)) = (m.ln_gap, m.ln_min_distance) {
                wants_full_ln = true;
                gap_val = gap;
                min_val = min_distance;
                let checked: &Vec<crate::chart::HitEvent> = match &scaled {
                    Some(c) => &c.events,
                    None => &work.events,
                };
                let mut fits = true;
                let mut j: usize = 0;
                let n = checked.len();
                while j < n
                    invariant_except_break
                        n == checked@.len(),
                        fits,
                        j <= n,
                        forall|k: int|
                            0 <= k < j ==> (#[trigger] checked@[k]).time() + gap <= u64::MAX,
                    ensures
                        fits == gap_fits(checked@, gap),
                    decreases n - j,
                {
                    if checked[j].start_time() > u64::MAX - gap {
                        fits = false;
                        proof {
                            assert(checked@[j as int].time() + gap > u64::MAX);
                        }
                        break;
                    }
                    j += 1;
                }
                if !fits {
                    item.chart = Some(work);
                    pack.beatmaps.insert(index, item);
                    proof {
                        assert(pack.beatmaps@ =~= pre_jobs);
                    }
                    return Err(PackError::TimeOverflow);
                }
            }
        } else if str_eq(mode.as_str(), "noln") {
            wants_noln = true;
        }
    }
    // from here on nothing fails: commit the staged chart and apply
    // the infallible steps
    let mut work = match scaled {
        Some(c) => c,
        None => work,
    };
    if let Some(v) = m.od_tenths {
        work.od_tenths = v;
    }
    if let Some(v) = m.hp_tenths {
        work.hp_tenths = v;
    }
    let ghost c3 = ChartView { od_tenths: c2.od_tenths, hp_tenths: c2.hp_tenths, ..c3_pre };
    proof {
        assert(work@ =~= c3);
        assert(c3.wf());
    }
    if wants_full_ln {
        full_ln(&mut work, gap_val, min_val);
    } else if wants_noln {
        noln(&mut work);
    }
    if let Some(nm) = &m.version_name {
        work.version = nm.clone();
    }
    item.chart = Some(work);
    if item.beatmap.beatmaps.len() > 0 {
        let mut first = item.beatmap.beatmaps.remove(0);
        let ghost pre_infos = pre_jobs[index as int].beatmap.beatmaps@;
        if let Some(v) = m.od_tenths {
            first.od_tenths = v;
        }
        if let Some(v) = m.hp_tenths {
            first.hp_tenths = v;
        }
        if let Some(nm) = &m.version_name {
            first.name = nm.clone();
        }
        item.beatmap.beatmaps.insert(0, first);
        proof {
            assert(item.beatmap.beatmaps@ =~= pre_infos.update(0, item.beatmap.beatmaps@[0]));
        }
    }
    pack.beatmaps.insert(index, item);
    proof {
        assert(pack.beatmaps@ =~= pre_jobs.update(index as int, pack.beatmaps@[index as int]));
    }
    Ok(())
}

/// The settings part of `pack_chart_spec`.
pub open spec fn pack_step_settings(c: ChartView, m: PackBeatmapModifications) -> ChartView {
    let c1 = match m.od_tenths {
        Some(v) => ChartView { od_tenths: v as nat, ..c },
        None => c,
    };
    match m.hp_tenths {
        Some(v) => ChartView { hp_tenths: v as nat, ..c1 },
        None => c1,
    }
}

fn is_well_formed_pack(chart: &Chart) -> (r: bool)
    ensures
        r == chart@.wf(),
{
    crate::chart::is_well_formed(chart)
}

/// The first `\n` of `s` at or after `from`.
pub open spec fn first_nl(s: Seq<char>, from: int) -> Option<int>
    decreases s.len() - from,
        when 0 <= from <= s.len()
{
    if from < 0 || from >= s.len() {
        None
    } else if s[from] == '\n' {
        Some(from)
    } else {
        first_nl(s, from + 1)
    }
}

/// A line with the carriage return of a `\r\n` ending removed.
pub open spec fn strip_cr(l: Seq<char>) -> Seq<char> {
    if l.len() > 0 && l.last() == '\r' {
        l.drop_last()
    } else {
        l
    }
}

/// A line of chart text, rewritten if it carries the version field.
pub open spec fn version_line(l: Seq<char>, new_version: Seq<char>) -> Seq<char> {
    if l.len() >= 8 && l.subrange(0, 8) == "Version:"@ {
        "Version:"@ + " "@ + new_version
    } else {
        l
    }
}

/// The text with every `Version:` line's value replaced: each line
/// (split at `\n`, a preceding `\r` dropped) is kept or rewritten,
/// and every line leaves with a trailing `\n`.
pub open spec fn replaced_version_text(s: Seq<char>, new_version: Seq<char>) -> Seq<char>
    decreases s.len(),
{
    if s.len() == 0 {
        Seq::empty()
    } else {
        match first_nl(s, 0) {
            None => version_line(s, new_version).push('\n'),
            Some(f) => if 0 <= f < s.len() {
                version_line(strip_cr(s.subrange(0, f)), new_version).push('\n')
                    + replaced_version_text(s.subrange(f + 1, s.len() as int), new_version)
            } else {
                Seq::empty()
            },
        }
    }
}

fn line_out(line: &Vec<char>, new_version: &str, out: &mut String)
    ensures
        final(out)@ == old(out)@ + version_line(line@, new_version@).push('\n'),
{
    proof {
        reveal_strlit("Version:");
    }
    let is_version = line.len() >= 8 && line[0] == 'V' && line[1] == 'e' && line[2] == 'r'
        && line[3] == 's' && line[4] == 'i' && line[5] == 'o' && line[6] == 'n' && line[7] == ':';
    proof {
        if line@.len() >= 8 {
            assert(line@.subrange(0, 8) =~= "Version:"@ <==> (line@[0] == 'V' && line@[1] == 'e'
                && line@[2] == 'r' && line@[3] == 's' && line@[4] == 'i' && line@[5] == 'o'
                && line@[6] == 'n' && line@[7] == ':')) by {
                if line@.subrange(0, 8) =~= "Version:"@ {
                    assert(line@[0] == line@.subrange(0, 8)[0]);
                    assert(line@[1] == line@.subrange(0, 8)[1]);
                    assert(line@[2] == line@.subrange(0, 8)[2]);
                    assert(line@[3] == line@.subrange(0, 8)[3]);
                    assert(line@[4] == line@.subrange(0, 8)[4]);
                    assert(line@[5] == line@.subrange(0, 8)[5]);
                    assert(line@[6] == line@.subrange(0, 8)[6]);
                    assert(line@[7] == line@.subrange(0, 8)[7]);
                }
            }
        }
    }
    if is_version {
        out.append("Version:");
        out.append(" ");
        out.append(new_version);
        push_char(out, '\n');
        proof {
            assert(final(out)@ =~= old(out)@ + version_line(line@, new_version@).push('\n'));
        }
    } else {
        let text = string_from_chars(line);
        out.append(text.as_str());
        push_char(out, '\n');
        proof {
            assert(final(out)@ =~= old(out)@ + version_line(line@, new_version@).push('\n'));
        }
    }
}

/// Rewrites the value of every `Version:` line of an encoded chart
/// text, keeping everything else; lines come out `\n`-terminated.
pub fn replace_version_line(osu_text: &str, new_version: &str) -> (r: String)
    ensures
        r@ == replaced_version_text(osu_text@, new_version@),
{
    let v = chars_of(osu_text);
    let n = v.len();
    let mut out = String::new();
    proof {
        assert(osu_text@.subrange(0, n as int) =~= osu_text@);
    }
    let mut pos: usize = 0;
    while pos < n
        invariant
            n == v@.len(),
            v@ == osu_text@,
            pos <= n,
            replaced_version_text(osu_text@, new_version@) == out@ + replaced_version_text(
                osu_text@.subrange(pos as int, n as int),
                new_version@,
            ),
        decreases n - pos,
    {
        let ghost rest = osu_text@.subrange(pos as int, n as int);
        // scan for the end of the current line
        let mut f: usize = pos;
        let mut found = false;
        while f < n
            invariant_except_break
                n == v@.len(),
                v@ == osu_text@,
                pos <= f <= n,
                !found,
                first_nl(osu_text@, pos as int) == first_nl(osu_text@, f as int),
            ensures
                n == v@.len(),
                v@ == osu_text@,
                pos <= f <= n,
                found ==> f < n && first_nl(osu_text@, pos as int) == Some(f as int),
                !found ==> f == n && first_nl(osu_text@, pos as int) is None,
            decreases n - f,
        {
            if v[f] == '\n' {
                found = true;
                break;
            }
            f += 1;
        }
        // the current line, without the newline and a preceding \r
        let line_end: usize = if found && f > pos && v[f - 1] == '\r' {
            f - 1
        } else {
            f
        };
        let mut line: Vec<char> = Vec::new();
        let mut i: usize = pos;
        while i < line_end
            invariant
                pos <= i <= line_end <= n,
                n == v@.len(),
                v@ == osu_text@,
                line@ == osu_text@.subrange(pos as int, i as int),
            decreases line_end - i,
        {
            line.push(v[i]);
            i += 1;
            proof {
                assert(line@ =~= osu_text@.subrange(pos as int, i as int));
            }
        }
        proof {
            // the scanned line matches the spec's split of the remainder
            lemma_first_nl_offset(osu_text@, pos as int);
            if found {
                assert(first_nl(rest, 0) == Some(f - pos)) by {
                    if first_nl(rest, 0) is None {
                        assert(first_nl(osu_text@, pos as int) is None);
                    } else {
                        let f0 = first_nl(rest, 0)->0;
                        assert(first_nl(osu_text@, pos as int) == Some(f0 + pos));
                    }
                }
                assert(rest.subrange(0, f - pos) =~= osu_text@.subrange(pos as int, f as int));
                assert(strip_cr(rest.subrange(0, f - pos)) =~= line@);
            } else {
                assert(first_nl(rest, 0) is None) by {
                    if first_nl(rest, 0) is Some {
                        let f0 = first_nl(rest, 0)->0;
                        assert(first_nl(osu_text@, pos as int) == Some(f0 + pos));
                    }
                }
                assert(line@ =~= rest);
            }
        }
        line_out(&line, new_version, &mut out);
        if found {
            proof {
                assert(osu_text@.subrange(f + 1, n as int) =~= rest.subrange(
                    f + 1 - pos,
                    rest.len() as int,
                ));
            }
            pos = f + 1;
        } else {
            pos = n;
        }
    }
    proof {
        assert(replaced_version_text(osu_text@.subrange(n as int, n as int), new_version@)
            == Seq::<char>::empty()) by {
            assert(osu_text@.subrange(n as int, n as int).len() == 0);
        }
    }
    out
}

/// `first_nl` looked at through an offset: scanning the remainder
/// from its start is scanning the whole from the offset.
proof fn lemma_first_nl_offset(s: Seq<char>, pos: int)
    requires
        0 <= pos <= s.len(),
    ensures
        ({
            let rest = s.subrange(pos, s.len() as int);
            match first_nl(rest, 0) {
                None => first_nl(s, pos) is None,
                Some(f0) => first_nl(s, pos) == Some(f0 + pos),
            }
        }),
    decreases s.len() - pos,
{
    let rest = s.subrange(pos, s.len() as int);
    lemma_first_nl_shift(s, pos, 0);
}

proof fn lemma_first_nl_shift(s: Seq<char>, pos: int, k: int)
    requires
        0 <= pos <= s.len(),
        0 <= k <= s.len() - pos,
    ensures
        ({
            let rest = s.subrange(pos, s.len() as int);
            match first_nl(rest, k) {
                None => first_nl(s, pos + k) is None,
                Some(f0) => first_nl(s, pos + k) == Some(f0 + pos),
            }
        }),
    decreases s.len() - pos - k,
{
    let rest = s.subrange(pos, s.len() as int);
    if k < rest.len() {
        assert(rest[k] == s[pos + k]);
        if rest[k] != '\n' {
            lemma_first_nl_shift(s, pos, k + 1);
        }
    }
}

} // verus!
