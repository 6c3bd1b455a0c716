//! Applying a set of requested modifications to a chart: overall
//! difficulty and drain settings, a playback-rate change, and
//! long-note synthesis or removal, each annotating the version
//! string and contributing one tag. The tags name the new file the
//! transformed chart is saved under, derived from the original
//! filename with unsafe characters replaced.
use vstd::prelude::*;

use crate::chart::{Chart, ChartView, HitEvent};
use crate::ln::{full_ln, gap_fits, noln, strip_event, synth_events};
use crate::rescale::{chart_fits, rescale, rescaled_tagged_view, TransformError};
use crate::strings::{dec_of, digit_char, push_char, str_eq, u64_to_dec};

verus! {

/// The modifications one request may carry. Settings are in tenths
/// of a point, the rate as a centirate, long-note parameters in ms.
#[derive(Clone, Debug)]
pub struct BeatmapModifications {
    pub od_tenths: Option<u32>,
    pub hp_tenths: Option<u32>,
    pub target_centirate: Option<u64>,
    pub ln_mode: Option<String>,
    pub ln_gap: Option<u64>,
    pub ln_min_distance: Option<u64>,
}

/// Why a modification request was refused.
#[derive(Clone, Copy, Debug, PartialEq, Eq, Structural)]
pub enum EditError {
    /// Nothing in the request changes the chart.
    NoModifications,
    /// The filename has no `.osu` extension to derive from.
    NoOsuExtension,
    /// The requested rate was zero.
    InvalidRate,
    /// A scaled or synthesized time leaves the time type.
    TimeOverflow,
}

/// A tenths-of-a-point setting written as a decimal: `85` is `8.5`,
/// `80` is `8`.
pub open spec fn tenths_dec(n: nat) -> Seq<char> {
    if n % 10 == 0 {
        dec_of(n / 10)
    } else {
        dec_of(n / 10) + seq!['.', digit_char(n % 10)]
    }
}

/// The same, with the dot made filesystem-safe: `85` is `8_5`.
pub open spec fn tenths_tag(n: nat) -> Seq<char> {
    if n % 10 == 0 {
        dec_of(n / 10)
    } else {
        dec_of(n / 10) + seq!['_', digit_char(n % 10)]
    }
}

/// A centirate written as a rate with the dot made filesystem-safe:
/// `135` is `1_35`.
pub open spec fn centi_tag(c: nat) -> Seq<char> {
    if c % 100 == 0 {
        dec_of(c / 100)
    } else if c % 10 == 0 {
        dec_of(c / 100) + seq!['_', digit_char(c / 10 % 10)]
    } else {
        dec_of(c / 100) + seq!['_', digit_char(c / 10 % 10), digit_char(c % 10)]
    }
}

/// The overall-difficulty step: a differing requested value is set,
/// the version is annotated and a tag recorded; a matching or absent
/// value changes nothing.
pub open spec fn od_step(c: ChartView, tags: Seq<Seq<char>>, od: Option<u32>) -> (
    ChartView,
    Seq<Seq<char>>,
) {
    match od {
        Some(v) => if v as nat != c.od_tenths {
            (
                ChartView {
                    od_tenths: v as nat,
                    version: c.version + " OD"@ + tenths_dec(v as nat),
                    ..c
                },
                tags.push("OD"@ + tenths_tag(v as nat)),
            )
        } else {
            (c, tags)
        },
        None => (c, tags),
    }
}

/// The drain-rate step, like the overall-difficulty step.
pub open spec fn hp_step(c: ChartView, tags: Seq<Seq<char>>, hp: Option<u32>) -> (
    ChartView,
    Seq<Seq<char>>,
) {
    match hp {
        Some(v) => if v as nat != c.hp_tenths {
            (
                ChartView {
                    hp_tenths: v as nat,
                    version: c.version + " HP"@ + tenths_dec(v as nat),
                    ..c
                },
                tags.push("HP"@ + tenths_tag(v as nat)),
            )
        } else {
            (c, tags)
        },
        None => (c, tags),
    }
}

/// The rate step: a rate other than 1.0 rescales the chart (tagging
/// version and audio reference); rate 1.0 or no rate changes
/// nothing; rate 0 and time overflow are refused.
pub open spec fn rate_step(c: ChartView, tags: Seq<Seq<char>>, rate: Option<u64>) -> Result<
    (ChartView, Seq<Seq<char>>),
    EditError,
> {
    match rate {
        None => Ok((c, tags)),
        Some(cr) => if cr == 100 {
            Ok((c, tags))
        } else if cr == 0 {
            Err(EditError::InvalidRate)
        } else if !chart_fits(c, cr as nat, 100) {
            Err(EditError::TimeOverflow)
        } else {
            Ok((rescaled_tagged_view(c, cr as nat), tags.push("Rate"@ + centi_tag(cr as nat))))
        },
    }
}

/// The chart after long-note synthesis, version annotated.
pub open spec fn full_ln_view(c: ChartView, gap: u64, min_duration: u64) -> ChartView {
    ChartView {
        events: synth_events(c.events, gap, min_duration, c.column_count),
        version: c.version + " Full LN"@,
        ..c
    }
}

/// The chart after long-note removal.
pub open spec fn noln_view(c: ChartView) -> ChartView {
    ChartView { events: c.events.map(|i: int, e: HitEvent| strip_event(e)), ..c }
}

/// The long-note step: mode `fullln` (with both parameters present)
/// synthesizes, mode `noln` strips; anything else changes nothing.
pub open spec fn ln_step(c: ChartView, tags: Seq<Seq<char>>, m: BeatmapModifications) -> Result<
    (ChartView, Seq<Seq<char>>),
    EditError,
> {
    match m.ln_mode {
        None => Ok((c, tags)),
        Some(mode) => if mode@ == "fullln"@ {
            if m.ln_gap is Some && m.ln_min_distance is Some {
                let g = m.ln_gap->0;
                let mn = m.ln_min_distance->0;
                if !gap_fits(c.events, g) {
                    Err(EditError::TimeOverflow)
                } else {
                    Ok(
                        (
                            ChartView {
                                version: full_ln_view(c, g, mn).version + " FullLN "@ + dec_of(
                                    g as nat,
                                ) + " "@ + dec_of(mn as nat),
                                ..full_ln_view(c, g, mn)
                            },
                            tags.push("FullLN"@),
                        ),
                    )
                }
            } else {
                Ok((c, tags))
            }
        } else if mode@ == "noln"@ {
            Ok(
                (
                    ChartView { version: noln_view(c).version + " NoLN"@, ..noln_view(c) },
                    tags.push("NoLN"@),
                ),
            )
        } else {
            Ok((c, tags))
        },
    }
}

/// What applying a request to a chart yields: the settings step,
/// the rate step and the long-note step in that order, refused
/// entirely when no step changed anything.
pub open spec fn mods_spec(c: ChartView, m: BeatmapModifications) -> Result<
    (ChartView, Seq<Seq<char>>),
    EditError,
> {
    let s1 = od_step(c, Seq::empty(), m.od_tenths);
    let s2 = hp_step(s1.0, s1.1, m.hp_tenths);
    match rate_step(s2.0, s2.1, m.target_centirate) {
        Err(e) => Err(e),
        Ok(s3) => match ln_step(s3.0, s3.1, m) {
            Err(e) => Err(e),
            Ok(s4) => if s4.1.len() == 0 {
                Err(EditError::NoModifications)
            } else {
                Ok(s4)
            },
        },
    }
}

/// Writes a tenths setting as a decimal.
fn format_tenths(n: u32) -> (s: String)
    ensures
        s@ == tenths_dec(n as nat),
{
    let mut s = u64_to_dec((n / 10) as u64);
    if n % 10 != 0 {
        push_char(&mut s, '.');
        push_char(&mut s, crate::strings::digit_to_char((n % 10) as u64));
        proof {
            assert(s@ =~= dec_of(n as nat / 10) + seq!['.', digit_char(n as nat % 10)]);
        }
    }
    s
}

/// Writes a tenths setting as a filesystem-safe tag value.
fn format_tenths_tag(n: u32) -> (s: String)
    ensures
        s@ == tenths_tag(n as nat),
{
    let mut s = u64_to_dec((n / 10) as u64);
    if n % 10 != 0 {
        push_char(&mut s, '_');
        push_char(&mut s, crate::strings::digit_to_char((n % 10) as u64));
        proof {
            assert(s@ =~= dec_of(n as nat / 10) + seq!['_', digit_char(n as nat % 10)]);
        }
    }
    s
}

/// Writes a centirate as a filesystem-safe tag value.
fn format_centi_tag(c: u64) -> (s: String)
    ensures
        s@ == centi_tag(c as nat),
{
    let mut s = u64_to_dec(c / 100);
    if c % 100 == 0 {
        return s;
    }
    push_char(&mut s, '_');
    push_char(&mut s, crate::strings::digit_to_char(c / 10 % 10));
    if c % 10 == 0 {
        proof {
            assert(s@ =~= dec_of(c as nat / 100) + seq!['_', digit_char(c as nat / 10 % 10)]);
        }
        return s;
    }
    push_char(&mut s, crate::strings::digit_to_char(c % 10));
    proof {
        assert(s@ =~= dec_of(c as nat / 100) + seq![
            '_',
            digit_char(c as nat / 10 % 10),
            digit_char(c as nat % 10),
        ]);
    }
    s
}

/// Applies a modification request to the chart: settings, rate, and
/// long-note mode in that order, each annotating the version string
/// and contributing one tag for the derived filename. A request
/// that changes nothing, a zero rate, and a time overflow are
/// refused.
pub fn apply_modifications(chart: Chart, m: &BeatmapModifications) -> (r: Result<
    (Chart, Vec<String>),
    EditError,
>)
    requires
        chart@.wf(),
    ensures
        match mods_spec(chart@, *m) {
            Ok(pair) => r matches Ok(p) && p.0@ == pair.0 && p.1.deep_view() == pair.1
                && p.0@.wf(),
            Err(e) => r == Result::<(Chart, Vec<String>), EditError>::Err(e),
        },
{
    let ghost c0 = chart@;
    let mut work = chart;
    let mut tags: Vec<String> = Vec::new();
    // overall difficulty
    if let Some(v) = m.od_tenths {
        if v != work.od_tenths {
            work.od_tenths = v;
            work.version.append(" OD");
            let formatted = format_tenths(v);
            work.version.append(formatted.as_str());
            let mut tag = String::new();
            tag.append("OD");
            let tag_val = format_tenths_tag(v);
            tag.append(tag_val.as_str());
            tags.push(tag);
        }
    }
    proof {
        let s1 = od_step(c0, Seq::<Seq<char>>::empty(), m.od_tenths);
        assert(work@ =~= s1.0);
        assert(tags.deep_view() =~= s1.1);
    }
    let ghost s1 = od_step(c0, Seq::<Seq<char>>::empty(), m.od_tenths);
    // drain rate
    if let Some(v) = m.hp_tenths {
        if v != work.hp_tenths {
            work.hp_tenths = v;
            work.version.append(" HP");
            let formatted = format_tenths(v);
            work.version.append(formatted.as_str());
            let mut tag = String::new();
            tag.append("HP");
            let tag_val = format_tenths_tag(v);
            tag.append(tag_val.as_str());
            tags.push(tag);
        }
    }
    proof {
        let s2 = hp_step(s1.0, s1.1, m.hp_tenths);
        assert(work@ =~= s2.0);
        assert(tags.deep_view() =~= s2.1);
    }
    let ghost s2 = hp_step(s1.0, s1.1, m.hp_tenths);
    // playback rate
    if let Some(cr) = m.target_centirate {
        if cr != 100 {
            if cr == 0 {
                return Err(EditError::InvalidRate);
            }
            work = match rescale(&work, cr) {
                Ok(c) => c,
                Err(TransformError::TimeOverflow) => {
                    return Err(EditError::TimeOverflow);
                },
                Err(TransformError::InvalidRate) => {
                    return Err(EditError::InvalidRate);
                },
            };
            let mut tag = String::new();
            tag.append("Rate");
            let tag_val = format_centi_tag(cr);
            tag.append(tag_val.as_str());
            tags.push(tag);
        }
    }
    proof {
        let s3 = rate_step(s2.0, s2.1, m.target_centirate);
        assert(s3 is Ok);
        assert(work@ =~= s3->Ok_0.0);
        assert(tags.deep_view() =~= s3->Ok_0.1);
    }
    let ghost s3 = rate_step(s2.0, s2.1, m.target_centirate)->Ok_0;
    // long notes
    if let Some(mode) = &m.ln_mode {
        if str_eq(mode.as_str(), "fullln") {
            if let (Some(gap), Some(min_distance)) = (m.ln_gap, m.ln_min_distance) {
                let mut fits = true;
                let mut j: usize = 0;
                let n = work.events.len();
                while j < n
                    invariant_except_break
                        n == work@.events.len(),
                        fits,
                        j <= n,
                        forall|k: int|
                            0 <= k < j ==> (#[trigger] work@.events[k]).time() + gap <= u64::MAX,
                    ensures
                        fits == gap_fits(work@.events, gap),
                    decreases n - j,
                {
                    if work.events[j].start_time() > u64::MAX - gap {
                        fits = false;
                        proof {
                            assert(work@.events[j as int].time() + gap > u64::MAX);
                        }
                        break;
                    }
                    j += 1;
                }
                if !fits {
                    return Err(EditError::TimeOverflow);
                }
                full_ln(&mut work, gap, min_distance);
                work.version.append(" FullLN ");
                let g_str = u64_to_dec(gap);
                work.version.append(g_str.as_str());
                work.version.append(" ");
                let m_str = u64_to_dec(min_distance);
                work.version.append(m_str.as_str());
                let mut tag = String::new();
                tag.append("FullLN");
                proof {
                    assert(tag@ =~= "FullLN"@);
                }
                tags.push(tag);
            }
        } else if str_eq(mode.as_str(), "noln") {
            noln(&mut work);
            work.version.append(" NoLN");
            let mut tag = String::new();
            tag.append("NoLN");
            proof {
                assert(tag@ =~= "NoLN"@);
            }
            tags.push(tag);
        }
    }
    proof {
        let s4 = ln_step(s3.0, s3.1, *m);
        assert(s4 is Ok);
        assert(work@ =~= s4->Ok_0.0);
        assert(tags.deep_view() =~= s4->Ok_0.1);
    }
    if tags.len() == 0 {
        return Err(EditError::NoModifications);
    }
    Ok((work, tags))
}

/// The four characters at `p` spell `.osu`, case-insensitively.
pub open spec fn osu_ext_at(s: Seq<char>, p: int) -> bool {
    &&& 0 <= p && p + 4 <= s.len()
    &&& s[p] == '.'
    &&& (s[p + 1] == 'o' || s[p + 1] == 'O')
    &&& (s[p + 2] == 's' || s[p + 2] == 'S')
    &&& (s[p + 3] == 'u' || s[p + 3] == 'U')
}

/// The last position at or below `p` where `.osu` begins.
pub open spec fn last_osu_from(s: Seq<char>, p: int) -> Option<int>
    decreases p + 1,
        when p < s.len()
{
    if p < 0 {
        None
    } else if osu_ext_at(s, p) {
        Some(p)
    } else {
        last_osu_from(s, p - 1)
    }
}

/// Where the filename's `.osu` extension begins (the last such run).
pub open spec fn last_osu_pos(s: Seq<char>) -> Option<int> {
    last_osu_from(s, s.len() - 4)
}

/// A filesystem-unsafe character becomes an underscore.
pub open spec fn sanitize_char(c: char) -> char {
    if c == ':' || c == '<' || c == '>' || c == '"' || c == '|' || c == '?' || c == '*' {
        '_'
    } else {
        c
    }
}

/// The tag with its unsafe characters replaced.
pub open spec fn sanitized(s: Seq<char>) -> Seq<char> {
    s.map(|i: int, c: char| sanitize_char(c))
}

/// The sanitized tags joined with underscores.
pub open spec fn joined_tags(ts: Seq<Seq<char>>) -> Seq<char>
    decreases ts.len(),
{
    if ts.len() == 0 {
        Seq::empty()
    } else {
        joined_tags(ts.drop_last()) + (if ts.len() == 1 {
            Seq::empty()
        } else {
            seq!['_']
        }) + sanitized(ts.last())
    }
}

/// The name a transformed chart is saved under: the part before the
/// (last, case-insensitive) `.osu` extension, an underscore, the
/// underscore-joined sanitized tags, and the extension again.
pub open spec fn modified_filename(name: Seq<char>, ts: Seq<Seq<char>>) -> Result<
    Seq<char>,
    EditError,
> {
    match last_osu_pos(name) {
        None => Err(EditError::NoOsuExtension),
        Some(p) => Ok(name.subrange(0, p) + seq!['_'] + joined_tags(ts) + ".osu"@),
    }
}

fn sanitize_string(s: &str) -> (r: String)
    ensures
        r@ == sanitized(s@),
{
    let v = crate::strings::chars_of(s);
    let mut out = String::new();
    let mut i: usize = 0;
    while i < v.len()
        invariant
            v@ == s@,
            i <= v@.len(),
            out@ == sanitized(s@).subrange(0, i as int),
        decreases v@.len() - i,
    {
        let c = v[i];
        let mapped: char = if c == ':' || c == '<' || c == '>' || c == '"' || c == '|' || c == '?'
            || c == '*' {
            '_'
        } else {
            c
        };
        push_char(&mut out, mapped);
        i += 1;
        proof {
            assert(out@ =~= sanitized(s@).subrange(0, i as int));
        }
    }
    proof {
        assert(out@ =~= sanitized(s@));
    }
    out
}

/// Derives the filename a transformed chart is saved under: the
/// stem before the `.osu` extension, an underscore-joined list of
/// the applied transforms' tags (unsafe characters replaced), and
/// the extension. Refused when the filename has no `.osu`.
pub fn derive_modified_filename(filename: &str, tags: &Vec<String>) -> (r: Result<
    String,
    EditError,
>)
    ensures
        match modified_filename(filename@, tags.deep_view()) {
            Ok(nm) => r matches Ok(s) && s@ == nm,
            Err(e) => r == Result::<String, EditError>::Err(e),
        },
{
    let v = crate::strings::chars_of(filename);
    let n = v.len();
    if n < 4 {
        proof {
            assert(last_osu_pos(filename@) is None);
        }
        return Err(EditError::NoOsuExtension);
    }
    let mut p: usize = n - 3;
    let mut found = false;
    while p > 0
        invariant_except_break
            n == v@.len(),
            v@ == filename@,
            n >= 4,
            p <= n - 3,
            !found,
            last_osu_pos(filename@) == last_osu_from(filename@, p - 1),
        ensures
            n == v@.len(),
            v@ == filename@,
            found ==> 1 <= p <= n - 3 && last_osu_pos(filename@) == Some(p - 1),
            !found ==> last_osu_pos(filename@) is None,
        decreases p,
    {
        let cand = p - 1;
        let ok = v[cand] == '.' && (v[cand + 1] == 'o' || v[cand + 1] == 'O') && (v[cand + 2]
            == 's' || v[cand + 2] == 'S') && (v[cand + 3] == 'u' || v[cand + 3] == 'U');
        if ok {
            found = true;
            break;
        }
        p -= 1;
    }
    if !found {
        return Err(EditError::NoOsuExtension);
    }
    let stem_len = p - 1;
    let mut head: Vec<char> = Vec::new();
    let mut i: usize = 0;
    while i < stem_len
        invariant
            stem_len <= v@.len(),
            v@ == filename@,
            i <= stem_len,
            head@ == filename@.subrange(0, i as int),
        decreases stem_len - i,
    {
        head.push(v[i]);
        i += 1;
        proof {
            assert(head@ =~= filename@.subrange(0, i as int));
        }
    }
    let mut out = crate::strings::string_from_chars(&head);
    out.append("_");
    proof {
        reveal_strlit("_");
        assert(joined_tags(tags.deep_view().take(0)) =~= Seq::<char>::empty());
        assert(out@ =~= filename@.subrange(0, stem_len as int) + "_"@ + joined_tags(
            tags.deep_view().take(0),
        ));
    }
    let mut t: usize = 0;
    while t < tags.len()
        invariant
            t <= tags@.len(),
            stem_len <= filename@.len(),
            out@ == filename@.subrange(0, stem_len as int) + "_"@ + joined_tags(
                tags.deep_view().take(t as int),
            ),
        decreases tags@.len() - t,
    {
        if t > 0 {
            out.append("_");
        }
        let clean = sanitize_string(tags[t].as_str());
        out.append(clean.as_str());
        t += 1;
        proof {
            reveal_strlit("_");
            let ts = tags.deep_view();
            assert(ts.take(t as int).drop_last() =~= ts.take(t - 1));
            assert(ts[t - 1] == tags@[t - 1]@);
            assert(ts.take(t as int).last() == tags@[t - 1]@);
            assert(clean@ == sanitized(ts.take(t as int).last()));
            assert("_"@ =~= seq!['_']);
            assert(out@ =~= filename@.subrange(0, stem_len as int) + "_"@ + joined_tags(
                ts.take(t as int),
            ));
        }
    }
    out.append(".osu");
    proof {
        reveal_strlit("_");
        assert("_"@ =~= seq!['_']);
        assert(tags.deep_view().take(tags@.len() as int) =~= tags.deep_view());
        assert(out@ =~= filename@.subrange(0, stem_len as int) + seq!['_'] + joined_tags(
            tags.deep_view(),
        ) + ".osu"@);
    }
    Ok(out)
}

} // verus!
