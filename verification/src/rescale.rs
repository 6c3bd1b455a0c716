//! The time-rescale transform: playing a chart at rate `num/den`
//! divides every time-domain value by that rate, i.e. multiplies it by
//! `den/num` (integer floor). The public entry takes the rate as a
//! centirate (rate x 100). The round-trip law bounds the rounding loss
//! of rescaling by a rate and then by its inverse.
use vstd::arithmetic::div_mod::{
    lemma_div_is_ordered, lemma_div_multiples_vanish, lemma_fundamental_div_mod,
};
use vstd::arithmetic::mul::lemma_mul_inequality;
use vstd::prelude::*;

use crate::chart::{events_sorted, Chart, ChartView, HitEvent, TimingSegment};
use crate::strings::{chars_of, dec_of, digit_char, digit_to_char, ends_with_str, push_char, string_from_chars, u64_to_dec};

verus! {

/// Why a transform was refused.
#[derive(Clone, Copy, Debug, PartialEq, Eq, Structural)]
pub enum TransformError {
    /// The rate was zero (or had a zero part); rates must be positive.
    InvalidRate,
    /// A scaled time value does not fit the time type.
    TimeOverflow,
}

/// `t` scaled from rate `num/den` down to rate 1: multiplied by
/// `den/num`, rounded towards zero.
pub open spec fn scale_val(t: nat, num: nat, den: nat) -> nat {
    t * den / num
}

/// The scaled value still fits in the time type.
pub open spec fn val_fits(t: nat, num: nat, den: nat) -> bool {
    scale_val(t, num, den) <= u64::MAX
}

/// `e` with its time fields scaled; lane untouched.
pub open spec fn scale_event(e: HitEvent, num: nat, den: nat) -> HitEvent {
    match e {
        HitEvent::Tap { time, column } => HitEvent::Tap {
            time: scale_val(time as nat, num, den) as u64,
            column,
        },
        HitEvent::Hold { time, duration, column } => HitEvent::Hold {
            time: scale_val(time as nat, num, den) as u64,
            duration: scale_val(duration as nat, num, den) as u64,
            column,
        },
    }
}

/// Both time fields of `e` scale without overflow.
pub open spec fn event_fits(e: HitEvent, num: nat, den: nat) -> bool {
    match e {
        HitEvent::Tap { time, .. } => val_fits(time as nat, num, den),
        HitEvent::Hold { time, duration, .. } => val_fits(time as nat, num, den) && val_fits(
            duration as nat,
            num,
            den,
        ),
    }
}

/// Every value of a sequence of times scales without overflow.
pub open spec fn all_times_fit(v: Seq<u64>, num: nat, den: nat) -> bool {
    forall|i: int| 0 <= i < v.len() ==> val_fits((#[trigger] v[i]) as nat, num, den)
}

/// Every event of the sequence scales without overflow.
pub open spec fn all_events_fit(v: Seq<HitEvent>, num: nat, den: nat) -> bool {
    forall|i: int| 0 <= i < v.len() ==> event_fits(#[trigger] v[i], num, den)
}

/// Every timing segment of the sequence scales without overflow.
pub open spec fn all_timing_fit(v: Seq<TimingSegment>, num: nat, den: nat) -> bool {
    forall|i: int|
        0 <= i < v.len() ==> val_fits((#[trigger] v[i]).time as nat, num, den) && val_fits(
            v[i].beat_len as nat,
            num,
            den,
        )
}

/// Every time-domain value of the chart scales without overflow.
pub open spec fn chart_fits(c: ChartView, num: nat, den: nat) -> bool {
    &&& all_events_fit(c.events, num, den)
    &&& all_timing_fit(c.timing, num, den)
    &&& all_times_fit(c.effects, num, den)
    &&& all_times_fit(c.difficulties, num, den)
    &&& all_times_fit(c.samples, num, den)
}

/// The chart with every time-domain value scaled by `den/num`; the
/// display strings are left for the caller to tag.
pub open spec fn rescale_view(c: ChartView, num: nat, den: nat) -> ChartView {
    ChartView {
        events: c.events.map(|i: int, e: HitEvent| scale_event(e, num, den)),
        timing: c.timing.map(
            |i: int, t: TimingSegment| TimingSegment {
                time: scale_val(t.time as nat, num, den) as u64,
                beat_len: scale_val(t.beat_len as nat, num, den) as u64,
            },
        ),
        effects: c.effects.map(|i: int, t: u64| scale_val(t as nat, num, den) as u64),
        difficulties: c.difficulties.map(|i: int, t: u64| scale_val(t as nat, num, den) as u64),
        samples: c.samples.map(|i: int, t: u64| scale_val(t as nat, num, den) as u64),
        version: c.version,
        audio_file: c.audio_file,
        column_count: c.column_count,
        od_tenths: c.od_tenths,
        hp_tenths: c.hp_tenths,
    }
}

/// Scaling keeps order: a value no later than another stays no later.
pub proof fn lemma_scale_mono(a: nat, b: nat, num: nat, den: nat)
    requires
        num > 0,
        a <= b,
    ensures
        scale_val(a, num, den) <= scale_val(b, num, den),
{
    lemma_mul_inequality(a as int, b as int, den as int);
    lemma_div_is_ordered((a * den) as int, (b * den) as int, num as int);
}

fn scale_u64(t: u64, num: u64, den: u64) -> (r: Option<u64>)
    requires
        num > 0,
    ensures
        r is Some <==> val_fits(t as nat, num as nat, den as nat),
        r matches Some(v) ==> v == scale_val(t as nat, num as nat, den as nat),
{
    proof {
        assert((t as u128) * (den as u128) <= u128::MAX) by (nonlinear_arith)
            requires
                t <= u64::MAX,
                den <= u64::MAX,
        ;
    }
    let p: u128 = (t as u128) * (den as u128);
    let q: u128 = p / (num as u128);
    if q > u64::MAX as u128 {
        None
    } else {
        Some(q as u64)
    }
}

fn scale_times_vec(v: &Vec<u64>, num: u64, den: u64) -> (r: Option<Vec<u64>>)
    requires
        num > 0,
    ensures
        r is Some <==> all_times_fit(v@, num as nat, den as nat),
        r matches Some(out) ==> out@ == v@.map(
            |i: int, t: u64| scale_val(t as nat, num as nat, den as nat) as u64,
        ),
{
    let ghost target = v@.map(|i: int, t: u64| scale_val(t as nat, num as nat, den as nat) as u64);
    let mut out: Vec<u64> = Vec::new();
    let mut i: usize = 0;
    while i < v.len()
        invariant
            num > 0,
            i <= v@.len(),
            target == v@.map(|i: int, t: u64| scale_val(t as nat, num as nat, den as nat) as u64),
            out@ == target.subrange(0, i as int),
            forall|k: int| 0 <= k < i ==> val_fits((#[trigger] v@[k]) as nat, num as nat, den as nat),
        decreases v@.len() - i,
    {
        match scale_u64(v[i], num, den) {
            Some(s) => {
                out.push(s);
                proof {
                    assert(out@ =~= target.subrange(0, i + 1));
                }
            },
            None => {
                return None;
            },
        }
        i += 1;
    }
    proof {
        assert(out@ =~= target);
        assert(all_times_fit(v@, num as nat, den as nat));
    }
    Some(out)
}

fn scale_events_vec(v: &Vec<HitEvent>, num: u64, den: u64) -> (r: Option<Vec<HitEvent>>)
    requires
        num > 0,
    ensures
        r is Some <==> all_events_fit(v@, num as nat, den as nat),
        r matches Some(out) ==> out@ == v@.map(
            |i: int, e: HitEvent| scale_event(e, num as nat, den as nat),
        ),
{
    let ghost target = v@.map(|i: int, e: HitEvent| scale_event(e, num as nat, den as nat));
    let mut out: Vec<HitEvent> = Vec::new();
    let mut i: usize = 0;
    while i < v.len()
        invariant
            num > 0,
            i <= v@.len(),
            target == v@.map(|i: int, e: HitEvent| scale_event(e, num as nat, den as nat)),
            out@ == target.subrange(0, i as int),
            forall|k: int| 0 <= k < i ==> event_fits(#[trigger] v@[k], num as nat, den as nat),
        decreases v@.len() - i,
    {
        let scaled: Option<HitEvent> = match v[i] {
            HitEvent::Tap { time, column } => {
                match scale_u64(time, num, den) {
                    Some(t) => Some(HitEvent::Tap { time: t, column }),
                    None => None,
                }
            },
            HitEvent::Hold { time, duration, column } => {
                match (scale_u64(time, num, den), scale_u64(duration, num, den)) {
                    (Some(t), Some(d)) => Some(HitEvent::Hold { time: t, duration: d, column }),
                    _ => None,
                }
            },
        };
        match scaled {
            Some(e) => {
                out.push(e);
                proof {
                    assert(out@ =~= target.subrange(0, i + 1));
                }
            },
            None => {
                return None;
            },
        }
        i += 1;
    }
    proof {
        assert(out@ =~= target);
        assert(all_events_fit(v@, num as nat, den as nat));
    }
    Some(out)
}

fn scale_timing_vec(v: &Vec<TimingSegment>, num: u64, den: u64) -> (r: Option<Vec<TimingSegment>>)
    requires
        num > 0,
    ensures
        r is Some <==> all_timing_fit(v@, num as nat, den as nat),
        r matches Some(out) ==> out@ == v@.map(
            |i: int, t: TimingSegment| TimingSegment {
                time: scale_val(t.time as nat, num as nat, den as nat) as u64,
                beat_len: scale_val(t.beat_len as nat, num as nat, den as nat) as u64,
            },
        ),
{
    let ghost target = v@.map(
        |i: int, t: TimingSegment| TimingSegment {
            time: scale_val(t.time as nat, num as nat, den as nat) as u64,
            beat_len: scale_val(t.beat_len as nat, num as nat, den as nat) as u64,
        },
    );
    let mut out: Vec<TimingSegment> = Vec::new();
    let mut i: usize = 0;
    while i < v.len()
        invariant
            num > 0,
            i <= v@.len(),
            target == v@.map(
                |i: int, t: TimingSegment| TimingSegment {
                    time: scale_val(t.time as nat, num as nat, den as nat) as u64,
                    beat_len: scale_val(t.beat_len as nat, num as nat, den as nat) as u64,
                },
            ),
            out@ == target.subrange(0, i as int),
            forall|k: int|
                0 <= k < i ==> val_fits((#[trigger] v@[k]).time as nat, num as nat, den as nat)
                    && val_fits(v@[k].beat_len as nat, num as nat, den as nat),
        decreases v@.len() - i,
    {
        let seg = v[i];
        match (scale_u64(seg.time, num, den), scale_u64(seg.beat_len, num, den)) {
            (Some(t), Some(b)) => {
                out.push(TimingSegment { time: t, beat_len: b });
                proof {
                    assert(out@ =~= target.subrange(0, i + 1));
                }
            },
            _ => {
                return None;
            },
        }
        i += 1;
    }
    proof {
        assert(out@ =~= target);
        assert(all_timing_fit(v@, num as nat, den as nat));
    }
    Some(out)
}

/// Rescales every time-domain value of the chart by `den/num` (the
/// time multiplier of playing at rate `num/den`). Strings and lane
/// data are untouched. Fails on a zero rate part, or when a scaled
/// value would not fit.
pub fn rescale_times(chart: &Chart, num: u64, den: u64) -> (r: Result<Chart, TransformError>)
    ensures
        (num == 0 || den == 0) <==> r == Result::<Chart, TransformError>::Err(
            TransformError::InvalidRate,
        ),
        num > 0 && den > 0 ==> ((r is Ok) <==> chart_fits(chart@, num as nat, den as nat)),
        r matches Ok(out) ==> out@ == rescale_view(chart@, num as nat, den as nat),
        r is Ok && chart@.wf() ==> (r matches Ok(out) && out@.wf()),
{
    if num == 0 || den == 0 {
        return Err(TransformError::InvalidRate);
    }
    let events = match scale_events_vec(&chart.events, num, den) {
        Some(v) => v,
        None => {
            return Err(TransformError::TimeOverflow);
        },
    };
    let timing = match scale_timing_vec(&chart.timing, num, den) {
        Some(v) => v,
        None => {
            return Err(TransformError::TimeOverflow);
        },
    };
    let effects = match scale_times_vec(&chart.effects, num, den) {
        Some(v) => v,
        None => {
            return Err(TransformError::TimeOverflow);
        },
    };
    let difficulties = match scale_times_vec(&chart.difficulties, num, den) {
        Some(v) => v,
        None => {
            return Err(TransformError::TimeOverflow);
        },
    };
    let samples = match scale_times_vec(&chart.samples, num, den) {
        Some(v) => v,
        None => {
            return Err(TransformError::TimeOverflow);
        },
    };
    let out = Chart {
        events,
        timing,
        effects,
        difficulties,
        samples,
        version: chart.version.clone(),
        audio_file: chart.audio_file.clone(),
        column_count: chart.column_count,
        od_tenths: chart.od_tenths,
        hp_tenths: chart.hp_tenths,
    };
    proof {
        if chart@.wf() {
            assert forall|i: int, j: int| 0 <= i < j < out@.events.len() implies (
            #[trigger] out@.events[i]).time() <= (#[trigger] out@.events[j]).time() by {
                lemma_scale_mono(
                    chart@.events[i].time() as nat,
                    chart@.events[j].time() as nat,
                    num as nat,
                    den as nat,
                );
            }
            assert forall|i: int| 0 <= i < out@.events.len() implies (
            #[trigger] out@.events[i]).column() < out@.column_count by {
                assert(chart@.events[i].column() < chart@.column_count);
            }
        }
    }
    Ok(out)
}

/// The rounding loss of one scale step: `scale_val(t, num, den)`,
/// scaled back by the inverse rate, lands at or below `t`, and misses
/// it by less than `num/den + 1` time units. This is the round-trip
/// law: rescaling by a rate and then by its inverse restores every
/// value to within the integer-rounding tolerance.
pub proof fn lemma_scale_round_trip(t: nat, num: nat, den: nat)
    requires
        num > 0,
        den > 0,
    ensures
        scale_val(scale_val(t, num, den), den, num) <= t,
        (t - scale_val(scale_val(t, num, den), den, num)) * den < num + den,
{
    let u = scale_val(t, num, den);
    let v = scale_val(u, den, num);
    lemma_fundamental_div_mod((t * den) as int, num as int);
    let r1 = (t * den) % num;
    assert(t * den == num * u + r1);
    lemma_fundamental_div_mod((u * num) as int, den as int);
    let r2 = (u * num) % den;
    assert(u * num == den * v + r2);
    assert(den * (t - v) == r1 + r2) by (nonlinear_arith)
        requires
            t * den == num * u + r1,
            u * num == den * v + r2,
    ;
    assert(0 <= r1 < num);
    assert(0 <= r2 < den);
    assert(v <= t) by (nonlinear_arith)
        requires
            den * (t - v) == r1 + r2,
            den > 0,
            r1 >= 0,
            r2 >= 0,
    ;
    assert((t - v) * den == den * (t - v)) by (nonlinear_arith);
}

/// The round-trip law over a whole chart: rescaling at rate `num/den`
/// and then at the inverse rate `den/num` leaves every hit-event time
/// at or below its original value, short of it by less than
/// `num/den + 1` time units; likewise for hold durations. The second
/// rescale never overflows, since values only move down toward their
/// originals.
pub proof fn lemma_rescale_round_trip(c: ChartView, num: nat, den: nat)
    requires
        num > 0,
        den > 0,
        chart_fits(c, num, den),
    ensures
        chart_fits(rescale_view(c, num, den), den, num),
        rescale_view(rescale_view(c, num, den), den, num).events.len() == c.events.len(),
        forall|i: int|
            0 <= i < c.events.len() ==> {
                let back = #[trigger] rescale_view(rescale_view(c, num, den), den, num).events[i];
                &&& back.time() <= c.events[i].time()
                &&& (c.events[i].time() - back.time()) * den < num + den
                &&& (c.events[i] is Hold ==> back is Hold && back->Hold_duration
                    <= c.events[i]->Hold_duration && (c.events[i]->Hold_duration
                    - back->Hold_duration) * den < num + den)
            },
        forall|i: int|
            0 <= i < c.timing.len() ==> {
                let back = #[trigger] rescale_view(rescale_view(c, num, den), den, num).timing[i];
                &&& back.time <= c.timing[i].time
                &&& (c.timing[i].time - back.time) * den < num + den
                &&& back.beat_len <= c.timing[i].beat_len
                &&& (c.timing[i].beat_len - back.beat_len) * den < num + den
            },
        forall|i: int|
            0 <= i < c.effects.len() ==> {
                let back = #[trigger] rescale_view(rescale_view(c, num, den), den, num).effects[i];
                back <= c.effects[i] && (c.effects[i] - back) * den < num + den
            },
        forall|i: int|
            0 <= i < c.difficulties.len() ==> {
                let back = #[trigger] rescale_view(
                    rescale_view(c, num, den),
                    den,
                    num,
                ).difficulties[i];
                back <= c.difficulties[i] && (c.difficulties[i] - back) * den < num + den
            },
        forall|i: int|
            0 <= i < c.samples.len() ==> {
                let back = #[trigger] rescale_view(rescale_view(c, num, den), den, num).samples[i];
                back <= c.samples[i] && (c.samples[i] - back) * den < num + den
            },
{
    let once = rescale_view(c, num, den);
    let twice = rescale_view(once, den, num);
    assert forall|i: int| 0 <= i < once.events.len() implies event_fits(
        #[trigger] once.events[i],
        den,
        num,
    ) by {
        let e = c.events[i];
        lemma_scale_round_trip(e.time() as nat, num, den);
        if e is Hold {
            lemma_scale_round_trip(e->Hold_duration as nat, num, den);
        }
    }
    assert forall|i: int| 0 <= i < once.timing.len() implies val_fits(
        (#[trigger] once.timing[i]).time as nat,
        den,
        num,
    ) && val_fits(once.timing[i].beat_len as nat, den, num) by {
        lemma_scale_round_trip(c.timing[i].time as nat, num, den);
        lemma_scale_round_trip(c.timing[i].beat_len as nat, num, den);
    }
    assert forall|i: int| 0 <= i < once.effects.len() implies val_fits(
        (#[trigger] once.effects[i]) as nat,
        den,
        num,
    ) by {
        lemma_scale_round_trip(c.effects[i] as nat, num, den);
    }
    assert forall|i: int| 0 <= i < once.difficulties.len() implies val_fits(
        (#[trigger] once.difficulties[i]) as nat,
        den,
        num,
    ) by {
        lemma_scale_round_trip(c.difficulties[i] as nat, num, den);
    }
    assert forall|i: int| 0 <= i < once.samples.len() implies val_fits(
        (#[trigger] once.samples[i]) as nat,
        den,
        num,
    ) by {
        lemma_scale_round_trip(c.samples[i] as nat, num, den);
    }
    assert forall|i: int| 0 <= i < c.timing.len() implies {
        let back = #[trigger] twice.timing[i];
        &&& back.time <= c.timing[i].time
        &&& (c.timing[i].time - back.time) * den < num + den
        &&& back.beat_len <= c.timing[i].beat_len
        &&& (c.timing[i].beat_len - back.beat_len) * den < num + den
    } by {
        lemma_scale_round_trip(c.timing[i].time as nat, num, den);
        lemma_scale_round_trip(c.timing[i].beat_len as nat, num, den);
    }
    assert forall|i: int| 0 <= i < c.effects.len() implies {
        let back = #[trigger] twice.effects[i];
        back <= c.effects[i] && (c.effects[i] - back) * den < num + den
    } by {
        lemma_scale_round_trip(c.effects[i] as nat, num, den);
    }
    assert forall|i: int| 0 <= i < c.difficulties.len() implies {
        let back = #[trigger] twice.difficulties[i];
        back <= c.difficulties[i] && (c.difficulties[i] - back) * den < num + den
    } by {
        lemma_scale_round_trip(c.difficulties[i] as nat, num, den);
    }
    assert forall|i: int| 0 <= i < c.samples.len() implies {
        let back = #[trigger] twice.samples[i];
        back <= c.samples[i] && (c.samples[i] - back) * den < num + den
    } by {
        lemma_scale_round_trip(c.samples[i] as nat, num, den);
    }
    assert forall|i: int| 0 <= i < c.events.len() implies {
        let back = #[trigger] twice.events[i];
        &&& back.time() <= c.events[i].time()
        &&& (c.events[i].time() - back.time()) * den < num + den
        &&& (c.events[i] is Hold ==> back is Hold && back->Hold_duration
            <= c.events[i]->Hold_duration && (c.events[i]->Hold_duration - back->Hold_duration)
            * den < num + den)
    } by {
        let e = c.events[i];
        lemma_scale_round_trip(e.time() as nat, num, den);
        if e is Hold {
            lemma_scale_round_trip(e->Hold_duration as nat, num, den);
        }
    }
}

/// The decimal writing of a centirate as a rate: `130` is written
/// `1.3`, `75` is written `0.75`, and `100` is written `1`.
pub open spec fn centi_dec(c: nat) -> Seq<char> {
    if c % 100 == 0 {
        dec_of(c / 100)
    } else if c % 10 == 0 {
        dec_of(c / 100) + seq!['.', digit_char(c / 10 % 10)]
    } else {
        dec_of(c / 100) + seq!['.', digit_char(c / 10 % 10), digit_char(c % 10)]
    }
}

/// Writes a centirate as a decimal rate, trailing zeros dropped.
pub fn format_centi(c: u64) -> (s: String)
    ensures
        s@ == centi_dec(c as nat),
{
    let mut s = u64_to_dec(c / 100);
    if c % 100 == 0 {
        return s;
    }
    push_char(&mut s, '.');
    let d1: u64 = c / 10 % 10;
    let d2: u64 = c % 10;
    push_char(&mut s, digit_to_char(d1));
    if c % 10 == 0 {
        proof {
            assert(s@ =~= dec_of(c as nat / 100) + seq!['.', digit_char(c as nat / 10 % 10)]);
        }
        return s;
    }
    push_char(&mut s, digit_to_char(d2));
    proof {
        assert(s@ =~= dec_of(c as nat / 100) + seq![
            '.',
            digit_char(c as nat / 10 % 10),
            digit_char(c as nat % 10),
        ]);
    }
    s
}

/// The audio reference with its `.mp3` suffix replaced by a
/// rate-tagged `.ogg` variant name; other references are untouched.
pub open spec fn rate_audio_name(audio: Seq<char>, tag: Seq<char>) -> Seq<char> {
    if crate::strings::ends_with_seq(audio, ".mp3"@) {
        audio.subrange(0, audio.len() - 4) + "_r"@ + tag + ".ogg"@
    } else {
        audio
    }
}

fn retag_audio(audio: &String, tag: &String) -> (r: String)
    ensures
        r@ == rate_audio_name(audio@, tag@),
{
    proof {
        reveal_strlit(".mp3");
    }
    if ends_with_str(audio.as_str(), ".mp3") {
        let v = chars_of(audio.as_str());
        let keep = v.len() - 4;
        let mut head: Vec<char> = Vec::new();
        let mut i: usize = 0;
        while i < keep
            invariant
                keep <= v@.len(),
                i <= keep,
                head@ == v@.subrange(0, i as int),
            decreases keep - i,
        {
            head.push(v[i]);
            i += 1;
            proof {
                assert(head@ =~= v@.subrange(0, i as int));
            }
        }
        let mut s = string_from_chars(&head);
        s.append("_r");
        s.append(tag.as_str());
        s.append(".ogg");
        proof {
            assert(s@ =~= audio@.subrange(0, audio@.len() - 4) + "_r"@ + tag@ + ".ogg"@);
        }
        s
    } else {
        let mut s = String::new();
        s.append(audio.as_str());
        proof {
            assert(s@ =~= audio@);
        }
        s
    }
}

/// The chart view after rescaling at `centirate` and tagging the
/// display strings: the version gains a ` x<rate>` suffix and the
/// audio reference its rate-tagged variant name.
pub open spec fn rescaled_tagged_view(c: ChartView, centirate: nat) -> ChartView {
    let scaled = rescale_view(c, centirate, 100);
    ChartView {
        version: c.version + " x"@ + centi_dec(centirate),
        audio_file: rate_audio_name(c.audio_file, centi_dec(centirate)),
        ..scaled
    }
}

/// Rescales the chart to playback rate `centirate/100`: every time
/// value is multiplied by `100/centirate`, the version string gains a
/// rate suffix and the audio reference is retagged. Event count and
/// order are preserved. Fails only on a zero rate or a time overflow.
pub fn rescale(chart: &Chart, centirate: u64) -> (r: Result<Chart, TransformError>)
    ensures
        centirate == 0 <==> r == Result::<Chart, TransformError>::Err(TransformError::InvalidRate),
        centirate > 0 ==> ((r is Ok) <==> chart_fits(chart@, centirate as nat, 100)),
        r matches Ok(out) ==> out@ == rescaled_tagged_view(chart@, centirate as nat),
        r is Ok && chart@.wf() ==> (r matches Ok(out) && out@.wf()),
{
    let mut out = match rescale_times(chart, centirate, 100) {
        Ok(c) => c,
        Err(e) => {
            return Err(e);
        },
    };
    let tag = format_centi(centirate);
    let mut version = String::new();
    version.append(chart.version.as_str());
    version.append(" x");
    version.append(tag.as_str());
    proof {
        assert(version@ =~= chart@.version + " x"@ + centi_dec(centirate as nat));
    }
    out.version = version;
    out.audio_file = retag_audio(&chart.audio_file, &tag);
    Ok(out)
}

} // verus!
