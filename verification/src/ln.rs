//! The long-note synthesizer and its inverse. Synthesis scans taps in
//! time order and greedily converts isolated taps into holds, keeping
//! one reserved span per column; decisions always read the untouched
//! input sequence, and the rewritten sequence replaces it only at the
//! end, so forward lookahead sees original tap data. The stripper
//! turns every hold back into a tap at its start time.
use vstd::prelude::*;

use crate::chart::{Chart, HitEvent, TimingSegment};

verus! {

/// The first index at or after `from` whose event sits in column `c`.
pub open spec fn next_in_column(s: Seq<HitEvent>, from: int, c: u32) -> Option<int>
    decreases s.len() - from,
        when 0 <= from <= s.len()
{
    if from < 0 || from >= s.len() {
        None
    } else if s[from].column() == c {
        Some(from)
    } else {
        next_in_column(s, from + 1, c)
    }
}

/// The hold length a tap at index `i` is a candidate for: up to the
/// next event in its column less the required silent `gap`, or `gap`
/// itself when the column stays silent.
pub open spec fn candidate_duration(s: Seq<HitEvent>, i: int, gap: u64) -> nat {
    match next_in_column(s, i + 1, s[i].column()) {
        Some(j) => if s[j].time() >= s[i].time() + gap {
            (s[j].time() - s[i].time() - gap) as nat
        } else {
            0
        },
        None => gap as nat,
    }
}

/// The tap at index `i` is converted: the column is free at its start
/// time, the candidate length clears `min_duration`, and the new hold
/// would extend the column's reserved span.
pub open spec fn commit_here(
    s: Seq<HitEvent>,
    i: int,
    ends: Seq<u64>,
    gap: u64,
    min_duration: u64,
) -> bool {
    let e = s[i];
    &&& e is Tap
    &&& e.time() >= ends[e.column() as int]
    &&& candidate_duration(s, i, gap) > min_duration
    &&& e.time() + candidate_duration(s, i, gap) > ends[e.column() as int]
}

/// The synthesis scan after the first `i` events: the reserved end
/// time of each column, and the rewritten prefix.
pub open spec fn synth_state(
    s: Seq<HitEvent>,
    gap: u64,
    min_duration: u64,
    k: nat,
    i: int,
) -> (Seq<u64>, Seq<HitEvent>)
    decreases i,
{
    if i <= 0 {
        (Seq::new(k, |x: int| 0u64), Seq::<HitEvent>::empty())
    } else {
        let (ends, out) = synth_state(s, gap, min_duration, k, i - 1);
        let e = s[i - 1];
        if e.column() < k && commit_here(s, i - 1, ends, gap, min_duration) {
            let d = candidate_duration(s, i - 1, gap);
            (
                ends.update(e.column() as int, (e.time() + d) as u64),
                out.push(
                    HitEvent::Hold { time: e.time(), duration: d as u64, column: e.column() },
                ),
            )
        } else {
            (ends, out.push(e))
        }
    }
}

/// The event sequence the synthesizer produces.
pub open spec fn synth_events(s: Seq<HitEvent>, gap: u64, min_duration: u64, k: nat) -> Seq<
    HitEvent,
> {
    synth_state(s, gap, min_duration, k, s.len() as int).1
}

/// Synthesis only rewrites taps in place: times, columns and length
/// are kept, and events that were already holds are untouched.
pub proof fn lemma_synth_shape(s: Seq<HitEvent>, gap: u64, min_duration: u64, k: nat, i: int)
    requires
        0 <= i <= s.len(),
    ensures
        ({
            let (ends, out) = synth_state(s, gap, min_duration, k, i);
            &&& ends.len() == k
            &&& out.len() == i
            &&& forall|j: int|
                0 <= j < i ==> (#[trigger] out[j]).time() == s[j].time() && out[j].column()
                    == s[j].column()
            &&& forall|j: int| 0 <= j < i && s[j] is Hold ==> #[trigger] out[j] == s[j]
        }),
    decreases i,
{
    if i > 0 {
        lemma_synth_shape(s, gap, min_duration, k, i - 1);
    }
}

proof fn lemma_next_in_column_in_range(s: Seq<HitEvent>, from: int, c: u32)
    requires
        0 <= from <= s.len(),
    ensures
        next_in_column(s, from, c) matches Some(j) ==> from <= j < s.len() && s[j].column() == c,
    decreases s.len() - from,
{
    if from < s.len() && s[from].column() != c {
        lemma_next_in_column_in_range(s, from + 1, c);
    }
}

/// A candidate hold never runs past the next event in its column, so
/// its end stays within the time type whenever start times plus `gap` do.
proof fn lemma_candidate_end_fits(s: Seq<HitEvent>, i: int, gap: u64)
    requires
        0 <= i < s.len(),
        forall|j: int| 0 <= j < s.len() ==> (#[trigger] s[j]).time() + gap <= u64::MAX,
    ensures
        s[i].time() + candidate_duration(s, i, gap) <= u64::MAX,
{
    lemma_next_in_column_in_range(s, i + 1, s[i].column());
}

/// The no-overlap law: two holds the synthesizer created in one
/// column occupy disjoint spans — the earlier ends at or before the
/// later starts — and each such hold ends no later than its column's
/// reserved end time. (A hold the chart already carried is passed
/// through untracked, so only synthesized holds are covered; on a
/// chart of taps alone that is every hold of the result.)
pub proof fn lemma_synth_no_overlap(s: Seq<HitEvent>, gap: u64, min_duration: u64, k: nat, i: int)
    requires
        0 <= i <= s.len(),
        forall|j: int| 0 <= j < s.len() ==> (#[trigger] s[j]).time() + gap <= u64::MAX,
    ensures
        ({
            let (ends, out) = synth_state(s, gap, min_duration, k, i);
            &&& forall|j: int|
                0 <= j < i && (#[trigger] out[j]) is Hold && s[j] is Tap && out[j].column() < k
                    ==> out[j].end_time() <= ends[out[j].column() as int]
            &&& forall|j1: int, j2: int|
                0 <= j1 < j2 < i && (#[trigger] out[j1]) is Hold && s[j1] is Tap && (
                #[trigger] out[j2]) is Hold && s[j2] is Tap && out[j1].column() == out[j2].column()
                    ==> out[j1].end_time() <= out[j2].time()
        }),
    decreases i,
{
    if i > 0 {
        lemma_synth_no_overlap(s, gap, min_duration, k, i - 1);
        lemma_synth_shape(s, gap, min_duration, k, i - 1);
        let (ends0, out0) = synth_state(s, gap, min_duration, k, i - 1);
        let (ends1, out1) = synth_state(s, gap, min_duration, k, i);
        let e = s[i - 1];
        if e.column() < k && commit_here(s, i - 1, ends0, gap, min_duration) {
            let d = candidate_duration(s, i - 1, gap);
            let h = HitEvent::Hold { time: e.time(), duration: d as u64, column: e.column() };
            assert(out1 == out0.push(h));
            lemma_candidate_end_fits(s, i - 1, gap);
            assert(h.end_time() == e.time() + d);
            assert forall|j: int|
                0 <= j < i && (#[trigger] out1[j]) is Hold && s[j] is Tap && out1[j].column()
                < k implies out1[j].end_time() <= ends1[out1[j].column() as int] by {
                if j < i - 1 {
                    assert(out1[j] == out0[j]);
                    if out0[j].column() == e.column() {
                        assert(out0[j].end_time() <= ends0[e.column() as int]);
                        assert(ends0[e.column() as int] <= e.time());
                    }
                }
            }
        }
    }
}

/// Converts isolated taps into holds, greedily in ascending time
/// order: a tap whose column is free gets a hold running up to the
/// next event in its column less `gap` (or `gap` long when the column
/// stays silent), committed only past `min_duration`. Decisions are
/// collected against the untouched event list and applied at the end.
/// Every other field is untouched; the version string is annotated.
pub fn full_ln(chart: &mut Chart, gap: u64, min_duration: u64)
    requires
        old(chart)@.wf(),
        forall|i: int|
            0 <= i < old(chart)@.events.len() ==> (#[trigger] old(chart)@.events[i]).time() + gap
                <= u64::MAX,
    ensures
        final(chart)@.events == synth_events(
            old(chart)@.events,
            gap,
            min_duration,
            old(chart)@.column_count,
        ),
        final(chart)@.version == old(chart)@.version + " Full LN"@,
        final(chart)@.timing == old(chart)@.timing,
        final(chart)@.effects == old(chart)@.effects,
        final(chart)@.difficulties == old(chart)@.difficulties,
        final(chart)@.samples == old(chart)@.samples,
        final(chart)@.audio_file == old(chart)@.audio_file,
        final(chart)@.column_count == old(chart)@.column_count,
        final(chart)@.od_tenths == old(chart)@.od_tenths,
        final(chart)@.hp_tenths == old(chart)@.hp_tenths,
        final(chart)@.wf(),
{
    let ghost s = chart@.events;
    let ghost kk = chart@.column_count;
    let k: usize = chart.column_count as usize;
    let n = chart.events.len();
    let mut col_end: Vec<u64> = Vec::new();
    let mut z: usize = 0;
    while z < k
        invariant
            z <= k,
            col_end@ == Seq::new(z as nat, |x: int| 0u64),
        decreases k - z,
    {
        col_end.push(0);
        z += 1;
        proof {
            assert(col_end@ =~= Seq::new(z as nat, |x: int| 0u64));
        }
    }
    let mut out: Vec<HitEvent> = Vec::new();
    let mut i: usize = 0;
    while i < n
        invariant
            n == s.len(),
            s == chart@.events,
            kk == chart@.column_count,
            k == kk,
            chart@.wf(),
            forall|j: int| 0 <= j < s.len() ==> (#[trigger] s[j]).time() + gap <= u64::MAX,
            i <= n,
            col_end@ == synth_state(s, gap, min_duration, kk, i as int).0,
            out@ == synth_state(s, gap, min_duration, kk, i as int).1,
        decreases n - i,
    {
        proof {
            lemma_synth_shape(s, gap, min_duration, kk, i as int);
        }
        let e = chart.events[i];
        let c: usize = e.lane() as usize;
        proof {
            assert(s[i as int].column() < kk);
        }
        let mut committed = false;
        if let HitEvent::Tap { time: t, column } = e {
            if t >= col_end[c] {
                // forward scan for the next event in the same column
                let mut duration: u64 = gap;
                let mut found = false;
                let mut j: usize = i + 1;
                while j < n
                    invariant_except_break
                        n == s.len(),
                        s == chart@.events,
                        i < n,
                        i + 1 <= j <= n,
                        e == s[i as int],
                        c == e.column() as nat,
                        !found,
                        next_in_column(s, i + 1, e.column()) == next_in_column(
                            s,
                            j as int,
                            e.column(),
                        ),
                    ensures
                        n == s.len(),
                        s == chart@.events,
                        i < n,
                        i + 1 <= j <= n,
                        e == s[i as int],
                        found ==> j < n && next_in_column(s, i + 1, e.column()) == Some(j as int),
                        !found ==> next_in_column(s, i + 1, e.column()) is None,
                    decreases n - j,
                {
                    if chart.events[j].lane() as usize == c {
                        found = true;
                        break;
                    }
                    j += 1;
                }
                if found {
                    let t2 = chart.events[j].start_time();
                    proof {
                        assert(s[i as int].time() <= s[j as int].time());
                    }
                    duration = if t2 >= t + gap {
                        t2 - t - gap
                    } else {
                        0
                    };
                }
                proof {
                    assert(duration == candidate_duration(s, i as int, gap));
                    lemma_candidate_end_fits(s, i as int, gap);
                }
                if duration > min_duration {
                    out.push(HitEvent::Hold { time: t, duration, column });
                    col_end.set(c, t + duration);
                    committed = true;
                    proof {
                        assert(commit_here(
                            s,
                            i as int,
                            synth_state(s, gap, min_duration, kk, i as int).0,
                            gap,
                            min_duration,
                        ));
                    }
                }
            }
        }
        if !committed {
            out.push(e);
            proof {
                assert(!(s[i as int].column() < kk && commit_here(
                    s,
                    i as int,
                    synth_state(s, gap, min_duration, kk, i as int).0,
                    gap,
                    min_duration,
                )));
            }
        }
        i += 1;
    }
    proof {
        lemma_synth_shape(s, gap, min_duration, kk, n as int);
    }
    chart.events = out;
    chart.version.append(" Full LN");
    proof {
        assert forall|a: int, b: int|
            0 <= a < b < chart@.events.len() implies (#[trigger] chart@.events[a]).time() <= (
        #[trigger] chart@.events[b]).time() by {
            assert(s[a].time() <= s[b].time());
        }
        assert forall|a: int|
            0 <= a < chart@.events.len() implies (#[trigger] chart@.events[a]).column()
            < chart@.column_count by {
            assert(s[a].column() < kk);
        }
    }
}

/// The longest beat length among the timing segments (0 when none).
pub open spec fn max_beat_len(s: Seq<TimingSegment>) -> nat
    decreases s.len(),
{
    if s.len() == 0 {
        0
    } else {
        let rest = max_beat_len(s.drop_last());
        if s.last().beat_len >= rest {
            s.last().beat_len as nat
        } else {
            rest
        }
    }
}

/// Why beat-divisor synthesis was refused.
#[derive(Clone, Copy, Debug, PartialEq, Eq, Structural)]
pub enum SynthError {
    /// The beat divisor's denominator was zero.
    InvalidDivisor,
    /// The chart has no timing segments to derive a gap from.
    EmptyTiming,
    /// The gap, or a time plus the gap, leaves the time type.
    TimeOverflow,
}

/// Every event's start time survives adding `gap`.
pub open spec fn gap_fits(events: Seq<HitEvent>, gap: u64) -> bool {
    forall|i: int| 0 <= i < events.len() ==> (#[trigger] events[i]).time() + gap <= u64::MAX
}

/// The gap a beat divisor derives: the longest beat length times
/// `div_num/div_den`, rounded down.
pub open spec fn derived_gap(timing: Seq<TimingSegment>, div_num: u64, div_den: u64) -> int {
    (max_beat_len(timing) as int) * (div_num as int) / (div_den as int)
}

/// Runs the synthesizer with a gap derived from the chart's slowest
/// timing segment: `gap = longest beat length x div_num/div_den`, and
/// `min_duration` defaulting to that gap. Succeeds exactly when the
/// divisor is usable, a timing segment exists, and the gap and every
/// time plus it fit the time type; any refusal names its reason and
/// leaves the chart untouched.
pub fn full_ln_beat_divisor(
    chart: &mut Chart,
    div_num: u64,
    div_den: u64,
    min_duration: Option<u64>,
) -> (r: Result<(), SynthError>)
    requires
        old(chart)@.wf(),
    ensures
        r == Result::<(), SynthError>::Err(SynthError::InvalidDivisor) <==> div_den == 0,
        r == Result::<(), SynthError>::Err(SynthError::EmptyTiming) <==> (div_den > 0 && old(
            chart,
        )@.timing.len() == 0),
        ({
            let gw = derived_gap(old(chart)@.timing, div_num, div_den);
            &&& (r == Result::<(), SynthError>::Err(SynthError::TimeOverflow) <==> (div_den > 0
                && old(chart)@.timing.len() > 0 && !(gw <= u64::MAX && gap_fits(
                old(chart)@.events,
                gw as u64,
            ))))
            &&& ((r is Ok) <==> (div_den > 0 && old(chart)@.timing.len() > 0 && gw <= u64::MAX
                && gap_fits(old(chart)@.events, gw as u64)))
        }),
        r is Err ==> final(chart)@ == old(chart)@,
        r is Ok ==> ({
            let g = derived_gap(old(chart)@.timing, div_num, div_den) as u64;
            let m = if min_duration is Some {
                min_duration->0
            } else {
                g
            };
            &&& final(chart)@.events == synth_events(
                old(chart)@.events,
                g,
                m,
                old(chart)@.column_count,
            )
            &&& final(chart)@.version == old(chart)@.version + " Full LN"@
            &&& final(chart)@.timing == old(chart)@.timing
            &&& final(chart)@.wf()
        }),
{
    if div_den == 0 {
        return Err(SynthError::InvalidDivisor);
    }
    if chart.timing.len() == 0 {
        return Err(SynthError::EmptyTiming);
    }
    let ghost tseq = chart@.timing;
    let mut longest: u64 = 0;
    let mut i: usize = 0;
    while i < chart.timing.len()
        invariant
            tseq == chart@.timing,
            i <= tseq.len(),
            longest == max_beat_len(tseq.subrange(0, i as int)),
        decreases tseq.len() - i,
    {
        let b = chart.timing[i].beat_len;
        proof {
            let pre = tseq.subrange(0, i as int);
            let post = tseq.subrange(0, i + 1 as int);
            assert(post.drop_last() =~= pre);
            assert(post.last() == tseq[i as int]);
        }
        if b >= longest {
            longest = b;
        }
        i += 1;
    }
    proof {
        assert(tseq.subrange(0, tseq.len() as int) =~= tseq);
    }
    proof {
        assert((longest as u128) * (div_num as u128) <= u128::MAX) by (nonlinear_arith)
            requires
                longest <= u64::MAX,
                div_num <= u64::MAX,
        ;
    }
    let wide: u128 = (longest as u128) * (div_num as u128) / (div_den as u128);
    if wide > u64::MAX as u128 {
        return Err(SynthError::TimeOverflow);
    }
    let gap: u64 = wide as u64;
    let mut j: usize = 0;
    while j < chart.events.len()
        invariant
            div_den != 0,
            chart@ == old(chart)@,
            old(chart)@.timing.len() > 0,
            derived_gap(old(chart)@.timing, div_num, div_den) == gap,
            j <= chart@.events.len(),
            forall|m: int|
                0 <= m < j ==> (#[trigger] chart@.events[m]).time() + gap <= u64::MAX,
        decreases chart@.events.len() - j,
    {
        if chart.events[j].start_time() > u64::MAX - gap {
            proof {
                assert(chart@.events[j as int].time() + gap > u64::MAX);
            }
            return Err(SynthError::TimeOverflow);
        }
        j += 1;
    }
    let min_dur: u64 = match min_duration {
        Some(m) => m,
        None => gap,
    };
    full_ln(chart, gap, min_dur);
    Ok(())
}

/// The event with any hold collapsed back to a tap at its start time.
pub open spec fn strip_event(e: HitEvent) -> HitEvent {
    match e {
        HitEvent::Hold { time, duration, column } => HitEvent::Tap { time, column },
        _ => e,
    }
}

/// Stripping a chart that holds no holds changes nothing: the
/// stripper is a left inverse of a history that never synthesized.
pub proof fn lemma_strip_no_holds_identity(s: Seq<HitEvent>)
    requires
        forall|i: int| 0 <= i < s.len() ==> !((#[trigger] s[i]) is Hold),
    ensures
        s.map(|i: int, e: HitEvent| strip_event(e)) == s,
{
    assert(s.map(|i: int, e: HitEvent| strip_event(e)) =~= s);
}

/// Converts every hold back into a tap at the hold's start time,
/// discarding the duration; column preserved, every other event and
/// every field untouched. On a chart with no holds this is a strict
/// no-op: the stripper is a left inverse of a history that never
/// synthesized. (Display annotation is the caller's concern: the
/// modification layer tags the version itself.)
pub fn noln(chart: &mut Chart)
    ensures
        final(chart)@.events == old(chart)@.events.map(|i: int, e: HitEvent| strip_event(e)),
        final(chart)@.version == old(chart)@.version,
        (forall|i: int|
            0 <= i < old(chart)@.events.len() ==> !((#[trigger] old(chart)@.events[i]) is Hold))
            ==> final(chart)@ == old(chart)@,
        final(chart)@.timing == old(chart)@.timing,
        final(chart)@.effects == old(chart)@.effects,
        final(chart)@.difficulties == old(chart)@.difficulties,
        final(chart)@.samples == old(chart)@.samples,
        final(chart)@.audio_file == old(chart)@.audio_file,
        final(chart)@.column_count == old(chart)@.column_count,
        final(chart)@.od_tenths == old(chart)@.od_tenths,
        final(chart)@.hp_tenths == old(chart)@.hp_tenths,
        old(chart)@.wf() ==> final(chart)@.wf(),
{
    let ghost s = chart@.events;
    let ghost target = s.map(|i: int, e: HitEvent| strip_event(e));
    let n = chart.events.len();
    let mut out: Vec<HitEvent> = Vec::new();
    let mut i: usize = 0;
    while i < n
        invariant
            n == s.len(),
            s == chart@.events,
            target == s.map(|j: int, e: HitEvent| strip_event(e)),
            i <= n,
            out@ == target.subrange(0, i as int),
        decreases n - i,
    {
        let e = match chart.events[i] {
            HitEvent::Hold { time, duration, column } => HitEvent::Tap { time, column },
            other => other,
        };
        out.push(e);
        i += 1;
        proof {
            assert(out@ =~= target.subrange(0, i as int));
        }
    }
    proof {
        assert(out@ =~= target);
    }
    chart.events = out;
    proof {
        if forall|i: int|
            0 <= i < old(chart)@.events.len() ==> !((#[trigger] old(chart)@.events[i]) is Hold) {
            lemma_strip_no_holds_identity(s);
            assert(chart@ =~= old(chart)@);
        }
        if old(chart)@.wf() {
            assert forall|a: int, b: int|
                0 <= a < b < chart@.events.len() implies (#[trigger] chart@.events[a]).time() <= (
            #[trigger] chart@.events[b]).time() by {
                assert(s[a].time() <= s[b].time());
            }
            assert forall|a: int|
                0 <= a < chart@.events.len() implies (#[trigger] chart@.events[a]).column()
                < chart@.column_count by {
                assert(s[a].column() < old(chart)@.column_count);
            }
        }
    }
}

} // verus!
