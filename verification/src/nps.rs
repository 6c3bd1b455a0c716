//! The density profiler: splits the span between the first and last
//! hit event into exactly 100 equal-width buckets, counts the events
//! landing in each, and reports each bucket as thousandths of notes
//! per second together with the drain time. A chart with no events or
//! a zero-width span yields a flat all-zero profile and drain time 0.
use vstd::prelude::*;

use crate::chart::{Chart, HitEvent};

verus! {

/// Notes-per-second histogram: 100 buckets of milli-NPS, and the
/// elapsed time between the first and last hit event (ms).
#[derive(Clone, Debug)]
pub struct NpsData {
    pub nps_graph: Vec<u64>,
    pub drain_time: u64,
}

/// The bucket an event at `t` falls in, with the span starting at
/// `first` and lasting `drain`: bucket widths are `drain/100`.
pub open spec fn bucket_index(t: u64, first: u64, drain: nat) -> int {
    (t - first) * 100 / (drain as int)
}

/// How many events of `s` fall in bucket `k`.
pub open spec fn count_in_bucket(s: Seq<HitEvent>, first: u64, drain: nat, k: int) -> nat
    decreases s.len(),
{
    if s.len() == 0 {
        0
    } else {
        count_in_bucket(s.drop_last(), first, drain, k) + if bucket_index(
            s.last().time(),
            first,
            drain,
        ) == k {
            1nat
        } else {
            0nat
        }
    }
}

/// A bucket count of `count` over a span of `drain` ms, as
/// thousandths of notes per second (capped at the type's maximum).
pub open spec fn bucket_rate(count: nat, drain: nat) -> nat {
    if drain == 0 {
        0
    } else if count * 100000000 / drain <= u64::MAX {
        count * 100000000 / drain
    } else {
        u64::MAX as nat
    }
}

proof fn lemma_count_in_bucket_le(s: Seq<HitEvent>, first: u64, drain: nat, k: int)
    ensures
        count_in_bucket(s, first, drain, k) <= s.len(),
    decreases s.len(),
{
    if s.len() > 0 {
        lemma_count_in_bucket_le(s.drop_last(), first, drain, k);
    }
}

/// Profiles the chart's note density: exactly 100 buckets. An empty
/// chart, or one whose first and last events coincide in time, gives
/// drain time 0 and all-zero buckets; otherwise the drain time is the
/// span between first and last event and each bucket holds its event
/// count divided by the bucket duration, in milli-NPS. Events past
/// the span's end bucket (only the last event can be) are discarded.
pub fn calculate_nps_graph(chart: &Chart) -> (r: NpsData)
    requires
        chart@.wf(),
    ensures
        r.nps_graph@.len() == 100,
        chart@.events.len() == 0 ==> r.drain_time == 0 && forall|k: int|
            0 <= k < 100 ==> r.nps_graph@[k] == 0,
        chart@.events.len() > 0 ==> ({
            let first = chart@.events[0].time();
            let last = chart@.events[chart@.events.len() - 1].time();
            &&& (last == first ==> r.drain_time == 0 && forall|k: int|
                0 <= k < 100 ==> r.nps_graph@[k] == 0)
            &&& (last > first ==> r.drain_time == last - first && forall|k: int|
                0 <= k < 100 ==> r.nps_graph@[k] == bucket_rate(
                    count_in_bucket(chart@.events, first, (last - first) as nat, k),
                    (last - first) as nat,
                ))
        }),
{
    let n = chart.events.len();
    if n == 0 {
        return NpsData { nps_graph: zero_buckets(), drain_time: 0 };
    }
    let first = chart.events[0].start_time();
    let last = chart.events[n - 1].start_time();
    proof {
        assert(chart@.events[0].time() <= chart@.events[chart@.events.len() - 1].time());
    }
    if last == first {
        return NpsData { nps_graph: zero_buckets(), drain_time: 0 };
    }
    let drain: u64 = last - first;
    let ghost s = chart@.events;
    let mut counts: Vec<u64> = zero_buckets();
    let mut i: usize = 0;
    while i < n
        invariant
            n == s.len(),
            s == chart@.events,
            chart@.wf(),
            i <= n,
            first == s[0].time(),
            drain > 0,
            counts@.len() == 100,
            forall|k: int|
                0 <= k < 100 ==> (#[trigger] counts@[k]) == count_in_bucket(
                    s.subrange(0, i as int),
                    first,
                    drain as nat,
                    k,
                ) && counts@[k] <= i,
        decreases n - i,
    {
        let t = chart.events[i].start_time();
        proof {
            assert(s[0].time() <= s[i as int].time());
        }
        let idx_wide: u128 = ((t - first) as u128) * 100 / (drain as u128);
        proof {
            let pre = s.subrange(0, i as int);
            let post = s.subrange(0, i + 1 as int);
            assert(post.drop_last() =~= pre);
            assert(post.last() == s[i as int]);
        }
        if idx_wide < 100 {
            let idx = idx_wide as usize;
            let c = counts[idx];
            counts.set(idx, c + 1);
        }
        i += 1;
    }
    proof {
        assert(s.subrange(0, n as int) =~= s);
    }
    let mut out: Vec<u64> = Vec::new();
    let mut k: usize = 0;
    while k < 100
        invariant
            drain > 0,
            counts@.len() == 100,
            forall|m: int|
                0 <= m < 100 ==> (#[trigger] counts@[m]) == count_in_bucket(
                    s,
                    first,
                    drain as nat,
                    m,
                ),
            k <= 100,
            out@.len() == k,
            forall|m: int|
                0 <= m < k ==> (#[trigger] out@[m]) == bucket_rate(
                    count_in_bucket(s, first, drain as nat, m),
                    drain as nat,
                ),
        decreases 100 - k,
    {
        let c = counts[k];
        let wide: u128 = (c as u128) * 100000000 / (drain as u128);
        let rate: u64 = if wide > u64::MAX as u128 {
            u64::MAX
        } else {
            wide as u64
        };
        out.push(rate);
        k += 1;
    }
    NpsData { nps_graph: out, drain_time: drain }
}

fn zero_buckets() -> (v: Vec<u64>)
    ensures
        v@.len() == 100,
        forall|k: int| 0 <= k < 100 ==> v@[k] == 0,
{
    let mut v: Vec<u64> = Vec::new();
    let mut i: usize = 0;
    while i < 100
        invariant
            i <= 100,
            v@.len() == i,
            forall|k: int| 0 <= k < i ==> v@[k] == 0,
        decreases 100 - i,
    {
        v.push(0);
        i += 1;
    }
    v
}

} // verus!
