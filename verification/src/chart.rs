//! The in-memory chart model: hit events on a time axis measured in
//! integer milliseconds, the four parallel control-point sequences, and
//! the well-formedness invariant (events ordered by time, columns in
//! range) that every transform preserves.
use vstd::prelude::*;

verus! {

/// One playable object: a tap, or a hold sustained for `duration`.
#[derive(Clone, Copy, Debug, PartialEq, Eq, Structural)]
pub enum HitEvent {
    Tap { time: u64, column: u32 },
    Hold { time: u64, duration: u64, column: u32 },
}

/// A timing segment: from `time` on, one beat lasts `beat_len` (ms).
#[derive(Clone, Copy, Debug, PartialEq, Eq, Structural)]
pub struct TimingSegment {
    pub time: u64,
    pub beat_len: u64,
}

impl HitEvent {
    /// The instant the event starts.
    pub open spec fn time(self) -> u64 {
        match self {
            HitEvent::Tap { time, .. } => time,
            HitEvent::Hold { time, .. } => time,
        }
    }

    /// The column (lane) the event sits in.
    pub open spec fn column(self) -> u32 {
        match self {
            HitEvent::Tap { column, .. } => column,
            HitEvent::Hold { column, .. } => column,
        }
    }

    /// The instant the event is over: start time, plus the duration of a hold.
    pub open spec fn end_time(self) -> int {
        match self {
            HitEvent::Tap { time, .. } => time as int,
            HitEvent::Hold { time, duration, .. } => time + duration,
        }
    }

    pub open spec fn is_hold(self) -> bool {
        self is Hold
    }

    /// Reads the start time.
    pub fn start_time(&self) -> (t: u64)
        ensures
            t == self.time(),
    {
        match self {
            HitEvent::Tap { time, .. } => *time,
            HitEvent::Hold { time, .. } => *time,
        }
    }

    /// Reads the column.
    pub fn lane(&self) -> (c: u32)
        ensures
            c == self.column(),
    {
        match self {
            HitEvent::Tap { column, .. } => *column,
            HitEvent::Hold { column, .. } => *column,
        }
    }
}

/// The mathematical value of a chart.
#[verifier::ext_equal]
pub struct ChartView {
    pub events: Seq<HitEvent>,
    pub timing: Seq<TimingSegment>,
    pub effects: Seq<u64>,
    pub difficulties: Seq<u64>,
    pub samples: Seq<u64>,
    pub version: Seq<char>,
    pub audio_file: Seq<char>,
    pub column_count: nat,
    pub od_tenths: nat,
    pub hp_tenths: nat,
}

/// A chart: ordered hit events, the timing sequences sharing the same
/// time axis, display and audio references, and the lane count.
#[derive(Debug)]
pub struct Chart {
    pub events: Vec<HitEvent>,
    pub timing: Vec<TimingSegment>,
    pub effects: Vec<u64>,
    pub difficulties: Vec<u64>,
    pub samples: Vec<u64>,
    pub version: String,
    pub audio_file: String,
    pub column_count: u32,
    pub od_tenths: u32,
    pub hp_tenths: u32,
}

impl View for Chart {
    type V = ChartView;

    open spec fn view(&self) -> ChartView {
        ChartView {
            events: self.events@,
            timing: self.timing@,
            effects: self.effects@,
            difficulties: self.difficulties@,
            samples: self.samples@,
            version: self.version@,
            audio_file: self.audio_file@,
            column_count: self.column_count as nat,
            od_tenths: self.od_tenths as nat,
            hp_tenths: self.hp_tenths as nat,
        }
    }
}

/// Hit events are ordered non-decreasing by time.
pub open spec fn events_sorted(events: Seq<HitEvent>) -> bool {
    forall|i: int, j: int|
        0 <= i < j < events.len() ==> (#[trigger] events[i]).time() <= (#[trigger] events[j]).time()
}

/// Every event sits in a lane the chart declares.
pub open spec fn columns_in_range(events: Seq<HitEvent>, column_count: nat) -> bool {
    forall|i: int| 0 <= i < events.len() ==> (#[trigger] events[i]).column() < column_count
}

impl ChartView {
    /// Well-formedness: at least one lane, events time-ordered, lanes in range.
    pub open spec fn wf(self) -> bool {
        &&& self.column_count >= 1
        &&& events_sorted(self.events)
        &&& columns_in_range(self.events, self.column_count)
    }
}

proof fn lemma_time_mono(s: Seq<HitEvent>, i: int, j: int)
    requires
        forall|k: int| 1 <= k < s.len() ==> (#[trigger] s[k - 1].time()) <= s[k].time(),
        0 <= i <= j < s.len(),
    ensures
        s[i].time() <= s[j].time(),
    decreases j - i,
{
    if i < j {
        lemma_time_mono(s, i, j - 1);
        assert(s[j - 1].time() <= s[j].time());
    }
}

/// Decides well-formedness at runtime, for charts whose events came
/// from outside: a lane count of at least one, events in time order,
/// every lane in range.
pub fn is_well_formed(chart: &Chart) -> (r: bool)
    ensures
        r == chart@.wf(),
{
    if chart.column_count == 0 {
        return false;
    }
    let n = chart.events.len();
    let mut i: usize = 1;
    while i < n
        invariant
            n == chart@.events.len(),
            1 <= i,
            i <= n || n == 0,
            forall|k: int| 1 <= k < i ==> (#[trigger] chart@.events[k - 1].time()) <= chart@.events[k].time(),
        decreases n - i,
    {
        if chart.events[i - 1].start_time() > chart.events[i].start_time() {
            proof {
                assert(!events_sorted(chart@.events));
            }
            return false;
        }
        i += 1;
    }
    proof {
        assert forall|a: int, b: int|
            0 <= a < b < chart@.events.len() implies (#[trigger] chart@.events[a]).time() <= (
        #[trigger] chart@.events[b]).time() by {
            lemma_time_mono(chart@.events, a, b);
        }
    }
    let mut j: usize = 0;
    while j < n
        invariant
            n == chart@.events.len(),
            events_sorted(chart@.events),
            chart@.column_count >= 1,
            j <= n,
            forall|k: int| 0 <= k < j ==> (#[trigger] chart@.events[k]).column() < chart@.column_count,
        decreases n - j,
    {
        if chart.events[j].lane() >= chart.column_count {
            return false;
        }
        j += 1;
    }
    true
}

/// The lane of a horizontal position, with the playfield divided into
/// four 128-unit-wide lanes; positions past the right edge fall in the
/// last lane.
pub open spec fn column_of_x_spec(x: nat) -> nat {
    if x / 128 < 3 {
        x / 128
    } else {
        3
    }
}

/// Maps a horizontal object position to its lane.
pub fn column_of_x(x: u32) -> (c: u32)
    ensures
        c == column_of_x_spec(x as nat),
        c < 4,
{
    let c = x / 128;
    if c < 3 {
        c
    } else {
        3
    }
}

} // verus!
