//! The monitoring pipeline's decisions and its shared state. Each
//! poll tick reads the active chart's fingerprint; only a changed
//! fingerprint triggers detection, and the fingerprint on record is
//! advanced only after a successful cycle, so a persistently failing
//! chart is retried rather than silently adopted. A successful cycle
//! replaces the current state wholesale and broadcasts the chart
//! identity before the heavier results.
use vstd::prelude::*;

use crate::nps::NpsData;
use crate::rates::Rates;

verus! {

/// Identity and metadata of the active chart, as the external memory
/// reader hands them over, reduced to plain values.
#[derive(Clone, Debug)]
pub struct ChartIdentity {
    pub folder: String,
    pub filename: String,
    pub cover: String,
    pub title: String,
    pub artist: String,
    pub creator: String,
    pub difficulty: String,
    pub beatmap_id: i32,
    pub object_count: i32,
    pub slider_count: i32,
    pub od_tenths: u32,
    pub hp_tenths: u32,
    pub length_ms: u64,
}

/// What is active now: the last detected chart, its per-rate rating
/// records and its density profile. Replaced wholesale on every
/// successful detection cycle, never patched.
pub struct CurrentBeatmapData {
    pub beatmap_info: Option<ChartIdentity>,
    pub rates: Vec<Rates>,
    pub nps_data: Option<NpsData>,
}

impl CurrentBeatmapData {
    /// The empty state a session starts from.
    pub fn new() -> (d: CurrentBeatmapData)
        ensures
            d.beatmap_info is None,
            d.rates@.len() == 0,
            d.nps_data is None,
    {
        CurrentBeatmapData { beatmap_info: None, rates: Vec::new(), nps_data: None }
    }
}

/// The debounce state of the monitoring loop: the fingerprint of the
/// last successfully processed chart.
pub struct Monitor {
    pub last_fingerprint: Option<String>,
}

impl Monitor {
    /// A fresh monitor: nothing processed yet.
    pub fn new() -> (m: Monitor)
        ensures
            m.last_fingerprint is None,
    {
        Monitor { last_fingerprint: None }
    }

    /// Whether a freshly read fingerprint warrants a detection
    /// cycle: only one that differs from the last processed one.
    pub fn should_process(&self, fingerprint: &String) -> (r: bool)
        ensures
            r == match self.last_fingerprint {
                None => true,
                Some(h) => h@ != fingerprint@,
            },
    {
        match &self.last_fingerprint {
            None => true,
            Some(h) => !h.eq(fingerprint),
        }
    }

    /// Records a fingerprint after its cycle succeeded; an identical
    /// later read then performs no further work.
    pub fn commit_fingerprint(&mut self, fingerprint: String)
        ensures
            final(self).last_fingerprint matches Some(h) && h@ == fingerprint@,
    {
        self.last_fingerprint = Some(fingerprint);
    }
}

/// One broadcast of the event boundary.
#[derive(Clone, Copy, Debug, PartialEq, Eq, Structural)]
pub enum NotificationKind {
    ChartChanged,
    RatesReady,
    DensityReady,
}

/// The broadcasts of one detection cycle, in publication order: the
/// lightweight chart identity always goes out first, so subscribers
/// see the new chart before the heavier computation lands; the
/// ratings and the density profile follow only when the cycle
/// computed them.
pub fn detection_notifications(processed: bool) -> (r: Vec<NotificationKind>)
    ensures
        r@.len() >= 1,
        r@[0] is ChartChanged,
        processed ==> r@ =~= seq![
            NotificationKind::ChartChanged,
            NotificationKind::RatesReady,
            NotificationKind::DensityReady,
        ],
        !processed ==> r@ =~= seq![NotificationKind::ChartChanged],
{
    let mut v: Vec<NotificationKind> = Vec::new();
    v.push(NotificationKind::ChartChanged);
    if processed {
        v.push(NotificationKind::RatesReady);
        v.push(NotificationKind::DensityReady);
    }
    v
}

/// Replaces the current state wholesale with one cycle's results.
pub fn publish_results(
    current: &mut CurrentBeatmapData,
    info: ChartIdentity,
    rates: Vec<Rates>,
    nps: NpsData,
)
    ensures
        final(current).beatmap_info == Some(info),
        final(current).rates == rates,
        final(current).nps_data == Some(nps),
{
    current.beatmap_info = Some(info);
    current.rates = rates;
    current.nps_data = Some(nps);
}

/// The rating records of the current chart.
pub fn get_all_rates_from_state(current: &CurrentBeatmapData) -> (r: &Vec<Rates>)
    ensures
        r == current.rates,
{
    &current.rates
}

/// The density profile of the current chart, if one was computed.
pub fn get_current_nps_data(current: &CurrentBeatmapData) -> (r: &Option<NpsData>)
    ensures
        r == current.nps_data,
{
    &current.nps_data
}

/// The identity of the current chart, if one was detected.
pub fn get_current_beatmap_from_state(current: &CurrentBeatmapData) -> (r: &Option<ChartIdentity>)
    ensures
        r == current.beatmap_info,
{
    &current.beatmap_info
}

} // verus!
