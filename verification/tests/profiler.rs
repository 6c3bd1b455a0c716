use osef_me::chart::{Chart, HitEvent};
use osef_me::nps::calculate_nps_graph;

fn chart_of(events: Vec<HitEvent>) -> Chart {
    Chart {
        events,
        timing: Vec::new(),
        effects: Vec::new(),
        difficulties: Vec::new(),
        samples: Vec::new(),
        version: String::new(),
        audio_file: String::new(),
        column_count: 4,
        od_tenths: 0,
        hp_tenths: 0,
    }
}

#[test]
fn empty_chart_gives_flat_profile() {
    let c = chart_of(Vec::new());
    let data = calculate_nps_graph(&c);
    assert_eq!(data.drain_time, 0);
    assert_eq!(data.nps_graph.len(), 100);
    assert!(data.nps_graph.iter().all(|&v| v == 0));
}

#[test]
fn single_event_gives_degenerate_span() {
    let c = chart_of(vec![HitEvent::Tap { time: 1234, column: 0 }]);
    let data = calculate_nps_graph(&c);
    assert_eq!(data.drain_time, 0);
    assert_eq!(data.nps_graph.len(), 100);
    assert!(data.nps_graph.iter().all(|&v| v == 0));
}

#[test]
fn coinciding_events_give_degenerate_span() {
    let c = chart_of(vec![
        HitEvent::Tap { time: 500, column: 0 },
        HitEvent::Tap { time: 500, column: 1 },
    ]);
    let data = calculate_nps_graph(&c);
    assert_eq!(data.drain_time, 0);
    assert!(data.nps_graph.iter().all(|&v| v == 0));
}

#[test]
fn four_taps_spread_into_buckets() {
    // taps every 500 ms: span 1500 ms, bucket width 15 ms
    let c = chart_of(vec![
        HitEvent::Tap { time: 0, column: 0 },
        HitEvent::Tap { time: 500, column: 0 },
        HitEvent::Tap { time: 1000, column: 0 },
        HitEvent::Tap { time: 1500, column: 0 },
    ]);
    let data = calculate_nps_graph(&c);
    assert_eq!(data.drain_time, 1500);
    assert_eq!(data.nps_graph.len(), 100);
    // one event per bucket: 1 / (15 ms) = 66.666 notes per second
    let expected = 100_000_000u64 / 1500;
    assert_eq!(data.nps_graph[0], expected);
    assert_eq!(data.nps_graph[33], expected);
    assert_eq!(data.nps_graph[66], expected);
    // the last event sits exactly at the end of the span and is discarded
    assert_eq!(data.nps_graph[99], 0);
    let filled = data.nps_graph.iter().filter(|&&v| v != 0).count();
    assert_eq!(filled, 3);
}

#[test]
fn dense_cluster_raises_one_bucket() {
    let c = chart_of(vec![
        HitEvent::Tap { time: 0, column: 0 },
        HitEvent::Tap { time: 1, column: 1 },
        HitEvent::Tap { time: 2, column: 2 },
        HitEvent::Tap { time: 1000, column: 0 },
    ]);
    let data = calculate_nps_graph(&c);
    assert_eq!(data.drain_time, 1000);
    // three events in the first bucket of width 10 ms
    assert_eq!(data.nps_graph[0], 3 * 100_000_000 / 1000);
}
