use mping::duration::PingDuration;
use mping::ping::PingResponse;
use mping::ping::PingResults;
use mping::ping::ProbeOutcome;
use mping::stats::create_results_table;
use mping::stats::sort_results;
use mping::stats::OverallStats;
use mping::target::AddrFamily;
use mping::target::PingAddress;
use mping::target::PingTarget;

fn target(text: &str) -> PingTarget {
    PingTarget::new(PingAddress { family: AddrFamily::V4, text: String::from(text) })
}

fn ms(n: u64) -> PingDuration {
    PingDuration::from_millis(n)
}

fn with_received(text: &str, durations_ms: &[u64]) -> PingResults {
    let outcomes: Vec<ProbeOutcome> = durations_ms
        .iter()
        .map(|&d| ProbeOutcome::Received(PingResponse { duration: ms(d) }))
        .collect();
    PingResults::from_outcomes(target(text), &outcomes)
}

fn all_lost(text: &str, count: usize) -> PingResults {
    let outcomes = vec![ProbeOutcome::Lost; count];
    PingResults::from_outcomes(target(text), &outcomes)
}

fn order(results: &[PingResults]) -> Vec<String> {
    results.iter().map(|r| r.target.addr.text.clone()).collect()
}

#[test]
fn sorts_ascending_by_average() {
    let mut results = vec![
        with_received("10.0.0.3", &[30, 30]),
        with_received("10.0.0.1", &[10, 10]),
        with_received("10.0.0.2", &[20, 20]),
    ];
    sort_results(&mut results);
    assert_eq!(order(&results), vec!["10.0.0.1", "10.0.0.2", "10.0.0.3"]);
}

#[test]
fn undefined_average_sorts_last() {
    let mut results = vec![
        all_lost("10.0.0.9", 2),
        with_received("10.0.0.2", &[500]),
        all_lost("10.0.0.8", 2),
        with_received("10.0.0.1", &[1]),
    ];
    sort_results(&mut results);
    assert_eq!(order(&results), vec!["10.0.0.1", "10.0.0.2", "10.0.0.9", "10.0.0.8"]);
}

#[test]
fn sorting_twice_gives_the_same_order() {
    let mut results = vec![
        all_lost("10.0.0.9", 1),
        with_received("10.0.0.2", &[20]),
        all_lost("10.0.0.8", 1),
        with_received("10.0.0.1", &[10]),
        with_received("10.0.0.4", &[20]),
    ];
    sort_results(&mut results);
    let once = order(&results);
    sort_results(&mut results);
    assert_eq!(order(&results), once);
}

#[test]
fn equal_averages_keep_discovery_order() {
    let mut results = vec![
        with_received("10.0.0.2", &[20]),
        with_received("10.0.0.1", &[10]),
        with_received("10.0.0.4", &[20]),
    ];
    sort_results(&mut results);
    assert_eq!(order(&results), vec!["10.0.0.1", "10.0.0.2", "10.0.0.4"]);
}

#[test]
fn sort_handles_empty_and_single() {
    let mut empty: Vec<PingResults> = Vec::new();
    sort_results(&mut empty);
    assert_eq!(empty.len(), 0);
    let mut one = vec![with_received("10.0.0.1", &[10])];
    sort_results(&mut one);
    assert_eq!(order(&one), vec!["10.0.0.1"]);
}

#[test]
fn two_target_scenario() {
    // Target A: three probes received in 10ms each; target B: all three lost.
    let a = with_received("10.0.0.1", &[10, 10, 10]);
    let b = all_lost("10.0.0.2", 3);
    assert_eq!(a.min_duration, Some(ms(10)));
    assert_eq!(a.max_duration, Some(ms(10)));
    assert_eq!(a.avg_duration(), Some(ms(10)));
    assert_eq!(a.loss_rate(), Some(0));
    assert_eq!(b.num_recv, 0);
    assert_eq!(b.loss_rate(), Some(1000));
    assert_eq!(b.avg_duration(), None);

    let mut results = vec![b, a];
    sort_results(&mut results);
    assert_eq!(order(&results), vec!["10.0.0.1", "10.0.0.2"]);

    let overall = OverallStats::from_results(&results);
    assert_eq!(overall.total_sent, 6);
    assert_eq!(overall.total_received, 3);
    assert_eq!(overall.total_lost, 3);
    // 50.0 percent, in tenths of a percent.
    assert_eq!(overall.loss_permille, 500);
}

#[test]
fn overall_of_no_results_is_zero() {
    let results: Vec<PingResults> = Vec::new();
    let overall = OverallStats::from_results(&results);
    assert_eq!(overall.total_sent, 0);
    assert_eq!(overall.total_received, 0);
    assert_eq!(overall.total_lost, 0);
    assert_eq!(overall.loss_permille, 0);
}

#[test]
fn table_rows_render_cells() {
    let a = with_received("10.0.0.1", &[10, 10, 10]);
    let b = all_lost("10.0.0.2", 3);
    let mut results = vec![b, a];
    let rows = create_results_table(&mut results);
    assert_eq!(rows.len(), 2);
    assert_eq!(
        rows[0],
        vec!["-", "10.0.0.1", "3", "3", "0.0%", "10.00 ms", "10.00 ms", "10.00 ms"]
    );
    assert_eq!(rows[1], vec!["-", "10.0.0.2", "3", "0", "100.0%", "N/A", "N/A", "N/A"]);
}

#[test]
fn table_row_with_host_label() {
    let t = PingTarget::with_host(
        String::from("example.org"),
        PingAddress { family: AddrFamily::V6, text: String::from("2606:2800:21f::") },
    );
    let outcomes = vec![ProbeOutcome::Received(PingResponse { duration: ms(25) })];
    let r = PingResults::from_outcomes(t, &outcomes);
    let mut results = vec![r];
    let rows = create_results_table(&mut results);
    assert_eq!(rows[0][0], "example.org");
    assert_eq!(rows[0][1], "2606:2800:21f::");
}

#[test]
fn zero_probe_target_still_gets_a_row() {
    let r = PingResults::new(target("10.0.0.1"));
    let mut results = vec![r];
    let rows = create_results_table(&mut results);
    assert_eq!(rows.len(), 1);
    assert_eq!(rows[0], vec!["-", "10.0.0.1", "0", "0", "N/A", "N/A", "N/A", "N/A"]);
}
