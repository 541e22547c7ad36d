use mping::duration::PingDuration;
use mping::ping::PingResponse;
use mping::ping::PingResults;
use mping::ping::ProbeOutcome;
use mping::target::AddrFamily;
use mping::target::PingAddress;
use mping::target::PingTarget;

fn target(text: &str) -> PingTarget {
    PingTarget::new(PingAddress { family: AddrFamily::V4, text: String::from(text) })
}

fn ms(n: u64) -> PingDuration {
    PingDuration::from_millis(n)
}

fn received(n: u64) -> ProbeOutcome {
    ProbeOutcome::Received(PingResponse { duration: ms(n) })
}

#[test]
fn counts_split_outcomes() {
    let outcomes = vec![received(10), ProbeOutcome::Lost, received(30)];
    let r = PingResults::from_outcomes(target("10.0.0.1"), &outcomes);
    assert_eq!(r.num_recv, 2);
    assert_eq!(r.num_loss, 1);
    assert_eq!(r.total_count(), 3);
}

#[test]
fn loss_rate_is_lost_over_total() {
    let outcomes = vec![received(10), ProbeOutcome::Lost, received(30)];
    let r = PingResults::from_outcomes(target("10.0.0.1"), &outcomes);
    // 1 of 3 lost: 33.3 percent, in tenths of a percent, truncated.
    assert_eq!(r.loss_rate(), Some(333));
    assert_eq!(r.recv_rate(), Some(666));
}

#[test]
fn running_average_is_exact() {
    let outcomes = vec![received(10), received(20), received(30)];
    let r = PingResults::from_outcomes(target("10.0.0.1"), &outcomes);
    assert_eq!(r.avg_duration(), Some(ms(20)));
    assert_eq!(r.min_duration, Some(ms(10)));
    assert_eq!(r.max_duration, Some(ms(30)));
    assert_eq!(r.loss_rate(), Some(0));
}

#[test]
fn average_is_not_a_halving_blend() {
    // A halving blend over [10ms, 20ms, 60ms] would end at 37.5ms
    // (10, then (10+20)/2 = 15, then (15+60)/2); the exact mean is 30ms.
    let outcomes = vec![received(10), received(20), received(60)];
    let r = PingResults::from_outcomes(target("10.0.0.1"), &outcomes);
    assert_eq!(r.avg_duration(), Some(ms(30)));
}

#[test]
fn average_truncates_to_whole_micros() {
    let outcomes = vec![received(1), received(2)];
    let r = PingResults::from_outcomes(target("10.0.0.1"), &outcomes);
    // (1000 + 2000) / 2 = 1500 micros exactly.
    assert_eq!(r.avg_duration(), Some(PingDuration { micros: 1500 }));
    let outcomes = vec![
        ProbeOutcome::Received(PingResponse { duration: PingDuration { micros: 1 } }),
        ProbeOutcome::Received(PingResponse { duration: PingDuration { micros: 2 } }),
    ];
    let r = PingResults::from_outcomes(target("10.0.0.1"), &outcomes);
    // (1 + 2) / 2 truncates to 1.
    assert_eq!(r.avg_duration(), Some(PingDuration { micros: 1 }));
}

#[test]
fn min_and_max_tighten_monotonically() {
    let mut r = PingResults::new(target("10.0.0.1"));
    r.add_received(PingResponse { duration: ms(50) });
    assert_eq!(r.min_duration, Some(ms(50)));
    assert_eq!(r.max_duration, Some(ms(50)));
    r.add_received(PingResponse { duration: ms(20) });
    assert_eq!(r.min_duration, Some(ms(20)));
    assert_eq!(r.max_duration, Some(ms(50)));
    r.add_received(PingResponse { duration: ms(80) });
    assert_eq!(r.min_duration, Some(ms(20)));
    assert_eq!(r.max_duration, Some(ms(80)));
}

#[test]
fn fresh_accumulator_is_all_undefined() {
    let r = PingResults::new(target("10.0.0.1"));
    assert_eq!(r.total_count(), 0);
    assert_eq!(r.num_recv, 0);
    assert_eq!(r.num_loss, 0);
    assert_eq!(r.min_duration, None);
    assert_eq!(r.max_duration, None);
    assert_eq!(r.avg_duration(), None);
    assert_eq!(r.loss_rate(), None);
    assert_eq!(r.recv_rate(), None);
}

#[test]
fn zero_probes_leave_initial_state() {
    let outcomes: Vec<ProbeOutcome> = Vec::new();
    let r = PingResults::from_outcomes(target("10.0.0.1"), &outcomes);
    assert_eq!(r.total_count(), 0);
    assert_eq!(r.loss_rate(), None);
    assert_eq!(r.avg_duration(), None);
    assert_eq!(r.min_duration, None);
    assert_eq!(r.max_duration, None);
}

#[test]
fn all_lost_has_no_average() {
    let outcomes = vec![ProbeOutcome::Lost, ProbeOutcome::Lost, ProbeOutcome::Lost];
    let r = PingResults::from_outcomes(target("10.0.0.1"), &outcomes);
    assert_eq!(r.num_recv, 0);
    assert_eq!(r.num_loss, 3);
    assert_eq!(r.loss_rate(), Some(1000));
    assert_eq!(r.recv_rate(), Some(0));
    assert_eq!(r.avg_duration(), None);
    assert_eq!(r.min_duration, None);
    assert_eq!(r.max_duration, None);
}

#[test]
fn losses_do_not_disturb_durations() {
    let mut r = PingResults::new(target("10.0.0.1"));
    r.add_received(PingResponse { duration: ms(40) });
    r.add_loss();
    assert_eq!(r.min_duration, Some(ms(40)));
    assert_eq!(r.max_duration, Some(ms(40)));
    assert_eq!(r.avg_duration(), Some(ms(40)));
    assert_eq!(r.loss_rate(), Some(500));
}
