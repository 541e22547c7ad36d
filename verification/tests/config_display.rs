use mping::config::ConfigError;
use mping::config::PingConfig;
use mping::config::DEFAULT_INTERVAL_MICROS;
use mping::config::DEFAULT_PACKET_COUNT;
use mping::config::MIN_INTERVAL_MICROS;
use mping::display::permille_percent_string;
use mping::display::u64_to_string;
use mping::display::DurationExt;
use mping::duration::PingDuration;
use mping::target::AddrFamily;
use mping::target::PingAddress;
use mping::target::PingTarget;

fn hosts(names: &[&str]) -> Option<Vec<String>> {
    Some(names.iter().map(|n| String::from(*n)).collect())
}

#[test]
fn missing_hosts_is_a_usage_error() {
    let r = PingConfig::from_args(None, Some(3), None);
    assert!(matches!(r, Err(ConfigError::NoHosts)));
    assert_eq!(ConfigError::NoHosts.message(), "No hosts specified.");
}

#[test]
fn defaults_apply() {
    let c = PingConfig::from_args(hosts(&["a", "b"]), None, None).unwrap();
    assert_eq!(c.hosts, vec!["a", "b"]);
    assert_eq!(c.packet_count, DEFAULT_PACKET_COUNT);
    assert_eq!(c.packet_count, 5);
    assert_eq!(c.interval.micros, DEFAULT_INTERVAL_MICROS);
    assert_eq!(c.interval.micros, 1_000_000);
}

#[test]
fn small_delay_is_raised_to_the_minimum() {
    // A hundredth of a second is below the clamp; it becomes a tenth.
    let delay = Some(PingDuration { micros: 10_000 });
    let c = PingConfig::from_args(hosts(&["a"]), None, delay).unwrap();
    assert_eq!(c.interval.micros, MIN_INTERVAL_MICROS);
    assert_eq!(c.interval.micros, 100_000);
}

#[test]
fn delay_at_or_above_the_minimum_is_kept() {
    let c = PingConfig::from_args(hosts(&["a"]), None, Some(PingDuration { micros: 100_000 }))
        .unwrap();
    assert_eq!(c.interval.micros, 100_000);
    let c = PingConfig::from_args(hosts(&["a"]), None, Some(PingDuration { micros: 2_500_000 }))
        .unwrap();
    assert_eq!(c.interval.micros, 2_500_000);
}

#[test]
fn count_argument_is_kept() {
    let c = PingConfig::from_args(hosts(&["a"]), Some(12), None).unwrap();
    assert_eq!(c.packet_count, 12);
    let c = PingConfig::from_args(hosts(&["a"]), Some(0), None).unwrap();
    assert_eq!(c.packet_count, 0);
}

#[test]
fn durations_render_with_adaptive_units() {
    assert_eq!(PingDuration { micros: 1_234_567 }.display(), "1.23 s");
    assert_eq!(PingDuration { micros: 1_000_000 }.display(), "1.00 s");
    assert_eq!(PingDuration { micros: 12_345 }.display(), "12.34 ms");
    assert_eq!(PingDuration { micros: 1_000 }.display(), "1.00 ms");
    assert_eq!(PingDuration { micros: 999 }.display(), "999.00 us");
    assert_eq!(PingDuration { micros: 1 }.display(), "1.00 us");
    assert_eq!(PingDuration { micros: 0 }.display(), "0.00 ns");
}

#[test]
fn duration_decimals_truncate() {
    // 1,239,999 us is 1.239999 s; two decimal places, truncated.
    assert_eq!(PingDuration { micros: 1_239_999 }.display(), "1.23 s");
    assert_eq!(PingDuration { micros: 9_999 }.display(), "9.99 ms");
}

#[test]
fn numbers_render_in_decimal() {
    assert_eq!(u64_to_string(0), "0");
    assert_eq!(u64_to_string(7), "7");
    assert_eq!(u64_to_string(10), "10");
    assert_eq!(u64_to_string(1_234_567_890), "1234567890");
    assert_eq!(u64_to_string(u64::MAX), "18446744073709551615");
}

#[test]
fn permille_renders_as_percent_with_one_decimal() {
    assert_eq!(permille_percent_string(0), "0.0%");
    assert_eq!(permille_percent_string(333), "33.3%");
    assert_eq!(permille_percent_string(500), "50.0%");
    assert_eq!(permille_percent_string(1000), "100.0%");
}

#[test]
fn target_labels() {
    let addr = PingAddress { family: AddrFamily::V4, text: String::from("93.184.216.34") };
    let named = PingTarget::with_host(String::from("example.com"), addr.clone());
    assert_eq!(named.display(), "example.com (93.184.216.34)");
    let bare = PingTarget::new(addr);
    assert_eq!(bare.display(), "93.184.216.34");
    assert_eq!(bare.host, None);
}
