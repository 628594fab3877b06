use pktreplay::stats::{u64_to_string, Stats};

#[test]
fn decimal_rendering_is_exact() {
    assert_eq!(u64_to_string(0), "0");
    assert_eq!(u64_to_string(7), "7");
    assert_eq!(u64_to_string(105), "105");
    assert_eq!(u64_to_string(150000), "150000");
    assert_eq!(u64_to_string(u64::MAX), "18446744073709551615");
}

#[test]
fn update_counts_written_and_invalid_packets() {
    let mut s = Stats::default();
    s.reset(0);
    assert_eq!(s.update(1500, 0), None);
    assert_eq!(s.update(1500, 0), None);
    assert_eq!(s.update(0, 0), None);
    assert_eq!(s.packets, 2);
    assert_eq!(s.invalid, 1);
    assert_eq!(s.bytes, 3000);
}

#[test]
fn summary_line_with_no_invalid_packets() {
    let mut s = Stats::default();
    s.reset(0);
    for _ in 0..100 {
        s.update(1500, 0);
    }
    // 150000 bytes over 2 seconds: 50 packets and 600000 bits per second.
    let line = s.summary(2_000_000);
    assert_eq!(
        line,
        "100 packets, 150000 bytes in 2000ms / 50.000pps, 600000.000bps (0.071 MBps)"
    );
    assert!(line.starts_with("100 packets, 150000 bytes in"));
}

#[test]
fn summary_line_reports_invalid_packets() {
    let mut s = Stats::default();
    s.reset(0);
    for _ in 0..7 {
        s.update(100, 0);
    }
    for _ in 0..3 {
        s.update(0, 0);
    }
    let line = s.summary(1_000_000);
    assert!(line.contains("7 packets (3 not sent)"));
}

#[test]
fn summary_with_no_elapsed_time_shows_zero_rates() {
    let mut s = Stats::default();
    s.reset(500);
    s.update(10, 500);
    assert_eq!(
        s.summary(500),
        "1 packets, 10 bytes in 0ms / 0.000pps, 0.000bps (0.000 MBps)"
    );
}

#[test]
fn periodic_reports_fall_due_on_the_interval() {
    let mut s = Stats::periodic(1_000_000);
    s.reset(0);
    assert_eq!(s.update(100, 400_000), None);
    let line = s.update(100, 1_000_000);
    assert!(line.is_some());
    assert!(line.unwrap().starts_with("2 packets, 200 bytes in 1000ms"));
    // The report clock advanced: the next packet is not yet due.
    assert_eq!(s.update(100, 1_400_000), None);
    assert!(s.update(100, 2_500_000).is_some());
}

#[test]
fn reset_zeroes_counters_and_restarts_the_clock() {
    let mut s = Stats::default();
    s.reset(0);
    s.update(100, 0);
    s.update(0, 0);
    s.reset(5_000);
    assert_eq!(s.packets, 0);
    assert_eq!(s.invalid, 0);
    assert_eq!(s.bytes, 0);
    assert_eq!(s.start, 5_000);
}
