use pktreplay::config::{effective_rate, select_rate, watermarks, ConfigError, Rate};
use pktreplay::input::{select_method, InputMethod};

#[test]
fn watermarks_default_to_hundred_and_half() {
    assert_eq!(watermarks(None, None).unwrap(), (100, 50));
    assert_eq!(watermarks(Some(8), None).unwrap(), (8, 4));
    assert_eq!(watermarks(Some(4), Some(2)).unwrap(), (4, 2));
    assert_eq!(watermarks(None, Some(10)).unwrap(), (100, 10));
}

#[test]
fn watermarks_reject_a_low_mark_at_or_above_the_high() {
    assert!(matches!(
        watermarks(Some(4), Some(4)),
        Err(ConfigError::WatermarkOrder)
    ));
    assert!(matches!(
        watermarks(Some(4), Some(9)),
        Err(ConfigError::WatermarkOrder)
    ));
    // A high watermark of zero leaves no room below it.
    assert!(matches!(
        watermarks(Some(0), None),
        Err(ConfigError::WatermarkOrder)
    ));
}

#[test]
fn rate_selection_prefers_pps_then_bps_then_fullspeed() {
    assert!(matches!(
        select_rate(Some(100), Some(5), true).unwrap(),
        Rate::Pps(100)
    ));
    assert!(matches!(
        select_rate(None, Some(5_000_000), true).unwrap(),
        Rate::Mbps(5_000_000)
    ));
    assert!(matches!(select_rate(None, None, true).unwrap(), Rate::Full));
    assert!(matches!(
        select_rate(None, None, false).unwrap(),
        Rate::Delayed
    ));
}

#[test]
fn rate_selection_rejects_zero_targets() {
    assert!(matches!(
        select_rate(Some(0), None, false),
        Err(ConfigError::ZeroRate)
    ));
    assert!(matches!(
        select_rate(None, Some(0), false),
        Err(ConfigError::ZeroRate)
    ));
}

#[test]
fn live_input_upgrades_capture_timing_to_full_speed() {
    assert!(matches!(effective_rate(Rate::Delayed, true), Rate::Full));
    assert!(matches!(effective_rate(Rate::Delayed, false), Rate::Delayed));
    assert!(matches!(effective_rate(Rate::Pps(10), true), Rate::Pps(10)));
    assert!(matches!(effective_rate(Rate::Full, false), Rate::Full));
}

#[test]
fn input_method_comes_from_the_matching_flag() {
    match select_method(Some(String::from("trace.pcap")), None) {
        Some(InputMethod::File(f)) => assert_eq!(f, "trace.pcap"),
        _ => panic!("a file input was expected"),
    }
    match select_method(None, Some(String::from("eth0"))) {
        Some(InputMethod::Interface(i)) => assert_eq!(i, "eth0"),
        _ => panic!("an interface input was expected"),
    }
    assert!(select_method(None, None).is_none());
}
