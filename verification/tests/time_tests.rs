//! Time service and calendar: exact conversion values, monotonic
//! uptime, and ISO-8601 formatting of known instants.

use kernel_core::calendar;
use kernel_core::calendar::DateTime;
use kernel_core::gic;
use kernel_core::timer;
use kernel_core::timer::TimeState;

#[test]
fn ticks_to_us_exact_values() {
    // one second of ticks at a 62.5 MHz timer
    assert_eq!(timer::ticks_to_us(62_500_000, 62_500_000), 1_000_000);
    // half a second
    assert_eq!(timer::ticks_to_us(31_250_000, 62_500_000), 500_000);
    // rounding is downward
    assert_eq!(timer::ticks_to_us(1, 62_500_000), 0);
    assert_eq!(timer::ticks_to_us(63, 62_500_000), 1);
}

#[test]
fn us_to_ticks_exact_values() {
    // the ten-millisecond scheduling tick at 62.5 MHz
    assert_eq!(timer::us_to_ticks(10_000, 62_500_000), 625_000);
    assert_eq!(timer::us_to_ticks(1_000_000, 62_500_000), 62_500_000);
}

#[test]
fn uptime_is_monotonic_across_counter_reads() {
    let t = TimeState::new(62_500_000);
    let mut prev = 0u64;
    for ticks in [0u64, 1, 62, 63, 1_000_000, 62_500_000, 125_000_000] {
        let us = t.uptime_us(ticks);
        assert!(us >= prev);
        prev = us;
    }
}

#[test]
fn timer_irq_reprograms_and_raises_scheduler_sgi() {
    let (deadline, sgi) = timer::timer_irq_actions(1_000_000, 625_000);
    assert_eq!(deadline, 1_625_000);
    assert_eq!(sgi, gic::SGI_SCHEDULER);
}

#[test]
fn rtc_seed_is_recorded_once_and_absence_leaves_zero() {
    let mut t = TimeState::new(62_500_000);
    assert!(!t.rtc_available);
    assert_eq!(t.wall_offset_secs, 0);
    let ok = t.init_utc_from_rtc(None);
    assert!(!ok);
    assert_eq!(t.wall_offset_secs, 0);
    let ok = t.init_utc_from_rtc(Some(1_700_000_000));
    assert!(ok);
    assert!(t.rtc_available);
    assert_eq!(t.wall_offset_secs, 1_700_000_000);
}

#[test]
fn epoch_formats_as_nineteen_seventy() {
    let dt = calendar::datetime_from_secs(0).unwrap();
    assert_eq!(
        dt,
        DateTime { year: 1970, month: 1, day: 1, hour: 0, minute: 0, second: 0 }
    );
    assert_eq!(calendar::format_iso8601(&dt), "1970-01-01T00:00:00Z");
}

#[test]
fn known_instant_formats_exactly() {
    let dt = calendar::datetime_from_secs(1_700_000_000).unwrap();
    assert_eq!(
        dt,
        DateTime { year: 2023, month: 11, day: 14, hour: 22, minute: 13, second: 20 }
    );
    assert_eq!(calendar::format_iso8601(&dt), "2023-11-14T22:13:20Z");
}

#[test]
fn leap_day_is_handled() {
    // 2024-02-29T12:00:00Z
    let dt = calendar::datetime_from_secs(1_709_208_000).unwrap();
    assert_eq!(
        dt,
        DateTime { year: 2024, month: 2, day: 29, hour: 12, minute: 0, second: 0 }
    );
    assert_eq!(calendar::format_iso8601(&dt), "2024-02-29T12:00:00Z");
}

#[test]
fn century_leap_rule() {
    assert_eq!(calendar::days_in_month(1900, 2), 28);
    assert_eq!(calendar::days_in_month(2000, 2), 29);
    assert_eq!(calendar::days_in_month(2024, 2), 29);
    assert_eq!(calendar::days_in_month(2023, 2), 28);
    assert_eq!(calendar::days_in_year(2000), 366);
    assert_eq!(calendar::days_in_year(1900), 365);
}

#[test]
fn last_representable_second_and_overflow() {
    // 9999-12-31T23:59:59Z is the last instant the four-digit format
    // carries; one second later the formatter refuses
    let last = 253_402_300_799u64;
    let dt = calendar::datetime_from_secs(last).unwrap();
    assert_eq!(
        dt,
        DateTime { year: 9999, month: 12, day: 31, hour: 23, minute: 59, second: 59 }
    );
    assert_eq!(calendar::format_iso8601(&dt), "9999-12-31T23:59:59Z");
    assert!(calendar::datetime_from_secs(last + 1).is_none());
}

#[test]
fn wall_clock_combines_offset_and_uptime() {
    let mut t = TimeState::new(1_000_000);
    t.init_utc_from_rtc(Some(1_700_000_000));
    // one million ticks at one megahertz is one second of uptime
    assert_eq!(t.wall_secs(1_000_000), 1_700_000_001);
    let s = t.utc_iso8601(1_000_000).unwrap();
    assert_eq!(s, "2023-11-14T22:13:21Z");
}

#[test]
fn wall_clock_without_rtc_counts_from_epoch() {
    let t = TimeState::new(1_000_000);
    let s = t.utc_iso8601(0).unwrap();
    assert_eq!(s, "1970-01-01T00:00:00Z");
}
