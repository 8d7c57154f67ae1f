//! Time frames and instants.
use aq_engine::time::UtcTime;
use aq_engine::timeframe::{TimeFrame, TimeFrameError, TimeFrameUnit};
use chrono::{TimeZone, Utc};

fn time(year: i32, month: u32, day: u32, hour: u32, minute: u32, second: u32) -> UtcTime {
    let at = Utc.with_ymd_and_hms(year, month, day, hour, minute, second).unwrap();
    UtcTime { secs: at.timestamp(), nanos: at.timestamp_subsec_nanos() }
}

#[test]
fn test_new_valid_and_invalid() {
    let tf = TimeFrame::new(1, TimeFrameUnit::Minute);
    assert_eq!(tf.get_amount(), 1);

    let tf = TimeFrame::new(5, TimeFrameUnit::Minute);
    assert_eq!(tf.get_amount(), 5);

    let tf = TimeFrame::new(1, TimeFrameUnit::Hour);
    assert_eq!(tf.get_amount(), 1);
}

#[test]
#[should_panic]
fn test_new_invalid_amount() {
    TimeFrame::new(0, TimeFrameUnit::Minute);
}

#[test]
fn test_eq() {
    let tf1 = TimeFrame::new(1, TimeFrameUnit::Minute);
    let tf2 = TimeFrame::new(1, TimeFrameUnit::Minute);
    let tf3 = TimeFrame::new(2, TimeFrameUnit::Minute);

    assert_eq!(tf1, tf2);
    assert_ne!(tf1, tf3);

    let tf4 = TimeFrame::new(12, TimeFrameUnit::Hour);
    assert_ne!(tf1, tf4);

    let tf5 = TimeFrame::new(12, TimeFrameUnit::Hour);
    assert_eq!(tf4, tf5);
}

#[test]
#[should_panic]
fn test_new_invalid_minute_amount() {
    TimeFrame::new(60, TimeFrameUnit::Minute);
}

#[test]
fn test_is_interval_valid() {
    let tf_15m = TimeFrame::new(15, TimeFrameUnit::Minute);

    let valid_time = time(2023, 1, 1, 12, 15, 0);
    let invalid_time = time(2023, 1, 1, 12, 16, 0);

    assert!(tf_15m.is_interval_valid(valid_time));
    assert!(!tf_15m.is_interval_valid(invalid_time));

    let tf_1h = TimeFrame::new(1, TimeFrameUnit::Hour);
    let valid_hour = time(2023, 1, 1, 13, 0, 0);
    let invalid_hour = time(2023, 1, 1, 13, 30, 0);

    assert!(tf_1h.is_interval_valid(valid_hour));
    assert!(!tf_1h.is_interval_valid(invalid_hour));
}

#[test]
fn test_add_time_increment() {
    let base_time = time(2023, 1, 1, 12, 0, 0);

    // Minutes
    let tf_15m = TimeFrame::new(15, TimeFrameUnit::Minute);
    let new_time = tf_15m.add_time_increment(base_time, 2).unwrap();
    assert_eq!(new_time, time(2023, 1, 1, 12, 30, 0));

    let prev_time = tf_15m.add_time_increment(base_time, -1).unwrap();
    assert_eq!(prev_time, time(2023, 1, 1, 11, 45, 0));

    // Days
    let tf_1d = TimeFrame::new(1, TimeFrameUnit::Day);
    let next_day = tf_1d.add_time_increment(base_time, 1).unwrap();
    assert_eq!(next_day, time(2023, 1, 2, 12, 0, 0));

    // Months
    let tf_1mo = TimeFrame::new(1, TimeFrameUnit::Month);
    let next_month = tf_1mo.add_time_increment(base_time, 1).unwrap();
    assert_eq!(next_month, time(2023, 2, 1, 12, 0, 0));

    let prev_month = tf_1mo.add_time_increment(base_time, -1).unwrap();
    assert_eq!(prev_month, time(2022, 12, 1, 12, 0, 0));
}

#[test]
fn test_get_current_time_increment() {
    // 15-minute timeframe
    let tf_15m = TimeFrame::new(15, TimeFrameUnit::Minute);
    let snapped = tf_15m.get_current_time_increment(time(2023, 1, 1, 12, 7, 30));
    assert_eq!(snapped, time(2023, 1, 1, 12, 0, 0));

    let snapped2 = tf_15m.get_current_time_increment(time(2023, 1, 1, 12, 22, 45));
    assert_eq!(snapped2, time(2023, 1, 1, 12, 15, 0));

    // 1-hour timeframe
    let tf_1h = TimeFrame::new(1, TimeFrameUnit::Hour);
    let snapped_h = tf_1h.get_current_time_increment(time(2023, 1, 1, 12, 45, 0));
    assert_eq!(snapped_h, time(2023, 1, 1, 12, 0, 0));

    // 1-day timeframe
    let tf_1d = TimeFrame::new(1, TimeFrameUnit::Day);
    let snapped_d = tf_1d.get_current_time_increment(time(2023, 1, 1, 15, 30, 0));
    assert_eq!(snapped_d, time(2023, 1, 1, 0, 0, 0));

    // 1-month timeframe
    let tf_1mo = TimeFrame::new(1, TimeFrameUnit::Month);
    let snapped_mo = tf_1mo.get_current_time_increment(time(2023, 2, 15, 10, 0, 0));
    assert_eq!(snapped_mo, time(2023, 2, 1, 0, 0, 0));
}

#[test]
fn test_get_next_time_increment() {
    // 15-minute timeframe
    let tf_15m = TimeFrame::new(15, TimeFrameUnit::Minute);
    let next = tf_15m.get_next_time_increment(time(2023, 1, 1, 12, 7, 30));
    assert_eq!(next, time(2023, 1, 1, 12, 15, 0));

    let next2 = tf_15m.get_next_time_increment(time(2023, 1, 1, 12, 22, 45));
    assert_eq!(next2, time(2023, 1, 1, 12, 30, 0));

    // 1-hour timeframe
    let tf_1h = TimeFrame::new(1, TimeFrameUnit::Hour);
    let next_h = tf_1h.get_next_time_increment(time(2023, 1, 1, 12, 45, 0));
    assert_eq!(next_h, time(2023, 1, 1, 13, 0, 0));

    // 1-day timeframe
    let tf_1d = TimeFrame::new(1, TimeFrameUnit::Day);
    let next_d = tf_1d.get_next_time_increment(time(2023, 1, 1, 15, 30, 0));
    assert_eq!(next_d, time(2023, 1, 2, 0, 0, 0));

    // 1-month timeframe
    let tf_1mo = TimeFrame::new(1, TimeFrameUnit::Month);
    let next_mo = tf_1mo.get_next_time_increment(time(2023, 2, 15, 10, 0, 0));
    assert_eq!(next_mo, time(2023, 3, 1, 0, 0, 0));
}

#[test]
fn amounts_are_checked_by_unit() {
    assert!(TimeFrame::validate_time_frame(59, TimeFrameUnit::Second).is_ok());
    assert!(TimeFrame::validate_time_frame(23, TimeFrameUnit::Hour).is_ok());
    assert!(TimeFrame::validate_time_frame(1, TimeFrameUnit::Month).is_ok());
    for (amount, unit) in [
        (0, TimeFrameUnit::Second),
        (60, TimeFrameUnit::Second),
        (24, TimeFrameUnit::Hour),
        (2, TimeFrameUnit::Day),
        (2, TimeFrameUnit::Month),
    ] {
        assert!(matches!(
            TimeFrame::validate_time_frame(amount, unit),
            Err(TimeFrameError::InvalidTimeFrameAmount)
        ));
    }
}

#[test]
fn units_have_labels() {
    let labels: Vec<&str> = TimeFrameUnit::variants().iter().map(|unit| unit.label()).collect();
    assert_eq!(labels, vec!["Second", "Minute", "Hour", "Day", "Month"]);
}

#[test]
fn the_default_is_a_minute() {
    assert_eq!(TimeFrame::default(), TimeFrame::new(1, TimeFrameUnit::Minute));
    assert_eq!(TimeFrame::default().get_unit(), TimeFrameUnit::Minute);
}

#[test]
fn months_keep_to_the_calendar() {
    let month = TimeFrame::new(1, TimeFrameUnit::Month);
    assert_eq!(
        month.add_time_increment(time(2024, 1, 31, 8, 0, 0), 1).unwrap(),
        time(2024, 2, 29, 8, 0, 0)
    );
    assert_eq!(
        month.add_time_increment(time(2024, 3, 31, 8, 0, 0), -1).unwrap(),
        time(2024, 2, 29, 8, 0, 0)
    );
    assert_eq!(month.get_next_time_increment(time(2023, 12, 31, 23, 59, 59)), time(2024, 1, 1, 0, 0, 0));
    assert!(matches!(
        month.add_time_increment(time(2024, 1, 1, 0, 0, 0), 12_000_000),
        Err(TimeFrameError::InvalidTimeFramePeriod)
    ));
}

#[test]
fn increments_cancel_out_on_values() {
    let frame = TimeFrame::new(5, TimeFrameUnit::Minute);
    let start = time(2025, 6, 1, 0, 2, 3);
    let there = frame.add_time_increment(start, 1000).unwrap();
    assert_eq!(frame.add_time_increment(there, -1000).unwrap(), start);
}

#[test]
fn current_and_next_increments_enclose_the_time() {
    let frame = TimeFrame::new(15, TimeFrameUnit::Minute);
    let now = time(2025, 6, 1, 23, 59, 59);
    let current = frame.get_current_time_increment(now);
    let next = frame.get_next_time_increment(now);
    assert!(frame.is_interval_valid(current));
    assert!(frame.is_interval_valid(next));
    assert_eq!(frame.get_current_time_increment(current), current);
    assert_eq!(frame.add_time_increment(current, 1).unwrap(), next);
    assert!(now.is_before(next) && !now.is_before(current));
}

#[test]
fn milliseconds_are_rounded_down() {
    let at = UtcTime { secs: -1, nanos: 999_999_999 };
    assert_eq!(at.timestamp_millis(), -1);
    let later = UtcTime { secs: 1, nanos: 1_500_000 };
    assert_eq!(later.timestamp_millis(), 1001);
}

#[test]
fn periods_that_lead_off_the_calendar_are_refused() {
    let at = time(2023, 1, 1, 12, 0, 0);
    for unit in [
        TimeFrameUnit::Second,
        TimeFrameUnit::Minute,
        TimeFrameUnit::Hour,
        TimeFrameUnit::Day,
        TimeFrameUnit::Month,
    ] {
        let frame = TimeFrame::new(1, unit);
        for periods in [i64::MAX, i64::MIN] {
            assert!(matches!(
                frame.add_time_increment(at, periods),
                Err(TimeFrameError::InvalidTimeFramePeriod)
            ));
        }
    }
    let month = TimeFrame::new(1, TimeFrameUnit::Month);
    assert!(matches!(
        month.add_time_increment(at, 4_294_967_296),
        Err(TimeFrameError::InvalidTimeFramePeriod)
    ));
    assert!(month.add_time_increment(at, -4_294_967_295).is_err());
}

#[test]
fn the_last_boundary_of_the_calendar_is_reached() {
    let last = chrono::DateTime::<Utc>::MAX_UTC.timestamp();
    let frame = TimeFrame::new(45, TimeFrameUnit::Minute);
    let boundary = frame.get_current_time_increment(UtcTime { secs: last, nanos: 0 });
    let before = UtcTime { secs: boundary.secs - 1, nanos: 0 };
    assert_eq!(frame.get_next_time_increment(before), boundary);
    assert!(before.secs + 45 * 60 > last);
}

#[test]
fn increments_add_up_on_values() {
    let frame = TimeFrame::new(7, TimeFrameUnit::Minute);
    let start = time(2024, 2, 28, 23, 50, 3);
    let between = frame.add_time_increment(start, 5).unwrap();
    let end = frame.add_time_increment(between, -12).unwrap();
    assert_eq!(frame.add_time_increment(start, -7).unwrap(), end);
}

#[test]
fn boundaries_follow_each_other_on_values() {
    for frame in [
        TimeFrame::new(15, TimeFrameUnit::Second),
        TimeFrame::new(20, TimeFrameUnit::Minute),
        TimeFrame::new(6, TimeFrameUnit::Hour),
        TimeFrame::new(1, TimeFrameUnit::Day),
        TimeFrame::new(1, TimeFrameUnit::Month),
    ] {
        let now = time(2024, 12, 31, 23, 59, 59);
        let current = frame.get_current_time_increment(now);
        let next = frame.get_next_time_increment(now);
        assert_eq!(next, time(2025, 1, 1, 0, 0, 0));
        assert!(frame.is_interval_valid(next) && frame.is_interval_valid(current));
        let mut secs = current.secs + 1;
        while secs <= now.secs && secs < current.secs + 90_000 {
            assert!(!frame.is_interval_valid(UtcTime { secs, nanos: 0 }));
            secs += 1;
        }
    }
}
