use chrono::{TimeZone, Utc};
use logic::{ProjectCalendar, RateMeasure, TimeWindow};

fn ts(y: i32, mo: u32, d: u32, h: u32, mi: u32, s: u32) -> i64 {
    Utc.with_ymd_and_hms(y, mo, d, h, mi, s).unwrap().timestamp()
}

fn day(y: i32, mo: u32, d: u32) -> i64 {
    ts(y, mo, d, 0, 0, 0) / 86_400
}

#[test]
fn weekend_window_has_no_working_days() {
    // 2025-01-04 is a Saturday and 2025-01-05 a Sunday: a window spanning
    // exactly that weekend yields zero working days on the default
    // Monday-to-Friday calendar.
    let cal = ProjectCalendar::default();
    let weekend = TimeWindow::new(ts(2025, 1, 4, 0, 0, 0), ts(2025, 1, 5, 12, 0, 0)).unwrap();
    assert_eq!(cal.count_working_days(&weekend), 0);
}

#[test]
fn weekdays_follow_the_calendar() {
    let cal = ProjectCalendar::default();
    assert!(cal.is_working_day(day(2025, 1, 6))); // Monday
    assert!(cal.is_working_day(day(2025, 1, 10))); // Friday
    assert!(!cal.is_working_day(day(2025, 1, 4))); // Saturday
    assert!(!cal.is_working_day(day(2025, 1, 5))); // Sunday
    assert!(cal.is_working_day(day(1970, 1, 1))); // the epoch day, a Thursday
    assert!(!cal.is_working_day(day(1969, 12, 28))); // a Sunday before the epoch
}

#[test]
fn working_days_count_both_endpoint_dates() {
    // Monday 2025-01-06 through Friday 2025-01-10, endpoint dates
    // included: five working days, forty working hours.
    let cal = ProjectCalendar::default();
    let week = TimeWindow::new(ts(2025, 1, 6, 9, 0, 0), ts(2025, 1, 10, 17, 0, 0)).unwrap();
    assert_eq!(cal.count_working_days(&week), 5);
    assert_eq!(cal.working_hours_in_period(&week), 40);
}

#[test]
fn holidays_are_excluded_and_mutation_is_idempotent() {
    let mut cal = ProjectCalendar::default();
    let monday = day(2025, 1, 6);
    assert!(cal.is_working_day(monday));

    cal.add_holiday(monday);
    cal.add_holiday(monday);
    assert!(!cal.is_working_day(monday));

    let week = TimeWindow::new(ts(2025, 1, 6, 0, 0, 0), ts(2025, 1, 10, 12, 0, 0)).unwrap();
    assert_eq!(cal.count_working_days(&week), 4);

    cal.remove_holiday(monday);
    assert!(cal.is_working_day(monday));
    assert_eq!(cal.count_working_days(&week), 5);

    // Removing a date that is not a holiday changes nothing.
    cal.remove_holiday(monday);
    assert!(cal.is_working_day(monday));
}

#[test]
fn windows_meeting_at_a_boundary_do_not_overlap() {
    let january = TimeWindow::new(ts(2025, 1, 1, 0, 0, 0), ts(2025, 2, 1, 0, 0, 0)).unwrap();
    let february = TimeWindow::new(ts(2025, 2, 1, 0, 0, 0), ts(2025, 3, 1, 0, 0, 0)).unwrap();
    assert!(!january.overlaps(&february));
    assert!(!february.overlaps(&january));
}

#[test]
fn overlap_is_symmetric_on_samples() {
    let a = TimeWindow::new(ts(2025, 1, 1, 0, 0, 0), ts(2025, 6, 1, 0, 0, 0)).unwrap();
    let b = TimeWindow::new(ts(2025, 3, 1, 0, 0, 0), ts(2025, 9, 1, 0, 0, 0)).unwrap();
    let c = TimeWindow::new(ts(2026, 1, 1, 0, 0, 0), ts(2026, 2, 1, 0, 0, 0)).unwrap();
    assert_eq!(a.overlaps(&b), b.overlaps(&a));
    assert_eq!(a.overlaps(&c), c.overlaps(&a));
    assert!(a.overlaps(&b));
    assert!(!a.overlaps(&c));
}

#[test]
fn window_contains_is_half_open() {
    let w = TimeWindow::new(100, 200).unwrap();
    assert!(w.contains(100));
    assert!(w.contains(199));
    assert!(!w.contains(200));
    assert!(!w.contains(99));
}

#[test]
fn duration_rounds_down_to_whole_hours() {
    let w = TimeWindow::new(0, 90 * 60).unwrap();
    assert_eq!(w.duration_hours(), 1);
    let y = TimeWindow::new(ts(2025, 1, 1, 0, 0, 0), ts(2025, 1, 2, 0, 0, 0)).unwrap();
    assert_eq!(y.duration_hours(), 24);
}

#[test]
fn split_by_days_cuts_at_midnights() {
    let w = TimeWindow::new(ts(2025, 1, 1, 12, 0, 0), ts(2025, 1, 3, 6, 0, 0)).unwrap();
    let parts = w.split_by_days();
    assert_eq!(parts.len(), 3);
    assert_eq!(parts[0].date_start, ts(2025, 1, 1, 12, 0, 0));
    assert_eq!(parts[0].date_end, ts(2025, 1, 2, 0, 0, 0));
    assert_eq!(parts[1].date_start, ts(2025, 1, 2, 0, 0, 0));
    assert_eq!(parts[1].date_end, ts(2025, 1, 3, 0, 0, 0));
    assert_eq!(parts[2].date_start, ts(2025, 1, 3, 0, 0, 0));
    assert_eq!(parts[2].date_end, ts(2025, 1, 3, 6, 0, 0));

    let inside_one_day = TimeWindow::new(ts(2025, 1, 1, 8, 0, 0), ts(2025, 1, 1, 17, 0, 0))
        .unwrap();
    let single = inside_one_day.split_by_days();
    assert_eq!(single.len(), 1);
    assert_eq!(single[0], inside_one_day);
}

#[test]
fn rate_conversion_round_trips_from_hourly() {
    // Scaling up to a coarser measure and back returns the rate exactly.
    let hourly = RateMeasure::Hourly;
    let to_daily = hourly.convert(RateMeasure::Daily, 1000);
    assert_eq!(to_daily, 8000);
    assert_eq!(RateMeasure::Daily.convert(RateMeasure::Hourly, to_daily), 1000);

    let to_monthly = hourly.convert(RateMeasure::Monthly, 137);
    assert_eq!(to_monthly, 137 * 176);
    assert_eq!(RateMeasure::Monthly.convert(RateMeasure::Hourly, to_monthly), 137);

    assert_eq!(RateMeasure::Daily.convert(RateMeasure::Monthly, 100), 2200);
    assert_eq!(RateMeasure::Monthly.convert(RateMeasure::Daily, 2200), 100);
}

#[test]
fn rate_conversion_downward_drops_fractions() {
    // One daily unit re-expressed hourly floors to zero: this direction
    // cannot round-trip.
    assert_eq!(RateMeasure::Daily.convert(RateMeasure::Hourly, 1), 0);
    assert_eq!(RateMeasure::Monthly.convert(RateMeasure::Daily, 45), 2);
}
