//! Tests for time parsing, schedule periods and plan validation.

use epaper_display::schedule::SchedulePeriod;
use epaper_display::schedule::SchedulePlan;

#[test]
fn parse_time_valid_times() {
    assert_eq!(SchedulePeriod::parse_time("00:00").unwrap(), 0);
    assert_eq!(SchedulePeriod::parse_time("06:30").unwrap(), 390);
    assert_eq!(SchedulePeriod::parse_time("23:59").unwrap(), 1439);
    assert_eq!(SchedulePeriod::parse_time("12:00").unwrap(), 720);
}

#[test]
fn parse_time_single_digit_parts() {
    assert_eq!(SchedulePeriod::parse_time("7:05").unwrap(), 425);
    assert_eq!(SchedulePeriod::parse_time("7:5").unwrap(), 425);
}

#[test]
fn parse_time_rejects_out_of_range() {
    assert!(SchedulePeriod::parse_time("24:00").is_err());
    assert!(SchedulePeriod::parse_time("12:60").is_err());
    assert!(SchedulePeriod::parse_time("99:99").is_err());
}

#[test]
fn parse_time_rejects_malformed() {
    assert!(SchedulePeriod::parse_time("").is_err());
    assert!(SchedulePeriod::parse_time("1230").is_err());
    assert!(SchedulePeriod::parse_time("12:30:00").is_err());
    assert!(SchedulePeriod::parse_time("ab:cd").is_err());
    assert!(SchedulePeriod::parse_time("12:").is_err());
    assert!(SchedulePeriod::parse_time(":30").is_err());
    assert!(SchedulePeriod::parse_time("-1:30").is_err());
}

#[test]
fn parse_time_round_trips_every_minute() {
    for h in 0..24u32 {
        for m in 0..60u32 {
            let s = format!("{:02}:{:02}", h, m);
            assert_eq!(SchedulePeriod::parse_time(&s).unwrap(), h * 60 + m);
        }
    }
}

#[test]
fn period_contains_normal_range() {
    let p = SchedulePeriod::new("06:00", "18:00", 30);
    assert!(!p.spans_midnight().unwrap());
    assert!(p.contains_time(360).unwrap());
    assert!(p.contains_time(720).unwrap());
    assert!(p.contains_time(1079).unwrap());
    assert!(!p.contains_time(1080).unwrap());
    assert!(!p.contains_time(0).unwrap());
}

#[test]
fn period_contains_wrapping_range() {
    let p = SchedulePeriod::new("23:00", "06:00", 120);
    assert!(p.spans_midnight().unwrap());
    assert!(p.contains_time(1380).unwrap());
    assert!(p.contains_time(0).unwrap());
    assert!(p.contains_time(359).unwrap());
    assert!(!p.contains_time(360).unwrap());
    assert!(!p.contains_time(720).unwrap());
}

#[test]
fn period_validate_interval_bounds() {
    assert!(SchedulePeriod::new("00:00", "00:00", 0).validate().is_err());
    assert!(SchedulePeriod::new("00:00", "00:00", 1441).validate().is_err());
    assert!(SchedulePeriod::new("00:00", "00:00", 1).validate().is_ok());
    assert!(SchedulePeriod::new("00:00", "00:00", 1440).validate().is_ok());
    assert!(SchedulePeriod::new("25:00", "00:00", 60).validate().is_err());
}

#[test]
fn default_plan_is_valid_all_day() {
    let plan = SchedulePlan::default_plan();
    assert!(plan.validate().is_ok());
    assert_eq!(plan.name.as_str(), "Default");
    assert_eq!(plan.periods.len(), 1);
}

#[test]
fn plan_interval_default_plan_any_time() {
    // A single 00:00-00:00 period at 60 minutes answers 60 whenever asked.
    let plan = SchedulePlan::default_plan();
    for t in [0u32, 1, 359, 360, 720, 1410, 1439] {
        assert_eq!(plan.get_interval_for_time(t), 60);
    }
}

#[test]
fn plan_day_night_periods_resolve() {
    // 06:00-22:00 every 30 minutes, 22:00-06:00 every 120 minutes.
    let plan = SchedulePlan::new(
        "DayNight",
        vec![
            SchedulePeriod::new("06:00", "22:00", 30),
            SchedulePeriod::new("22:00", "06:00", 120),
        ],
    );
    assert!(plan.validate().is_ok());
    // 23:30 falls in the wrapping night period.
    assert_eq!(plan.get_interval_for_time(23 * 60 + 30), 120);
    let night = plan.get_period_for_time(23 * 60 + 30).unwrap();
    assert_eq!(night.start_time.as_str(), "22:00");
    assert_eq!(night.interval_min, 120);
    // 06:00 falls in the day period (half-open bounds).
    assert_eq!(plan.get_interval_for_time(6 * 60), 30);
    let day = plan.get_period_for_time(6 * 60).unwrap();
    assert_eq!(day.start_time.as_str(), "06:00");
    assert_eq!(day.interval_min, 30);
}

#[test]
fn plan_with_gap_is_rejected() {
    let plan = SchedulePlan::new(
        "Gappy",
        vec![
            SchedulePeriod::new("00:00", "12:00", 30),
            SchedulePeriod::new("13:00", "00:00", 60),
        ],
    );
    assert!(plan.validate().is_err());
}

#[test]
fn plan_with_overlap_is_rejected() {
    let plan = SchedulePlan::new(
        "Overlappy",
        vec![
            SchedulePeriod::new("00:00", "13:00", 30),
            SchedulePeriod::new("12:00", "00:00", 60),
        ],
    );
    assert!(plan.validate().is_err());
}

#[test]
fn plan_full_cover_three_periods_is_accepted() {
    let plan = SchedulePlan::new(
        "Work",
        vec![
            SchedulePeriod::new("00:00", "07:00", 120),
            SchedulePeriod::new("07:00", "19:00", 15),
            SchedulePeriod::new("19:00", "00:00", 60),
        ],
    );
    assert!(plan.validate().is_ok());
    assert_eq!(plan.get_interval_for_time(8 * 60), 15);
    assert_eq!(plan.get_interval_for_time(20 * 60), 60);
    assert_eq!(plan.get_interval_for_time(3 * 60), 120);
}

#[test]
fn plan_blank_name_is_rejected() {
    let plan = SchedulePlan::new("   ", vec![SchedulePeriod::new("00:00", "00:00", 60)]);
    assert!(plan.validate().is_err());
}

#[test]
fn plan_without_periods_is_rejected() {
    let plan = SchedulePlan::new("Empty", vec![]);
    assert!(plan.validate().is_err());
}

#[test]
fn period_fallback_when_nothing_matches() {
    // A single non-covering period: queries fall back to the first period.
    let plan = SchedulePlan::new("Partial", vec![SchedulePeriod::new("06:00", "12:00", 45)]);
    assert_eq!(plan.get_interval_for_time(13 * 60), 45);
    let p = plan.get_period_for_time(13 * 60).unwrap();
    assert_eq!(p.start_time.as_str(), "06:00");
}
