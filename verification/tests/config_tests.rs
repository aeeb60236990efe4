//! Tests for configuration validation, legacy upgrade and queries.

use epaper_display::config::Config;
use epaper_display::config::DayAssignments;
use epaper_display::config::Weekday;
use epaper_display::config::default_day_assignments;
use epaper_display::schedule::SchedulePeriod;
use epaper_display::schedule::SchedulePlan;

#[test]
fn default_config_is_valid() {
    let c = Config::default();
    assert!(c.validate().is_ok());
    assert_eq!(c.display_width, 800);
    assert_eq!(c.display_height, 480);
    assert_eq!(c.web_port, 8888);
    assert!(c.scale_to_fit);
    assert!(c.rotate_first);
    assert!(!c.has_image_url());
}

#[test]
fn weekday_names() {
    assert_eq!(Weekday::Monday.display_name(), "Monday");
    assert_eq!(Weekday::Sunday.display_name(), "Sunday");
    assert_eq!(Weekday::Wednesday.short_name(), "Wed");
    assert_eq!(Weekday::all().len(), 7);
    assert_eq!(Weekday::all()[0], Weekday::Monday);
    assert_eq!(Weekday::all()[6], Weekday::Sunday);
}

#[test]
fn duplicate_plan_names_rejected() {
    let mut c = Config::default();
    c.schedule_plans = vec![
        SchedulePlan::new("Default", vec![SchedulePeriod::new("00:00", "00:00", 60)]),
        SchedulePlan::new("Default", vec![SchedulePeriod::new("00:00", "00:00", 30)]),
    ];
    assert!(c.validate().is_err());
}

#[test]
fn missing_day_assignment_rejected() {
    let mut c = Config::default();
    c.day_assignments = DayAssignments::new_unassigned();
    assert!(c.validate().is_err());
}

#[test]
fn assignment_to_unknown_plan_rejected() {
    let mut c = Config::default();
    let mut a = default_day_assignments();
    a.assign(Weekday::Friday, "NoSuchPlan");
    c.day_assignments = a;
    assert!(c.validate().is_err());
}

#[test]
fn rotation_out_of_range_rejected() {
    let mut c = Config::default();
    c.rotation = 45;
    assert!(c.validate().is_err());
    c.rotation = 270;
    assert!(c.validate().is_ok());
}

#[test]
fn port_and_geometry_bounds() {
    let mut c = Config::default();
    c.web_port = 0;
    assert!(c.validate().is_err());
    c.web_port = 8080;
    c.display_width = 99;
    assert!(c.validate().is_err());
    c.display_width = 2001;
    assert!(c.validate().is_err());
    c.display_width = 2000;
    c.display_height = 50;
    assert!(c.validate().is_err());
    c.display_height = 100;
    assert!(c.validate().is_ok());
}

#[test]
fn has_image_url_ignores_whitespace() {
    let mut c = Config::default();
    c.image_url = String::from("   ");
    assert!(!c.has_image_url());
    // Unicode whitespace counts as blank too, as trimming would treat it.
    c.image_url = String::from("\u{a0}\u{2003}\t");
    assert!(!c.has_image_url());
    c.image_url = String::from("http://example.test/image.png");
    assert!(c.has_image_url());
}

#[test]
fn get_plan_finds_by_name() {
    let c = Config::default();
    assert!(c.get_plan("Default").is_some());
    assert!(c.get_plan("Missing").is_none());
}

#[test]
fn get_plan_for_day_follows_assignment() {
    let mut c = Config::default();
    c.schedule_plans.push(SchedulePlan::new(
        "Weekend",
        vec![SchedulePeriod::new("00:00", "00:00", 240)],
    ));
    let mut a = default_day_assignments();
    a.assign(Weekday::Saturday, "Weekend");
    a.assign(Weekday::Sunday, "Weekend");
    c.day_assignments = a;
    assert!(c.validate().is_ok());
    assert_eq!(c.get_plan_for_day(Weekday::Saturday).unwrap().name.as_str(), "Weekend");
    assert_eq!(c.get_plan_for_day(Weekday::Monday).unwrap().name.as_str(), "Default");
}

#[test]
fn migrate_legacy_schedule_array() {
    let mut c = Config::default();
    c.schedule = Some(vec![
        SchedulePeriod::new("06:00", "22:00", 30),
        SchedulePeriod::new("22:00", "06:00", 120),
    ]);
    c.migrate_legacy_config();
    assert!(c.schedule.is_none());
    assert_eq!(c.schedule_plans.len(), 1);
    assert_eq!(c.schedule_plans[0].name.as_str(), "Default");
    assert_eq!(c.schedule_plans[0].periods.len(), 2);
    assert_eq!(c.schedule_plans[0].periods[0].interval_min, 30);
    assert!(c.validate().is_ok());
}

#[test]
fn migrate_legacy_flat_interval() {
    let mut c = Config::default();
    c.refresh_interval_min = Some(15);
    c.migrate_legacy_config();
    assert!(c.refresh_interval_min.is_none());
    assert_eq!(c.schedule_plans.len(), 1);
    assert_eq!(c.schedule_plans[0].periods.len(), 1);
    assert_eq!(c.schedule_plans[0].periods[0].interval_min, 15);
    assert_eq!(c.schedule_plans[0].periods[0].start_time.as_str(), "00:00");
    assert!(c.validate().is_ok());
}

#[test]
fn migrate_keeps_customized_plans() {
    let mut c = Config::default();
    c.schedule_plans = vec![SchedulePlan::new(
        "Custom",
        vec![SchedulePeriod::new("00:00", "00:00", 90)],
    )];
    let mut a = default_day_assignments();
    for d in [
        Weekday::Monday,
        Weekday::Tuesday,
        Weekday::Wednesday,
        Weekday::Thursday,
        Weekday::Friday,
        Weekday::Saturday,
        Weekday::Sunday,
    ] {
        a.assign(d, "Custom");
    }
    c.day_assignments = a;
    c.refresh_interval_min = Some(5);
    c.schedule = Some(vec![SchedulePeriod::new("00:00", "00:00", 10)]);
    c.migrate_legacy_config();
    // The plans were customized, so neither legacy field replaces them.
    assert_eq!(c.schedule_plans.len(), 1);
    assert_eq!(c.schedule_plans[0].name.as_str(), "Custom");
    assert_eq!(c.schedule_plans[0].periods[0].interval_min, 90);
    assert!(c.schedule.is_none());
    assert!(c.refresh_interval_min.is_none());
}

#[test]
fn default_plan_interval_at_the_current_clock_is_sixty() {
    // The default plan covers the whole day at 60 minutes, so whatever
    // the local clock says, the resolved interval is 60.
    let c = Config::default();
    assert_eq!(c.get_current_interval(), 60);
    assert!(c.get_current_plan().is_some());
    let period = c.get_current_period().unwrap();
    assert_eq!(period.interval_min, 60);
    let _today = Config::get_current_weekday();
}
