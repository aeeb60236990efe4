//! The validated configuration snapshot: weekdays, day-to-plan
//! assignments, display geometry and the schedule plans, with whole-unit
//! validation and the upgrade of legacy single-schedule layouts.

use vstd::prelude::*;
use vstd::string::StringExecFns;
use crate::schedule::ConfigError;
use crate::schedule::SchedulePeriod;
use crate::schedule::SchedulePlan;
use crate::schedule::is_blank;
use crate::schedule::str_eq;
use crate::schedule::str_is_blank;

verus! {

/// Days of the week.
#[derive(Debug, Clone, Copy, PartialEq, Eq, Hash, Structural)]
pub enum Weekday {
    Monday,
    Tuesday,
    Wednesday,
    Thursday,
    Friday,
    Saturday,
    Sunday,
}

/// Position of the weekday in the Monday-first week.
pub open spec fn spec_weekday_index(d: Weekday) -> int {
    match d {
        Weekday::Monday => 0,
        Weekday::Tuesday => 1,
        Weekday::Wednesday => 2,
        Weekday::Thursday => 3,
        Weekday::Friday => 4,
        Weekday::Saturday => 5,
        Weekday::Sunday => 6,
    }
}

/// The weekday at a given Monday-first position.
pub open spec fn spec_weekday_from_index(i: int) -> Weekday {
    if i == 0 {
        Weekday::Monday
    } else if i == 1 {
        Weekday::Tuesday
    } else if i == 2 {
        Weekday::Wednesday
    } else if i == 3 {
        Weekday::Thursday
    } else if i == 4 {
        Weekday::Friday
    } else if i == 5 {
        Weekday::Saturday
    } else {
        Weekday::Sunday
    }
}

impl Weekday {
    /// The weekday's Monday-first position.
    pub fn index(self) -> (i: usize)
        ensures
            i == spec_weekday_index(self),
            i < 7,
    {
        match self {
            Weekday::Monday => 0,
            Weekday::Tuesday => 1,
            Weekday::Wednesday => 2,
            Weekday::Thursday => 3,
            Weekday::Friday => 4,
            Weekday::Saturday => 5,
            Weekday::Sunday => 6,
        }
    }

    /// The weekday at a Monday-first position.
    pub fn from_index(i: u8) -> (d: Weekday)
        requires
            i < 7,
        ensures
            d == spec_weekday_from_index(i as int),
            spec_weekday_index(d) == i,
    {
        match i {
            0 => Weekday::Monday,
            1 => Weekday::Tuesday,
            2 => Weekday::Wednesday,
            3 => Weekday::Thursday,
            4 => Weekday::Friday,
            5 => Weekday::Saturday,
            _ => Weekday::Sunday,
        }
    }

    /// All weekdays, Monday first.
    pub fn all() -> (v: Vec<Weekday>)
        ensures
            v@.len() == 7,
            forall|i: int| 0 <= i < 7 ==> v@[i] == spec_weekday_from_index(i),
    {
        let mut v: Vec<Weekday> = Vec::new();
        v.push(Weekday::Monday);
        v.push(Weekday::Tuesday);
        v.push(Weekday::Wednesday);
        v.push(Weekday::Thursday);
        v.push(Weekday::Friday);
        v.push(Weekday::Saturday);
        v.push(Weekday::Sunday);
        v
    }

    /// Get the full display name for the weekday.
    pub fn display_name(&self) -> (s: &'static str)
        ensures
            s@ == match self {
                Weekday::Monday => "Monday"@,
                Weekday::Tuesday => "Tuesday"@,
                Weekday::Wednesday => "Wednesday"@,
                Weekday::Thursday => "Thursday"@,
                Weekday::Friday => "Friday"@,
                Weekday::Saturday => "Saturday"@,
                Weekday::Sunday => "Sunday"@,
            },
    {
        match self {
            Weekday::Monday => "Monday",
            Weekday::Tuesday => "Tuesday",
            Weekday::Wednesday => "Wednesday",
            Weekday::Thursday => "Thursday",
            Weekday::Friday => "Friday",
            Weekday::Saturday => "Saturday",
            Weekday::Sunday => "Sunday",
        }
    }

    /// Get the short name for the weekday.
    pub fn short_name(&self) -> (s: &'static str)
        ensures
            s@ == match self {
                Weekday::Monday => "Mon"@,
                Weekday::Tuesday => "Tue"@,
                Weekday::Wednesday => "Wed"@,
                Weekday::Thursday => "Thu"@,
                Weekday::Friday => "Fri"@,
                Weekday::Saturday => "Sat"@,
                Weekday::Sunday => "Sun"@,
            },
    {
        match self {
            Weekday::Monday => "Mon",
            Weekday::Tuesday => "Tue",
            Weekday::Wednesday => "Wed",
            Weekday::Thursday => "Thu",
            Weekday::Friday => "Fri",
            Weekday::Saturday => "Sat",
            Weekday::Sunday => "Sun",
        }
    }
}

/// The plan name assigned to each weekday, Monday first; a missing entry
/// is a configuration the validator rejects.
#[derive(Debug, Clone)]
pub struct DayAssignments {
    pub days: Vec<Option<String>>,
}

impl DayAssignments {
    /// Seven slots, one per weekday.
    pub open spec fn wf(&self) -> bool {
        self.days@.len() == 7
    }

    /// The plan name assigned to a weekday.
    pub open spec fn spec_get(&self, d: Weekday) -> Option<String> {
        self.days@[spec_weekday_index(d)]
    }

    /// Every weekday is assigned the given plan name.
    pub open spec fn spec_all_named(&self, name: Seq<char>) -> bool {
        self.wf() && forall|i: int|
            0 <= i < 7 ==> ((#[trigger] self.days@[i]) matches Some(n) && n@ == name)
    }

    /// An assignment table with no entries yet.
    pub fn new_unassigned() -> (a: DayAssignments)
        ensures
            a.wf(),
            forall|i: int| 0 <= i < 7 ==> (#[trigger] a.days@[i]) is None,
    {
        let mut days: Vec<Option<String>> = Vec::new();
        let mut i: usize = 0;
        while i < 7
            invariant
                i <= 7,
                days@.len() == i,
                forall|j: int| 0 <= j < i ==> (#[trigger] days@[j]) is None,
            decreases 7 - i,
        {
            days.push(None);
            i = i + 1;
        }
        DayAssignments { days }
    }

    /// Assign a plan name to a weekday.
    pub fn assign(&mut self, day: Weekday, name: &str)
        requires
            old(self).wf(),
        ensures
            final(self).wf(),
            final(self).days@[spec_weekday_index(day)] matches Some(n) && n@ == name@,
            forall|i: int|
                0 <= i < 7 && i != spec_weekday_index(day) ==> #[trigger] final(self).days@[i]
                    == old(self).days@[i],
    {
        let i = day.index();
        self.days.set(i, Some(String::from_str(name)));
    }

    /// The plan name assigned to a weekday, if one is.
    pub fn get(&self, day: Weekday) -> (r: Option<&String>)
        requires
            self.wf(),
        ensures
            match r {
                Some(n) => self.spec_get(day) matches Some(m) && m@ == n@,
                None => self.spec_get(day) is None,
            },
    {
        let i = day.index();
        match &self.days[i] {
            Some(n) => Some(n),
            None => None,
        }
    }
}

/// Default schedule plans: the single all-day default plan.
pub fn default_schedule_plans() -> (v: Vec<SchedulePlan>)
    ensures
        v@.len() == 1,
        v@[0].spec_valid(),
        v@[0].spec_degenerate(),
        v@[0].name@ == "Default"@,
        v@[0].periods@.len() == 1,
        v@[0].periods@[0].start_time@ == "00:00"@,
        v@[0].periods@[0].end_time@ == "00:00"@,
        v@[0].periods@[0].interval_min == 60,
{
    let mut v: Vec<SchedulePlan> = Vec::new();
    v.push(SchedulePlan::default_plan());
    v
}

/// Default day assignments: every weekday uses the "Default" plan.
pub fn default_day_assignments() -> (a: DayAssignments)
    ensures
        a.spec_all_named("Default"@),
{
    let mut a = DayAssignments::new_unassigned();
    let days = Weekday::all();
    let mut i: usize = 0;
    while i < 7
        invariant
            i <= 7,
            a.wf(),
            days@.len() == 7,
            forall|j: int| 0 <= j < 7 ==> days@[j] == spec_weekday_from_index(j),
            forall|j: int|
                0 <= j < i ==> ((#[trigger] a.days@[j]) matches Some(n) && n@ == "Default"@),
        decreases 7 - i,
    {
        let d = days[i];
        proof {
            assert(spec_weekday_index(spec_weekday_from_index(i as int)) == i as int);
        }
        a.assign(d, "Default");
        i = i + 1;
    }
    a
}

/// Default web server port.
pub fn default_web_port() -> (p: u16)
    ensures
        p == 8888,
{
    8888
}

/// Default for settings that are on unless switched off.
pub fn default_true() -> (b: bool)
    ensures
        b,
{
    true
}

/// Default output width in pixels.
pub fn default_display_width() -> (w: u32)
    ensures
        w == 800,
{
    800
}

/// Default output height in pixels.
pub fn default_display_height() -> (h: u32)
    ensures
        h == 480,
{
    480
}


/// Index of the first plan at or after `i` whose name reads `name`, or
/// the plan count when there is none.
pub open spec fn spec_find_plan(ps: Seq<SchedulePlan>, name: Seq<char>, i: int) -> int
    decreases ps.len() - i,
{
    if i < 0 || i >= ps.len() {
        ps.len() as int
    } else if ps[i].name@ == name {
        i
    } else {
        spec_find_plan(ps, name, i + 1)
    }
}

/// The single default plan covering the whole day at sixty minutes,
/// exactly as a fresh configuration has it.
pub open spec fn spec_is_default_plans_full(ps: Seq<SchedulePlan>) -> bool {
    ps.len() == 1 && ps[0].name@ == "Default"@ && ps[0].periods@.len() == 1
        && ps[0].periods@[0].start_time@ == "00:00"@ && ps[0].periods@[0].end_time@ == "00:00"@
        && ps[0].periods@[0].interval_min == 60
}

/// A single default plan with one period at sixty minutes, whatever its
/// time bounds.
pub open spec fn spec_is_default_plans_hourly(ps: Seq<SchedulePlan>) -> bool {
    ps.len() == 1 && ps[0].name@ == "Default"@ && ps[0].periods@.len() == 1
        && ps[0].periods@[0].interval_min == 60
}

/// Application configuration.
#[derive(Debug, Clone)]
pub struct Config {
    /// URL of the image to display.
    pub image_url: String,
    /// Legacy flat refresh interval, upgraded to a plan on load.
    pub refresh_interval_min: Option<u32>,
    /// Legacy single schedule array, upgraded to a plan on load.
    pub schedule: Option<Vec<SchedulePeriod>>,
    /// Named schedule plans.
    pub schedule_plans: Vec<SchedulePlan>,
    /// Day-of-week to schedule plan assignments.
    pub day_assignments: DayAssignments,
    /// Display rotation in degrees (0, 90, 180, 270).
    pub rotation: u16,
    /// Horizontal mirror.
    pub mirror_h: bool,
    /// Vertical mirror.
    pub mirror_v: bool,
    /// Scale image to fit the display rather than fill it.
    pub scale_to_fit: bool,
    /// Apply rotation before mirroring rather than after.
    pub rotate_first: bool,
    /// Output width in pixels.
    pub display_width: u32,
    /// Output height in pixels.
    pub display_height: u32,
    /// Web server port.
    pub web_port: u16,
    /// Enable verbose logging.
    pub verbose: bool,
}

/// The legacy single-schedule array is present, non-empty, and the plans
/// still stand at their fresh default, so the array becomes the plan.
pub open spec fn spec_migrates_schedule(c: &Config) -> bool {
    &&& c.schedule matches Some(s) && s@.len() > 0
    &&& spec_is_default_plans_full(c.schedule_plans@)
}

/// The legacy flat interval is present and the plans (after any schedule
/// upgrade) still stand at a single hourly default, so the interval
/// becomes the plan's.
pub open spec fn spec_migrates_interval(c: &Config) -> bool {
    &&& c.refresh_interval_min is Some
    &&& if spec_migrates_schedule(c) {
        c.schedule.unwrap()@.len() == 1 && c.schedule.unwrap()@[0].interval_min == 60
    } else {
        spec_is_default_plans_hourly(c.schedule_plans@)
    }
}

impl Config {
    /// No two plans share a name.
    pub open spec fn spec_plans_unique(&self) -> bool {
        forall|i: int, j: int|
            0 <= i < j < self.schedule_plans@.len() ==> (#[trigger] self.schedule_plans@[i]).name@
                != (#[trigger] self.schedule_plans@[j]).name@
    }

    /// The weekday at Monday-first position `d` is assigned an existing
    /// plan.
    pub open spec fn spec_day_ok(&self, d: int) -> bool {
        &&& self.day_assignments.days@[d] matches Some(n) && spec_find_plan(
            self.schedule_plans@,
            n@,
            0,
        ) < self.schedule_plans@.len()
    }

    /// A valid configuration: at least one plan, unique names, every plan
    /// valid, every weekday assigned an existing plan, the rotation one of
    /// the four right angles, a nonzero port and geometry within 100..=2000.
    pub open spec fn spec_valid(&self) -> bool {
        &&& self.schedule_plans@.len() >= 1
        &&& self.spec_plans_unique()
        &&& forall|i: int|
            0 <= i < self.schedule_plans@.len() ==> (#[trigger] self.schedule_plans@[i]).spec_valid()
        &&& self.day_assignments.wf()
        &&& forall|d: int| 0 <= d < 7 ==> self.spec_day_ok(d)
        &&& (self.rotation == 0 || self.rotation == 90 || self.rotation == 180 || self.rotation
            == 270)
        &&& self.web_port != 0
        &&& 100 <= self.display_width <= 2000
        &&& 100 <= self.display_height <= 2000
    }

    /// The plan selected for a weekday: the one its assignment names.
    pub open spec fn spec_plan_index_for_day(&self, d: Weekday) -> Option<int> {
        let di = spec_weekday_index(d);
        if di < self.day_assignments.days@.len() {
            match self.day_assignments.days@[di] {
                Some(n) => {
                    let k = spec_find_plan(self.schedule_plans@, n@, 0);
                    if k < self.schedule_plans@.len() {
                        Some(k)
                    } else {
                        None
                    }
                },
                None => None,
            }
        } else {
            None
        }
    }

    /// The refresh interval the configuration yields for a weekday and a
    /// minute of the day; 60 when no plan is assigned.
    pub open spec fn spec_interval_at(&self, d: Weekday, m: int) -> u32 {
        match self.spec_plan_index_for_day(d) {
            Some(k) => self.schedule_plans@[k].spec_interval_for_time(m),
            None => 60u32,
        }
    }

    /// Whether the current plans are exactly the fresh default.
    fn is_default_plans_full(&self) -> (b: bool)
        ensures
            b == spec_is_default_plans_full(self.schedule_plans@),
    {
        if self.schedule_plans.len() != 1 {
            return false;
        }
        let plan = &self.schedule_plans[0];
        if !str_eq(plan.name.as_str(), "Default") {
            return false;
        }
        if plan.periods.len() != 1 {
            return false;
        }
        let p = &plan.periods[0];
        str_eq(p.start_time.as_str(), "00:00") && str_eq(p.end_time.as_str(), "00:00")
            && p.interval_min == 60
    }

    /// Whether the current plans are a single hourly default plan.
    fn is_default_plans_hourly(&self) -> (b: bool)
        ensures
            b == spec_is_default_plans_hourly(self.schedule_plans@),
    {
        if self.schedule_plans.len() != 1 {
            return false;
        }
        let plan = &self.schedule_plans[0];
        if !str_eq(plan.name.as_str(), "Default") {
            return false;
        }
        plan.periods.len() == 1 && plan.periods[0].interval_min == 60
    }

    /// Upgrade legacy configurations to the plan-based layout: a non-empty
    /// legacy schedule array replaces a still-default plan set; a legacy
    /// flat interval then replaces a still-hourly default plan; either
    /// upgrade points every weekday at the default plan.
    pub fn migrate_legacy_config(&mut self)
        ensures
            final(self).image_url == old(self).image_url,
            final(self).rotation == old(self).rotation,
            final(self).mirror_h == old(self).mirror_h,
            final(self).mirror_v == old(self).mirror_v,
            final(self).scale_to_fit == old(self).scale_to_fit,
            final(self).rotate_first == old(self).rotate_first,
            final(self).display_width == old(self).display_width,
            final(self).display_height == old(self).display_height,
            final(self).web_port == old(self).web_port,
            final(self).verbose == old(self).verbose,
            final(self).schedule is None,
            final(self).refresh_interval_min is None,
            spec_migrates_interval(old(self)) ==> {
                let ps = final(self).schedule_plans@;
                &&& ps.len() == 1
                &&& ps[0].name@ == "Default"@
                &&& ps[0].periods@.len() == 1
                &&& ps[0].periods@[0].start_time@ == "00:00"@
                &&& ps[0].periods@[0].end_time@ == "00:00"@
                &&& ps[0].periods@[0].interval_min == old(self).refresh_interval_min.unwrap()
            },
            !spec_migrates_interval(old(self)) && spec_migrates_schedule(old(self)) ==> {
                let ps = final(self).schedule_plans@;
                &&& ps.len() == 1
                &&& ps[0].name@ == "Default"@
                &&& ps[0].periods@ == old(self).schedule.unwrap()@
            },
            !spec_migrates_interval(old(self)) && !spec_migrates_schedule(old(self))
                ==> final(self).schedule_plans == old(self).schedule_plans,
            spec_migrates_interval(old(self)) || spec_migrates_schedule(old(self))
                ==> final(self).day_assignments.spec_all_named("Default"@),
            !spec_migrates_interval(old(self)) && !spec_migrates_schedule(old(self))
                ==> final(self).day_assignments == old(self).day_assignments,
    {
        let mut migrated = false;
        let sched = self.schedule.take();
        match sched {
            Some(schedule) => {
                if schedule.len() > 0 {
                    if self.is_default_plans_full() {
                        let mut plans: Vec<SchedulePlan> = Vec::new();
                        plans.push(SchedulePlan::new("Default", schedule));
                        self.schedule_plans = plans;
                        migrated = true;
                    }
                }
            },
            None => {},
        }
        let iv = self.refresh_interval_min.take();
        match iv {
            Some(interval) => {
                if self.is_default_plans_hourly() {
                    let mut periods: Vec<SchedulePeriod> = Vec::new();
                    periods.push(SchedulePeriod::new("00:00", "00:00", interval));
                    let mut plans: Vec<SchedulePlan> = Vec::new();
                    plans.push(SchedulePlan::new("Default", periods));
                    self.schedule_plans = plans;
                    migrated = true;
                }
            },
            None => {},
        }
        if migrated {
            self.day_assignments = default_day_assignments();
        }
    }

    /// Validate configuration values: `Ok` exactly on valid configurations.
    pub fn validate(&self) -> (r: Result<(), ConfigError>)
        ensures
            r is Ok <==> self.spec_valid(),
    {
        let ghost ps = self.schedule_plans@;
        if self.schedule_plans.len() == 0 {
            return Err(ConfigError::ValidationError(
                String::from_str("at least one schedule plan is required"),
            ));
        }
        let n = self.schedule_plans.len();
        let mut i: usize = 0;
        while i < n
            invariant
                i <= n,
                n == ps.len(),
                ps == self.schedule_plans@,
                forall|a: int, b: int|
                    0 <= a < b < i ==> (#[trigger] ps[a]).name@ != (#[trigger] ps[b]).name@,
                forall|a: int| 0 <= a < i ==> (#[trigger] ps[a]).spec_valid(),
            decreases n - i,
        {
            let mut j: usize = 0;
            while j < i
                invariant
                    j <= i < n,
                    n == ps.len(),
                    ps == self.schedule_plans@,
                    forall|b: int| 0 <= b < j ==> (#[trigger] ps[b]).name@ != ps[i as int].name@,
                decreases i - j,
            {
                if str_eq(self.schedule_plans[j].name.as_str(), self.schedule_plans[i].name.as_str())
                 {
                    return Err(ConfigError::ValidationError(
                        String::from_str("duplicate schedule plan name"),
                    ));
                }
                j = j + 1;
            }
            match self.schedule_plans[i].validate() {
                Ok(_) => (),
                Err(e) => {
                    return Err(e);
                },
            }
            i = i + 1;
        }
        if self.day_assignments.days.len() != 7 {
            return Err(ConfigError::ValidationError(String::from_str("missing day assignment")));
        }
        let mut d: usize = 0;
        while d < 7
            invariant
                d <= 7,
                self.day_assignments.wf(),
                forall|k: int| 0 <= k < d ==> self.spec_day_ok(k),
            decreases 7 - d,
        {
            let day = Weekday::from_index(d as u8);
            proof {
                assert(spec_weekday_index(day) == d as int);
            }
            let found = match self.day_assignments.get(day) {
                None => {
                    proof {
                        assert(self.day_assignments.days@[d as int] is None);
                        assert(!self.spec_day_ok(d as int));
                    }
                    return Err(ConfigError::ValidationError(
                        String::from_str("missing day assignment"),
                    ));
                },
                Some(name) => {
                    let present = self.get_plan(name.as_str()).is_some();
                    proof {
                        if !present {
                            assert(!self.spec_day_ok(d as int));
                        } else {
                            assert(self.spec_day_ok(d as int));
                        }
                    }
                    present
                },
            };
            if !found {
                return Err(ConfigError::ValidationError(
                    String::from_str("weekday is assigned to a plan that does not exist"),
                ));
            }
            d = d + 1;
        }
        if !(self.rotation == 0 || self.rotation == 90 || self.rotation == 180 || self.rotation
            == 270) {
            return Err(ConfigError::ValidationError(
                String::from_str("rotation must be 0, 90, 180, or 270"),
            ));
        }
        if self.web_port == 0 {
            return Err(ConfigError::ValidationError(
                String::from_str("web_port must be greater than 0"),
            ));
        }
        if self.display_width < 100 || self.display_width > 2000 {
            return Err(ConfigError::ValidationError(
                String::from_str("display_width must be between 100 and 2000"),
            ));
        }
        if self.display_height < 100 || self.display_height > 2000 {
            return Err(ConfigError::ValidationError(
                String::from_str("display_height must be between 100 and 2000"),
            ));
        }
        Ok(())
    }

    /// Get a schedule plan by name: the first plan so named.
    pub fn get_plan(&self, name: &str) -> (r: Option<&SchedulePlan>)
        ensures
            match r {
                Some(p) => spec_find_plan(self.schedule_plans@, name@, 0)
                    < self.schedule_plans@.len() && *p == self.schedule_plans@[spec_find_plan(
                    self.schedule_plans@,
                    name@,
                    0,
                )],
                None => spec_find_plan(self.schedule_plans@, name@, 0)
                    == self.schedule_plans@.len(),
            },
    {
        let ghost ps = self.schedule_plans@;
        let mut i: usize = 0;
        while i < self.schedule_plans.len()
            invariant
                i <= ps.len(),
                ps == self.schedule_plans@,
                spec_find_plan(ps, name@, 0) == spec_find_plan(ps, name@, i as int),
            decreases ps.len() - i,
        {
            if str_eq(self.schedule_plans[i].name.as_str(), name) {
                return Some(&self.schedule_plans[i]);
            }
            i = i + 1;
        }
        None
    }

    /// Get the schedule plan assigned to a weekday.
    pub fn get_plan_for_day(&self, day: Weekday) -> (r: Option<&SchedulePlan>)
        ensures
            match r {
                Some(p) => self.spec_plan_index_for_day(day) matches Some(k) && *p
                    == self.schedule_plans@[k],
                None => self.spec_plan_index_for_day(day) is None,
            },
    {
        let di = day.index();
        if di >= self.day_assignments.days.len() {
            return None;
        }
        let name = match &self.day_assignments.days[di] {
            Some(n) => n,
            None => {
                return None;
            },
        };
        self.get_plan(name.as_str())
    }

    /// Check whether an image URL is configured (non-blank).
    pub fn has_image_url(&self) -> (b: bool)
        ensures
            b == !is_blank(self.image_url@),
    {
        !str_is_blank(self.image_url.as_str())
    }

    /// The weekday of the local clock.
    ///
    /// The result follows the clock, so nothing more can be promised of it.
    pub fn get_current_weekday() -> Weekday {
        let (wd, _minutes) = local_now_parts();
        Weekday::from_index(wd)
    }

    /// The plan assigned to the local clock's weekday.
    pub fn get_current_plan(&self) -> (r: Option<&SchedulePlan>)
        ensures
            match r {
                Some(p) => exists|d: Weekday|
                    (#[trigger] self.spec_plan_index_for_day(d)) matches Some(k) && *p
                        == self.schedule_plans@[k],
                None => exists|d: Weekday| (#[trigger] self.spec_plan_index_for_day(d)) is None,
            },
    {
        let (wd, _minutes) = local_now_parts();
        let day = Weekday::from_index(wd);
        let r = self.get_plan_for_day(day);
        proof {
            match r {
                Some(p) => {
                    assert(self.spec_plan_index_for_day(day) matches Some(k) && *p
                        == self.schedule_plans@[k]);
                },
                None => {
                    assert(self.spec_plan_index_for_day(day) is None);
                },
            }
        }
        r
    }

    /// The refresh interval at the local clock's weekday and minute.
    pub fn get_current_interval(&self) -> (r: u32)
        ensures
            exists|d: Weekday, m: int| 0 <= m < 1440 && r == #[trigger] self.spec_interval_at(d, m),
    {
        let (wd, minutes) = local_now_parts();
        let day = Weekday::from_index(wd);
        let r = match self.get_plan_for_day(day) {
            Some(plan) => plan.get_interval_for_time(minutes),
            None => 60,
        };
        proof {
            assert(r == self.spec_interval_at(day, minutes as int));
        }
        r
    }

    /// The plan and period the configuration selects for a weekday and a
    /// minute of the day, as indices into the plans and that plan's
    /// periods; nothing when no plan is assigned or it has no periods.
    pub open spec fn spec_period_at(&self, d: Weekday, m: int) -> Option<(int, int)> {
        match self.spec_plan_index_for_day(d) {
            Some(k) => match self.schedule_plans@[k].spec_period_index_for_time(m) {
                Some(j) => Some((k, j)),
                None => None,
            },
            None => None,
        }
    }

    /// The active schedule period at the local clock's weekday and minute:
    /// the period the selection spec picks for some clock reading. What
    /// the selection means is stated on `SchedulePlan::get_period_for_time`.
    pub fn get_current_period(&self) -> (r: Option<&SchedulePeriod>)
        ensures
            match r {
                Some(p) => exists|d: Weekday, m: int|
                    0 <= m < 1440 && ((#[trigger] self.spec_period_at(d, m)) matches Some(kj) && *p
                        == self.schedule_plans@[kj.0].periods@[kj.1]),
                None => exists|d: Weekday, m: int|
                    0 <= m < 1440 && (#[trigger] self.spec_period_at(d, m)) is None,
            },
    {
        let (wd, minutes) = local_now_parts();
        let day = Weekday::from_index(wd);
        let r = match self.get_plan_for_day(day) {
            Some(plan) => plan.get_period_for_time(minutes),
            None => None,
        };
        proof {
            match r {
                Some(p) => {
                    assert(self.spec_period_at(day, minutes as int) matches Some(kj) && *p
                        == self.schedule_plans@[kj.0].periods@[kj.1]);
                },
                None => {
                    assert(self.spec_period_at(day, minutes as int) is None);
                },
            }
        }
        r
    }
}

impl Default for Config {
    /// A fresh configuration: no image URL, the single hourly default
    /// plan on every weekday, no transforms, an 800 x 480 output and port
    /// 8888. It is valid.
    fn default() -> (c: Self)
        ensures
            c.image_url@ == Seq::<char>::empty(),
            c.refresh_interval_min is None,
            c.schedule is None,
            spec_is_default_plans_full(c.schedule_plans@),
            c.schedule_plans@[0].spec_valid(),
            c.day_assignments.spec_all_named("Default"@),
            c.rotation == 0,
            !c.mirror_h,
            !c.mirror_v,
            c.scale_to_fit,
            c.rotate_first,
            c.display_width == 800,
            c.display_height == 480,
            c.web_port == 8888,
            !c.verbose,
            c.spec_valid(),
    {
        let c = Config {
            image_url: String::new(),
            refresh_interval_min: None,
            schedule: None,
            schedule_plans: default_schedule_plans(),
            day_assignments: default_day_assignments(),
            rotation: 0,
            mirror_h: false,
            mirror_v: false,
            scale_to_fit: true,
            rotate_first: true,
            display_width: default_display_width(),
            display_height: default_display_height(),
            web_port: default_web_port(),
            verbose: false,
        };
        proof {
            assert forall|d: int| 0 <= d < 7 implies c.spec_day_ok(d) by {
                assert(c.day_assignments.days@[d] matches Some(n) && n@ == "Default"@);
                assert(spec_find_plan(c.schedule_plans@, "Default"@, 0) == 0);
            }
        }
        c
    }
}

/// Relies on chrono's `Local::now`, `Datelike::weekday` with
/// `num_days_from_monday`, and `Timelike::hour`/`minute`: the local
/// weekday as days from Monday (below 7), the hour (below 24) and the
/// minute (below 60). The result follows the clock.
#[verifier::external_body]
fn local_clock_parts() -> (r: (u8, u32, u32))
    ensures
        r.0 < 7,
        r.1 < 24,
        r.2 < 60,
{
    let now = chrono::Local::now();
    let wd = chrono::Datelike::weekday(&now).num_days_from_monday() as u8;
    (wd, chrono::Timelike::hour(&now), chrono::Timelike::minute(&now))
}

/// The local clock as a weekday and a minute of the day.
fn local_now_parts() -> (r: (u8, u32))
    ensures
        r.0 < 7,
        r.1 < 1440,
{
    let (wd, hour, minute) = local_clock_parts();
    (wd, hour * 60 + minute)
}

} // verus!
