//! The weekly refresh-schedule model: time-of-day parsing, schedule
//! periods, and named plans whose periods must partition the day.

use vstd::prelude::*;
use vstd::string::StrSliceExecFns;
use vstd::string::StringExecFns;

verus! {

/// Configuration errors: a reason the configuration cannot be used.
#[derive(Debug)]
pub enum ConfigError {
    ValidationError(String),
}

impl ConfigError {
    /// The human-readable reason.
    pub fn message(&self) -> (m: &String)
        ensures
            self matches ConfigError::ValidationError(s) && m@ == s@,
    {
        match self {
            ConfigError::ValidationError(s) => s,
        }
    }
}

/// A configuration error with the given text.
fn validation_error(msg: &str) -> (e: ConfigError)
    ensures
        e matches ConfigError::ValidationError(s) && s@ == msg@,
{
    ConfigError::ValidationError(String::from_str(msg))
}

/// Unicode whitespace: the White_Space code points, as the standard
/// library's whitespace trimming treats them.
pub open spec fn is_space_char(c: char) -> bool {
    let u = c as u32;
    u == 0x09 || u == 0x0A || u == 0x0B || u == 0x0C || u == 0x0D || u == 0x20 || u == 0x85
        || u == 0xA0 || u == 0x1680 || (0x2000 <= u && u <= 0x200A) || u == 0x2028 || u == 0x2029
        || u == 0x202F || u == 0x205F || u == 0x3000
}

/// Decide whether a character is whitespace.
fn char_is_space(c: char) -> (b: bool)
    ensures
        b == is_space_char(c),
{
    let u = c as u32;
    u == 0x09 || u == 0x0A || u == 0x0B || u == 0x0C || u == 0x0D || u == 0x20 || u == 0x85
        || u == 0xA0 || u == 0x1680 || (0x2000 <= u && u <= 0x200A) || u == 0x2028 || u == 0x2029
        || u == 0x202F || u == 0x205F || u == 0x3000
}

/// A string is blank when it holds nothing but whitespace.
pub open spec fn is_blank(s: Seq<char>) -> bool {
    forall|i: int| 0 <= i < s.len() ==> is_space_char(#[trigger] s[i])
}

/// Decide whether a string is blank (empty or whitespace only).
pub fn str_is_blank(s: &str) -> (b: bool)
    ensures
        b == is_blank(s@),
{
    let n = s.unicode_len();
    let mut i: usize = 0;
    while i < n
        invariant
            i <= n,
            n == s@.len(),
            forall|j: int| 0 <= j < i ==> is_space_char(#[trigger] s@[j]),
        decreases n - i,
    {
        let c = s.get_char(i);
        if !char_is_space(c) {
            return false;
        }
        i = i + 1;
    }
    true
}

/// Decide whether two strings hold the same characters.
pub fn str_eq(a: &str, b: &str) -> (r: bool)
    ensures
        r == (a@ == b@),
{
    let na = a.unicode_len();
    let nb = b.unicode_len();
    if na != nb {
        return false;
    }
    let mut i: usize = 0;
    while i < na
        invariant
            i <= na,
            na == a@.len(),
            na == b@.len(),
            forall|j: int| 0 <= j < i ==> a@[j] == b@[j],
        decreases na - i,
    {
        if a.get_char(i) != b.get_char(i) {
            return false;
        }
        i = i + 1;
    }
    proof {
        assert(a@ =~= b@);
    }
    true
}

/// A decimal digit.
pub open spec fn is_digit(c: char) -> bool {
    48 <= (c as u32) <= 57
}

/// Value of a decimal digit.
pub open spec fn digit_val(c: char) -> int {
    (c as u32) - 48
}

/// A nonempty string of decimal digits.
pub open spec fn all_digits(s: Seq<char>) -> bool {
    s.len() >= 1 && forall|i: int| 0 <= i < s.len() ==> is_digit(#[trigger] s[i])
}

/// Numeric value of a digit string.
pub open spec fn num_val(s: Seq<char>) -> int
    decreases s.len(),
{
    if s.len() == 0 {
        0
    } else {
        num_val(s.drop_last()) * 10 + digit_val(s.last())
    }
}

/// The digits of a number string, a leading `+` allowed as Rust's integer
/// parsing allows it.
pub open spec fn unsigned_part(s: Seq<char>) -> Seq<char> {
    if s.len() >= 1 && s[0] == '+' {
        s.subrange(1, s.len() as int)
    } else {
        s
    }
}

/// The string parses as a `u32`: an optional `+`, then one or more digits,
/// with a value that fits.
pub open spec fn parses_as_u32(s: Seq<char>) -> bool {
    all_digits(unsigned_part(s)) && num_val(unsigned_part(s)) <= u32::MAX
}

/// The number the string denotes.
pub open spec fn u32_of(s: Seq<char>) -> int {
    num_val(unsigned_part(s))
}

/// Index of the first `:` at or after `i`, or the length if there is none.
pub open spec fn find_colon(s: Seq<char>, i: int) -> int
    decreases s.len() - i,
{
    if i < 0 || i >= s.len() {
        s.len() as int
    } else if s[i] == ':' {
        i
    } else {
        find_colon(s, i + 1)
    }
}

/// What a time-of-day string means: `H:M` with exactly one `:`, both parts
/// unsigned numbers, hours below 24 and minutes below 60, as minutes since
/// midnight; or nothing.
pub open spec fn spec_parse_time(s: Seq<char>) -> Option<int> {
    let k = find_colon(s, 0);
    if k == s.len() {
        None
    } else if find_colon(s, k + 1) != s.len() {
        None
    } else {
        let hp = s.subrange(0, k);
        let mp = s.subrange(k + 1, s.len() as int);
        if !parses_as_u32(hp) || !parses_as_u32(mp) {
            None
        } else if u32_of(hp) >= 24 || u32_of(mp) >= 60 {
            None
        } else {
            Some(u32_of(hp) * 60 + u32_of(mp))
        }
    }
}

/// A parsed time is a minute of the day.
pub proof fn lemma_parse_time_range(s: Seq<char>)
    ensures
        spec_parse_time(s) matches Some(t) ==> 0 <= t < 1440,
{
    let k = find_colon(s, 0);
    if spec_parse_time(s) is Some {
        let hp = s.subrange(0, k);
        let mp = s.subrange(k + 1, s.len() as int);
        lemma_num_val_nonneg(unsigned_part(hp));
        lemma_num_val_nonneg(unsigned_part(mp));
    }
}

/// Digit strings denote nonnegative numbers.
proof fn lemma_num_val_nonneg(s: Seq<char>)
    requires
        forall|i: int| 0 <= i < s.len() ==> is_digit(#[trigger] s[i]),
    ensures
        num_val(s) >= 0,
    decreases s.len(),
{
    if s.len() > 0 {
        lemma_num_val_nonneg(s.drop_last());
    }
}

/// Find the first `:` at or after `start`.
fn find_colon_exec(s: &str, start: usize) -> (k: usize)
    requires
        start <= s@.len(),
    ensures
        k == find_colon(s@, start as int),
        start <= k <= s@.len(),
{
    let n = s.unicode_len();
    let mut i: usize = start;
    while i < n
        invariant
            start <= i <= n,
            n == s@.len(),
            find_colon(s@, start as int) == find_colon(s@, i as int),
        decreases n - i,
    {
        if s.get_char(i) == ':' {
            return i;
        }
        i = i + 1;
    }
    n
}

/// Parse the characters `from .. to` of `s` as a `u32`, as Rust's integer
/// parsing would: an optional leading `+`, then decimal digits.
fn parse_u32_part(s: &str, from: usize, to: usize) -> (r: Option<u32>)
    requires
        from <= to <= s@.len(),
    ensures
        match r {
            Some(v) => parses_as_u32(s@.subrange(from as int, to as int)) && v == u32_of(
                s@.subrange(from as int, to as int),
            ),
            None => !parses_as_u32(s@.subrange(from as int, to as int)),
        },
{
    let ghost part: Seq<char> = s@.subrange(from as int, to as int);
    let mut i: usize = from;
    if i < to && s.get_char(i) == '+' {
        i = i + 1;
    }
    let ghost d: Seq<char> = unsigned_part(part);
    proof {
        assert(d =~= s@.subrange(i as int, to as int));
    }
    if i == to {
        // no digits at all
        return None;
    }
    let mut acc: u32 = 0;
    while i < to
        invariant
            from <= i <= to,
            to <= s@.len(),
            part == s@.subrange(from as int, to as int),
            d == unsigned_part(part),
            d =~= s@.subrange((to - d.len()) as int, to as int),
            i == to - d.len() + (i - (to - d.len())),
            to - d.len() <= i,
            forall|j: int| 0 <= j < i - (to - d.len()) ==> is_digit(#[trigger] d[j]),
            acc == num_val(d.subrange(0, i - (to - d.len()))),
        decreases to - i,
    {
        let c = s.get_char(i);
        let u = c as u32;
        if !(48 <= u && u <= 57) {
            proof {
                let off = i - (to - d.len());
                assert(d[off] == s@[i as int]);
                assert(!is_digit(d[off]));
            }
            return None;
        }
        let digit: u32 = u - 48;
        let ghost off = i - (to - d.len());
        let ghost pfx = d.subrange(0, off);
        let ghost pfx1 = d.subrange(0, off + 1);
        proof {
            assert(pfx1.drop_last() =~= pfx);
            assert(pfx1.last() == d[off]);
            assert(d[off] == s@[i as int]);
            assert(num_val(pfx1) == num_val(pfx) * 10 + digit_val(d[off]));
        }
        let step = acc.checked_mul(10);
        match step {
            Some(t) => {
                match t.checked_add(digit) {
                    Some(v) => {
                        acc = v;
                    },
                    None => {
                        proof {
                            if all_digits(d) {
                                lemma_num_val_prefix_mono(d, off + 1, d.len() as int);
                                assert(d.subrange(0, d.len() as int) =~= d);
                            }
                        }
                        return None;
                    },
                }
            },
            None => {
                proof {
                    lemma_num_val_nonneg_digit(d[off]);
                    if all_digits(d) {
                        lemma_num_val_prefix_mono(d, off + 1, d.len() as int);
                        assert(d.subrange(0, d.len() as int) =~= d);
                    }
                }
                return None;
            },
        }
        i = i + 1;
    }
    proof {
        assert(d.subrange(0, d.len() as int) =~= d);
    }
    Some(acc)
}

/// A time-based refresh schedule period: a start and end time of day in
/// `HH:MM` form, and the refresh interval that applies inside it.
#[derive(Debug, Clone)]
pub struct SchedulePeriod {
    pub start_time: String,
    pub end_time: String,
    pub interval_min: u32,
}

impl SchedulePeriod {
    /// The minute of the day the period starts at, if the text parses.
    pub open spec fn spec_start(&self) -> Option<int> {
        spec_parse_time(self.start_time@)
    }

    /// The minute of the day the period ends before, if the text parses.
    pub open spec fn spec_end(&self) -> Option<int> {
        spec_parse_time(self.end_time@)
    }

    /// Both time strings parse.
    pub open spec fn times_ok(&self) -> bool {
        self.spec_start() is Some && self.spec_end() is Some
    }

    /// The interval lies in 1..=1440 minutes.
    pub open spec fn interval_ok(&self) -> bool {
        1 <= self.interval_min <= 1440
    }

    /// A valid period: times parse and the interval is in range.
    pub open spec fn spec_valid(&self) -> bool {
        self.times_ok() && self.interval_ok()
    }

    /// The period wraps past midnight (an equal start and end means the
    /// whole day).
    pub open spec fn spec_spans_midnight(&self) -> bool {
        self.spec_end().unwrap() <= self.spec_start().unwrap()
    }

    /// Half-open containment of a minute of the day, wrapping at midnight:
    /// a wrapping period holds `t` iff `t >= start` or `t < end`, an
    /// ordinary one iff `start <= t < end`.
    pub open spec fn spec_contains(&self, t: int) -> bool {
        let s = self.spec_start().unwrap();
        let e = self.spec_end().unwrap();
        if e <= s {
            t >= s || t < e
        } else {
            s <= t < e
        }
    }

    /// Create a new schedule period.
    pub fn new(start_time: &str, end_time: &str, interval_min: u32) -> (p: Self)
        ensures
            p.start_time@ == start_time@,
            p.end_time@ == end_time@,
            p.interval_min == interval_min,
    {
        SchedulePeriod {
            start_time: String::from_str(start_time),
            end_time: String::from_str(end_time),
            interval_min,
        }
    }

    /// Parse a time string to minutes since midnight; `Ok` exactly on the
    /// strings that denote a time of day.
    pub fn parse_time(time_str: &str) -> (r: Result<u32, ConfigError>)
        ensures
            match r {
                Ok(m) => spec_parse_time(time_str@) == Some(m as int),
                Err(_) => spec_parse_time(time_str@) is None,
            },
    {
        let n = time_str.unicode_len();
        let k = find_colon_exec(time_str, 0);
        if k == n {
            return Err(validation_error("invalid time format, expected HH:MM"));
        }
        let k2 = find_colon_exec(time_str, k + 1);
        if k2 != n {
            return Err(validation_error("invalid time format, expected HH:MM"));
        }
        let hours = match parse_u32_part(time_str, 0, k) {
            Some(v) => v,
            None => {
                return Err(validation_error("invalid hour in time"));
            },
        };
        let minutes = match parse_u32_part(time_str, k + 1, n) {
            Some(v) => v,
            None => {
                return Err(validation_error("invalid minutes in time"));
            },
        };
        if hours >= 24 || minutes >= 60 {
            return Err(validation_error("time out of range (00:00-23:59)"));
        }
        Ok(hours * 60 + minutes)
    }

    /// Get the start time as minutes since midnight.
    pub fn start_minutes(&self) -> (r: Result<u32, ConfigError>)
        ensures
            match r {
                Ok(v) => self.spec_start() == Some(v as int),
                Err(_) => self.spec_start() is None,
            },
    {
        Self::parse_time(self.start_time.as_str())
    }

    /// Get the end time as minutes since midnight.
    pub fn end_minutes(&self) -> (r: Result<u32, ConfigError>)
        ensures
            match r {
                Ok(v) => self.spec_end() == Some(v as int),
                Err(_) => self.spec_end() is None,
            },
    {
        Self::parse_time(self.end_time.as_str())
    }

    /// Whether this period spans midnight; an error when a time string
    /// does not parse.
    pub fn spans_midnight(&self) -> (r: Result<bool, ConfigError>)
        ensures
            r is Ok <==> self.times_ok(),
            r matches Ok(b) ==> b == self.spec_spans_midnight(),
    {
        let start = match self.start_minutes() {
            Ok(v) => v,
            Err(e) => {
                return Err(e);
            },
        };
        let end = match self.end_minutes() {
            Ok(v) => v,
            Err(e) => {
                return Err(e);
            },
        };
        Ok(end <= start)
    }

    /// Whether the given minute of the day falls within this period; an
    /// error when a time string does not parse.
    pub fn contains_time(&self, time_minutes: u32) -> (r: Result<bool, ConfigError>)
        ensures
            r is Ok <==> self.times_ok(),
            r matches Ok(b) ==> b == self.spec_contains(time_minutes as int),
    {
        let start = match self.start_minutes() {
            Ok(v) => v,
            Err(e) => {
                return Err(e);
            },
        };
        let end = match self.end_minutes() {
            Ok(v) => v,
            Err(e) => {
                return Err(e);
            },
        };
        if end <= start {
            Ok(time_minutes >= start || time_minutes < end)
        } else {
            Ok(time_minutes >= start && time_minutes < end)
        }
    }

    /// Validate this schedule period: `Ok` exactly when both times parse
    /// and the interval lies in 1..=1440.
    pub fn validate(&self) -> (r: Result<(), ConfigError>)
        ensures
            r is Ok <==> self.spec_valid(),
    {
        match self.start_minutes() {
            Ok(_) => (),
            Err(e) => {
                return Err(e);
            },
        };
        match self.end_minutes() {
            Ok(_) => (),
            Err(e) => {
                return Err(e);
            },
        };
        if self.interval_min < 1 || self.interval_min > 1440 {
            return Err(validation_error("interval must be between 1 and 1440 minutes"));
        }
        Ok(())
    }
}

/// How many of the periods contain minute `t`. A period whose time
/// strings do not parse contains nothing.
pub open spec fn count_cover(ps: Seq<SchedulePeriod>, t: int) -> int
    decreases ps.len(),
{
    if ps.len() == 0 {
        0
    } else {
        count_cover(ps.drop_last(), t) + if ps.last().times_ok() && ps.last().spec_contains(t) {
            1int
        } else {
            0int
        }
    }
}

/// Splitting off the last period splits the count.
pub proof fn lemma_count_cover_step(ps: Seq<SchedulePeriod>, i: int, t: int)
    requires
        0 <= i < ps.len(),
    ensures
        count_cover(ps.subrange(0, i + 1), t) == count_cover(ps.subrange(0, i), t) + (
        if ps[i].times_ok() && ps[i].spec_contains(t) {
            1int
        } else {
            0int
        }),
{
    let a = ps.subrange(0, i + 1);
    assert(a.drop_last() =~= ps.subrange(0, i));
    assert(a.last() == ps[i]);
}

/// Cover counts are nonnegative.
pub proof fn lemma_count_cover_nonneg(ps: Seq<SchedulePeriod>, t: int)
    ensures
        count_cover(ps, t) >= 0,
    decreases ps.len(),
{
    if ps.len() > 0 {
        lemma_count_cover_nonneg(ps.drop_last(), t);
    }
}

/// Taking more periods cannot shrink the count.
pub proof fn lemma_count_cover_mono(ps: Seq<SchedulePeriod>, i: int, j: int, t: int)
    requires
        0 <= i <= j <= ps.len(),
    ensures
        count_cover(ps.subrange(0, i), t) <= count_cover(ps.subrange(0, j), t),
    decreases j - i,
{
    if i < j {
        lemma_count_cover_mono(ps, i, j - 1, t);
        lemma_count_cover_step(ps, j - 1, t);
    }
}

/// A named schedule plan containing multiple time periods.
#[derive(Debug, Clone)]
pub struct SchedulePlan {
    pub name: String,
    pub periods: Vec<SchedulePeriod>,
}

impl SchedulePlan {
    /// The explicit all-day shorthand: one period from `00:00` to `00:00`.
    pub open spec fn spec_degenerate(&self) -> bool {
        self.periods@.len() == 1 && self.periods@[0].start_time@ == "00:00"@
            && self.periods@[0].end_time@ == "00:00"@
    }

    /// Every minute of the day lies in exactly one period.
    pub open spec fn spec_exact_cover(&self) -> bool {
        forall|t: int| 0 <= t < 1440 ==> count_cover(self.periods@, t) == 1
    }

    /// The plan's periods partition the day, or the plan is the all-day
    /// shorthand.
    pub open spec fn spec_coverage_ok(&self) -> bool {
        self.spec_degenerate() || ((forall|i: int|
            0 <= i < self.periods@.len() ==> (#[trigger] self.periods@[i]).times_ok())
            && self.spec_exact_cover())
    }

    /// A valid plan: a non-blank name, at least one period, every period
    /// valid, and the periods cover the day exactly.
    pub open spec fn spec_valid(&self) -> bool {
        &&& !is_blank(self.name@)
        &&& self.periods@.len() >= 1
        &&& forall|i: int| 0 <= i < self.periods@.len() ==> (#[trigger] self.periods@[i]).spec_valid()
        &&& self.spec_coverage_ok()
    }

    /// Create a new schedule plan.
    pub fn new(name: &str, periods: Vec<SchedulePeriod>) -> (p: Self)
        ensures
            p.name@ == name@,
            p.periods == periods,
    {
        SchedulePlan { name: String::from_str(name), periods }
    }

    /// The default plan: named "Default", covering the whole day with a
    /// 60-minute interval.
    pub fn default_plan() -> (p: Self)
        ensures
            p.name@ == "Default"@,
            p.periods@.len() == 1,
            p.periods@[0].start_time@ == "00:00"@,
            p.periods@[0].end_time@ == "00:00"@,
            p.periods@[0].interval_min == 60,
            p.spec_degenerate(),
            p.spec_valid(),
    {
        let mut periods: Vec<SchedulePeriod> = Vec::new();
        periods.push(SchedulePeriod::new("00:00", "00:00", 60));
        let p = SchedulePlan { name: String::from_str("Default"), periods };
        proof {
            reveal_strlit("Default");
            reveal_strlit("00:00");
            assert(!is_blank(p.name@)) by {
                assert(p.name@[0] == 'D');
                assert(!is_space_char(p.name@[0]));
            }
            assert(p.periods@[0].spec_valid()) by {
                lemma_parse_time_round_trip("00:00"@);
            }
        }
        p
    }

    /// Mark the minutes `from .. to`; an error exactly when one of them
    /// was already marked.
    fn mark_range(coverage: &mut Vec<bool>, from: usize, to: usize) -> (r: Result<
        (),
        ConfigError,
    >)
        requires
            from <= to <= old(coverage)@.len(),
        ensures
            final(coverage)@.len() == old(coverage)@.len(),
            r is Ok ==> forall|j: int|
                0 <= j < final(coverage)@.len() ==> (#[trigger] final(coverage)@[j] <==> (old(
                    coverage,
                )@[j] || from <= j < to)),
            r is Ok ==> forall|j: int| from <= j < to ==> !(#[trigger] old(coverage)@[j]),
            r is Err <==> exists|j: int| from <= j < to && #[trigger] old(coverage)@[j],
    {
        let mut t: usize = from;
        while t < to
            invariant
                from <= t <= to <= coverage@.len(),
                coverage@.len() == old(coverage)@.len(),
                forall|j: int|
                    from <= j < t ==> !(#[trigger] old(coverage)@[j]) && coverage@[j],
                forall|j: int|
                    0 <= j < coverage@.len() && !(from <= j < t) ==> #[trigger] coverage@[j] == old(
                        coverage,
                    )@[j],
            decreases to - t,
        {
            if coverage[t] {
                return Err(validation_error("overlapping schedule periods"));
            }
            coverage.set(t, true);
            t = t + 1;
        }
        Ok(())
    }

    /// Validate that this plan's periods cover all 24 hours exactly once,
    /// unless the plan is the explicit all-day shorthand.
    #[verifier::rlimit(60)]
    pub fn validate_coverage(&self) -> (r: Result<(), ConfigError>)
        ensures
            r is Ok <==> self.spec_coverage_ok(),
    {
        let ghost ps: Seq<SchedulePeriod> = self.periods@;
        if self.periods.len() == 1 {
            let first = &self.periods[0];
            if str_eq(first.start_time.as_str(), "00:00") && str_eq(first.end_time.as_str(), "00:00")
             {
                return Ok(());
            }
        }
        let mut coverage: Vec<bool> = Vec::new();
        while coverage.len() < 1440
            invariant
                coverage@.len() <= 1440,
                forall|j: int| 0 <= j < coverage@.len() ==> !(#[trigger] coverage@[j]),
            decreases 1440 - coverage.len(),
        {
            coverage.push(false);
        }
        proof {
            assert forall|t: int| 0 <= t < 1440 implies count_cover(ps.subrange(0, 0), t) == 0 by {
                assert(ps.subrange(0, 0) =~= Seq::<SchedulePeriod>::empty());
            }
        }
        let mut i: usize = 0;
        while i < self.periods.len()
            invariant
                i <= ps.len(),
                ps == self.periods@,
                !self.spec_degenerate(),
                coverage@.len() == 1440,
                forall|k: int| 0 <= k < i ==> (#[trigger] ps[k]).times_ok(),
                forall|t: int|
                    0 <= t < 1440 ==> #[trigger] count_cover(ps.subrange(0, i as int), t) <= 1,
                forall|t: int|
                    0 <= t < 1440 ==> (#[trigger] coverage@[t] <==> count_cover(
                        ps.subrange(0, i as int),
                        t,
                    ) == 1),
            decreases ps.len() - i,
        {
            let p = &self.periods[i];
            let start = match p.start_minutes() {
                Ok(v) => v,
                Err(e) => {
                    proof {
                        lemma_plan_not_cover_bad_times(self, i as int);
                    }
                    return Err(e);
                },
            };
            let end = match p.end_minutes() {
                Ok(v) => v,
                Err(e) => {
                    proof {
                        lemma_plan_not_cover_bad_times(self, i as int);
                    }
                    return Err(e);
                },
            };
            proof {
                lemma_parse_time_range(p.start_time@);
                lemma_parse_time_range(p.end_time@);
            }
            let ghost pre: Seq<SchedulePeriod> = ps.subrange(0, i as int);
            let ghost cov0: Seq<bool> = coverage@;
            let spans = end <= start;
            if spans {
                match Self::mark_range(&mut coverage, start as usize, 1440) {
                    Ok(_) => (),
                    Err(_) => {
                        proof {
                            let j = choose|j: int| start <= j < 1440 && #[trigger] cov0[j];
                            lemma_overcover(self, i as int, j);
                        }
                        return Err(validation_error("overlapping schedule periods"));
                    },
                }
                let ghost cov1: Seq<bool> = coverage@;
                match Self::mark_range(&mut coverage, 0, end as usize) {
                    Ok(_) => (),
                    Err(_) => {
                        proof {
                            let j = choose|j: int| 0 <= j < end && #[trigger] cov1[j];
                            assert(cov1[j] == (cov0[j] || start <= j < 1440));
                            assert(j < end <= start);
                            assert(count_cover(pre, j) == 1);
                            lemma_overcover(self, i as int, j);
                        }
                        return Err(validation_error("overlapping schedule periods"));
                    },
                }
                proof {
                    assert forall|t: int| 0 <= t < 1440 implies ((#[trigger] coverage@[t]) <==> (
                    cov0[t] || ps[i as int].spec_contains(t))) by {
                        assert(coverage@[t] == (cov1[t] || 0 <= t < end));
                        assert(cov1[t] == (cov0[t] || start <= t < 1440));
                    }
                    assert forall|t: int|
                        0 <= t < 1440 && ps[i as int].spec_contains(t) implies !cov0[t] by {
                        if start <= t {
                            assert(!cov0[t]);
                        } else {
                            assert(t < end);
                            assert(!cov1[t]);
                        }
                    }
                }
            } else {
                match Self::mark_range(&mut coverage, start as usize, end as usize) {
                    Ok(_) => (),
                    Err(_) => {
                        proof {
                            let j = choose|j: int| start <= j < end && #[trigger] cov0[j];
                            lemma_overcover(self, i as int, j);
                        }
                        return Err(validation_error("overlapping schedule periods"));
                    },
                }
                proof {
                    assert forall|t: int| 0 <= t < 1440 implies ((#[trigger] coverage@[t]) <==> (
                    cov0[t] || ps[i as int].spec_contains(t))) by {}
                    assert forall|t: int|
                        0 <= t < 1440 && ps[i as int].spec_contains(t) implies !cov0[t] by {}
                }
            }
            proof {
                assert forall|t: int| 0 <= t < 1440 implies (#[trigger] count_cover(
                    ps.subrange(0, i as int + 1),
                    t,
                ) <= 1 && (coverage@[t] <==> count_cover(ps.subrange(0, i as int + 1), t) == 1))
                    by {
                    lemma_count_cover_step(ps, i as int, t);
                    lemma_count_cover_nonneg(pre, t);
                    if ps[i as int].spec_contains(t) {
                        assert(!cov0[t]);
                        assert(count_cover(pre, t) == 0);
                    }
                }
            }
            i = i + 1;
        }
        let mut t: usize = 0;
        while t < 1440
            invariant
                t <= 1440,
                ps == self.periods@,
                !self.spec_degenerate(),
                coverage@.len() == 1440,
                forall|k: int| 0 <= k < ps.len() ==> (#[trigger] ps[k]).times_ok(),
                forall|u: int|
                    0 <= u < 1440 ==> (#[trigger] coverage@[u] <==> count_cover(
                        ps.subrange(0, ps.len() as int),
                        u,
                    ) == 1),
                forall|u: int| 0 <= u < t ==> #[trigger] coverage@[u],
            decreases 1440 - t,
        {
            if !coverage[t] {
                proof {
                    assert(ps.subrange(0, ps.len() as int) =~= ps);
                    assert(count_cover(ps, t as int) != 1);
                }
                return Err(validation_error("schedule gap"));
            }
            t = t + 1;
        }
        proof {
            assert(ps.subrange(0, ps.len() as int) =~= ps);
            assert forall|u: int| 0 <= u < 1440 implies count_cover(ps, u) == 1 by {
                assert(coverage@[u]);
            }
        }
        Ok(())
    }
}

/// Index of the first period at or after `i` whose times parse and which
/// contains minute `t`, or the period count when there is none.
pub open spec fn find_covering(ps: Seq<SchedulePeriod>, t: int, i: int) -> int
    decreases ps.len() - i,
{
    if i < 0 || i >= ps.len() {
        ps.len() as int
    } else if ps[i].times_ok() && ps[i].spec_contains(t) {
        i
    } else {
        find_covering(ps, t, i + 1)
    }
}

/// `find_covering` returns the first covering index, or the length.
pub proof fn lemma_find_covering(ps: Seq<SchedulePeriod>, t: int, i: int)
    requires
        0 <= i <= ps.len(),
    ensures
        i <= find_covering(ps, t, i) <= ps.len(),
        find_covering(ps, t, i) < ps.len() ==> ps[find_covering(ps, t, i)].times_ok() && ps[
            find_covering(ps, t, i)
        ].spec_contains(t),
        forall|j: int|
            i <= j < find_covering(ps, t, i) ==> !((#[trigger] ps[j]).times_ok()
                && ps[j].spec_contains(t)),
    decreases ps.len() - i,
{
    if i < ps.len() && !(ps[i].times_ok() && ps[i].spec_contains(t)) {
        lemma_find_covering(ps, t, i + 1);
    }
}

impl SchedulePlan {
    /// The refresh interval at minute `t`: the interval of the first
    /// period that contains `t`; with no match, the first period's
    /// interval; with no periods at all, 60.
    pub open spec fn spec_interval_for_time(&self, t: int) -> u32 {
        let k = find_covering(self.periods@, t, 0);
        if k < self.periods@.len() {
            self.periods@[k].interval_min
        } else if self.periods@.len() > 0 {
            self.periods@[0].interval_min
        } else {
            60u32
        }
    }

    /// The index of the period selected at minute `t`: the first period
    /// containing `t`, else the first period, else nothing.
    pub open spec fn spec_period_index_for_time(&self, t: int) -> Option<int> {
        let k = find_covering(self.periods@, t, 0);
        if k < self.periods@.len() {
            Some(k)
        } else if self.periods@.len() > 0 {
            Some(0int)
        } else {
            None
        }
    }

    /// Validate this schedule plan: `Ok` exactly when the name is not
    /// blank, at least one period exists, every period is valid, and the
    /// periods cover the day.
    pub fn validate(&self) -> (r: Result<(), ConfigError>)
        ensures
            r is Ok <==> self.spec_valid(),
    {
        if str_is_blank(self.name.as_str()) {
            return Err(validation_error("schedule plan name cannot be empty"));
        }
        if self.periods.len() == 0 {
            return Err(validation_error("schedule plan must have at least one period"));
        }
        let mut i: usize = 0;
        while i < self.periods.len()
            invariant
                i <= self.periods@.len(),
                forall|j: int| 0 <= j < i ==> (#[trigger] self.periods@[j]).spec_valid(),
            decreases self.periods@.len() - i,
        {
            match self.periods[i].validate() {
                Ok(_) => (),
                Err(e) => {
                    return Err(e);
                },
            }
            i = i + 1;
        }
        match self.validate_coverage() {
            Ok(_) => Ok(()),
            Err(e) => Err(e),
        }
    }

    /// Get the interval for a specific time (minutes since midnight).
    pub fn get_interval_for_time(&self, time_minutes: u32) -> (r: u32)
        ensures
            r == self.spec_interval_for_time(time_minutes as int),
    {
        let ghost ps: Seq<SchedulePeriod> = self.periods@;
        let ghost t: int = time_minutes as int;
        let mut i: usize = 0;
        while i < self.periods.len()
            invariant
                i <= ps.len(),
                ps == self.periods@,
                find_covering(ps, t, 0) == find_covering(ps, t, i as int),
                t == time_minutes as int,
            decreases ps.len() - i,
        {
            let c = match self.periods[i].contains_time(time_minutes) {
                Ok(b) => b,
                Err(_) => false,
            };
            if c {
                return self.periods[i].interval_min;
            }
            i = i + 1;
        }
        if self.periods.len() > 0 {
            self.periods[0].interval_min
        } else {
            60
        }
    }

    /// Get the active period for a specific time: the first period that
    /// contains it, with the first period as the fallback.
    pub fn get_period_for_time(&self, time_minutes: u32) -> (r: Option<&SchedulePeriod>)
        ensures
            match r {
                Some(p) => self.spec_period_index_for_time(time_minutes as int) matches Some(k)
                    && *p == self.periods@[k],
                None => self.periods@.len() == 0,
            },
    {
        let ghost ps: Seq<SchedulePeriod> = self.periods@;
        let ghost t: int = time_minutes as int;
        let mut i: usize = 0;
        while i < self.periods.len()
            invariant
                i <= ps.len(),
                ps == self.periods@,
                find_covering(ps, t, 0) == find_covering(ps, t, i as int),
                t == time_minutes as int,
            decreases ps.len() - i,
        {
            let c = match self.periods[i].contains_time(time_minutes) {
                Ok(b) => b,
                Err(_) => false,
            };
            if c {
                return Some(&self.periods[i]);
            }
            i = i + 1;
        }
        if self.periods.len() > 0 {
            Some(&self.periods[0])
        } else {
            None
        }
    }
}

/// A period that contains a minute makes the count at least one.
proof fn lemma_cover_count_ge_1(ps: Seq<SchedulePeriod>, t: int, i: int)
    requires
        0 <= i < ps.len(),
        ps[i].times_ok(),
        ps[i].spec_contains(t),
    ensures
        count_cover(ps, t) >= 1,
    decreases ps.len(),
{
    lemma_count_cover_nonneg(ps.drop_last(), t);
    if i < ps.len() - 1 {
        lemma_cover_count_ge_1(ps.drop_last(), t, i);
    }
}

/// Two periods that both contain a minute make the count at least two.
proof fn lemma_two_cover(ps: Seq<SchedulePeriod>, t: int, i: int, j: int)
    requires
        0 <= i < j < ps.len(),
        ps[i].times_ok(),
        ps[i].spec_contains(t),
        ps[j].times_ok(),
        ps[j].spec_contains(t),
    ensures
        count_cover(ps, t) >= 2,
    decreases ps.len(),
{
    if j == ps.len() - 1 {
        lemma_cover_count_ge_1(ps.drop_last(), t, i);
    } else {
        lemma_two_cover(ps.drop_last(), t, i, j);
    }
}

/// A positive count means some period contains the minute.
proof fn lemma_count_pos_exists(ps: Seq<SchedulePeriod>, t: int)
    requires
        count_cover(ps, t) >= 1,
    ensures
        exists|i: int|
            0 <= i < ps.len() && (#[trigger] ps[i]).times_ok() && ps[i].spec_contains(t),
    decreases ps.len(),
{
    if ps.len() > 0 {
        if ps.last().times_ok() && ps.last().spec_contains(t) {
            assert(ps[ps.len() - 1].times_ok() && ps[ps.len() - 1].spec_contains(t));
        } else {
            lemma_count_pos_exists(ps.drop_last(), t);
            let i = choose|i: int|
                0 <= i < ps.drop_last().len() && (#[trigger] ps.drop_last()[i]).times_ok()
                    && ps.drop_last()[i].spec_contains(t);
            assert(ps[i].times_ok() && ps[i].spec_contains(t));
        }
    }
}

/// Every plan accepted by validation, other than the all-day shorthand,
/// covers each of the 1440 minutes of the day exactly once: no minute is
/// unmarked and none is marked twice.
pub proof fn lemma_validated_plan_covers(plan: &SchedulePlan, t: int)
    requires
        plan.spec_valid(),
        !plan.spec_degenerate(),
        0 <= t < 1440,
    ensures
        count_cover(plan.periods@, t) == 1,
{
}

/// The active period is total and deterministic: for every minute of the
/// day and every valid plan that is not the all-day shorthand, exactly one
/// period contains the minute, and the period query selects it.
pub proof fn lemma_active_period_unique(plan: &SchedulePlan, t: int)
    requires
        plan.spec_valid(),
        !plan.spec_degenerate(),
        0 <= t < 1440,
    ensures
        ({
            let k = find_covering(plan.periods@, t, 0);
            &&& 0 <= k < plan.periods@.len()
            &&& plan.periods@[k].spec_contains(t)
            &&& plan.spec_period_index_for_time(t) == Some(k)
            &&& plan.spec_interval_for_time(t) == plan.periods@[k].interval_min
            &&& forall|j: int|
                0 <= j < plan.periods@.len() && (#[trigger] plan.periods@[j]).spec_contains(t)
                    ==> j == k
        }),
{
    let ps = plan.periods@;
    let k = find_covering(ps, t, 0);
    lemma_find_covering(ps, t, 0);
    lemma_validated_plan_covers(plan, t);
    lemma_count_pos_exists(ps, t);
    let w = choose|i: int|
        0 <= i < ps.len() && (#[trigger] ps[i]).times_ok() && ps[i].spec_contains(t);
    assert(k < ps.len());
    assert forall|j: int|
        0 <= j < ps.len() && (#[trigger] ps[j]).spec_contains(t) implies j == k by {
        if j < k {
            assert(ps[j].times_ok());
        } else if j > k {
            lemma_two_cover(ps, t, k, j);
        }
    }
}

/// A plan with a period whose times do not parse cannot cover the day.
proof fn lemma_plan_not_cover_bad_times(plan: &SchedulePlan, i: int)
    requires
        0 <= i < plan.periods@.len(),
        !plan.periods@[i].times_ok(),
        !plan.spec_degenerate(),
    ensures
        !plan.spec_coverage_ok(),
{
}

/// A minute covered both by an earlier period and by period `i` is covered
/// at least twice, so the plan cannot cover the day exactly.
proof fn lemma_overcover(plan: &SchedulePlan, i: int, j: int)
    requires
        0 <= i < plan.periods@.len(),
        0 <= j < 1440,
        !plan.spec_degenerate(),
        count_cover(plan.periods@.subrange(0, i), j) == 1,
        plan.periods@[i].times_ok(),
        plan.periods@[i].spec_contains(j),
    ensures
        !plan.spec_coverage_ok(),
{
    let ps = plan.periods@;
    lemma_count_cover_step(ps, i, j);
    lemma_count_cover_mono(ps, i + 1, ps.len() as int, j);
    assert(ps.subrange(0, ps.len() as int) =~= ps);
    assert(count_cover(ps, j) >= 2);
}

/// Every well-formed `HH:MM` string parses to its minute of the day.
pub proof fn lemma_parse_time_round_trip(s: Seq<char>)
    requires
        s.len() == 5,
        is_digit(s[0]),
        is_digit(s[1]),
        s[2] == ':',
        is_digit(s[3]),
        is_digit(s[4]),
        10 * digit_val(s[0]) + digit_val(s[1]) < 24,
        10 * digit_val(s[3]) + digit_val(s[4]) < 60,
    ensures
        spec_parse_time(s) == Some(
            60 * (10 * digit_val(s[0]) + digit_val(s[1])) + 10 * digit_val(s[3]) + digit_val(s[4]),
        ),
{
    assert(find_colon(s, 0) == 2) by {
        assert((s[0] as u32) != 58 && (s[1] as u32) != 58);
        assert(find_colon(s, 2) == 2);
        assert(find_colon(s, 1) == 2);
        assert(find_colon(s, 0) == 2);
    }
    assert(find_colon(s, 3) == 5) by {
        assert((s[3] as u32) != 58 && (s[4] as u32) != 58);
        assert(find_colon(s, 5) == 5);
        assert(find_colon(s, 4) == 5);
        assert(find_colon(s, 3) == 5);
    }
    let hp = s.subrange(0, 2);
    let mp = s.subrange(3, 5);
    assert((hp[0] as u32) != 43);
    assert(unsigned_part(hp) == hp);
    assert((mp[0] as u32) != 43);
    assert(unsigned_part(mp) == mp);
    lemma_two_digit_val(hp);
    lemma_two_digit_val(mp);
}

/// The value of a two-digit string.
proof fn lemma_two_digit_val(d: Seq<char>)
    requires
        d.len() == 2,
        is_digit(d[0]),
        is_digit(d[1]),
    ensures
        num_val(d) == 10 * digit_val(d[0]) + digit_val(d[1]),
{
    let d1 = d.drop_last();
    assert(d1.len() == 1);
    assert(d1[0] == d[0]);
    assert(d1.drop_last().len() == 0);
    assert(num_val(d1.drop_last()) == 0);
    assert(num_val(d1) == digit_val(d[0]));
    assert(num_val(d) == num_val(d1) * 10 + digit_val(d[1]));
}

/// A digit's value is nonnegative.
proof fn lemma_num_val_nonneg_digit(c: char)
    requires
        is_digit(c),
    ensures
        digit_val(c) >= 0,
{
}

/// Lengthening a digit prefix cannot shrink its value.
proof fn lemma_num_val_prefix_mono(d: Seq<char>, i: int, j: int)
    requires
        0 <= i <= j <= d.len(),
        forall|k: int| 0 <= k < j ==> is_digit(#[trigger] d[k]),
    ensures
        num_val(d.subrange(0, i)) <= num_val(d.subrange(0, j)),
    decreases j - i,
{
    if i < j {
        lemma_num_val_prefix_mono(d, i, j - 1);
        let pj = d.subrange(0, j);
        let pj1 = d.subrange(0, j - 1);
        assert(pj.drop_last() =~= pj1);
        lemma_num_val_nonneg(pj1);
        assert(num_val(pj) == num_val(pj1) * 10 + digit_val(d[j - 1]));
        assert(num_val(pj1) * 10 >= num_val(pj1)) by (nonlinear_arith)
            requires
                num_val(pj1) >= 0,
        ;
    }
}

} // verus!
