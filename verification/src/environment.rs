//! The evaluation environment: every collaborator-supplied value the
//! directives consult, gathered once per substitution pass as plain values.
//! The clock and the identity of user, system and machine come from the
//! `chrono` and `whoami` crates through the trusted wrappers below; the
//! current directory, the harvested listing and the loaded imports are
//! filesystem work and are handed in by the surrounding program.

use vstd::prelude::*;

use crate::file_harvester::HarvestEntry;
use crate::file_harvester::HarvestEntryView;

use chrono::Datelike;
use chrono::Timelike;
use core::fmt::Write as FmtWrite;

verus! {

broadcast use vstd::string::group_string_axioms;

/// A clock reading, split into calendar and time-of-day parts.
#[derive(Clone, Copy, Debug)]
pub struct NowParts {
    pub year: i32,
    pub month: u32,
    pub day: u32,
    pub hour: u32,
    pub minute: u32,
    pub second: u32,
}

/// The mathematical shape of the environment.
pub ghost struct EnvironmentView {
    pub user: Seq<char>,
    pub os: Seq<char>,
    pub device_name: Seq<char>,
    pub version: Seq<char>,
    pub current_dir_name: Option<Seq<char>>,
    pub current_path: Option<Seq<char>>,
    pub now_year: int,
    pub now_month: int,
    pub now_day: int,
    pub now_hour: int,
    pub now_minute: int,
    pub now_second: int,
    pub harvest_entries: Option<Seq<HarvestEntryView>>,
    pub harvest_explicit: bool,
    pub imports: Seq<(Seq<char>, Seq<char>)>,
}

/// Everything the directives consult besides the file context and the
/// configuration, as plain values fixed for one substitution pass.
pub struct Environment {
    /// The logged-in user's name.
    pub user: String,
    /// The operating system's name.
    pub os: String,
    /// The machine's name.
    pub device_name: String,
    /// The tool's version string.
    pub version: String,
    /// The name of the current directory, where it could be determined.
    pub current_dir_name: Option<String>,
    /// The full current path, where it could be determined.
    pub current_path: Option<String>,
    /// The clock reading for the date and time directives.
    pub now: NowParts,
    /// The listing of the harvest directory; nothing where it could not be read.
    pub harvest_entries: Option<Vec<HarvestEntry>>,
    /// Whether an explicit harvest directory was given.
    pub harvest_explicit: bool,
    /// Loaded import templates: path as written in the token, and content.
    pub imports: Vec<(String, String)>,
}

impl View for Environment {
    type V = EnvironmentView;

    open spec fn view(&self) -> EnvironmentView {
        EnvironmentView {
            user: self.user@,
            os: self.os@,
            device_name: self.device_name@,
            version: self.version@,
            current_dir_name: self.current_dir_name.deep_view(),
            current_path: self.current_path.deep_view(),
            now_year: self.now.year as int,
            now_month: self.now.month as int,
            now_day: self.now.day as int,
            now_hour: self.now.hour as int,
            now_minute: self.now.minute as int,
            now_second: self.now.second as int,
            harvest_entries: match self.harvest_entries {
                Some(v) => Some(v.deep_view()),
                None => None,
            },
            harvest_explicit: self.harvest_explicit,
            imports: self.imports.deep_view(),
        }
    }
}

/// Relies on `chrono::Local::now` with the `Datelike` and `Timelike`
/// accessors: the local calendar date and wall-clock time.  The reading
/// depends on the clock, so only the ranges chrono documents are promised:
/// month 1 to 12, day 1 to 31, hour 0 to 23, minute and second 0 to 59.
#[verifier::external_body]
fn chrono_now_parts() -> (r: NowParts)
    ensures
        1 <= r.month <= 12,
        1 <= r.day <= 31,
        r.hour <= 23,
        r.minute <= 59,
        r.second <= 59,
{
    let now = chrono::Local::now();
    NowParts {
        year: now.year(),
        month: now.month(),
        day: now.day(),
        hour: now.hour(),
        minute: now.minute(),
        second: now.second(),
    }
}

/// What formatting the given calendar date with the given format string
/// yields, a function of its arguments alone; nothing where the date is
/// invalid or the formatter refuses the format string.
pub uninterp spec fn date_text_of(y: int, m: int, d: int, f: Seq<char>) -> Option<Seq<char>>;

/// Relies on `chrono::NaiveDate`: `from_ymd_opt` builds the calendar date,
/// refusing invalid ones, and `format` writes it under the format string,
/// refusing malformed or non-date format tokens; both are functions of their
/// arguments alone.
#[verifier::external_body]
fn chrono_date_text(y: i32, m: u32, d: u32, fmt: &str) -> (r: Option<String>)
    ensures
        r.deep_view() == date_text_of(y as int, m as int, d as int, fmt@),
{
    match chrono::NaiveDate::from_ymd_opt(y, m, d) {
        None => None,
        Some(date) => {
            let mut out = String::new();
            match write!(out, "{}", date.format(fmt)) {
                Ok(()) => Some(out),
                Err(_) => None,
            }
        },
    }
}

/// What formatting the given wall-clock time with the given format string
/// yields, a function of its arguments alone; nothing where the time is
/// invalid or the formatter refuses the format string.
pub uninterp spec fn time_text_of(h: int, mi: int, s: int, f: Seq<char>) -> Option<Seq<char>>;

/// Relies on `chrono::NaiveTime`: `from_hms_opt` builds the time of day,
/// refusing invalid ones, and `format` writes it under the format string,
/// refusing malformed or non-time format tokens; both are functions of their
/// arguments alone.
#[verifier::external_body]
fn chrono_time_text(h: u32, mi: u32, s: u32, fmt: &str) -> (r: Option<String>)
    ensures
        r.deep_view() == time_text_of(h as int, mi as int, s as int, fmt@),
{
    match chrono::NaiveTime::from_hms_opt(h, mi, s) {
        None => None,
        Some(time) => {
            let mut out = String::new();
            match write!(out, "{}", time.format(fmt)) {
                Ok(()) => Some(out),
                Err(_) => None,
            }
        },
    }
}

/// Relies on `whoami::username`: the logged-in user's name.  It depends on
/// the machine's state, so nothing is promised of it.
#[verifier::external_body]
fn whoami_username() -> String {
    whoami::username()
}

/// Relies on `whoami::distro`: the operating system's name.  It depends on
/// the machine's state, so nothing is promised of it.
#[verifier::external_body]
fn whoami_distro() -> String {
    whoami::distro()
}

/// Relies on `whoami::devicename`: the machine's name.  It depends on the
/// machine's state, so nothing is promised of it.
#[verifier::external_body]
fn whoami_devicename() -> String {
    whoami::devicename()
}

/// The date directive's value: the formatted date, or the error sentinel
/// where the date or the format is refused.
pub open spec fn date_value_spec(y: int, m: int, d: int, f: Seq<char>) -> Seq<char> {
    match date_text_of(y, m, d, f) {
        Some(t) => t,
        None => "ERR"@,
    }
}

/// Formats the given calendar date; `ERR` where the date or format is refused.
pub fn date_text(y: i32, m: u32, d: u32, format: &str) -> (r: String)
    ensures
        r@ == date_value_spec(y as int, m as int, d as int, format@),
{
    match chrono_date_text(y, m, d, format) {
        Some(s) => s,
        None => String::from_str("ERR"),
    }
}

/// Formats the local calendar date of this moment.  The clock decides the
/// date; whatever it reads, the result is the date formatter's text for a
/// month and day within the calendar's ranges.
pub fn get_current_date(format: &str) -> (r: String)
    ensures
        exists|y: int, m: int, d: int|
            1 <= m <= 12 && 1 <= d <= 31 && r@ == date_value_spec(y, m, d, format@),
{
    let now = chrono_now_parts();
    let r = date_text(now.year, now.month, now.day, format);
    proof {
        assert(r@ == date_value_spec(
            now.year as int,
            now.month as int,
            now.day as int,
            format@,
        ));
    }
    r
}

/// The time directive's value: the formatted time, or the error sentinel
/// where the time or the format is refused.
pub open spec fn time_value_spec(h: int, mi: int, s: int, f: Seq<char>) -> Seq<char> {
    match time_text_of(h, mi, s, f) {
        Some(t) => t,
        None => "ERR"@,
    }
}

/// Formats the given wall-clock time; `ERR` where the time or format is refused.
pub fn time_text(h: u32, mi: u32, s: u32, format: &str) -> (r: String)
    ensures
        r@ == time_value_spec(h as int, mi as int, s as int, format@),
{
    match chrono_time_text(h, mi, s, format) {
        Some(t) => t,
        None => String::from_str("ERR"),
    }
}

/// Formats the local wall-clock time of this moment.  The clock decides the
/// time; whatever it reads, the result is the time formatter's text for an
/// hour, minute and second within the clock's ranges.
pub fn get_current_time(format: &str) -> (r: String)
    ensures
        exists|h: int, mi: int, s: int|
            0 <= h <= 23 && 0 <= mi <= 59 && 0 <= s <= 59 && r@ == time_value_spec(
                h,
                mi,
                s,
                format@,
            ),
{
    let now = chrono_now_parts();
    let r = time_text(now.hour, now.minute, now.second, format);
    proof {
        assert(r@ == time_value_spec(
            now.hour as int,
            now.minute as int,
            now.second as int,
            format@,
        ));
    }
    r
}

impl Environment {
    /// Gathers an environment: the identity and clock values come from the
    /// trusted wrappers, everything else from the caller.  Only the fields
    /// the caller hands in are pinned down.
    pub fn gather(
        version: String,
        current_dir_name: Option<String>,
        current_path: Option<String>,
        harvest_entries: Option<Vec<HarvestEntry>>,
        harvest_explicit: bool,
        imports: Vec<(String, String)>,
    ) -> (r: Environment)
        ensures
            r@.version == version@,
            r@.current_dir_name == current_dir_name.deep_view(),
            r@.current_path == current_path.deep_view(),
            r@.harvest_entries == match harvest_entries {
                Some(v) => Some(v.deep_view()),
                None => None::<Seq<HarvestEntryView>>,
            },
            r@.harvest_explicit == harvest_explicit,
            r@.imports == imports.deep_view(),
    {
        Environment {
            user: whoami_username(),
            os: whoami_distro(),
            device_name: whoami_devicename(),
            version,
            current_dir_name,
            current_path,
            now: chrono_now_parts(),
            harvest_entries,
            harvest_explicit,
            imports,
        }
    }
}

} // verus!
