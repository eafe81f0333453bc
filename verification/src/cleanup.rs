//! Cleanup requests: reading a request, rejecting what is malformed before
//! anything is deleted, and applying the retention it asks for.

use crate::db::{retained, Database, Retention};
use crate::item::opt_text;
use crate::text::same_text;
use crate::time::{clock_now, Timestamp, SECONDS_PER_DAY};
use vstd::prelude::*;
use vstd::string::*;

verus! {

/// The Unix time, in seconds, of midnight UTC at the start of the calendar
/// day that `chrono::NaiveDate::parse_from_str` reads from `date` under the
/// format `format`; none where chrono reports an error.
pub uninterp spec fn date_midnight(date: Seq<char>, format: Seq<char>) -> Option<i64>;

/// Parses a calendar day with `chrono::NaiveDate::parse_from_str` and takes
/// the Unix time of its midnight in UTC (`and_hms_opt(0, 0, 0)`, `and_utc`,
/// `timestamp`). Chrono's parse error is mapped to `None`; midnight exists
/// on every day.
#[verifier::external_body]
fn parse_day(date: &str, format: &str) -> (secs: Option<i64>)
    ensures
        secs == date_midnight(date@, format@),
{
    match chrono::NaiveDate::parse_from_str(date, format) {
        Ok(day) => match day.and_hms_opt(0, 0, 0) {
            Some(midnight) => Some(midnight.and_utc().timestamp()),
            None => None,
        },
        Err(_) => None,
    }
}

/// The format in which a request writes its days: year, month and day of
/// the month, with hyphens between.
pub open spec fn day_format() -> Seq<char> {
    "%Y-%m-%d"@
}

/// A request to clean the history up, as it arrives.
#[derive(Debug)]
pub struct CleanupRequest {
    pub mode: String,
    pub start_date: Option<String>,
    pub end_date: Option<String>,
    pub before_date: Option<String>,
    pub older_than_days: Option<i64>,
}

pub struct CleanupRequestView {
    pub mode: Seq<char>,
    pub start_date: Option<Seq<char>>,
    pub end_date: Option<Seq<char>>,
    pub before_date: Option<Seq<char>>,
    pub older_than_days: Option<i64>,
}

impl View for CleanupRequest {
    type V = CleanupRequestView;

    open spec fn view(&self) -> CleanupRequestView {
        CleanupRequestView {
            mode: self.mode@,
            start_date: opt_text(self.start_date),
            end_date: opt_text(self.end_date),
            before_date: opt_text(self.before_date),
            older_than_days: self.older_than_days,
        }
    }
}

/// Why a cleanup request is rejected.
#[derive(Clone, Copy, Debug, PartialEq, Eq, Structural)]
pub enum CleanupError {
    StartDateRequired,
    EndDateRequired,
    BeforeDateRequired,
    OlderThanDaysRequired,
    InvalidDateFormat,
    EndNotAfterStart,
    DaysNotPositive,
    UnsupportedMode,
}

impl CleanupError {
    /// The message that goes with the error.
    pub open spec fn text(self) -> Seq<char> {
        match self {
            CleanupError::StartDateRequired => "start_date is required"@,
            CleanupError::EndDateRequired => "end_date is required"@,
            CleanupError::BeforeDateRequired => "before_date is required"@,
            CleanupError::OlderThanDaysRequired => "older_than_days is required"@,
            CleanupError::InvalidDateFormat => "Invalid date format. Use YYYY-MM-DD"@,
            CleanupError::EndNotAfterStart => "End date must be after start date"@,
            CleanupError::DaysNotPositive => "older_than_days must be greater than 0"@,
            CleanupError::UnsupportedMode => "Unsupported cleanup mode"@,
        }
    }

    pub fn message(&self) -> (out: String)
        ensures
            out@ == self.text(),
    {
        match self {
            CleanupError::StartDateRequired => String::from_str("start_date is required"),
            CleanupError::EndDateRequired => String::from_str("end_date is required"),
            CleanupError::BeforeDateRequired => String::from_str("before_date is required"),
            CleanupError::OlderThanDaysRequired => String::from_str("older_than_days is required"),
            CleanupError::InvalidDateFormat => String::from_str(
                "Invalid date format. Use YYYY-MM-DD",
            ),
            CleanupError::EndNotAfterStart => String::from_str("End date must be after start date"),
            CleanupError::DaysNotPositive => String::from_str(
                "older_than_days must be greater than 0",
            ),
            CleanupError::UnsupportedMode => String::from_str("Unsupported cleanup mode"),
        }
    }
}

/// What a valid request asks for.
#[derive(Clone, Copy, Debug, PartialEq, Eq, Structural)]
pub enum CleanupPlan {
    /// Remove what was created from `start` up to, not including, `end`.
    Range { start: Timestamp, end: Timestamp },
    /// Remove what was created before the instant.
    Before(Timestamp),
    /// Remove what is older than so many days when the plan is carried out.
    OlderThan(i64),
}

impl CleanupPlan {
    /// The retention policy that carries the plan out at `now`.
    pub open spec fn policy(self, now: Timestamp) -> Retention {
        match self {
            CleanupPlan::Range { start, end } => Retention::Between { start, end },
            CleanupPlan::Before(instant) => Retention::Before(instant),
            CleanupPlan::OlderThan(days) => Retention::OlderThan { now, days },
        }
    }

    /// The retention policy that carries the plan out at `now`.
    pub fn to_policy(&self, now: Timestamp) -> (policy: Retention)
        ensures
            policy == self.policy(now),
    {
        match self {
            CleanupPlan::Range { start, end } => Retention::Between { start: *start, end: *end },
            CleanupPlan::Before(instant) => Retention::Before(*instant),
            CleanupPlan::OlderThan(days) => Retention::OlderThan { now, days: *days },
        }
    }
}

/// The instant at which the day written in `date` starts.
pub open spec fn day_start(date: Seq<char>) -> Result<Timestamp, CleanupError> {
    match date_midnight(date, day_format()) {
        Some(secs) => Ok(Timestamp { secs, nanos: 0 }),
        None => Err(CleanupError::InvalidDateFormat),
    }
}

/// The instant a day after `start`, or the last instant that can be
/// written where that lies beyond it.
pub open spec fn next_day(start: Timestamp) -> Timestamp {
    if start.secs + SECONDS_PER_DAY <= i64::MAX {
        Timestamp { secs: (start.secs + SECONDS_PER_DAY) as i64, nanos: start.nanos }
    } else {
        Timestamp { secs: i64::MAX, nanos: start.nanos }
    }
}

/// The instant at which the day written in `date` ends, which is the start
/// of the next day.
pub open spec fn day_end(date: Seq<char>) -> Result<Timestamp, CleanupError> {
    match day_start(date) {
        Ok(start) => Ok(next_day(start)),
        Err(e) => Err(e),
    }
}

/// What a request asks for, or why it is rejected. A range runs from the
/// start of its first day to the end of its last and must not be empty; a
/// number of days must be positive.
pub open spec fn planned(request: CleanupRequestView) -> Result<CleanupPlan, CleanupError> {
    if request.mode == "range"@ {
        match (request.start_date, request.end_date) {
            (None, _) => Err(CleanupError::StartDateRequired),
            (Some(_), None) => Err(CleanupError::EndDateRequired),
            (Some(first), Some(last)) => match (day_start(first), day_end(last)) {
                (Err(e), _) => Err(e),
                (Ok(_), Err(e)) => Err(e),
                (Ok(start), Ok(end)) => if start.is_before(end) {
                    Ok(CleanupPlan::Range { start, end })
                } else {
                    Err(CleanupError::EndNotAfterStart)
                },
            },
        }
    } else if request.mode == "before"@ {
        match request.before_date {
            None => Err(CleanupError::BeforeDateRequired),
            Some(day) => match day_start(day) {
                Ok(instant) => Ok(CleanupPlan::Before(instant)),
                Err(e) => Err(e),
            },
        }
    } else if request.mode == "older_than"@ {
        match request.older_than_days {
            None => Err(CleanupError::OlderThanDaysRequired),
            Some(days) => if days <= 0 {
                Err(CleanupError::DaysNotPositive)
            } else {
                Ok(CleanupPlan::OlderThan(days))
            },
        }
    } else {
        Err(CleanupError::UnsupportedMode)
    }
}

/// Reads a day written as year, month and day and gives the instant at
/// which it starts.
pub fn parse_date_start(date_str: &str) -> (start: Result<Timestamp, CleanupError>)
    ensures
        start == day_start(date_str@),
{
    match parse_day(date_str, "%Y-%m-%d") {
        Some(secs) => Ok(Timestamp { secs, nanos: 0 }),
        None => Err(CleanupError::InvalidDateFormat),
    }
}

/// Reads a day written as year, month and day and gives the instant at
/// which it ends.
pub fn parse_date_end_exclusive(date_str: &str) -> (end: Result<Timestamp, CleanupError>)
    ensures
        end == day_end(date_str@),
{
    match parse_date_start(date_str) {
        Ok(start) => {
            let secs = match start.secs.checked_add(SECONDS_PER_DAY) {
                Some(secs) => secs,
                None => i64::MAX,
            };
            Ok(Timestamp { secs, nanos: start.nanos })
        },
        Err(e) => Err(e),
    }
}

/// Reads a request: what it asks for, or why it is rejected.
pub fn plan_cleanup(request: &CleanupRequest) -> (plan: Result<CleanupPlan, CleanupError>)
    ensures
        plan == planned(request@),
{
    if same_text(request.mode.as_str(), "range") {
        let first = match &request.start_date {
            Some(day) => day,
            None => {
                return Err(CleanupError::StartDateRequired);
            },
        };
        let last = match &request.end_date {
            Some(day) => day,
            None => {
                return Err(CleanupError::EndDateRequired);
            },
        };
        let start = match parse_date_start(first.as_str()) {
            Ok(instant) => instant,
            Err(e) => {
                return Err(e);
            },
        };
        let end = match parse_date_end_exclusive(last.as_str()) {
            Ok(instant) => instant,
            Err(e) => {
                return Err(e);
            },
        };
        if start.before(&end) {
            Ok(CleanupPlan::Range { start, end })
        } else {
            Err(CleanupError::EndNotAfterStart)
        }
    } else if same_text(request.mode.as_str(), "before") {
        match &request.before_date {
            None => Err(CleanupError::BeforeDateRequired),
            Some(day) => match parse_date_start(day.as_str()) {
                Ok(instant) => Ok(CleanupPlan::Before(instant)),
                Err(e) => Err(e),
            },
        }
    } else if same_text(request.mode.as_str(), "older_than") {
        match request.older_than_days {
            None => Err(CleanupError::OlderThanDaysRequired),
            Some(days) => if days <= 0 {
                Err(CleanupError::DaysNotPositive)
            } else {
                Ok(CleanupPlan::OlderThan(days))
            },
        }
    } else {
        Err(CleanupError::UnsupportedMode)
    }
}

/// Carries a cleanup request out at `now`. A request that is rejected
/// leaves the store as it is; a valid one removes what its plan covers,
/// pinned rows excepted, and returns the number of rows removed.
pub fn cleanup_clips_at(db: &mut Database, request: &CleanupRequest, now: Timestamp) -> (removed:
    Result<usize, CleanupError>)
    ensures
        match removed {
            Ok(n) => {
                &&& planned(request@) matches Ok(plan)
                &&& final(db)@ == retained(old(db)@, plan.policy(now))
                &&& n == old(db)@.len() - final(db)@.len()
            },
            Err(e) => planned(request@) == Err::<CleanupPlan, CleanupError>(e) && final(db)@
                == old(db)@,
        },
{
    match plan_cleanup(request) {
        Ok(plan) => Ok(db.apply_retention(&plan.to_policy(now))),
        Err(e) => Err(e),
    }
}

/// Carries a cleanup request out at the present reading of the clock.
pub fn cleanup_clips(db: &mut Database, request: &CleanupRequest) -> (removed: Result<
    usize,
    CleanupError,
>)
    ensures
        match removed {
            Ok(n) => {
                &&& planned(request@) matches Ok(plan)
                &&& exists|now: Timestamp|
                    final(db)@ == #[trigger] retained(old(db)@, plan.policy(now))
                &&& n == old(db)@.len() - final(db)@.len()
            },
            Err(e) => planned(request@) == Err::<CleanupPlan, CleanupError>(e) && final(db)@
                == old(db)@,
        },
{
    let now = clock_now();
    cleanup_clips_at(db, request, now)
}

} // verus!
