//! Scheduling: whether the report runs today.
//!
//! An outside calendar classifies each date by a code. The scheduler turns that
//! code, or the news that no code could be had, into a decision.

use vstd::prelude::*;

use crate::error::StandupError;

verus! {

/// How the outside calendar classifies a date.
#[derive(Debug, Clone, Copy, PartialEq, Eq, Structural)]
pub enum DayType {
    /// Code 0: an ordinary workday.
    Workday,
    /// Code 1: a weekend day.
    Weekend,
    /// Code 2: a weekend day that is worked to make up for a holiday.
    CompensatoryWorkday,
    /// Code 3: a public holiday.
    PublicHoliday,
}

/// What the scheduler decides.
#[derive(Debug, Clone, Copy, PartialEq, Eq, Structural)]
pub enum RunDecision {
    /// Today is a workday: run.
    Run,
    /// Today is a weekend day or a public holiday: skip.
    Skip,
    /// The code is none of the four, or cannot be read: skip, and report
    /// the anomaly.
    SkipUnknownCode,
    /// No code could be had: run all the same, and report the doubt.
    RunWithoutSignal,
}

/// The day type that a code stands for.
pub open spec fn day_type_of(code: int) -> Option<DayType> {
    if code == 0 {
        Some(DayType::Workday)
    } else if code == 1 {
        Some(DayType::Weekend)
    } else if code == 2 {
        Some(DayType::CompensatoryWorkday)
    } else if code == 3 {
        Some(DayType::PublicHoliday)
    } else {
        None
    }
}

/// Work is done on ordinary and on compensatory workdays.
pub open spec fn is_working(day: DayType) -> bool {
    day == DayType::Workday || day == DayType::CompensatoryWorkday
}

/// What came of asking the outside calendar for today's code.
#[derive(Debug, Clone, Copy, PartialEq, Eq, Structural)]
pub enum DaySignal {
    /// The calendar answered with this code.
    Code(i32),
    /// The calendar answered, but no code can be read from the answer.
    Unreadable,
    /// The calendar could not be asked, or did not answer.
    Unavailable,
}

/// The decision for a signal: run on a working day, skip on a day off,
/// skip with an anomaly on a code that is unknown or cannot be read, and
/// run with a warning where no signal could be had.
pub open spec fn decision_for(signal: DaySignal) -> RunDecision {
    match signal {
        DaySignal::Unavailable => RunDecision::RunWithoutSignal,
        DaySignal::Unreadable => RunDecision::SkipUnknownCode,
        DaySignal::Code(code) => match day_type_of(code as int) {
            None => RunDecision::SkipUnknownCode,
            Some(day) => if is_working(day) {
                RunDecision::Run
            } else {
                RunDecision::Skip
            },
        },
    }
}

impl DayType {
    /// The day type that `code` stands for; `None` for an unknown code.
    pub fn from_code(code: i32) -> (day: Option<DayType>)
        ensures
            day == day_type_of(code as int),
    {
        match code {
            0 => Some(DayType::Workday),
            1 => Some(DayType::Weekend),
            2 => Some(DayType::CompensatoryWorkday),
            3 => Some(DayType::PublicHoliday),
            _ => None,
        }
    }

    /// Whether work is done on a day of this type.
    pub fn is_working(&self) -> (b: bool)
        ensures
            b == is_working(*self),
    {
        match self {
            DayType::Workday | DayType::CompensatoryWorkday => true,
            DayType::Weekend | DayType::PublicHoliday => false,
        }
    }
}

/// Whether the day with this code is a working day: codes 0 and 2 are,
/// every other code, known or not, is not.
pub fn is_working_day(status: i32) -> (b: bool)
    ensures
        b == (status == 0 || status == 2),
        b == (day_type_of(status as int) matches Some(day) && is_working(day)),
{
    match DayType::from_code(status) {
        Some(day) => day.is_working(),
        None => false,
    }
}

/// Decides whether the report runs today.
pub fn decide_run(signal: DaySignal) -> (decision: RunDecision)
    ensures
        decision == decision_for(signal),
{
    match signal {
        DaySignal::Unavailable => RunDecision::RunWithoutSignal,
        DaySignal::Unreadable => RunDecision::SkipUnknownCode,
        DaySignal::Code(code) => match DayType::from_code(code) {
            None => RunDecision::SkipUnknownCode,
            Some(day) => if day.is_working() {
                RunDecision::Run
            } else {
                RunDecision::Skip
            },
        },
    }
}

impl RunDecision {
    /// Whether the report is to be made.
    pub fn should_run(&self) -> (b: bool)
        ensures
            b == (*self == RunDecision::Run || *self == RunDecision::RunWithoutSignal),
    {
        match self {
            RunDecision::Run | RunDecision::RunWithoutSignal => true,
            RunDecision::Skip | RunDecision::SkipUnknownCode => false,
        }
    }

    /// What the caller has to log with the decision, if anything: the
    /// missing signal, which lowers the confidence of a run.
    pub fn warning(&self) -> (warning: Option<StandupError>)
        ensures
            warning == if *self == RunDecision::RunWithoutSignal {
                Some(StandupError::SignalUnavailable)
            } else {
                None::<StandupError>
            },
    {
        match self {
            RunDecision::RunWithoutSignal => Some(StandupError::SignalUnavailable),
            _ => None,
        }
    }

    /// Whether the decision rests on a code that is unknown or cannot be
    /// read.
    pub fn is_anomaly(&self) -> (b: bool)
        ensures
            b == (*self == RunDecision::SkipUnknownCode),
    {
        match self {
            RunDecision::SkipUnknownCode => true,
            _ => false,
        }
    }
}

/// The report runs exactly on known working days and where the signal is
/// missing; it is skipped with an anomaly exactly where a code arrived that
/// is unknown or cannot be read.
pub proof fn lemma_run_decision(signal: DaySignal)
    ensures
        (decision_for(signal) == RunDecision::Run) <==> (signal matches DaySignal::Code(code)
            && (code == 0 || code == 2)),
        (decision_for(signal) == RunDecision::Skip) <==> (signal matches DaySignal::Code(code)
            && (code == 1 || code == 3)),
        (decision_for(signal) == RunDecision::RunWithoutSignal) <==> signal
            == DaySignal::Unavailable,
        (decision_for(signal) == RunDecision::SkipUnknownCode) <==> (signal
            == DaySignal::Unreadable || (signal matches DaySignal::Code(code) && !(0 <= code
            <= 3))),
{
}

} // verus!
