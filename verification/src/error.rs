//! The error kinds that the library reports.

use vstd::prelude::*;

verus! {

/// What can go wrong while durations are tracked or a run is scheduled.
#[derive(Debug, Clone, Copy, PartialEq, Eq, Structural)]
pub enum StandupError {
    /// The task key has no record. Readers treat this as "day one".
    NotFound,
    /// A date string does not name a calendar date.
    InvalidDate,
    /// The duration store cannot be reached or written.
    StoreUnavailable,
    /// The day-type signal could not be obtained.
    SignalUnavailable,
}

impl StandupError {
    /// A short description for logs and responses.
    pub fn message(&self) -> (text: String)
        ensures
            text@ == match *self {
                StandupError::NotFound => "no record for the task key"@,
                StandupError::InvalidDate => "not a calendar date"@,
                StandupError::StoreUnavailable => "the duration store is unavailable"@,
                StandupError::SignalUnavailable => "the day-type signal is unavailable"@,
            },
    {
        match self {
            StandupError::NotFound => "no record for the task key".to_owned(),
            StandupError::InvalidDate => "not a calendar date".to_owned(),
            StandupError::StoreUnavailable => "the duration store is unavailable".to_owned(),
            StandupError::SignalUnavailable => "the day-type signal is unavailable".to_owned(),
        }
    }
}

} // verus!
