//! The refresh policy: when calendars are composed, and what a lookup has
//! to do before it answers.

use vstd::prelude::*;
use crate::config::{published, ApplicationConfig, CalendarConfig};

verus! {

/// Why no calendar is refreshed at fixed intervals.
#[derive(Clone, Copy, PartialEq, Eq, Structural, Debug)]
pub enum WorkerError {
    /// Calendars are composed on demand.
    Done,
    /// The configuration names no interval.
    NotPolled,
}

/// The text that describes why nothing is refreshed.
pub open spec fn worker_message(error: WorkerError) -> Seq<char> {
    match error {
        WorkerError::Done => "Done"@,
        WorkerError::NotPolled => "Worker thread not running, since calendars are not polled"@,
    }
}

impl WorkerError {
    /// A description of the reason for a log.
    pub fn message(&self) -> (r: &'static str)
        ensures
            r@ == worker_message(*self),
    {
        match self {
            WorkerError::Done => "Done",
            WorkerError::NotPolled => "Worker thread not running, since calendars are not polled",
        }
    }
}

/// Why a lookup has no document to answer with.
#[derive(Clone, Copy, PartialEq, Eq, Structural, Debug)]
pub enum LookupError {
    /// The configuration knows no calendar for the path.
    CalendarNotFound,
    /// No document has been composed for the path yet.
    NoCalendarFound,
}

/// The text that describes a failed lookup.
pub open spec fn lookup_message(error: LookupError) -> Seq<char> {
    match error {
        LookupError::CalendarNotFound => "Calendar not found"@,
        LookupError::NoCalendarFound => "No calendar found"@,
    }
}

impl LookupError {
    /// A description of the failure for a response.
    pub fn message(&self) -> (r: &'static str)
        ensures
            r@ == lookup_message(*self),
    {
        match self {
            LookupError::CalendarNotFound => "Calendar not found",
            LookupError::NoCalendarFound => "No calendar found",
        }
    }
}

impl ApplicationConfig {
    /// The seconds between two refreshes of all calendars, or why there
    /// are no such refreshes.
    pub fn polling_interval(&self) -> (r: Result<u64, WorkerError>)
        ensures
            r == if self.fetch_on_demand {
                Err::<u64, WorkerError>(WorkerError::Done)
            } else {
                match self.fetch_interval_seconds {
                    Some(seconds) => Ok::<u64, WorkerError>(seconds),
                    None => Err::<u64, WorkerError>(WorkerError::NotPolled),
                }
            },
    {
        if self.fetch_on_demand {
            return Err(WorkerError::Done);
        }
        match self.fetch_interval_seconds {
            Some(seconds) => Ok(seconds),
            None => Err(WorkerError::NotPolled),
        }
    }

    /// What a lookup of `path` has to compose before it answers from the
    /// cache: nothing where calendars are refreshed at intervals, else the
    /// calendar published under the path. A lookup on demand of a path
    /// that is not published fails.
    pub fn demand(&self, path: &String) -> (r: Result<Option<&CalendarConfig>, LookupError>)
        ensures
            match r {
                Ok(None) => !self.fetch_on_demand,
                Ok(Some(config)) => self.fetch_on_demand && published(self.calendars@, path@)
                    == Some(*config),
                Err(error) => self.fetch_on_demand && published(self.calendars@, path@) is None
                    && error == LookupError::CalendarNotFound,
            },
    {
        if !self.fetch_on_demand {
            return Ok(None);
        }
        match self.get(path) {
            Some(config) => Ok(Some(config)),
            None => Err(LookupError::CalendarNotFound),
        }
    }
}

} // verus!
