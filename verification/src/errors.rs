//! The errors that the store and the lifecycle engine return.

use crate::metadata::CounterError;
use crate::types::{JobStatus, JobType};
use vstd::prelude::*;
use vstd::string::*;

verus! {

/// Why an operation on a job did not go through.
#[derive(Debug)]
pub enum JobError {
    /// A job with this identifier, or with this type and internal id, is
    /// stored already.
    Duplicate,
    /// No job has the identifier.
    NotFound,
    /// The job is in a status in which the operation is not allowed; the
    /// status is given.
    InvalidState(JobStatus),
    /// A job in this status cannot be failed from the dead-letter queue.
    InvalidStateOnDeadLetter(JobStatus),
    /// The stored job has another version than the one the update was made
    /// for: somebody else updated it first.
    StaleVersion,
    /// The stage's handler failed, with its reason.
    HandlerError(String),
    /// The store or the queue could not be reached.
    BackendUnavailable,
    /// No handler is registered for the job's type.
    HandlerNotFound(JobType),
    /// An attempt counter in the job's metadata cannot be read or raised.
    Counter(CounterError),
    /// The job's version cannot go up any further.
    VersionOverflow,
    /// The internal id of a job that should name a block is no decimal
    /// number.
    InternalIdNotANumber,
}

/// What a `JobError` holds.
pub enum JobErrorView {
    Duplicate,
    NotFound,
    InvalidState(JobStatus),
    InvalidStateOnDeadLetter(JobStatus),
    StaleVersion,
    HandlerError(Seq<char>),
    BackendUnavailable,
    HandlerNotFound(JobType),
    Counter(CounterError),
    VersionOverflow,
    InternalIdNotANumber,
}

impl View for JobError {
    type V = JobErrorView;

    open spec fn view(&self) -> JobErrorView {
        match self {
            JobError::Duplicate => JobErrorView::Duplicate,
            JobError::NotFound => JobErrorView::NotFound,
            JobError::InvalidState(s) => JobErrorView::InvalidState(*s),
            JobError::InvalidStateOnDeadLetter(s) => JobErrorView::InvalidStateOnDeadLetter(*s),
            JobError::StaleVersion => JobErrorView::StaleVersion,
            JobError::HandlerError(reason) => JobErrorView::HandlerError(reason@),
            JobError::BackendUnavailable => JobErrorView::BackendUnavailable,
            JobError::HandlerNotFound(t) => JobErrorView::HandlerNotFound(*t),
            JobError::Counter(e) => JobErrorView::Counter(*e),
            JobError::VersionOverflow => JobErrorView::VersionOverflow,
            JobError::InternalIdNotANumber => JobErrorView::InternalIdNotANumber,
        }
    }
}

impl Clone for JobError {
    fn clone(&self) -> (r: JobError)
        ensures
            r@ == self@,
    {
        match self {
            JobError::Duplicate => JobError::Duplicate,
            JobError::NotFound => JobError::NotFound,
            JobError::InvalidState(s) => JobError::InvalidState(*s),
            JobError::InvalidStateOnDeadLetter(s) => JobError::InvalidStateOnDeadLetter(*s),
            JobError::StaleVersion => JobError::StaleVersion,
            JobError::HandlerError(reason) => JobError::HandlerError(reason.clone()),
            JobError::BackendUnavailable => JobError::BackendUnavailable,
            JobError::HandlerNotFound(t) => JobError::HandlerNotFound(*t),
            JobError::Counter(e) => JobError::Counter(*e),
            JobError::VersionOverflow => JobError::VersionOverflow,
            JobError::InternalIdNotANumber => JobError::InternalIdNotANumber,
        }
    }
}

/// What a result of the lifecycle engine holds.
pub open spec fn result_view(result: Result<(), JobError>) -> Result<(), JobErrorView> {
    match result {
        Ok(_) => Ok(()),
        Err(e) => Err(e@),
    }
}

/// The text that `JobError::message` gives for an error.
pub open spec fn message_text(e: JobErrorView) -> Seq<char> {
    match e {
        JobErrorView::Duplicate => "Job already exists"@,
        JobErrorView::NotFound => "Job not found"@,
        JobErrorView::InvalidState(s) => "Invalid status for this operation: "@ + s.name(),
        JobErrorView::InvalidStateOnDeadLetter(s) => "Invalid state exists on DL queue: "@
            + s.name(),
        JobErrorView::StaleVersion => "Failed to update job. Job version is likely outdated"@,
        JobErrorView::HandlerError(reason) => "Job handler failed: "@ + reason,
        JobErrorView::BackendUnavailable => "Backend unavailable"@,
        JobErrorView::HandlerNotFound(t) => "Job type not implemented yet."@,
        JobErrorView::Counter(c) => match c {
            CounterError::NotANumber => "Attempt counter in metadata is not a number"@,
            CounterError::Overflow => "Attempt counter in metadata cannot be incremented"@,
        },
        JobErrorView::VersionOverflow => "Job version cannot be incremented"@,
        JobErrorView::InternalIdNotANumber => "Internal id is not a block number"@,
    }
}

impl JobError {
    /// The error in words.
    pub fn message(&self) -> (r: String)
        ensures
            r@ == message_text(self@),
    {
        match self {
            JobError::Duplicate => String::from_str("Job already exists"),
            JobError::NotFound => String::from_str("Job not found"),
            JobError::InvalidState(s) => String::from_str(
                "Invalid status for this operation: ",
            ).concat(s.as_str()),
            JobError::InvalidStateOnDeadLetter(s) => String::from_str(
                "Invalid state exists on DL queue: ",
            ).concat(s.as_str()),
            JobError::StaleVersion => String::from_str(
                "Failed to update job. Job version is likely outdated",
            ),
            JobError::HandlerError(reason) => String::from_str("Job handler failed: ").concat(
                reason.as_str(),
            ),
            JobError::BackendUnavailable => String::from_str("Backend unavailable"),
            JobError::HandlerNotFound(_) => String::from_str("Job type not implemented yet."),
            JobError::Counter(c) => match c {
                CounterError::NotANumber => String::from_str(
                    "Attempt counter in metadata is not a number",
                ),
                CounterError::Overflow => String::from_str(
                    "Attempt counter in metadata cannot be incremented",
                ),
            },
            JobError::VersionOverflow => String::from_str("Job version cannot be incremented"),
            JobError::InternalIdNotANumber => String::from_str("Internal id is not a block number"),
        }
    }

    /// Whether the two are the same error.
    pub fn same_as(&self, other: &JobError) -> (r: bool)
        ensures
            r == (self@ == other@),
    {
        match (self, other) {
            (JobError::Duplicate, JobError::Duplicate) => true,
            (JobError::NotFound, JobError::NotFound) => true,
            (JobError::InvalidState(a), JobError::InvalidState(b)) => *a == *b,
            (JobError::InvalidStateOnDeadLetter(a), JobError::InvalidStateOnDeadLetter(b)) => *a
                == *b,
            (JobError::StaleVersion, JobError::StaleVersion) => true,
            (JobError::HandlerError(a), JobError::HandlerError(b)) => crate::text::str_eq(
                a.as_str(),
                b.as_str(),
            ),
            (JobError::BackendUnavailable, JobError::BackendUnavailable) => true,
            (JobError::HandlerNotFound(a), JobError::HandlerNotFound(b)) => *a == *b,
            (JobError::Counter(a), JobError::Counter(b)) => *a == *b,
            (JobError::VersionOverflow, JobError::VersionOverflow) => true,
            (JobError::InternalIdNotANumber, JobError::InternalIdNotANumber) => true,
            _ => false,
        }
    }
}

impl PartialEq for JobError {
    fn eq(&self, other: &JobError) -> (r: bool) {
        self.same_as(other)
    }
}

impl Eq for JobError {

}

impl vstd::std_specs::cmp::PartialEqSpecImpl for JobError {
    open spec fn obeys_eq_spec() -> bool {
        true
    }

    open spec fn eq_spec(&self, other: &JobError) -> bool {
        self@ == other@
    }
}

} // verus!
