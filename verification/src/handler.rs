//! What a stage of the pipeline has to offer, and the registry that finds
//! the handler of a job type.

use crate::metadata::Metadata;
use crate::types::{JobItem, JobType, JobVerificationStatus};
use vstd::prelude::*;

verus! {

/// The handler of one stage: it builds the stage's jobs, performs their
/// outside work and asks for its outcome. The lifecycle engine alone stores
/// and changes job records; a handler returns values and changes nothing.
///
/// Nothing is assumed of what a handler returns: the engine is verified for
/// every value.
pub trait Job {
    /// Builds the first record of a job for `internal_id`. The engine keeps
    /// the identifier, the external id and the metadata of the record, and
    /// sets the rest itself.
    fn create_job(&self, internal_id: String, metadata: Metadata) -> Result<JobItem, String>;

    /// Performs the outside work of the job and returns the handle that the
    /// outside service gave to it, or the reason why it failed.
    fn process_job(&self, job: &JobItem) -> Result<String, String>;

    /// Asks the outside service what became of the work.
    fn verify_job(&self, job: &JobItem) -> Result<JobVerificationStatus, String>;

    /// How many processing attempts a job may have.
    fn max_process_attempts(&self) -> u64;

    /// How many times the verification of a job may come back pending.
    fn max_verification_attempts(&self) -> u64;

    /// How many seconds to wait before verification is asked for.
    fn verification_polling_delay_seconds(&self) -> u64;
}

/// The handlers of the stages, one place for each job type. A type whose
/// place is empty has no handler.
pub struct HandlerRegistry<H: Job> {
    pub snos_run: Option<H>,
    pub data_submission: Option<H>,
    pub proof_creation: Option<H>,
    pub proof_registration: Option<H>,
    pub state_transition: Option<H>,
}

impl<H: Job> HandlerRegistry<H> {
    /// The handler registered for `job_type`.
    pub open spec fn handler_of(&self, job_type: JobType) -> Option<H> {
        match job_type {
            JobType::SnosRun => self.snos_run,
            JobType::DataSubmission => self.data_submission,
            JobType::ProofCreation => self.proof_creation,
            JobType::ProofRegistration => self.proof_registration,
            JobType::StateTransition => self.state_transition,
        }
    }

    /// Whether a handler is registered for `job_type`.
    pub open spec fn handles(&self, job_type: JobType) -> bool {
        self.handler_of(job_type) is Some
    }

    /// A registry without handlers.
    pub fn new() -> (r: HandlerRegistry<H>)
        ensures
            forall|t: JobType| !r.handles(t),
    {
        HandlerRegistry {
            snos_run: None,
            data_submission: None,
            proof_creation: None,
            proof_registration: None,
            state_transition: None,
        }
    }

    /// Registers `handler` for `job_type`, in place of the one that was
    /// registered for it.
    pub fn register(&mut self, job_type: JobType, handler: H)
        ensures
            final(self).handler_of(job_type) == Some(handler),
            forall|t: JobType| t != job_type ==> final(self).handler_of(t) == old(self).handler_of(t),
    {
        match job_type {
            JobType::SnosRun => {
                self.snos_run = Some(handler);
            },
            JobType::DataSubmission => {
                self.data_submission = Some(handler);
            },
            JobType::ProofCreation => {
                self.proof_creation = Some(handler);
            },
            JobType::ProofRegistration => {
                self.proof_registration = Some(handler);
            },
            JobType::StateTransition => {
                self.state_transition = Some(handler);
            },
        }
    }

    /// The handler of `job_type`, if one is registered.
    pub fn get_job_handler(&self, job_type: &JobType) -> (r: Option<&H>)
        ensures
            match r {
                Some(h) => self.handler_of(*job_type) == Some(*h),
                None => self.handler_of(*job_type) is None,
            },
    {
        match job_type {
            JobType::SnosRun => self.snos_run.as_ref(),
            JobType::DataSubmission => self.data_submission.as_ref(),
            JobType::ProofCreation => self.proof_creation.as_ref(),
            JobType::ProofRegistration => self.proof_registration.as_ref(),
            JobType::StateTransition => self.state_transition.as_ref(),
        }
    }
}

} // verus!
