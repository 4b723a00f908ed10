//! The job record and the enumerations it is made of.

use crate::metadata::Metadata;
use crate::text::str_eq;
use vstd::prelude::*;
use vstd::string::*;

verus! {

/// The stage of the pipeline that a job belongs to.
#[derive(Clone, Copy, Debug, PartialEq, Eq, Hash, Structural)]
pub enum JobType {
    /// Running SNOS on a block.
    SnosRun,
    /// Publishing the state diff to the data-availability layer.
    DataSubmission,
    /// Getting a proof made.
    ProofCreation,
    /// Registering the proof on chain.
    ProofRegistration,
    /// Updating the state on the settlement layer.
    StateTransition,
}

/// Where a job stands in its lifecycle.
#[derive(Clone, Copy, Debug, PartialEq, Eq, Hash, Structural)]
pub enum JobStatus {
    /// Stored, waiting for a processing attempt.
    Created,
    /// Taken by a worker that is processing it.
    LockedForProcessing,
    /// Processed; the outcome is not known yet.
    PendingVerification,
    /// Verified. Nothing changes a completed job.
    Completed,
    /// Verification stayed pending for as many attempts as are allowed.
    VerificationTimeout,
    /// Verification was rejected.
    VerificationFailed,
    /// Given up after dead-lettering.
    Failed,
}

impl JobType {
    /// The tag under which the type is stored and shown.
    pub open spec fn name(self) -> Seq<char> {
        match self {
            JobType::SnosRun => "SnosRun"@,
            JobType::DataSubmission => "DataSubmission"@,
            JobType::ProofCreation => "ProofCreation"@,
            JobType::ProofRegistration => "ProofRegistration"@,
            JobType::StateTransition => "StateTransition"@,
        }
    }

    /// The type that a tag names.
    pub open spec fn named(s: Seq<char>) -> Option<JobType> {
        if s == "SnosRun"@ {
            Some(JobType::SnosRun)
        } else if s == "DataSubmission"@ {
            Some(JobType::DataSubmission)
        } else if s == "ProofCreation"@ {
            Some(JobType::ProofCreation)
        } else if s == "ProofRegistration"@ {
            Some(JobType::ProofRegistration)
        } else if s == "StateTransition"@ {
            Some(JobType::StateTransition)
        } else {
            None
        }
    }

    /// The tag of the type.
    pub fn as_str(&self) -> (r: &'static str)
        ensures
            r@ == self.name(),
    {
        match self {
            JobType::SnosRun => "SnosRun",
            JobType::DataSubmission => "DataSubmission",
            JobType::ProofCreation => "ProofCreation",
            JobType::ProofRegistration => "ProofRegistration",
            JobType::StateTransition => "StateTransition",
        }
    }

    /// The tag of the type, owned.
    pub fn to_string(&self) -> (r: String)
        ensures
            r@ == self.name(),
    {
        String::from_str(self.as_str())
    }

    /// Reads a type from its tag.
    pub fn from_name(s: &str) -> (r: Option<JobType>)
        ensures
            r == JobType::named(s@),
    {
        if str_eq(s, "SnosRun") {
            Some(JobType::SnosRun)
        } else if str_eq(s, "DataSubmission") {
            Some(JobType::DataSubmission)
        } else if str_eq(s, "ProofCreation") {
            Some(JobType::ProofCreation)
        } else if str_eq(s, "ProofRegistration") {
            Some(JobType::ProofRegistration)
        } else if str_eq(s, "StateTransition") {
            Some(JobType::StateTransition)
        } else {
            None
        }
    }

    /// A tag names the type it was taken from.
    pub proof fn lemma_named_name(self)
        ensures
            JobType::named(self.name()) == Some(self),
    {
        reveal_strlit("SnosRun");
        reveal_strlit("DataSubmission");
        reveal_strlit("ProofCreation");
        reveal_strlit("ProofRegistration");
        reveal_strlit("StateTransition");
        assert("SnosRun"@.len() == 7);
        assert("DataSubmission"@.len() == 14);
        assert("ProofCreation"@.len() == 13);
        assert("ProofRegistration"@.len() == 17);
        assert("StateTransition"@.len() == 15);
    }
}

impl JobStatus {
    /// The tag under which the status is stored and shown.
    pub open spec fn name(self) -> Seq<char> {
        match self {
            JobStatus::Created => "Created"@,
            JobStatus::LockedForProcessing => "LockedForProcessing"@,
            JobStatus::PendingVerification => "PendingVerification"@,
            JobStatus::Completed => "Completed"@,
            JobStatus::VerificationTimeout => "VerificationTimeout"@,
            JobStatus::VerificationFailed => "VerificationFailed"@,
            JobStatus::Failed => "Failed"@,
        }
    }

    /// The status that a tag names.
    pub open spec fn named(s: Seq<char>) -> Option<JobStatus> {
        if s == "Created"@ {
            Some(JobStatus::Created)
        } else if s == "LockedForProcessing"@ {
            Some(JobStatus::LockedForProcessing)
        } else if s == "PendingVerification"@ {
            Some(JobStatus::PendingVerification)
        } else if s == "Completed"@ {
            Some(JobStatus::Completed)
        } else if s == "VerificationTimeout"@ {
            Some(JobStatus::VerificationTimeout)
        } else if s == "VerificationFailed"@ {
            Some(JobStatus::VerificationFailed)
        } else if s == "Failed"@ {
            Some(JobStatus::Failed)
        } else {
            None
        }
    }

    /// The tag of the status.
    pub fn as_str(&self) -> (r: &'static str)
        ensures
            r@ == self.name(),
    {
        match self {
            JobStatus::Created => "Created",
            JobStatus::LockedForProcessing => "LockedForProcessing",
            JobStatus::PendingVerification => "PendingVerification",
            JobStatus::Completed => "Completed",
            JobStatus::VerificationTimeout => "VerificationTimeout",
            JobStatus::VerificationFailed => "VerificationFailed",
            JobStatus::Failed => "Failed",
        }
    }

    /// The tag of the status, owned.
    pub fn to_string(&self) -> (r: String)
        ensures
            r@ == self.name(),
    {
        String::from_str(self.as_str())
    }

    /// Reads a status from its tag.
    pub fn from_name(s: &str) -> (r: Option<JobStatus>)
        ensures
            r == JobStatus::named(s@),
    {
        if str_eq(s, "Created") {
            Some(JobStatus::Created)
        } else if str_eq(s, "LockedForProcessing") {
            Some(JobStatus::LockedForProcessing)
        } else if str_eq(s, "PendingVerification") {
            Some(JobStatus::PendingVerification)
        } else if str_eq(s, "Completed") {
            Some(JobStatus::Completed)
        } else if str_eq(s, "VerificationTimeout") {
            Some(JobStatus::VerificationTimeout)
        } else if str_eq(s, "VerificationFailed") {
            Some(JobStatus::VerificationFailed)
        } else if str_eq(s, "Failed") {
            Some(JobStatus::Failed)
        } else {
            None
        }
    }

    /// A tag names the status it was taken from.
    pub proof fn lemma_named_name(self)
        ensures
            JobStatus::named(self.name()) == Some(self),
    {
        reveal_strlit("Created");
        reveal_strlit("LockedForProcessing");
        reveal_strlit("PendingVerification");
        reveal_strlit("Completed");
        reveal_strlit("VerificationTimeout");
        reveal_strlit("VerificationFailed");
        reveal_strlit("Failed");
        assert("Created"@.len() == 7);
        assert("LockedForProcessing"@.len() == 19);
        assert("PendingVerification"@.len() == 19);
        assert("Completed"@.len() == 9);
        assert("VerificationTimeout"@.len() == 19);
        assert("VerificationFailed"@.len() == 18);
        assert("Failed"@.len() == 6);
        assert("LockedForProcessing"@[0] == 'L');
        assert("PendingVerification"@[0] == 'P');
        assert("VerificationTimeout"@[0] == 'V');
    }

    /// A job in this status may be taken for processing.
    pub open spec fn processable(self) -> bool {
        self == JobStatus::Created || self == JobStatus::VerificationFailed
    }

    /// Whether a job in this status may be taken for processing.
    pub fn is_processable(&self) -> (r: bool)
        ensures
            r == self.processable(),
    {
        match self {
            JobStatus::Created => true,
            JobStatus::VerificationFailed => true,
            _ => false,
        }
    }
}

/// Whether the lifecycle has a step from `from` to `to`. A step may leave the
/// status as it is where only the metadata changes: a processing attempt that
/// failed, a verification that is still pending.
pub open spec fn legal_transition(from: JobStatus, to: JobStatus) -> bool {
    match from {
        JobStatus::Created => to == JobStatus::LockedForProcessing || to == JobStatus::Failed,
        JobStatus::LockedForProcessing => to == JobStatus::LockedForProcessing || to
            == JobStatus::PendingVerification || to == JobStatus::Failed,
        JobStatus::PendingVerification => to == JobStatus::PendingVerification || to
            == JobStatus::Completed || to == JobStatus::VerificationTimeout || to
            == JobStatus::VerificationFailed || to == JobStatus::Failed,
        JobStatus::VerificationFailed => to == JobStatus::LockedForProcessing || to
            == JobStatus::Failed,
        JobStatus::VerificationTimeout => to == JobStatus::Failed,
        JobStatus::Completed => false,
        JobStatus::Failed => false,
    }
}

/// The handle that a stage's outside service gave to a job.
#[derive(Debug)]
pub enum ExternalId {
    /// A textual handle.
    String(String),
    /// A numeric handle.
    Number(usize),
}

/// What an `ExternalId` holds.
pub enum ExternalIdView {
    String(Seq<char>),
    Number(usize),
}

impl View for ExternalId {
    type V = ExternalIdView;

    open spec fn view(&self) -> ExternalIdView {
        match self {
            ExternalId::String(s) => ExternalIdView::String(s@),
            ExternalId::Number(n) => ExternalIdView::Number(*n),
        }
    }
}

impl Clone for ExternalId {
    fn clone(&self) -> (r: ExternalId)
        ensures
            r@ == self@,
    {
        match self {
            ExternalId::String(s) => ExternalId::String(s.clone()),
            ExternalId::Number(n) => ExternalId::Number(*n),
        }
    }
}

impl ExternalId {
    /// Whether the two hold the same handle.
    pub fn same_as(&self, other: &ExternalId) -> (r: bool)
        ensures
            r == (self@ == other@),
    {
        match (self, other) {
            (ExternalId::String(a), ExternalId::String(b)) => str_eq(a.as_str(), b.as_str()),
            (ExternalId::Number(a), ExternalId::Number(b)) => *a == *b,
            _ => false,
        }
    }
}

impl PartialEq for ExternalId {
    fn eq(&self, other: &ExternalId) -> (r: bool) {
        self.same_as(other)
    }
}

impl Eq for ExternalId {

}

impl vstd::std_specs::cmp::PartialEqSpecImpl for ExternalId {
    open spec fn obeys_eq_spec() -> bool {
        true
    }

    open spec fn eq_spec(&self, other: &ExternalId) -> bool {
        self@ == other@
    }
}

/// What the verification of a processed job found.
#[derive(Debug)]
pub enum JobVerificationStatus {
    /// Not known yet: ask again later.
    Pending,
    /// The outside service confirmed the work.
    Verified,
    /// The outside service refused the work, with its reason.
    Rejected(String),
}

/// The kind of a verification outcome, without the reason.
#[derive(Clone, Copy, Debug, PartialEq, Eq, Structural)]
pub enum VerificationKind {
    Pending,
    Verified,
    Rejected,
}

impl JobVerificationStatus {
    /// The kind of the outcome.
    pub open spec fn kind(self) -> VerificationKind {
        match self {
            JobVerificationStatus::Pending => VerificationKind::Pending,
            JobVerificationStatus::Verified => VerificationKind::Verified,
            JobVerificationStatus::Rejected(_) => VerificationKind::Rejected,
        }
    }

    /// The kind of the outcome.
    pub fn get_kind(&self) -> (r: VerificationKind)
        ensures
            r == self.kind(),
    {
        match self {
            JobVerificationStatus::Pending => VerificationKind::Pending,
            JobVerificationStatus::Verified => VerificationKind::Verified,
            JobVerificationStatus::Rejected(_) => VerificationKind::Rejected,
        }
    }
}

/// The one persistent record: a unit of work of one stage for one block.
#[derive(Debug)]
pub struct JobItem {
    /// Unique identifier, given at creation and never changed.
    pub id: u128,
    /// The caller's key, as a rule a block number in decimal; unique within
    /// a job type.
    pub internal_id: String,
    /// The stage the job belongs to.
    pub job_type: JobType,
    /// Where the job stands.
    pub status: JobStatus,
    /// The handle given by the stage's outside service.
    pub external_id: ExternalId,
    /// Counters and whatever the stage keeps with the job.
    pub metadata: Metadata,
    /// Goes up by one with every update that the store accepts.
    pub version: i32,
}

/// What a `JobItem` holds.
pub struct JobItemView {
    pub id: u128,
    pub internal_id: Seq<char>,
    pub job_type: JobType,
    pub status: JobStatus,
    pub external_id: ExternalIdView,
    pub metadata: Map<Seq<char>, Seq<char>>,
    pub version: i32,
}

impl View for JobItem {
    type V = JobItemView;

    open spec fn view(&self) -> JobItemView {
        JobItemView {
            id: self.id,
            internal_id: self.internal_id@,
            job_type: self.job_type,
            status: self.status,
            external_id: self.external_id@,
            metadata: self.metadata@,
            version: self.version,
        }
    }
}

impl Clone for JobItem {
    fn clone(&self) -> (r: JobItem)
        ensures
            r@ == self@,
    {
        JobItem {
            id: self.id,
            internal_id: self.internal_id.clone(),
            job_type: self.job_type,
            status: self.status,
            external_id: self.external_id.clone(),
            metadata: self.metadata.clone(),
            version: self.version,
        }
    }
}

impl JobItem {
    /// Whether the two records hold the same values.
    pub fn same_as(&self, other: &JobItem) -> (r: bool)
        ensures
            r == (self@ == other@),
    {
        let r = self.id == other.id && str_eq(self.internal_id.as_str(), other.internal_id.as_str())
            && self.job_type == other.job_type && self.status == other.status
            && self.external_id.same_as(&other.external_id) && self.metadata.same_as(
            &other.metadata,
        ) && self.version == other.version;
        r
    }
}

impl PartialEq for JobItem {
    fn eq(&self, other: &JobItem) -> (r: bool) {
        self.same_as(other)
    }
}

impl Eq for JobItem {

}

impl vstd::std_specs::cmp::PartialEqSpecImpl for JobItem {
    open spec fn obeys_eq_spec() -> bool {
        true
    }

    open spec fn eq_spec(&self, other: &JobItem) -> bool {
        self@ == other@
    }
}

impl JobItemView {
    /// The record with another status.
    pub open spec fn with_status(self, status: JobStatus) -> JobItemView {
        JobItemView { status, ..self }
    }

    /// The record with other metadata.
    pub open spec fn with_metadata(self, metadata: Map<Seq<char>, Seq<char>>) -> JobItemView {
        JobItemView { metadata, ..self }
    }

    /// `other` is the same job: identifier, type and internal id agree.
    pub open spec fn same_job(self, other: JobItemView) -> bool {
        self.id == other.id && self.job_type == other.job_type && self.internal_id
            == other.internal_id
    }
}

} // verus!
