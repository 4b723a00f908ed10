//! The lifecycle engine: creating, processing and verifying jobs, and
//! failing those that were given up.
//!
//! Every entry point reads a job, decides on a plan from what it read and
//! what the stage's handler answered, and carries the plan out: one
//! optimistic update of the job, then at most one message. The deciding
//! functions (`plan_*`) touch neither store nor queue, so that a caller with
//! a store and a broker of its own can carry their plans out itself.

use crate::errors::{result_view, JobError, JobErrorView};
use crate::handler::{HandlerRegistry, Job};
use crate::metadata::{
    counter_value,
    get_u64_from_metadata,
    increment_key_in_metadata,
    incremented,
    CounterError,
    Metadata,
    JOB_LAST_STATUS_METADATA_KEY,
    JOB_PROCESS_ATTEMPT_METADATA_KEY,
    JOB_VERIFICATION_ATTEMPT_METADATA_KEY,
};
use crate::queue::{enqueued, JobQueue, JobQueueMessage, QueueName, QueueView};
use crate::store::{
    by_id,
    has_id,
    has_key,
    lemma_update_keeps_unique,
    optimistic_update,
    JobPatch,
    JobStore,
    JobUpdate,
};
use crate::types::{
    ExternalId,
    ExternalIdView,
    JobItem,
    JobItemView,
    JobStatus,
    JobType,
    JobVerificationStatus,
    VerificationKind,
};
use vstd::prelude::*;
use vstd::string::*;

verus! {

/// The store and the queues that the engine works on.
#[derive(Debug)]
pub struct Context {
    pub store: JobStore,
    pub queue: JobQueue,
}

/// What a `Context` holds.
pub struct ContextView {
    pub store: Seq<JobItemView>,
    pub queue: QueueView,
}

impl View for Context {
    type V = ContextView;

    open spec fn view(&self) -> ContextView {
        ContextView { store: self.store@, queue: self.queue@ }
    }
}

impl Context {
    /// The store is well formed.
    pub open spec fn wf(&self) -> bool {
        self.store.wf()
    }

    /// An empty store and empty queues.
    pub fn new() -> (ctx: Context)
        ensures
            ctx.wf(),
            ctx.store@ == Seq::<JobItemView>::empty(),
            ctx.queue@.pending == Seq::<crate::queue::QueuedMessage>::empty(),
            ctx.queue@.dead == Seq::<crate::queue::DeadLetterView>::empty(),
            ctx.queue@.now == 0,
    {
        Context { store: JobStore::new(), queue: JobQueue::new() }
    }
}

/// A message to send: to which queue, and after how many seconds it is due.
#[derive(Clone, Copy, Debug, PartialEq, Eq, Structural)]
pub struct QueueRequest {
    pub queue: QueueName,
    pub delay: u64,
}

/// What to do about a job: the update to make, the message to send once
/// the update is stored, and what to return then.
#[derive(Debug)]
pub struct Plan {
    pub update: Option<JobUpdate>,
    pub enqueue: Option<QueueRequest>,
    pub result: Result<(), JobError>,
}

/// What a `Plan` holds.
pub struct PlanView {
    pub update: Option<JobPatch>,
    pub enqueue: Option<QueueRequest>,
    pub result: Result<(), JobErrorView>,
}

impl View for Plan {
    type V = PlanView;

    open spec fn view(&self) -> PlanView {
        PlanView {
            update: match self.update {
                Some(u) => Some(u@),
                None => None,
            },
            enqueue: self.enqueue,
            result: result_view(self.result),
        }
    }
}

/// The plan that changes nothing and returns the error.
pub open spec fn refusal(e: JobErrorView) -> PlanView {
    PlanView { update: None, enqueue: None, result: Err(e) }
}

/// The patch that sets the status alone.
pub open spec fn status_patch(status: JobStatus) -> JobPatch {
    JobPatch { status: Some(status), external_id: None, metadata: None }
}

/// The patch that sets the metadata alone.
pub open spec fn metadata_patch(metadata: Map<Seq<char>, Seq<char>>) -> JobPatch {
    JobPatch { status: None, external_id: None, metadata: Some(metadata) }
}

/// Taking a job for processing: a job that is `Created` or
/// `VerificationFailed` becomes `LockedForProcessing`; any other is refused.
pub open spec fn lock_plan(job: JobItemView) -> PlanView {
    if job.status.processable() {
        PlanView {
            update: Some(status_patch(JobStatus::LockedForProcessing)),
            enqueue: None,
            result: Ok(()),
        }
    } else {
        refusal(JobErrorView::InvalidState(job.status))
    }
}

/// What the handler's answer makes of a job that is locked for processing.
/// With a handle, the job gets the handle, becomes `PendingVerification` and
/// counts one processing attempt more, all in one update, and a verification
/// message goes out with the delay. With a failure, the attempt is counted
/// and the failure returned; where the counter cannot be raised, the failure
/// is returned and nothing stored.
pub open spec fn finish_plan(
    job: JobItemView,
    outcome: Result<Seq<char>, Seq<char>>,
    delay: u64,
) -> PlanView {
    if job.status != JobStatus::LockedForProcessing {
        refusal(JobErrorView::InvalidState(job.status))
    } else {
        match outcome {
            Ok(external_id) => match incremented(job.metadata, JOB_PROCESS_ATTEMPT_METADATA_KEY@) {
                Ok(m) => PlanView {
                    update: Some(
                        JobPatch {
                            status: Some(JobStatus::PendingVerification),
                            external_id: Some(ExternalIdView::String(external_id)),
                            metadata: Some(m),
                        },
                    ),
                    enqueue: Some(QueueRequest { queue: QueueName::Verification, delay }),
                    result: Ok(()),
                },
                Err(c) => refusal(JobErrorView::Counter(c)),
            },
            Err(reason) => match incremented(job.metadata, JOB_PROCESS_ATTEMPT_METADATA_KEY@) {
                Ok(m) => PlanView {
                    update: Some(metadata_patch(m)),
                    enqueue: None,
                    result: Err(JobErrorView::HandlerError(reason)),
                },
                Err(_) => refusal(JobErrorView::HandlerError(reason)),
            },
        }
    }
}

/// What a verification outcome makes of a job that is pending verification.
///
/// Verified: the job is `Completed`. Rejected: the job is
/// `VerificationFailed`, and a processing message goes out at once if it has
/// had fewer processing attempts than allowed. Pending: with fewer
/// verification attempts than allowed, one more is counted and a verification
/// message goes out with the delay; with as many as allowed, the job is
/// `VerificationTimeout` and its counter stays.
pub open spec fn verification_plan(
    job: JobItemView,
    kind: VerificationKind,
    max_process_attempts: u64,
    max_verification_attempts: u64,
    delay: u64,
) -> PlanView {
    if job.status != JobStatus::PendingVerification {
        refusal(JobErrorView::InvalidState(job.status))
    } else {
        match kind {
            VerificationKind::Verified => PlanView {
                update: Some(status_patch(JobStatus::Completed)),
                enqueue: None,
                result: Ok(()),
            },
            VerificationKind::Rejected => match counter_value(
                job.metadata,
                JOB_PROCESS_ATTEMPT_METADATA_KEY@,
            ) {
                Some(n) => PlanView {
                    update: Some(status_patch(JobStatus::VerificationFailed)),
                    enqueue: if n < max_process_attempts {
                        Some(QueueRequest { queue: QueueName::Processing, delay: 0 })
                    } else {
                        None
                    },
                    result: Ok(()),
                },
                None => PlanView {
                    update: Some(status_patch(JobStatus::VerificationFailed)),
                    enqueue: None,
                    result: Err(JobErrorView::Counter(CounterError::NotANumber)),
                },
            },
            VerificationKind::Pending => match counter_value(
                job.metadata,
                JOB_VERIFICATION_ATTEMPT_METADATA_KEY@,
            ) {
                Some(n) => if n >= max_verification_attempts {
                    PlanView {
                        update: Some(status_patch(JobStatus::VerificationTimeout)),
                        enqueue: None,
                        result: Ok(()),
                    }
                } else {
                    PlanView {
                        update: Some(
                            metadata_patch(
                                incremented(
                                    job.metadata,
                                    JOB_VERIFICATION_ATTEMPT_METADATA_KEY@,
                                )->Ok_0,
                            ),
                        ),
                        enqueue: Some(QueueRequest { queue: QueueName::Verification, delay }),
                        result: Ok(()),
                    }
                },
                None => refusal(JobErrorView::Counter(CounterError::NotANumber)),
            },
        }
    }
}

/// Failing a job that was given up: a completed job cannot fail, a failed
/// one stays as it is, and any other becomes `Failed` and keeps the name of
/// the status it had.
pub open spec fn failure_plan(job: JobItemView) -> PlanView {
    if job.status == JobStatus::Completed {
        refusal(JobErrorView::InvalidStateOnDeadLetter(job.status))
    } else if job.status == JobStatus::Failed {
        PlanView { update: None, enqueue: None, result: Ok(()) }
    } else {
        PlanView {
            update: Some(
                JobPatch {
                    status: Some(JobStatus::Failed),
                    external_id: None,
                    metadata: Some(
                        job.metadata.insert(JOB_LAST_STATUS_METADATA_KEY@, job.status.name()),
                    ),
                },
            ),
            enqueue: None,
            result: Ok(()),
        }
    }
}

/// The context after a plan for `job` was carried out, and what is
/// returned. Where the update is refused nothing changes, no message goes
/// out, and the refusal is returned in place of the plan's result.
pub open spec fn executed(ctx: ContextView, job: JobItemView, plan: PlanView) -> (
    ContextView,
    Result<(), JobErrorView>,
) {
    match plan.update {
        None => (ctx, plan.result),
        Some(patch) => match optimistic_update(ctx.store, job.id, job.version, patch) {
            Err(e) => (ctx, Err(e)),
            Ok(store) => (
                ContextView {
                    store,
                    queue: match plan.enqueue {
                        Some(request) => enqueued(ctx.queue, request.queue, job.id, request.delay),
                        None => ctx.queue,
                    },
                },
                plan.result,
            ),
        },
    }
}

/// The record that is stored for a new job: identifier, external id and
/// metadata as the handler built them, both attempt counters at "0", the
/// type and internal id that were asked for, `Created`, version 0.
pub open spec fn initial_record(built: JobItemView, job_type: JobType, internal_id: Seq<char>) -> JobItemView {
    JobItemView {
        id: built.id,
        internal_id,
        job_type,
        status: JobStatus::Created,
        external_id: built.external_id,
        metadata: built.metadata.insert(JOB_PROCESS_ATTEMPT_METADATA_KEY@, seq!['0']).insert(
            JOB_VERIFICATION_ATTEMPT_METADATA_KEY@,
            seq!['0'],
        ),
        version: 0,
    }
}

/// The context after `record` was admitted: stored, with a processing
/// message that is due at once; refused as a duplicate where its identifier,
/// or its type and internal id, is stored already.
pub open spec fn admitted(ctx: ContextView, record: JobItemView) -> (
    ContextView,
    Result<(), JobErrorView>,
) {
    if has_id(ctx.store, record.id) || has_key(ctx.store, record.job_type, record.internal_id) {
        (ctx, Err(JobErrorView::Duplicate))
    } else {
        (
            ContextView {
                store: ctx.store.push(record),
                queue: enqueued(ctx.queue, QueueName::Processing, record.id, 0),
            },
            Ok(()),
        )
    }
}

/// What a handler answered, as plain text.
pub open spec fn text_result(r: Result<String, String>) -> Result<Seq<char>, Seq<char>> {
    match r {
        Ok(s) => Ok(s@),
        Err(s) => Err(s@),
    }
}

/// What a handler built, as plain values.
pub open spec fn built_result(r: Result<JobItem, String>) -> Result<JobItemView, Seq<char>> {
    match r {
        Ok(j) => Ok(j@),
        Err(s) => Err(s@),
    }
}

/// What a handler found, without the reason of a rejection.
pub open spec fn kind_result(r: Result<JobVerificationStatus, String>) -> Result<
    VerificationKind,
    Seq<char>,
> {
    match r {
        Ok(s) => Ok(s.kind()),
        Err(s) => Err(s@),
    }
}

/// What the handler of a job's type told a verification: the outcome, the
/// two caps and the polling delay.
pub struct VerificationAnswer {
    pub outcome: Result<VerificationKind, Seq<char>>,
    pub max_process_attempts: u64,
    pub max_verification_attempts: u64,
    pub delay: u64,
}

/// The handler may build `built` when it is asked for a job with
/// `internal_id` and `metadata`.
pub open spec fn may_create<H: Job>(
    handler: H,
    internal_id: Seq<char>,
    metadata: Map<Seq<char>, Seq<char>>,
    built: Result<JobItemView, Seq<char>>,
) -> bool {
    exists|id: String, given: Metadata, answer: Result<JobItem, String>|
        {
            &&& id@ == internal_id
            &&& given@ == metadata
            &&& built_result(answer) == built
            &&& #[trigger] call_ensures(H::create_job, (&handler, id, given), answer)
        }
}

/// The handler may answer `outcome` when it is asked to process a job that
/// holds `job`, and may give `delay` as its polling delay.
pub open spec fn may_process<H: Job>(
    handler: H,
    job: JobItemView,
    outcome: Result<Seq<char>, Seq<char>>,
    delay: u64,
) -> bool {
    exists|item: JobItem, answer: Result<String, String>|
        {
            &&& item@ == job
            &&& text_result(answer) == outcome
            &&& #[trigger] call_ensures(H::process_job, (&handler, &item), answer)
            &&& call_ensures(H::verification_polling_delay_seconds, (&handler,), delay)
        }
}

/// The handler may give `answer` when it is asked to verify a job that holds
/// `job` and for its caps and its polling delay.
pub open spec fn may_verify<H: Job>(handler: H, job: JobItemView, answer: VerificationAnswer) -> bool {
    exists|item: JobItem, outcome: Result<JobVerificationStatus, String>|
        {
            &&& item@ == job
            &&& kind_result(outcome) == answer.outcome
            &&& #[trigger] call_ensures(H::verify_job, (&handler, &item), outcome)
            &&& call_ensures(H::max_process_attempts, (&handler,), answer.max_process_attempts)
            &&& call_ensures(
                H::max_verification_attempts,
                (&handler,),
                answer.max_verification_attempts,
            )
            &&& call_ensures(H::verification_polling_delay_seconds, (&handler,), answer.delay)
        }
}

/// `after` and `result` are what `create_job` makes of `before`: the handler
/// of the type is asked where the job does not exist yet, it is handed the
/// internal id and the metadata, and what it builds is admitted. Without a
/// handler for the type there is no answer.
pub open spec fn creates<H: Job>(
    before: ContextView,
    registry: HandlerRegistry<H>,
    job_type: JobType,
    internal_id: Seq<char>,
    metadata: Map<Seq<char>, Seq<char>>,
    after: ContextView,
    result: Result<(), JobErrorView>,
) -> bool {
    exists|answer: Option<Result<JobItemView, Seq<char>>>|
        {
            &&& answer is Some <==> registry.handles(job_type)
            &&& !has_key(before.store, job_type, internal_id) && answer is Some ==> may_create(
                registry.handler_of(job_type)->0,
                internal_id,
                metadata,
                answer->0,
            )
            &&& (after, result) == #[trigger] create_step(before, job_type, internal_id, answer)
        }
}

/// `after` and `result` are what `process_job` makes of `before`: the
/// handler of the job's type is asked once the job is locked, it is handed
/// the job as it is stored then, and its answer is stored. Without a handler
/// for the type there is no answer.
pub open spec fn processes<H: Job>(
    before: ContextView,
    registry: HandlerRegistry<H>,
    id: u128,
    after: ContextView,
    result: Result<(), JobErrorView>,
) -> bool {
    exists|answer: Option<(Result<Seq<char>, Seq<char>>, u64)>|
        {
            &&& by_id(before.store, id) matches Some(job) ==> (answer is Some
                <==> registry.handles(job.job_type))
            &&& lock_step(before, id).1 is Ok && answer is Some ==> ({
                let (outcome, delay) = answer->0;
                may_process(
                    registry.handler_of(by_id(before.store, id)->0.job_type)->0,
                    by_id(lock_step(before, id).0.store, id)->0,
                    outcome,
                    delay,
                )
            })
            &&& (after, result) == #[trigger] process_step(before, id, answer)
        }
}

/// `after` and `result` are what `verify_job` makes of `before`: the handler
/// of the job's type is asked where the job is pending verification, it is
/// handed the job as it is stored, and what follows from its answer is
/// stored. Without a handler for the type there is no answer.
pub open spec fn verifies<H: Job>(
    before: ContextView,
    registry: HandlerRegistry<H>,
    id: u128,
    after: ContextView,
    result: Result<(), JobErrorView>,
) -> bool {
    exists|answer: Option<VerificationAnswer>|
        {
            &&& by_id(before.store, id) matches Some(job) ==> (answer is Some
                <==> registry.handles(job.job_type))
            &&& (by_id(before.store, id) matches Some(job) && job.status
                == JobStatus::PendingVerification) && answer is Some ==> may_verify(
                registry.handler_of(by_id(before.store, id)->0.job_type)->0,
                by_id(before.store, id)->0,
                answer->0,
            )
            &&& (after, result) == #[trigger] verify_step(before, id, answer)
        }
}

/// What `create_job` does, given what the registry and the handler answered
/// (`None`: no handler is registered). A job that exists is a duplicate
/// whatever the handler would say.
pub open spec fn create_step(
    ctx: ContextView,
    job_type: JobType,
    internal_id: Seq<char>,
    answer: Option<Result<JobItemView, Seq<char>>>,
) -> (ContextView, Result<(), JobErrorView>) {
    if has_key(ctx.store, job_type, internal_id) {
        (ctx, Err(JobErrorView::Duplicate))
    } else {
        match answer {
            None => (ctx, Err(JobErrorView::HandlerNotFound(job_type))),
            Some(Err(reason)) => (ctx, Err(JobErrorView::HandlerError(reason))),
            Some(Ok(built)) => admitted(ctx, initial_record(built, job_type, internal_id)),
        }
    }
}

/// Taking the job `id` for processing, as the first half of `process_job`
/// does it.
pub open spec fn lock_step(ctx: ContextView, id: u128) -> (ContextView, Result<(), JobErrorView>) {
    match by_id(ctx.store, id) {
        None => (ctx, Err(JobErrorView::NotFound)),
        Some(job) => executed(ctx, job, lock_plan(job)),
    }
}

/// Storing what the handler answered for the job `id`, as the second half of
/// `process_job` does it.
pub open spec fn finish_step(
    ctx: ContextView,
    id: u128,
    outcome: Result<Seq<char>, Seq<char>>,
    delay: u64,
) -> (ContextView, Result<(), JobErrorView>) {
    match by_id(ctx.store, id) {
        None => (ctx, Err(JobErrorView::NotFound)),
        Some(job) => executed(ctx, job, finish_plan(job, outcome, delay)),
    }
}

/// What `process_job` does, given what the registry and the handler answered
/// (`None`: no handler is registered): the job is locked, and what the
/// handler answered is stored. Without a handler the job stays locked.
pub open spec fn process_step(
    ctx: ContextView,
    id: u128,
    answer: Option<(Result<Seq<char>, Seq<char>>, u64)>,
) -> (ContextView, Result<(), JobErrorView>) {
    let (locked, taken) = lock_step(ctx, id);
    match taken {
        Err(e) => (locked, Err(e)),
        Ok(_) => match answer {
            None => (locked, Err(JobErrorView::HandlerNotFound(by_id(ctx.store, id)->0.job_type))),
            Some((outcome, delay)) => finish_step(locked, id, outcome, delay),
        },
    }
}

/// What `verify_job` does, given what the registry and the handler answered
/// (`None`: no handler is registered).
pub open spec fn verify_step(ctx: ContextView, id: u128, answer: Option<VerificationAnswer>) -> (
    ContextView,
    Result<(), JobErrorView>,
) {
    match by_id(ctx.store, id) {
        None => (ctx, Err(JobErrorView::NotFound)),
        Some(job) => if job.status != JobStatus::PendingVerification {
            (ctx, Err(JobErrorView::InvalidState(job.status)))
        } else {
            match answer {
                None => (ctx, Err(JobErrorView::HandlerNotFound(job.job_type))),
                Some(a) => match a.outcome {
                    Err(reason) => (ctx, Err(JobErrorView::HandlerError(reason))),
                    Ok(kind) => executed(
                        ctx,
                        job,
                        verification_plan(
                            job,
                            kind,
                            a.max_process_attempts,
                            a.max_verification_attempts,
                            a.delay,
                        ),
                    ),
                },
            }
        },
    }
}

/// What `handle_job_failure` does.
pub open spec fn fail_step(ctx: ContextView, id: u128) -> (ContextView, Result<(), JobErrorView>) {
    match by_id(ctx.store, id) {
        None => (ctx, Err(JobErrorView::NotFound)),
        Some(job) => executed(ctx, job, failure_plan(job)),
    }
}

/// The plan that changes nothing and returns the error.
fn refuse(e: JobError) -> (plan: Plan)
    ensures
        plan@ == refusal(e@),
{
    Plan { update: None, enqueue: None, result: Err(e) }
}

/// Decides how to take `job` for processing.
pub fn plan_lock(job: &JobItem) -> (plan: Plan)
    ensures
        plan@ == lock_plan(job@),
{
    if job.status.is_processable() {
        Plan {
            update: Some(
                JobUpdate {
                    status: Some(JobStatus::LockedForProcessing),
                    external_id: None,
                    metadata: None,
                },
            ),
            enqueue: None,
            result: Ok(()),
        }
    } else {
        refuse(JobError::InvalidState(job.status))
    }
}

/// Decides what the handler's answer to a processing attempt makes of the
/// locked `job`.
pub fn plan_finish(job: &JobItem, outcome: Result<String, String>, delay: u64) -> (plan: Plan)
    ensures
        plan@ == finish_plan(job@, text_result(outcome), delay),
{
    if job.status != JobStatus::LockedForProcessing {
        return refuse(JobError::InvalidState(job.status));
    }
    let counted = increment_key_in_metadata(&job.metadata, JOB_PROCESS_ATTEMPT_METADATA_KEY);
    match outcome {
        Ok(external_id) => match counted {
            Ok(m) => Plan {
                update: Some(
                    JobUpdate {
                        status: Some(JobStatus::PendingVerification),
                        external_id: Some(ExternalId::String(external_id)),
                        metadata: Some(m),
                    },
                ),
                enqueue: Some(QueueRequest { queue: QueueName::Verification, delay }),
                result: Ok(()),
            },
            Err(c) => refuse(JobError::Counter(c)),
        },
        Err(reason) => match counted {
            Ok(m) => Plan {
                update: Some(JobUpdate { status: None, external_id: None, metadata: Some(m) }),
                enqueue: None,
                result: Err(JobError::HandlerError(reason)),
            },
            Err(_) => refuse(JobError::HandlerError(reason)),
        },
    }
}

/// Decides what a verification outcome makes of `job`.
pub fn plan_verification(
    job: &JobItem,
    kind: VerificationKind,
    max_process_attempts: u64,
    max_verification_attempts: u64,
    delay: u64,
) -> (plan: Plan)
    ensures
        plan@ == verification_plan(
            job@,
            kind,
            max_process_attempts,
            max_verification_attempts,
            delay,
        ),
{
    if job.status != JobStatus::PendingVerification {
        return refuse(JobError::InvalidState(job.status));
    }
    match kind {
        VerificationKind::Verified => Plan {
            update: Some(
                JobUpdate { status: Some(JobStatus::Completed), external_id: None, metadata: None },
            ),
            enqueue: None,
            result: Ok(()),
        },
        VerificationKind::Rejected => {
            let update = Some(
                JobUpdate {
                    status: Some(JobStatus::VerificationFailed),
                    external_id: None,
                    metadata: None,
                },
            );
            match get_u64_from_metadata(&job.metadata, JOB_PROCESS_ATTEMPT_METADATA_KEY) {
                Ok(n) => Plan {
                    update,
                    enqueue: if n < max_process_attempts {
                        Some(QueueRequest { queue: QueueName::Processing, delay: 0 })
                    } else {
                        None
                    },
                    result: Ok(()),
                },
                Err(c) => Plan { update, enqueue: None, result: Err(JobError::Counter(c)) },
            }
        },
        VerificationKind::Pending => {
            match get_u64_from_metadata(&job.metadata, JOB_VERIFICATION_ATTEMPT_METADATA_KEY) {
                Err(c) => refuse(JobError::Counter(c)),
                Ok(n) => {
                    if n >= max_verification_attempts {
                        Plan {
                            update: Some(
                                JobUpdate {
                                    status: Some(JobStatus::VerificationTimeout),
                                    external_id: None,
                                    metadata: None,
                                },
                            ),
                            enqueue: None,
                            result: Ok(()),
                        }
                    } else {
                        match increment_key_in_metadata(
                            &job.metadata,
                            JOB_VERIFICATION_ATTEMPT_METADATA_KEY,
                        ) {
                            Ok(m) => Plan {
                                update: Some(
                                    JobUpdate {
                                        status: None,
                                        external_id: None,
                                        metadata: Some(m),
                                    },
                                ),
                                enqueue: Some(
                                    QueueRequest { queue: QueueName::Verification, delay },
                                ),
                                result: Ok(()),
                            },
                            Err(c) => refuse(JobError::Counter(c)),
                        }
                    }
                },
            }
        },
    }
}

/// Decides how to fail `job`.
pub fn plan_failure(job: &JobItem) -> (plan: Plan)
    ensures
        plan@ == failure_plan(job@),
{
    match job.status {
        JobStatus::Completed => refuse(JobError::InvalidStateOnDeadLetter(job.status)),
        JobStatus::Failed => Plan { update: None, enqueue: None, result: Ok(()) },
        _ => {
            let mut metadata = job.metadata.clone();
            metadata.insert(String::from_str(JOB_LAST_STATUS_METADATA_KEY), job.status.to_string());
            Plan {
                update: Some(
                    JobUpdate {
                        status: Some(JobStatus::Failed),
                        external_id: None,
                        metadata: Some(metadata),
                    },
                ),
                enqueue: None,
                result: Ok(()),
            }
        },
    }
}

/// Carries a plan for `job` out: the update, made for the version of `job`,
/// then the message.
pub fn execute(ctx: &mut Context, job: &JobItem, plan: Plan) -> (r: Result<(), JobError>)
    requires
        old(ctx).wf(),
    ensures
        final(ctx).wf(),
        (final(ctx)@, result_view(r)) == executed(old(ctx)@, job@, plan@),
{
    let Plan { update, enqueue, result } = plan;
    match update {
        None => result,
        Some(update) => {
            match ctx.store.update(job, update) {
                Err(e) => Err(e),
                Ok(()) => {
                    match enqueue {
                        Some(request) => {
                            ctx.queue.enqueue(
                                request.queue,
                                JobQueueMessage { id: job.id },
                                Some(request.delay),
                            );
                        },
                        None => {},
                    }
                    result
                },
            }
        },
    }
}

/// Makes the record to store for a new job out of the one that the handler
/// built: see `initial_record`.
pub fn initial_job_record(built: JobItem, job_type: JobType, internal_id: String) -> (record:
    JobItem)
    ensures
        record@ == initial_record(built@, job_type, internal_id@),
{
    proof {
        reveal_strlit("0");
        assert("0"@ =~= seq!['0']);
    }
    let mut metadata = built.metadata;
    metadata.insert(String::from_str(JOB_PROCESS_ATTEMPT_METADATA_KEY), String::from_str("0"));
    metadata.insert(String::from_str(JOB_VERIFICATION_ATTEMPT_METADATA_KEY), String::from_str("0"));
    JobItem {
        id: built.id,
        internal_id,
        job_type,
        status: JobStatus::Created,
        external_id: built.external_id,
        metadata,
        version: 0,
    }
}

/// Admits the record that a handler built for a new job: see
/// `initial_record` and `admitted`.
pub fn admit_job(ctx: &mut Context, job_type: JobType, internal_id: String, built: JobItem) -> (r:
    Result<(), JobError>)
    requires
        old(ctx).wf(),
    ensures
        final(ctx).wf(),
        (final(ctx)@, result_view(r)) == admitted(
            old(ctx)@,
            initial_record(built@, job_type, internal_id@),
        ),
{
    let record = initial_job_record(built, job_type, internal_id);
    let id = record.id;
    match ctx.store.create_job(record) {
        Err(e) => Err(e),
        Ok(_) => {
            ctx.queue.enqueue(QueueName::Processing, JobQueueMessage { id }, None);
            Ok(())
        },
    }
}

/// Creates a job of `job_type` for `internal_id`: refuses a duplicate, has
/// the handler of the type build the record, stores it as `Created` with
/// version 0 and both attempt counters at "0", and sends a processing
/// message that is due at once.
pub fn create_job<H: Job>(
    ctx: &mut Context,
    registry: &HandlerRegistry<H>,
    job_type: JobType,
    internal_id: String,
    metadata: Metadata,
) -> (r: Result<(), JobError>)
    requires
        old(ctx).wf(),
    ensures
        final(ctx).wf(),
        creates(
            old(ctx)@,
            *registry,
            job_type,
            internal_id@,
            metadata@,
            final(ctx)@,
            result_view(r),
        ),
{
    let ghost start = ctx@;
    let ghost key = internal_id@;
    let existing = ctx.store.get_job_by_internal_id_and_type(internal_id.as_str(), &job_type);
    let handler = registry.get_job_handler(&job_type);
    if existing.is_some() {
        let ghost answer: Option<Result<JobItemView, Seq<char>>> = if handler.is_some() {
            Some(Err(Seq::empty()))
        } else {
            None
        };
        assert((ctx@, result_view(Err::<(), JobError>(JobError::Duplicate))) == create_step(
            start,
            job_type,
            key,
            answer,
        ));
        return Err(JobError::Duplicate);
    }
    let handler = match handler {
        Some(h) => h,
        None => {
            assert((
                ctx@,
                result_view(Err::<(), JobError>(JobError::HandlerNotFound(job_type))),
            ) == create_step(start, job_type, key, None));
            return Err(JobError::HandlerNotFound(job_type));
        },
    };
    let copy = internal_id.clone();
    let built = handler.create_job(copy, metadata);
    let ghost answer = Some(built_result(built));
    match built {
        Err(reason) => {
            assert((ctx@, result_view(Err::<(), JobError>(JobError::HandlerError(reason))))
                == create_step(start, job_type, key, answer));
            Err(JobError::HandlerError(reason))
        },
        Ok(job) => {
            let r = admit_job(ctx, job_type, internal_id, job);
            assert((ctx@, result_view(r)) == create_step(start, job_type, key, answer));
            r
        },
    }
}

/// Takes `job` for processing, if it may be processed and nobody updated it
/// since it was read, and returns the record as it is stored then.
pub fn lock_for_processing(ctx: &mut Context, job: &JobItem) -> (r: Result<JobItem, JobError>)
    requires
        old(ctx).wf(),
    ensures
        final(ctx).wf(),
        match r {
            Ok(locked) => {
                &&& executed(old(ctx)@, job@, lock_plan(job@)) == (final(ctx)@, Ok::<
                    (),
                    JobErrorView,
                >(()))
                &&& by_id(final(ctx)@.store, job.id) == Some(locked@)
            },
            Err(e) => executed(old(ctx)@, job@, lock_plan(job@)) == (final(ctx)@, Err::<
                (),
                JobErrorView,
            >(e@)),
        },
{
    let plan = plan_lock(job);
    let ghost patch = plan@.update;
    match execute(ctx, job, plan) {
        Err(e) => Err(e),
        Ok(()) => {
            proof {
                lemma_update_keeps_unique(old(ctx)@.store, job.id, job.version, patch->0);
            }
            match ctx.store.get_job_by_id(job.id) {
                Some(locked) => Ok(locked),
                None => {
                    assert(false);
                    Err(JobError::NotFound)
                },
            }
        },
    }
}

/// Stores what the handler answered to the processing of the locked `job`:
/// see `finish_plan`.
pub fn finish_processing(
    ctx: &mut Context,
    job: &JobItem,
    outcome: Result<String, String>,
    delay: u64,
) -> (r: Result<(), JobError>)
    requires
        old(ctx).wf(),
    ensures
        final(ctx).wf(),
        (final(ctx)@, result_view(r)) == executed(
            old(ctx)@,
            job@,
            finish_plan(job@, text_result(outcome), delay),
        ),
{
    let plan = plan_finish(job, outcome, delay);
    execute(ctx, job, plan)
}

/// Stores what a verification outcome makes of `job`: see
/// `verification_plan`.
pub fn apply_verification(
    ctx: &mut Context,
    job: &JobItem,
    status: &JobVerificationStatus,
    max_process_attempts: u64,
    max_verification_attempts: u64,
    delay: u64,
) -> (r: Result<(), JobError>)
    requires
        old(ctx).wf(),
    ensures
        final(ctx).wf(),
        (final(ctx)@, result_view(r)) == executed(
            old(ctx)@,
            job@,
            verification_plan(
                job@,
                status.kind(),
                max_process_attempts,
                max_verification_attempts,
                delay,
            ),
        ),
{
    let plan = plan_verification(
        job,
        status.get_kind(),
        max_process_attempts,
        max_verification_attempts,
        delay,
    );
    execute(ctx, job, plan)
}

/// Processes the job `id`: takes it, has the handler of its type perform
/// the outside work, and stores what the handler answered.
///
/// `NotFound` without such a job; `InvalidState`, with nothing changed,
/// unless the job is `Created` or `VerificationFailed`. With a handle from
/// the handler the job is `PendingVerification` afterwards, has the handle
/// and one processing attempt more, and a verification message waits with
/// the handler's polling delay.
pub fn process_job<H: Job>(ctx: &mut Context, registry: &HandlerRegistry<H>, id: u128) -> (r:
    Result<(), JobError>)
    requires
        old(ctx).wf(),
    ensures
        final(ctx).wf(),
        processes(old(ctx)@, *registry, id, final(ctx)@, result_view(r)),
{
    let ghost start = ctx@;
    let job = match ctx.store.get_job_by_id(id) {
        Some(j) => j,
        None => {
            assert((ctx@, result_view(Err::<(), JobError>(JobError::NotFound))) == process_step(
                start,
                id,
                None,
            ));
            return Err(JobError::NotFound);
        },
    };
    let handler = registry.get_job_handler(&job.job_type);
    let locked = match lock_for_processing(ctx, &job) {
        Ok(locked) => locked,
        Err(e) => {
            let ghost answer: Option<(Result<Seq<char>, Seq<char>>, u64)> = if handler.is_some() {
                Some((Err(Seq::empty()), 0u64))
            } else {
                None
            };
            assert((ctx@, result_view(Err::<(), JobError>(e))) == process_step(start, id, answer));
            return Err(e);
        },
    };
    let handler = match handler {
        Some(h) => h,
        None => {
            assert((
                ctx@,
                result_view(Err::<(), JobError>(JobError::HandlerNotFound(job.job_type))),
            ) == process_step(start, id, None));
            return Err(JobError::HandlerNotFound(job.job_type));
        },
    };
    let outcome = handler.process_job(&locked);
    let delay = handler.verification_polling_delay_seconds();
    let ghost answer = Some((text_result(outcome), delay));
    let r = finish_processing(ctx, &locked, outcome, delay);
    assert((ctx@, result_view(r)) == process_step(start, id, answer));
    r
}

/// Verifies the job `id`: asks the handler of its type what became of the
/// work and stores what follows from the answer.
///
/// `NotFound` without such a job; `InvalidState`, with nothing changed,
/// unless the job is `PendingVerification`. See `verification_plan` for
/// what each answer leads to.
pub fn verify_job<H: Job>(ctx: &mut Context, registry: &HandlerRegistry<H>, id: u128) -> (r: Result<
    (),
    JobError,
>)
    requires
        old(ctx).wf(),
    ensures
        final(ctx).wf(),
        verifies(old(ctx)@, *registry, id, final(ctx)@, result_view(r)),
{
    let ghost start = ctx@;
    let job = match ctx.store.get_job_by_id(id) {
        Some(j) => j,
        None => {
            assert((ctx@, result_view(Err::<(), JobError>(JobError::NotFound))) == verify_step(
                start,
                id,
                None,
            ));
            return Err(JobError::NotFound);
        },
    };
    let handler = registry.get_job_handler(&job.job_type);
    if job.status != JobStatus::PendingVerification {
        let ghost answer: Option<VerificationAnswer> = if handler.is_some() {
            Some(
                VerificationAnswer {
                    outcome: Err(Seq::empty()),
                    max_process_attempts: 0,
                    max_verification_attempts: 0,
                    delay: 0,
                },
            )
        } else {
            None
        };
        assert((ctx@, result_view(Err::<(), JobError>(JobError::InvalidState(job.status))))
            == verify_step(start, id, answer));
        return Err(JobError::InvalidState(job.status));
    }
    let handler = match handler {
        Some(h) => h,
        None => {
            assert((
                ctx@,
                result_view(Err::<(), JobError>(JobError::HandlerNotFound(job.job_type))),
            ) == verify_step(start, id, None));
            return Err(JobError::HandlerNotFound(job.job_type));
        },
    };
    let outcome = handler.verify_job(&job);
    let max_process_attempts = handler.max_process_attempts();
    let max_verification_attempts = handler.max_verification_attempts();
    let delay = handler.verification_polling_delay_seconds();
    let ghost answer = Some(
        VerificationAnswer {
            outcome: kind_result(outcome),
            max_process_attempts,
            max_verification_attempts,
            delay,
        },
    );
    match outcome {
        Err(reason) => {
            assert((ctx@, result_view(Err::<(), JobError>(JobError::HandlerError(reason))))
                == verify_step(start, id, answer));
            Err(JobError::HandlerError(reason))
        },
        Ok(status) => {
            let r = apply_verification(
                ctx,
                &job,
                &status,
                max_process_attempts,
                max_verification_attempts,
                delay,
            );
            assert((ctx@, result_view(r)) == verify_step(start, id, answer));
            r
        },
    }
}

/// Fails the job `id` after its message was given up. A completed job
/// cannot fail: that is an error, and the job stays as it is. A job that has
/// failed already stays as it is. Any other job becomes `Failed` and keeps
/// the name of the status it had under `last_job_status`.
pub fn handle_job_failure(ctx: &mut Context, id: u128) -> (r: Result<(), JobError>)
    requires
        old(ctx).wf(),
    ensures
        final(ctx).wf(),
        (final(ctx)@, result_view(r)) == fail_step(old(ctx)@, id),
{
    let job = match ctx.store.get_job_by_id(id) {
        Some(j) => j,
        None => {
            return Err(JobError::NotFound);
        },
    };
    let plan = plan_failure(&job);
    execute(ctx, &job, plan)
}

} // verus!
