//! The discovery workers: on every tick each of them looks through the
//! store for work whose successor is missing and creates it.
//!
//! A worker only ever adds jobs. While any job is in `VerificationFailed`,
//! no worker adds anything.

use crate::decimal::{decimal_text, format_u64, parse_u64};
use crate::errors::{result_view, JobError, JobErrorView};
use crate::handler::{HandlerRegistry, Job};
use crate::lifecycle::{create_job, create_step, creates, Context, ContextView};
use crate::metadata::Metadata;
use crate::queue::{JobQueueMessage, QueueName, QueuedMessage};
use crate::store::{
    ascending,
    has_key,
    is_after,
    is_latest,
    lacks_successor,
    lemma_ascending_has_all,
    of_kind,
    rank,
    views,
};
use crate::types::{JobItem, JobItemView, JobStatus, JobType};
use vstd::prelude::*;
use vstd::string::*;

verus! {

/// From `before` to `after` jobs were created and nothing else happened:
/// every record of before is stored unchanged, every new record is `Created`
/// with version 0, and for each new record, in order, one processing message
/// that is due at once was sent.
pub open spec fn appended(before: ContextView, after: ContextView) -> bool {
    let jobs = before.store.len() as int;
    let messages = before.queue.pending.len() as int;
    &&& jobs <= after.store.len()
    &&& forall|i: int| 0 <= i < jobs ==> (#[trigger] after.store[i]) == before.store[i]
    &&& forall|i: int|
        jobs <= i < after.store.len() ==> (#[trigger] after.store[i]).status == JobStatus::Created
            && after.store[i].version == 0
    &&& after.queue.now == before.queue.now
    &&& after.queue.dead == before.queue.dead
    &&& after.queue.pending.len() - messages == after.store.len() - jobs
    &&& forall|i: int| 0 <= i < messages ==> (#[trigger] after.queue.pending[i]) == before.queue.pending[i]
    &&& forall|i: int|
        messages <= i < after.queue.pending.len() ==> (#[trigger] after.queue.pending[i]) == (
        QueuedMessage {
            queue: QueueName::Processing,
            payload: JobQueueMessage { id: after.store[i - messages + jobs].id },
            ready_at: before.queue.now,
            deliveries: 0,
        })
}

/// Every record that `after` has and `before` had not is of type `job_type`.
pub open spec fn new_jobs_of_type(before: ContextView, after: ContextView, job_type: JobType) -> bool {
    forall|i: int|
        before.store.len() <= i < after.store.len() ==> (#[trigger] after.store[i]).job_type
            == job_type
}

/// No job is in `VerificationFailed`: the workers may create jobs.
pub open spec fn enabled(store: Seq<JobItemView>) -> bool {
    forall|i: int| 0 <= i < store.len() ==> (#[trigger] store[i]).status != JobStatus::VerificationFailed
}

/// Every record of the type ranks below `b`.
pub open spec fn ranks_below(store: Seq<JobItemView>, job_type: JobType, b: int) -> bool {
    forall|i: int|
        0 <= i < store.len() && (#[trigger] store[i]).job_type == job_type ==> rank(
            store[i].internal_id,
        ) < b
}

/// What was stored stays findable by type and internal id when jobs are
/// added.
pub proof fn lemma_appended_keeps_keys(before: ContextView, after: ContextView)
    requires
        appended(before, after),
    ensures
        forall|t: JobType, n: Seq<char>|
            has_key(before.store, t, n) ==> #[trigger] has_key(after.store, t, n),
{
    assert forall|t: JobType, n: Seq<char>| has_key(before.store, t, n) implies #[trigger] has_key(
        after.store,
        t,
        n,
    ) by {
        let i = crate::store::place_of_key(before.store, t, n);
        assert(after.store[i] == before.store[i]);
    }
}

/// Adding jobs twice is adding jobs.
pub proof fn lemma_appended_twice(a: ContextView, b: ContextView, c: ContextView)
    requires
        appended(a, b),
        appended(b, c),
    ensures
        appended(a, c),
{
    let jobs = a.store.len() as int;
    let messages = a.queue.pending.len() as int;
    assert forall|i: int| 0 <= i < jobs implies (#[trigger] c.store[i]) == a.store[i] by {
        assert(b.store[i] == a.store[i]);
    }
    assert forall|i: int| jobs <= i < c.store.len() implies (#[trigger] c.store[i]).status
        == JobStatus::Created && c.store[i].version == 0 by {
        if i < b.store.len() {
            assert(c.store[i] == b.store[i]);
        }
    }
    assert forall|i: int| 0 <= i < messages implies (#[trigger] c.queue.pending[i])
        == a.queue.pending[i] by {
        assert(b.queue.pending[i] == a.queue.pending[i]);
    }
    assert forall|i: int| messages <= i < c.queue.pending.len() implies (
    #[trigger] c.queue.pending[i]) == (QueuedMessage {
        queue: QueueName::Processing,
        payload: JobQueueMessage { id: c.store[i - messages + jobs].id },
        ready_at: a.queue.now,
        deliveries: 0,
    }) by {
        if i < b.queue.pending.len() {
            assert(c.queue.pending[i] == b.queue.pending[i]);
            assert(c.store[i - messages + jobs] == b.store[i - messages + jobs]);
        }
    }
}

/// `create_job` adds the job it is asked for or changes nothing, and after
/// it returned `Ok` the job is stored.
pub proof fn lemma_create_appends(
    ctx: ContextView,
    job_type: JobType,
    internal_id: Seq<char>,
    answer: Option<Result<JobItemView, Seq<char>>>,
)
    ensures
        appended(ctx, create_step(ctx, job_type, internal_id, answer).0),
        new_jobs_of_type(ctx, create_step(ctx, job_type, internal_id, answer).0, job_type),
        create_step(ctx, job_type, internal_id, answer).1 is Ok ==> has_key(
            create_step(ctx, job_type, internal_id, answer).0.store,
            job_type,
            internal_id,
        ),
        create_step(ctx, job_type, internal_id, answer).1 is Err ==> create_step(
            ctx,
            job_type,
            internal_id,
            answer,
        ).0 == ctx,
{
    let (after, r) = create_step(ctx, job_type, internal_id, answer);
    if r is Ok {
        let n = ctx.store.len() as int;
        assert(after.store[n].job_type == job_type && after.store[n].internal_id == internal_id);
    }
}

/// The filter of a sequence is empty just where nothing passes it.
pub proof fn lemma_filter_empty<A>(s: Seq<A>, pred: spec_fn(A) -> bool)
    ensures
        s.filter(pred).len() == 0 <==> forall|i: int| 0 <= i < s.len() ==> !pred(#[trigger] s[i]),
{
    if s.filter(pred).len() == 0 {
        assert forall|i: int| 0 <= i < s.len() implies !pred(#[trigger] s[i]) by {
            if pred(s[i]) {
                s.lemma_filter_contains(pred, i);
            }
        }
    } else {
        s.lemma_filter_pred(pred, 0);
        s.lemma_filter_contains_rev(pred, s.filter(pred)[0]);
    }
}

/// The store has a latest record of the kind.
#[verifier::opaque]
pub open spec fn has_latest(
    store: Seq<JobItemView>,
    job_type: JobType,
    status: Option<JobStatus>,
) -> bool {
    exists|l: int| is_latest(store, l, job_type, status)
}

/// A store with a latest record of the kind has one, and every place that
/// is the latest shows that it has.
pub proof fn lemma_has_latest(
    store: Seq<JobItemView>,
    job_type: JobType,
    status: Option<JobStatus>,
    l: int,
)
    ensures
        is_latest(store, l, job_type, status) ==> has_latest(store, job_type, status),
        has_latest(store, job_type, status) ==> latest_of(store, job_type, status) is Some
            && is_latest(store, latest_of(store, job_type, status)->0, job_type, status),
        !has_latest(store, job_type, status) ==> latest_of(store, job_type, status) is None,
{
    reveal(has_latest);
}

/// The place of the latest record of the kind, where the store has one.
pub open spec fn latest_of(
    store: Seq<JobItemView>,
    job_type: JobType,
    status: Option<JobStatus>,
) -> Option<int> {
    if has_latest(store, job_type, status) {
        Some(choose|l: int| is_latest(store, l, job_type, status))
    } else {
        None
    }
}

/// What a worker finds to do when it looks through the store.
pub enum Discovery {
    /// Nothing is to be done.
    Nothing,
    /// The store is in no state to work on, for this reason.
    Refused(JobErrorView),
    /// The successors of these candidates are to be created: see
    /// `successors_created`.
    Successors { candidates: Seq<JobItemView>, only_status: Option<JobStatus>, job_type: JobType },
    /// The SNOS runs of the blocks after `done` up to `latest` are to be
    /// created: see `runs_created`.
    Runs { done: u64, latest: u64 },
}

/// `after` and `result` are what becomes of `before` when what was found is
/// carried out with the handlers of `registry`.
pub open spec fn discovered<H: Job>(
    found: Discovery,
    before: ContextView,
    registry: HandlerRegistry<H>,
    after: ContextView,
    result: Result<(), JobErrorView>,
) -> bool {
    match found {
        Discovery::Nothing => after == before && result == Ok::<(), JobErrorView>(()),
        Discovery::Refused(e) => after == before && result == Err::<(), JobErrorView>(e),
        Discovery::Successors { candidates, only_status, job_type } => successors_created(
            before,
            registry,
            candidates,
            only_status,
            job_type,
            after,
            result,
        ),
        Discovery::Runs { done, latest } => runs_created(
            before,
            registry,
            done,
            latest,
            after,
            result,
        ),
    }
}

/// A periodic scanner that creates the jobs it finds missing.
pub trait Worker {
    /// What the worker finds to do in `store`.
    spec fn discovers(&self, store: Seq<JobItemView>) -> Discovery;

    /// Looks through the store and carries out what it found there.
    /// Whatever it returns, it has only added jobs.
    fn run_worker<H: Job>(&self, ctx: &mut Context, registry: &HandlerRegistry<H>) -> (r: Result<
        (),
        JobError,
    >)
        requires
            old(ctx).wf(),
        ensures
            final(ctx).wf(),
            appended(old(ctx)@, final(ctx)@),
            discovered(
                self.discovers(old(ctx)@.store),
                old(ctx)@,
                *registry,
                final(ctx)@,
                result_view(r),
            ),
    ;

    /// Whether the worker may run: not while any job is in
    /// `VerificationFailed`.
    fn is_worker_enabled(&self, ctx: &Context) -> (r: bool)
        ensures
            r == enabled(ctx@.store),
    {
        let mut failed: Vec<JobStatus> = Vec::new();
        failed.push(JobStatus::VerificationFailed);
        let found = ctx.store.get_jobs_by_statuses(failed, Some(1));
        proof {
            let pred = |j: JobItemView| failed@.contains(j.status);
            lemma_filter_empty(ctx@.store, pred);
            assert(failed@[0] == JobStatus::VerificationFailed);
            assert(views(found@).len() == found@.len());
            assert forall|i: int| 0 <= i < ctx@.store.len() implies (pred(
                #[trigger] ctx@.store[i],
            ) <==> ctx@.store[i].status == JobStatus::VerificationFailed) by {}
        }
        found.len() == 0
    }

    /// Runs the worker unless some job is in `VerificationFailed`: while
    /// one is, nothing is done and `Ok` returned; otherwise the worker looks
    /// through the store and carries out what it found there.
    fn run_worker_if_enabled<H: Job>(
        &self,
        ctx: &mut Context,
        registry: &HandlerRegistry<H>,
    ) -> (r: Result<(), JobError>)
        requires
            old(ctx).wf(),
        ensures
            final(ctx).wf(),
            appended(old(ctx)@, final(ctx)@),
            !enabled(old(ctx)@.store) ==> final(ctx)@ == old(ctx)@ && r is Ok,
            enabled(old(ctx)@.store) ==> discovered(
                self.discovers(old(ctx)@.store),
                old(ctx)@,
                *registry,
                final(ctx)@,
                result_view(r),
            ),
    {
        if !self.is_worker_enabled(ctx) {
            return Ok(());
        }
        self.run_worker(ctx, registry)
    }
}

/// Every one of `candidates`, or where `only_status` is given every one in
/// that status, has a job of type `job_type` with its internal id in `store`.
pub open spec fn all_have_successors(
    store: Seq<JobItemView>,
    candidates: Seq<JobItem>,
    only_status: Option<JobStatus>,
    job_type: JobType,
) -> bool {
    forall|k: int|
        0 <= k < candidates.len() && (only_status matches Some(s) ==> (
        #[trigger] candidates[k]).status == s) ==> has_key(
            store,
            job_type,
            candidates[k].internal_id@,
        )
}

/// The candidate calls for a job of type `job_type`: it is in the status
/// asked for, if one is, and `store` has no such job with its internal id.
pub open spec fn wants_successor(
    store: Seq<JobItemView>,
    candidate: JobItemView,
    only_status: Option<JobStatus>,
    job_type: JobType,
) -> bool {
    (only_status matches Some(s) ==> candidate.status == s) && !has_key(
        store,
        job_type,
        candidate.internal_id,
    )
}

/// `after` and `result` are what becomes of `before` when the successors of
/// `candidates` are created one after the other: for each candidate that
/// calls for one, `create_job` is called with the candidate's internal id and
/// metadata; the first call that fails ends the work and gives the result.
pub open spec fn successors_created<H: Job>(
    before: ContextView,
    registry: HandlerRegistry<H>,
    candidates: Seq<JobItemView>,
    only_status: Option<JobStatus>,
    job_type: JobType,
    after: ContextView,
    result: Result<(), JobErrorView>,
) -> bool
    decreases candidates.len(),
{
    if candidates.len() == 0 {
        after == before && result == Ok::<(), JobErrorView>(())
    } else if !wants_successor(before.store, candidates[0], only_status, job_type) {
        successors_created(
            before,
            registry,
            candidates.drop_first(),
            only_status,
            job_type,
            after,
            result,
        )
    } else {
        exists|mid: ContextView, first: Result<(), JobErrorView>|
            {
                &&& #[trigger] creates(
                    before,
                    registry,
                    job_type,
                    candidates[0].internal_id,
                    candidates[0].metadata,
                    mid,
                    first,
                )
                &&& if first is Err {
                    after == mid && result == first
                } else {
                    successors_created(
                        mid,
                        registry,
                        candidates.drop_first(),
                        only_status,
                        job_type,
                        after,
                        result,
                    )
                }
            }
    }
}

/// For each of `candidates`, and if `only_status` is given for each in that
/// status, creates the job of type `job_type` with the candidate's internal
/// id and metadata, unless one is stored; stops at the first job that cannot
/// be created. Where nothing is missing nothing is done.
pub fn create_successors<H: Job>(
    ctx: &mut Context,
    registry: &HandlerRegistry<H>,
    candidates: &Vec<JobItem>,
    only_status: Option<JobStatus>,
    job_type: JobType,
) -> (r: Result<(), JobError>)
    requires
        old(ctx).wf(),
    ensures
        final(ctx).wf(),
        successors_created(
            old(ctx)@,
            *registry,
            views(candidates@),
            only_status,
            job_type,
            final(ctx)@,
            result_view(r),
        ),
        appended(old(ctx)@, final(ctx)@),
        new_jobs_of_type(old(ctx)@, final(ctx)@, job_type),
        r is Ok ==> all_have_successors(final(ctx)@.store, candidates@, only_status, job_type),
        all_have_successors(old(ctx)@.store, candidates@, only_status, job_type) ==> r is Ok
            && final(ctx)@ == old(ctx)@,
{
    let mut i: usize = 0;
    let ghost all = views(candidates@);
    assert(all.skip(0) =~= all);
    while i < candidates.len()
        invariant
            i <= candidates@.len(),
            ctx.wf(),
            all == views(candidates@),
            forall|a: ContextView, r: Result<(), JobErrorView>| #[trigger]
                successors_created(ctx@, *registry, all.skip(i as int), only_status, job_type, a, r)
                    ==> successors_created(
                    old(ctx)@,
                    *registry,
                    all,
                    only_status,
                    job_type,
                    a,
                    r,
                ),
            appended(old(ctx)@, ctx@),
            new_jobs_of_type(old(ctx)@, ctx@, job_type),
            forall|k: int|
                0 <= k < i && (only_status matches Some(s) ==> (#[trigger] candidates@[k]).status
                    == s) ==> has_key(ctx@.store, job_type, candidates@[k].internal_id@),
            all_have_successors(old(ctx)@.store, candidates@, only_status, job_type) ==> ctx@ == old(
                ctx,
            )@,
        decreases candidates@.len() - i,
    {
        let candidate = &candidates[i];
        let wanted = match only_status {
            Some(s) => candidate.status == s,
            None => true,
        };
        let ghost here = ctx@;
        let ghost rest = all.skip(i as int);
        proof {
            assert(rest[0] == candidate@);
            assert(rest.drop_first() =~= all.skip(i + 1));
        }
        if wanted {
            let existing = ctx.store.get_job_by_internal_id_and_type(
                candidate.internal_id.as_str(),
                &job_type,
            );
            if existing.is_none() {
                let ghost before = ctx@;
                assert(!all_have_successors(old(ctx)@.store, candidates@, only_status, job_type))
                    by {
                    if before == old(ctx)@ {
                        assert(!has_key(before.store, job_type, candidates@[i as int].internal_id@));
                    }
                }
                let r = create_job(
                    ctx,
                    registry,
                    job_type,
                    candidate.internal_id.clone(),
                    candidate.metadata.clone(),
                );
                proof {
                    let answer = choose|answer: Option<Result<JobItemView, Seq<char>>>|
                        (ctx@, result_view(r)) == #[trigger] create_step(
                            before,
                            job_type,
                            candidate.internal_id@,
                            answer,
                        );
                    lemma_create_appends(before, job_type, candidate.internal_id@, answer);
                    lemma_appended_twice(old(ctx)@, before, ctx@);
                    lemma_appended_keeps_keys(before, ctx@);
                }
                assert(wants_successor(here.store, rest[0], only_status, job_type));
                assert(creates(
                    here,
                    *registry,
                    job_type,
                    rest[0].internal_id,
                    rest[0].metadata,
                    ctx@,
                    result_view(r),
                ));
                match r {
                    Err(e) => {
                        assert(successors_created(
                            here,
                            *registry,
                            rest,
                            only_status,
                            job_type,
                            ctx@,
                            result_view(r),
                        ));
                        return Err(e);
                    },
                    Ok(()) => {},
                }
            } else {
                assert(!wants_successor(here.store, rest[0], only_status, job_type));
            }
        } else {
            assert(!wants_successor(here.store, rest[0], only_status, job_type));
        }
        assert forall|a: ContextView, r2: Result<(), JobErrorView>| #[trigger]
            successors_created(
                ctx@,
                *registry,
                all.skip(i + 1),
                only_status,
                job_type,
                a,
                r2,
            ) implies successors_created(here, *registry, rest, only_status, job_type, a, r2) by {
            if wants_successor(here.store, rest[0], only_status, job_type) {
                assert(creates(
                    here,
                    *registry,
                    job_type,
                    rest[0].internal_id,
                    rest[0].metadata,
                    ctx@,
                    Ok::<(), JobErrorView>(()),
                ));
            }
        }
        i = i + 1;
    }
    assert(successors_created(
        ctx@,
        *registry,
        all.skip(i as int),
        only_status,
        job_type,
        ctx@,
        Ok::<(), JobErrorView>(()),
    ));
    Ok(())
}

/// `after` and `result` are what becomes of `before` when the SNOS runs of
/// the blocks after `done` up to `latest` are created one after the other,
/// each with its number in decimal as internal id and with empty metadata;
/// the first call of `create_job` that fails ends the work and gives the
/// result.
pub open spec fn runs_created<H: Job>(
    before: ContextView,
    registry: HandlerRegistry<H>,
    done: u64,
    latest: u64,
    after: ContextView,
    result: Result<(), JobErrorView>,
) -> bool
    decreases latest - done,
{
    if done >= latest {
        after == before && result == Ok::<(), JobErrorView>(())
    } else {
        exists|mid: ContextView, first: Result<(), JobErrorView>|
            {
                &&& #[trigger] creates(
                    before,
                    registry,
                    JobType::SnosRun,
                    decimal_text((done + 1) as nat),
                    Map::<Seq<char>, Seq<char>>::empty(),
                    mid,
                    first,
                )
                &&& if first is Err {
                    after == mid && result == first
                } else {
                    runs_created(mid, registry, (done + 1) as u64, latest, after, result)
                }
            }
    }
}

/// Creates the SNOS run of every block up to the latest one that the chain
/// reported, from the block after the highest one that has a run.
pub struct SnosWorker {
    /// The number of the latest block, as the chain reported it.
    pub latest_block_number: u64,
}

impl SnosWorker {
    /// Creates the runs that the worker finds missing.
    fn create_runs<H: Job>(&self, ctx: &mut Context, registry: &HandlerRegistry<H>) -> (r: Result<
        (),
        JobError,
    >)
        requires
            old(ctx).wf(),
        ensures
            final(ctx).wf(),
            appended(old(ctx)@, final(ctx)@),
            has_latest(old(ctx)@.store, JobType::SnosRun, None) || ranks_below(
                old(ctx)@.store,
                JobType::SnosRun,
                -1,
            ),
            new_jobs_of_type(old(ctx)@, final(ctx)@, JobType::SnosRun),
            ranks_below(old(ctx)@.store, JobType::SnosRun, -1) ==> runs_created(
                old(ctx)@,
                *registry,
                0,
                self.latest_block_number,
                final(ctx)@,
                result_view(r),
            ),
            forall|l: int|
                is_latest(old(ctx)@.store, l, JobType::SnosRun, None) && rank(
                    (#[trigger] old(ctx)@.store[l]).internal_id,
                ) >= 0 ==> runs_created(
                    old(ctx)@,
                    *registry,
                    rank(old(ctx)@.store[l].internal_id) as u64,
                    self.latest_block_number,
                    final(ctx)@,
                    result_view(r),
                ),
            (exists|l: int|
                is_latest(old(ctx)@.store, l, JobType::SnosRun, None) && rank(
                    (#[trigger] old(ctx)@.store[l]).internal_id,
                ) == -1) ==> final(ctx)@ == old(ctx)@ && result_view(r) == Err::<(), JobErrorView>(
                JobErrorView::InternalIdNotANumber,
            ),
            (exists|i: int|
                0 <= i < old(ctx)@.store.len() && (#[trigger] old(ctx)@.store[i]).job_type
                    == JobType::SnosRun && rank(old(ctx)@.store[i].internal_id)
                    >= self.latest_block_number) ==> final(ctx)@ == old(ctx)@ && r is Ok,
            self.latest_block_number == 0 && ranks_below(old(ctx)@.store, JobType::SnosRun, -1)
                ==> final(ctx)@ == old(ctx)@ && r is Ok,
            r is Ok ==> forall|b: u64|
                1 <= b <= self.latest_block_number && ranks_below(
                    old(ctx)@.store,
                    JobType::SnosRun,
                    b as int,
                ) ==> #[trigger] has_key(
                    final(ctx)@.store,
                    JobType::SnosRun,
                    decimal_text(b as nat),
                ),
    {
        let ghost start = ctx@;
        let latest = ctx.store.get_latest_job_by_type(JobType::SnosRun);
        assert(has_latest(start.store, JobType::SnosRun, None) || ranks_below(
            start.store,
            JobType::SnosRun,
            -1,
        )) by {
            if latest is Some {
                let m = choose|m: int|
                    is_latest(start.store, m, JobType::SnosRun, None) && latest->0@
                        == #[trigger] start.store[m];
                lemma_has_latest(start.store, JobType::SnosRun, None, m);
            }
        }
        let processed: u64 = match latest {
            None => 0,
            Some(job) => match parse_u64(job.internal_id.as_str()) {
                Some(n) => n,
                None => {
                    return Err(JobError::InternalIdNotANumber);
                },
            },
        };
        assert forall|b: u64| #[trigger]
            ranks_below(start.store, JobType::SnosRun, b as int) && 1 <= b implies b
            > processed by {
            if latest is Some {
                let l = choose|l: int|
                    is_latest(start.store, l, JobType::SnosRun, None) && latest->0@
                        == #[trigger] start.store[l];
                assert(start.store[l].job_type == JobType::SnosRun);
            }
        }
        assert forall|l: int|
            is_latest(start.store, l, JobType::SnosRun, None) implies rank(
            (#[trigger] start.store[l]).internal_id,
        ) != -1 by {
            if latest is Some {
                let m = choose|m: int|
                    is_latest(start.store, m, JobType::SnosRun, None) && latest->0@
                        == #[trigger] start.store[m];
                assert(of_kind(start.store[l], JobType::SnosRun, None));
                assert(of_kind(start.store[m], JobType::SnosRun, None));
            } else {
                assert(start.store[l].job_type == JobType::SnosRun);
            }
        }
        assert(ranks_below(start.store, JobType::SnosRun, processed + 1)) by {
            if latest is Some {
                let l = choose|l: int|
                    is_latest(start.store, l, JobType::SnosRun, None) && latest->0@
                        == #[trigger] start.store[l];
                assert forall|i: int|
                    0 <= i < start.store.len() && (#[trigger] start.store[i]).job_type
                        == JobType::SnosRun implies rank(start.store[i].internal_id) < processed
                    + 1 by {
                    assert(of_kind(start.store[i], JobType::SnosRun, None));
                }
            }
        }
        assert forall|l: int|
            is_latest(start.store, l, JobType::SnosRun, None) implies rank(
            (#[trigger] start.store[l]).internal_id,
        ) == processed by {
            if latest is Some {
                let m = choose|m: int|
                    is_latest(start.store, m, JobType::SnosRun, None) && latest->0@
                        == #[trigger] start.store[m];
                assert(of_kind(start.store[l], JobType::SnosRun, None));
                assert(of_kind(start.store[m], JobType::SnosRun, None));
            } else {
                assert(start.store[l].job_type == JobType::SnosRun);
            }
        }
        assert(ranks_below(start.store, JobType::SnosRun, -1) ==> processed == 0) by {
            if latest is Some {
                let m = choose|m: int|
                    is_latest(start.store, m, JobType::SnosRun, None) && latest->0@
                        == #[trigger] start.store[m];
                assert(start.store[m].job_type == JobType::SnosRun);
            }
        }
        if processed >= self.latest_block_number {
            assert(runs_created(
                start,
                *registry,
                processed,
                self.latest_block_number,
                start,
                Ok::<(), JobErrorView>(()),
            ));
            return Ok(());
        }
        let mut block: u64 = processed;
        while block < self.latest_block_number
            invariant
                processed <= block <= self.latest_block_number,
                ctx.wf(),
                start == old(ctx)@,
                has_latest(start.store, JobType::SnosRun, None) || ranks_below(
                    start.store,
                    JobType::SnosRun,
                    -1,
                ),
                ranks_below(start.store, JobType::SnosRun, processed + 1),
                ranks_below(start.store, JobType::SnosRun, -1) ==> processed == 0,
                forall|l: int|
                    is_latest(start.store, l, JobType::SnosRun, None) ==> rank(
                        (#[trigger] start.store[l]).internal_id,
                    ) == processed,
                forall|a: ContextView, r: Result<(), JobErrorView>| #[trigger]
                    runs_created(ctx@, *registry, block, self.latest_block_number, a, r)
                        ==> runs_created(
                        start,
                        *registry,
                        processed,
                        self.latest_block_number,
                        a,
                        r,
                    ),
                appended(start, ctx@),
                new_jobs_of_type(start, ctx@, JobType::SnosRun),
                forall|l: int|
                    is_latest(start.store, l, JobType::SnosRun, None) ==> rank(
                        (#[trigger] start.store[l]).internal_id,
                    ) != -1,
                forall|b: u64|
                    processed < b <= block ==> #[trigger] has_key(
                        ctx@.store,
                        JobType::SnosRun,
                        decimal_text(b as nat),
                    ),
            decreases self.latest_block_number - block,
        {
            let ghost done = block;
            block = block + 1;
            let ghost before = ctx@;
            let internal_id = format_u64(block);
            let r = create_job(ctx, registry, JobType::SnosRun, internal_id, Metadata::new());
            assert(creates(
                before,
                *registry,
                JobType::SnosRun,
                decimal_text((done + 1) as nat),
                Map::<Seq<char>, Seq<char>>::empty(),
                ctx@,
                result_view(r),
            ));
            proof {
                let answer = choose|answer: Option<Result<JobItemView, Seq<char>>>|
                    (ctx@, result_view(r)) == #[trigger] create_step(
                        before,
                        JobType::SnosRun,
                        decimal_text(block as nat),
                        answer,
                    );
                lemma_create_appends(before, JobType::SnosRun, decimal_text(block as nat), answer);
                lemma_appended_twice(start, before, ctx@);
                lemma_appended_keeps_keys(before, ctx@);
            }
            match r {
                Err(e) => {
                    assert(runs_created(
                        before,
                        *registry,
                        done,
                        self.latest_block_number,
                        ctx@,
                        result_view(r),
                    ));
                    return Err(e);
                },
                Ok(()) => {
                    assert forall|a: ContextView, r2: Result<(), JobErrorView>| #[trigger]
                        runs_created(
                            ctx@,
                            *registry,
                            block,
                            self.latest_block_number,
                            a,
                            r2,
                        ) implies runs_created(
                        before,
                        *registry,
                        done,
                        self.latest_block_number,
                        a,
                        r2,
                    ) by {}
                },
            }
        }
        assert(runs_created(
            ctx@,
            *registry,
            block,
            self.latest_block_number,
            ctx@,
            Ok::<(), JobErrorView>(()),
        ));
        Ok(())
    }
}

impl Worker for SnosWorker {
    /// Without a SNOS run in the store the runs of the blocks from 1 to the
    /// latest are to be created; with one, those of the blocks after the
    /// block of the latest run. A latest run whose internal id is no number
    /// leaves nothing to work on.
    open spec fn discovers(&self, store: Seq<JobItemView>) -> Discovery {
        match latest_of(store, JobType::SnosRun, None) {
            None => Discovery::Runs { done: 0, latest: self.latest_block_number },
            Some(l) => if rank(store[l].internal_id) < 0 {
                Discovery::Refused(JobErrorView::InternalIdNotANumber)
            } else {
                Discovery::Runs {
                    done: rank(store[l].internal_id) as u64,
                    latest: self.latest_block_number,
                }
            },
        }
    }

    /// Creates the runs of the blocks after the one of the latest run, in
    /// order, up to the latest block: see `runs_created`. Without a SNOS run
    /// in the store the first block is block 1. Where the latest run's
    /// internal id is no number, nothing is created and
    /// `InternalIdNotANumber` returned. After `Ok`, every block from 1 to the
    /// latest that ranks above all runs of before has a run.
    fn run_worker<H: Job>(&self, ctx: &mut Context, registry: &HandlerRegistry<H>) -> (r: Result<
        (),
        JobError,
    >)
        ensures
            new_jobs_of_type(old(ctx)@, final(ctx)@, JobType::SnosRun),
            ranks_below(old(ctx)@.store, JobType::SnosRun, -1) ==> runs_created(
                old(ctx)@,
                *registry,
                0,
                self.latest_block_number,
                final(ctx)@,
                result_view(r),
            ),
            forall|l: int|
                is_latest(old(ctx)@.store, l, JobType::SnosRun, None) && rank(
                    (#[trigger] old(ctx)@.store[l]).internal_id,
                ) >= 0 ==> runs_created(
                    old(ctx)@,
                    *registry,
                    rank(old(ctx)@.store[l].internal_id) as u64,
                    self.latest_block_number,
                    final(ctx)@,
                    result_view(r),
                ),
            (exists|l: int|
                is_latest(old(ctx)@.store, l, JobType::SnosRun, None) && rank(
                    (#[trigger] old(ctx)@.store[l]).internal_id,
                ) == -1) ==> final(ctx)@ == old(ctx)@ && result_view(r) == Err::<(), JobErrorView>(
                JobErrorView::InternalIdNotANumber,
            ),
            (exists|i: int|
                0 <= i < old(ctx)@.store.len() && (#[trigger] old(ctx)@.store[i]).job_type
                    == JobType::SnosRun && rank(old(ctx)@.store[i].internal_id)
                    >= self.latest_block_number) ==> final(ctx)@ == old(ctx)@ && r is Ok,
            self.latest_block_number == 0 && ranks_below(old(ctx)@.store, JobType::SnosRun, -1)
                ==> final(ctx)@ == old(ctx)@ && r is Ok,
            r is Ok ==> forall|b: u64|
                1 <= b <= self.latest_block_number && ranks_below(
                    old(ctx)@.store,
                    JobType::SnosRun,
                    b as int,
                ) ==> #[trigger] has_key(
                    final(ctx)@.store,
                    JobType::SnosRun,
                    decimal_text(b as nat),
                ),
    {
        let r = self.create_runs(ctx, registry);
        proof {
            let store = old(ctx)@.store;
            lemma_has_latest(store, JobType::SnosRun, None, 0);
            if let Some(l) = latest_of(store, JobType::SnosRun, None) {
                crate::store::lemma_rank_floor(store[l].internal_id);
            }
        }
        r
    }
}

/// No record of type `a_type` in status `a_status` is without a record of
/// type `b_type` with its internal id.
pub open spec fn nothing_lacks(
    store: Seq<JobItemView>,
    a_type: JobType,
    a_status: JobStatus,
    b_type: JobType,
) -> bool {
    forall|i: int|
        0 <= i < store.len() ==> !lacks_successor(store, #[trigger] store[i], a_type, a_status, b_type)
}

/// Creates the proof creation of every completed SNOS run that has none.
pub struct ProvingWorker;

/// After jobs of type `b_type` were created for all of `candidates`, no
/// record of type `a_type` in status `a_status` lacks its successor.
proof fn lemma_successors_complete(
    before: ContextView,
    after: ContextView,
    candidates: Seq<JobItemView>,
    a_type: JobType,
    a_status: JobStatus,
    b_type: JobType,
)
    requires
        a_type != b_type,
        appended(before, after),
        new_jobs_of_type(before, after, b_type),
        candidates == before.store.filter(
            |j: JobItemView| lacks_successor(before.store, j, a_type, a_status, b_type),
        ),
        forall|k: int|
            0 <= k < candidates.len() ==> has_key(
                after.store,
                b_type,
                (#[trigger] candidates[k]).internal_id,
            ),
    ensures
        nothing_lacks(after.store, a_type, a_status, b_type),
{
    let pred = |j: JobItemView| lacks_successor(before.store, j, a_type, a_status, b_type);
    lemma_appended_keeps_keys(before, after);
    assert forall|i: int| 0 <= i < after.store.len() implies !lacks_successor(
        after.store,
        #[trigger] after.store[i],
        a_type,
        a_status,
        b_type,
    ) by {
        let j = after.store[i];
        if i < before.store.len() && j.job_type == a_type && j.status == a_status {
            assert(j == before.store[i]);
            if has_key(before.store, b_type, j.internal_id) {
                assert(has_key(after.store, b_type, j.internal_id));
            } else {
                assert(pred(before.store[i]));
                before.store.lemma_filter_contains(pred, i);
                let k = choose|k: int| 0 <= k < candidates.len() && candidates[k] == j;
                assert(has_key(after.store, b_type, candidates[k].internal_id));
            }
        }
    }
}

/// Creates, for every record of type `a_type` in status `a_status` that has
/// no successor of type `b_type`, that successor.
fn create_missing_successors<H: Job>(
    ctx: &mut Context,
    registry: &HandlerRegistry<H>,
    a_type: JobType,
    a_status: JobStatus,
    b_type: JobType,
) -> (r: Result<(), JobError>)
    requires
        old(ctx).wf(),
        a_type != b_type,
    ensures
        final(ctx).wf(),
        appended(old(ctx)@, final(ctx)@),
        new_jobs_of_type(old(ctx)@, final(ctx)@, b_type),
        successors_created(
            old(ctx)@,
            *registry,
            old(ctx)@.store.filter(
                |j: JobItemView| lacks_successor(old(ctx)@.store, j, a_type, a_status, b_type),
            ),
            None,
            b_type,
            final(ctx)@,
            result_view(r),
        ),
        r is Ok ==> nothing_lacks(final(ctx)@.store, a_type, a_status, b_type),
        nothing_lacks(old(ctx)@.store, a_type, a_status, b_type) ==> r is Ok && final(ctx)@ == old(
            ctx,
        )@,
{
    let candidates = ctx.store.get_jobs_without_successor(a_type, a_status, b_type);
    proof {
        lemma_filter_empty(
            ctx@.store,
            |j: JobItemView| lacks_successor(ctx@.store, j, a_type, a_status, b_type),
        );
        assert(views(candidates@).len() == candidates@.len());
    }
    let r = create_successors(ctx, registry, &candidates, None, b_type);
    proof {
        if r is Ok {
            assert forall|k: int| 0 <= k < views(candidates@).len() implies has_key(
                ctx@.store,
                b_type,
                (#[trigger] views(candidates@)[k]).internal_id,
            ) by {
                assert(views(candidates@)[k] == candidates@[k]@);
            }
            lemma_successors_complete(
                old(ctx)@,
                ctx@,
                views(candidates@),
                a_type,
                a_status,
                b_type,
            );
        }
    }
    r
}

impl Worker for ProvingWorker {
    /// The completed SNOS runs that have no proof creation, in the order in
    /// which they are stored, call for one.
    open spec fn discovers(&self, store: Seq<JobItemView>) -> Discovery {
        Discovery::Successors {
            candidates: store.filter(
                |j: JobItemView|
                    lacks_successor(
                        store,
                        j,
                        JobType::SnosRun,
                        JobStatus::Completed,
                        JobType::ProofCreation,
                    ),
            ),
            only_status: None,
            job_type: JobType::ProofCreation,
        }
    }

    /// Creates the proof creations of the completed SNOS runs that have
    /// none, in the order in which the runs are stored, each with the
    /// metadata of its run: see `successors_created`. After `Ok`, every
    /// completed SNOS run has its proof creation. Where none is missing
    /// nothing is done.
    fn run_worker<H: Job>(&self, ctx: &mut Context, registry: &HandlerRegistry<H>) -> (r: Result<
        (),
        JobError,
    >)
        ensures
            new_jobs_of_type(old(ctx)@, final(ctx)@, JobType::ProofCreation),
            successors_created(
                old(ctx)@,
                *registry,
                old(ctx)@.store.filter(
                    |j: JobItemView|
                        lacks_successor(
                            old(ctx)@.store,
                            j,
                            JobType::SnosRun,
                            JobStatus::Completed,
                            JobType::ProofCreation,
                        ),
                ),
                None,
                JobType::ProofCreation,
                final(ctx)@,
                result_view(r),
            ),
            r is Ok ==> nothing_lacks(
                final(ctx)@.store,
                JobType::SnosRun,
                JobStatus::Completed,
                JobType::ProofCreation,
            ),
            nothing_lacks(
                old(ctx)@.store,
                JobType::SnosRun,
                JobStatus::Completed,
                JobType::ProofCreation,
            ) ==> r is Ok && final(ctx)@ == old(ctx)@,
    {
        create_missing_successors(
            ctx,
            registry,
            JobType::SnosRun,
            JobStatus::Completed,
            JobType::ProofCreation,
        )
    }
}

/// Creates the data submission of every completed proof creation that has
/// none.
pub struct DataSubmissionWorker;

impl Worker for DataSubmissionWorker {
    /// The completed proof creations that have no data submission, in the
    /// order in which they are stored, call for one.
    open spec fn discovers(&self, store: Seq<JobItemView>) -> Discovery {
        Discovery::Successors {
            candidates: store.filter(
                |j: JobItemView|
                    lacks_successor(
                        store,
                        j,
                        JobType::ProofCreation,
                        JobStatus::Completed,
                        JobType::DataSubmission,
                    ),
            ),
            only_status: None,
            job_type: JobType::DataSubmission,
        }
    }

    /// Creates the data submissions of the completed proof creations that
    /// have none, in the order in which those are stored, each with the
    /// metadata of its proof creation: see `successors_created`. After `Ok`,
    /// every completed proof creation has its data submission. Where none is
    /// missing nothing is done.
    fn run_worker<H: Job>(&self, ctx: &mut Context, registry: &HandlerRegistry<H>) -> (r: Result<
        (),
        JobError,
    >)
        ensures
            new_jobs_of_type(old(ctx)@, final(ctx)@, JobType::DataSubmission),
            successors_created(
                old(ctx)@,
                *registry,
                old(ctx)@.store.filter(
                    |j: JobItemView|
                        lacks_successor(
                            old(ctx)@.store,
                            j,
                            JobType::ProofCreation,
                            JobStatus::Completed,
                            JobType::DataSubmission,
                        ),
                ),
                None,
                JobType::DataSubmission,
                final(ctx)@,
                result_view(r),
            ),
            r is Ok ==> nothing_lacks(
                final(ctx)@.store,
                JobType::ProofCreation,
                JobStatus::Completed,
                JobType::DataSubmission,
            ),
            nothing_lacks(
                old(ctx)@.store,
                JobType::ProofCreation,
                JobStatus::Completed,
                JobType::DataSubmission,
            ) ==> r is Ok && final(ctx)@ == old(ctx)@,
    {
        create_missing_successors(
            ctx,
            registry,
            JobType::ProofCreation,
            JobStatus::Completed,
            JobType::DataSubmission,
        )
    }
}

/// Creates the proof registration of every completed proof creation that
/// has none, where the deployment registers proofs on chain.
pub struct ProofRegistrationWorker {
    /// Whether this deployment registers proofs on chain.
    pub register_proofs: bool,
}

impl Worker for ProofRegistrationWorker {
    /// Where proofs are registered, the completed proof creations that have
    /// no proof registration, in the order in which they are stored, call
    /// for one; where they are not, nothing is to be done.
    open spec fn discovers(&self, store: Seq<JobItemView>) -> Discovery {
        if self.register_proofs {
            Discovery::Successors {
                candidates: store.filter(
                    |j: JobItemView|
                        lacks_successor(
                            store,
                            j,
                            JobType::ProofCreation,
                            JobStatus::Completed,
                            JobType::ProofRegistration,
                        ),
                ),
                only_status: None,
                job_type: JobType::ProofRegistration,
            }
        } else {
            Discovery::Nothing
        }
    }

    /// Where proofs are not registered nothing is done. Where they are, the
    /// proof registrations of the completed proof creations that have none
    /// are created, in the order in which those are stored: see
    /// `successors_created`; after `Ok` every completed proof creation has
    /// its proof registration.
    fn run_worker<H: Job>(&self, ctx: &mut Context, registry: &HandlerRegistry<H>) -> (r: Result<
        (),
        JobError,
    >)
        ensures
            new_jobs_of_type(old(ctx)@, final(ctx)@, JobType::ProofRegistration),
            !self.register_proofs ==> final(ctx)@ == old(ctx)@ && r is Ok,
            self.register_proofs ==> successors_created(
                old(ctx)@,
                *registry,
                old(ctx)@.store.filter(
                    |j: JobItemView|
                        lacks_successor(
                            old(ctx)@.store,
                            j,
                            JobType::ProofCreation,
                            JobStatus::Completed,
                            JobType::ProofRegistration,
                        ),
                ),
                None,
                JobType::ProofRegistration,
                final(ctx)@,
                result_view(r),
            ),
            self.register_proofs && r is Ok ==> nothing_lacks(
                final(ctx)@.store,
                JobType::ProofCreation,
                JobStatus::Completed,
                JobType::ProofRegistration,
            ),
            nothing_lacks(
                old(ctx)@.store,
                JobType::ProofCreation,
                JobStatus::Completed,
                JobType::ProofRegistration,
            ) ==> r is Ok && final(ctx)@ == old(ctx)@,
    {
        if !self.register_proofs {
            return Ok(());
        }
        create_missing_successors(
            ctx,
            registry,
            JobType::ProofCreation,
            JobStatus::Completed,
            JobType::ProofRegistration,
        )
    }
}

/// Creates the state transition of every completed proof creation behind the
/// latest completed state transition.
pub struct UpdateStateWorker;

impl UpdateStateWorker {
    /// Creates the state transitions that the worker finds missing.
    fn create_state_transitions<H: Job>(
        &self,
        ctx: &mut Context,
        registry: &HandlerRegistry<H>,
    ) -> (r: Result<(), JobError>)
        requires
            old(ctx).wf(),
        ensures
            final(ctx).wf(),
            appended(old(ctx)@, final(ctx)@),
            has_latest(old(ctx)@.store, JobType::StateTransition, Some(JobStatus::Completed))
                || forall|i: int|
                0 <= i < old(ctx)@.store.len() ==> !of_kind(
                    #[trigger] old(ctx)@.store[i],
                    JobType::StateTransition,
                    Some(JobStatus::Completed),
                ),
            new_jobs_of_type(old(ctx)@, final(ctx)@, JobType::StateTransition),
            (forall|i: int|
                0 <= i < old(ctx)@.store.len() ==> !of_kind(
                    #[trigger] old(ctx)@.store[i],
                    JobType::StateTransition,
                    Some(JobStatus::Completed),
                )) ==> final(ctx)@ == old(ctx)@ && r is Ok,
            forall|l: int| #[trigger]
                is_latest(
                    old(ctx)@.store,
                    l,
                    JobType::StateTransition,
                    Some(JobStatus::Completed),
                ) ==> successors_created(
                    old(ctx)@,
                    *registry,
                    ascending(
                        old(ctx)@.store.filter(
                            |j: JobItemView|
                                is_after(j, JobType::ProofCreation, old(ctx)@.store[l].internal_id),
                        ),
                    ),
                    Some(JobStatus::Completed),
                    JobType::StateTransition,
                    final(ctx)@,
                    result_view(r),
                ),
            r is Ok ==> forall|l: int, i: int|
                is_latest(
                    old(ctx)@.store,
                    l,
                    JobType::StateTransition,
                    Some(JobStatus::Completed),
                ) && 0 <= i < old(ctx)@.store.len() && (#[trigger] old(ctx)@.store[i]).job_type
                    == JobType::ProofCreation && old(ctx)@.store[i].status == JobStatus::Completed
                    && rank(old(ctx)@.store[i].internal_id) > rank(
                    (#[trigger] old(ctx)@.store[l]).internal_id,
                ) ==> has_key(
                    final(ctx)@.store,
                    JobType::StateTransition,
                    old(ctx)@.store[i].internal_id,
                ),
    {
        let ghost start = ctx@;
        let latest = ctx.store.get_latest_job_by_type_and_status(
            JobType::StateTransition,
            JobStatus::Completed,
        );
        match latest {
            None => {
                assert forall|i: int| 0 <= i < start.store.len() implies !of_kind(
                    #[trigger] start.store[i],
                    JobType::StateTransition,
                    Some(JobStatus::Completed),
                ) by {}
                assert forall|l: int|
                    !is_latest(
                        start.store,
                        l,
                        JobType::StateTransition,
                        Some(JobStatus::Completed),
                    ) by {
                    if 0 <= l < start.store.len() {
                        assert(!of_kind(
                            start.store[l],
                            JobType::StateTransition,
                            Some(JobStatus::Completed),
                        ));
                    }
                }
                Ok(())
            },
            Some(job) => {
                let ghost floor = job.internal_id@;
                let ghost pred = |j: JobItemView| is_after(j, JobType::ProofCreation, floor);
                let proving = ctx.store.get_jobs_after_internal_id_by_job_type(
                    JobType::ProofCreation,
                    job.internal_id,
                );
                let r = create_successors(
                    ctx,
                    registry,
                    &proving,
                    Some(JobStatus::Completed),
                    JobType::StateTransition,
                );
                proof {
                    let m = choose|m: int|
                        is_latest(
                            start.store,
                            m,
                            JobType::StateTransition,
                            Some(JobStatus::Completed),
                        ) && job@ == #[trigger] start.store[m];
                    assert(of_kind(
                        start.store[m],
                        JobType::StateTransition,
                        Some(JobStatus::Completed),
                    ));
                    lemma_has_latest(
                        start.store,
                        JobType::StateTransition,
                        Some(JobStatus::Completed),
                        m,
                    );
                    assert forall|l: int| #[trigger]
                        is_latest(
                            start.store,
                            l,
                            JobType::StateTransition,
                            Some(JobStatus::Completed),
                        ) implies l == m by {
                        assert(of_kind(
                            start.store[l],
                            JobType::StateTransition,
                            Some(JobStatus::Completed),
                        ));
                    }
                    if r is Ok {
                        assert forall|l: int, i: int|
                            is_latest(
                                start.store,
                                l,
                                JobType::StateTransition,
                                Some(JobStatus::Completed),
                            ) && 0 <= i < start.store.len() && (#[trigger] start.store[i]).job_type
                                == JobType::ProofCreation && start.store[i].status
                                == JobStatus::Completed && rank(start.store[i].internal_id) > rank(
                                (#[trigger] start.store[l]).internal_id,
                            ) implies has_key(
                            ctx@.store,
                            JobType::StateTransition,
                            start.store[i].internal_id,
                        ) by {
                            assert(rank(start.store[l].internal_id) == rank(floor));
                            assert(pred(start.store[i]));
                            start.store.lemma_filter_contains(pred, i);
                            let kept = start.store.filter(pred);
                            let a = choose|a: int| 0 <= a < kept.len() && kept[a] == start.store[i];
                            lemma_ascending_has_all(kept, a);
                            let k = choose|k: int|
                                0 <= k < ascending(kept).len() && ascending(kept)[k]
                                    == start.store[i];
                            assert(views(proving@)[k] == proving@[k]@);
                            assert(proving@[k].status == JobStatus::Completed);
                        }
                    }
                }
                r
            },
        }
    }
}

impl Worker for UpdateStateWorker {
    /// Without a completed state transition nothing is to be done. With
    /// one, the completed proof creations that rank above the latest of
    /// them, by ascending rank, call for a state transition.
    open spec fn discovers(&self, store: Seq<JobItemView>) -> Discovery {
        match latest_of(store, JobType::StateTransition, Some(JobStatus::Completed)) {
            None => Discovery::Nothing,
            Some(l) => Discovery::Successors {
                candidates: ascending(
                    store.filter(
                        |j: JobItemView|
                            is_after(j, JobType::ProofCreation, store[l].internal_id),
                    ),
                ),
                only_status: Some(JobStatus::Completed),
                job_type: JobType::StateTransition,
            },
        }
    }

    /// Without a completed state transition nothing is done: the first one
    /// is seeded by hand. Otherwise the state transitions of the completed
    /// proof creations that rank above the latest completed state transition
    /// are created, by ascending rank, unless they are stored: see
    /// `successors_created`. After `Ok`, every such proof creation has a
    /// state transition.
    fn run_worker<H: Job>(&self, ctx: &mut Context, registry: &HandlerRegistry<H>) -> (r: Result<
        (),
        JobError,
    >)
        ensures
            new_jobs_of_type(old(ctx)@, final(ctx)@, JobType::StateTransition),
            (forall|i: int|
                0 <= i < old(ctx)@.store.len() ==> !of_kind(
                    #[trigger] old(ctx)@.store[i],
                    JobType::StateTransition,
                    Some(JobStatus::Completed),
                )) ==> final(ctx)@ == old(ctx)@ && r is Ok,
            forall|l: int| #[trigger]
                is_latest(
                    old(ctx)@.store,
                    l,
                    JobType::StateTransition,
                    Some(JobStatus::Completed),
                ) ==> successors_created(
                    old(ctx)@,
                    *registry,
                    ascending(
                        old(ctx)@.store.filter(
                            |j: JobItemView|
                                is_after(j, JobType::ProofCreation, old(ctx)@.store[l].internal_id),
                        ),
                    ),
                    Some(JobStatus::Completed),
                    JobType::StateTransition,
                    final(ctx)@,
                    result_view(r),
                ),
            r is Ok ==> forall|l: int, i: int|
                is_latest(
                    old(ctx)@.store,
                    l,
                    JobType::StateTransition,
                    Some(JobStatus::Completed),
                ) && 0 <= i < old(ctx)@.store.len() && (#[trigger] old(ctx)@.store[i]).job_type
                    == JobType::ProofCreation && old(ctx)@.store[i].status == JobStatus::Completed
                    && rank(old(ctx)@.store[i].internal_id) > rank(
                    (#[trigger] old(ctx)@.store[l]).internal_id,
                ) ==> has_key(
                    final(ctx)@.store,
                    JobType::StateTransition,
                    old(ctx)@.store[i].internal_id,
                ),
    {
        let r = self.create_state_transitions(ctx, registry);
        proof {
            lemma_has_latest(
                old(ctx)@.store,
                JobType::StateTransition,
                Some(JobStatus::Completed),
                0,
            );
        }
        r
    }
}

} // verus!
