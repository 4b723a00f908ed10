//! What holds of every run of the lifecycle engine.
//!
//! A run is a sequence of events, each an entry point of the engine together
//! with what the handler answered. The laws speak of the contexts that the
//! step functions of the entry points lead through; the entry points
//! themselves are proved to compute those functions.

use crate::errors::JobErrorView;
use crate::lifecycle::{
    create_step,
    executed,
    fail_step,
    failure_plan,
    finish_plan,
    finish_step,
    initial_record,
    lock_plan,
    lock_step,
    process_step,
    verification_plan,
    verify_step,
    ContextView,
    PlanView,
    VerificationAnswer,
};
use crate::metadata::JOB_LAST_STATUS_METADATA_KEY;
use crate::store::{
    by_id,
    has_id,
    has_key,
    lemma_place_of_id,
    lemma_update_keeps_unique,
    optimistic_update,
    patched,
    place_of_id,
    unique,
};
use crate::types::{legal_transition, JobItemView, JobStatus, JobType, VerificationKind};
use vstd::prelude::*;

verus! {

/// One call of an entry point of the engine, with what the registry and the
/// handler answered to it (`None`: no handler is registered for the type).
pub enum Event {
    /// `create_job`.
    Create {
        job_type: JobType,
        internal_id: Seq<char>,
        built: Option<Result<JobItemView, Seq<char>>>,
    },
    /// `process_job`.
    Process { id: u128, processed: Option<(Result<Seq<char>, Seq<char>>, u64)> },
    /// `verify_job`.
    Verify { id: u128, found: Option<VerificationAnswer> },
    /// `handle_job_failure`.
    Fail { id: u128 },
}

/// The context after an event, and what the entry point returned.
pub open spec fn step(ctx: ContextView, e: Event) -> (ContextView, Result<(), JobErrorView>) {
    match e {
        Event::Create { job_type, internal_id, built } => create_step(
            ctx,
            job_type,
            internal_id,
            built,
        ),
        Event::Process { id, processed } => process_step(ctx, id, processed),
        Event::Verify { id, found } => verify_step(ctx, id, found),
        Event::Fail { id } => fail_step(ctx, id),
    }
}

/// The context after a sequence of events.
pub open spec fn run(ctx: ContextView, events: Seq<Event>) -> ContextView
    decreases events.len(),
{
    if events.len() == 0 {
        ctx
    } else {
        step(run(ctx, events.drop_last()), events.last()).0
    }
}

/// `after` is `before` after one update that the store accepted: the same
/// job, the version one higher, the status along a step of the lifecycle.
pub open spec fn updated_legally(before: JobItemView, after: JobItemView) -> bool {
    &&& after.same_job(before)
    &&& after.version == before.version + 1
    &&& legal_transition(before.status, after.status)
}

/// From `s` to `t` no record was removed or moved, and each record either
/// stayed as it was or went through one legal update.
pub open spec fn one_update(s: Seq<JobItemView>, t: Seq<JobItemView>) -> bool {
    &&& s.len() <= t.len()
    &&& forall|i: int| 0 <= i < s.len() ==> (#[trigger] t[i]) == s[i] || updated_legally(s[i], t[i])
}

/// From `s` to `t` each record went through at most two legal updates, one
/// after the other.
pub open spec fn evolves(s: Seq<JobItemView>, t: Seq<JobItemView>) -> bool {
    exists|mid: Seq<JobItemView>| one_update(s, mid) && #[trigger] one_update(mid, t)
}

/// Every failed job keeps, under `last_job_status`, the name of a status
/// other than `Failed`.
pub open spec fn failures_recorded(s: Seq<JobItemView>) -> bool {
    forall|i: int|
        0 <= i < s.len() && (#[trigger] s[i]).status == JobStatus::Failed ==> {
            &&& s[i].metadata.contains_key(JOB_LAST_STATUS_METADATA_KEY@)
            &&& JobStatus::named(s[i].metadata[JOB_LAST_STATUS_METADATA_KEY@]) is Some
            &&& JobStatus::named(s[i].metadata[JOB_LAST_STATUS_METADATA_KEY@]) != Some(
                JobStatus::Failed,
            )
        }
}

/// The update of a plan, if it has one, is a step of the lifecycle from the
/// status of the job, and one that ends in `Failed` records the status that
/// the job had.
pub open spec fn plan_legal(job: JobItemView, plan: PlanView) -> bool {
    plan.update matches Some(patch) ==> {
        &&& legal_transition(
            job.status,
            match patch.status {
                Some(s) => s,
                None => job.status,
            },
        )
        &&& patch.status == Some(JobStatus::Failed) ==> patch.metadata == Some(
            job.metadata.insert(JOB_LAST_STATUS_METADATA_KEY@, job.status.name()),
        )
    }
}

/// Every plan of the engine is legal.
pub proof fn lemma_plans_legal(
    job: JobItemView,
    outcome: Result<Seq<char>, Seq<char>>,
    kind: VerificationKind,
    max_process_attempts: u64,
    max_verification_attempts: u64,
    delay: u64,
)
    ensures
        plan_legal(job, lock_plan(job)),
        plan_legal(job, finish_plan(job, outcome, delay)),
        plan_legal(
            job,
            verification_plan(job, kind, max_process_attempts, max_verification_attempts, delay),
        ),
        plan_legal(job, failure_plan(job)),
{
}

/// Storing a new record keeps the store free of doubles and every other
/// record findable as before.
pub proof fn lemma_push(s: Seq<JobItemView>, record: JobItemView)
    requires
        unique(s),
        !has_id(s, record.id),
        !has_key(s, record.job_type, record.internal_id),
    ensures
        unique(s.push(record)),
        one_update(s, s.push(record)),
        by_id(s.push(record), record.id) == Some(record),
        forall|k: u128| k != record.id ==> by_id(s.push(record), k) == by_id(s, k),
{
    let t = s.push(record);
    assert forall|i: int, j: int| 0 <= i < t.len() && 0 <= j < t.len() && i != j implies {
        &&& (#[trigger] t[i]).id != (#[trigger] t[j]).id
        &&& !(t[i].job_type == t[j].job_type && t[i].internal_id == t[j].internal_id)
    } by {
        if i < s.len() && j < s.len() {
            assert(s[i].id != s[j].id);
        } else if i < s.len() {
            assert(s[i].id != record.id);
            assert(!(s[i].job_type == record.job_type && s[i].internal_id == record.internal_id));
        } else {
            assert(s[j].id != record.id);
            assert(!(s[j].job_type == record.job_type && s[j].internal_id == record.internal_id));
        }
    }
    assert(t[s.len() as int] == record);
    lemma_place_of_id(t, s.len() as int);
    assert forall|k: u128| k != record.id implies by_id(t, k) == by_id(s, k) by {
        if has_id(s, k) {
            let i = place_of_id(s, k);
            lemma_place_of_id(s, i);
            assert(t[i] == s[i]);
            lemma_place_of_id(t, i);
        } else if has_id(t, k) {
            let i = place_of_id(t, k);
            assert(i < s.len());
            assert(s[i].id == k);
        }
    }
    assert forall|i: int| 0 <= i < s.len() implies (#[trigger] t[i]) == s[i] by {}
}

/// Carrying out a legal plan for a job as it is stored: the store stays free
/// of doubles, goes through at most one legal update, and changes no other
/// job; the job itself is patched where the update was stored and is as
/// before where it was not.
pub proof fn lemma_executed(ctx: ContextView, job: JobItemView, plan: PlanView)
    requires
        unique(ctx.store),
        by_id(ctx.store, job.id) == Some(job),
        plan_legal(job, plan),
    ensures
        unique(executed(ctx, job, plan).0.store),
        one_update(ctx.store, executed(ctx, job, plan).0.store),
        executed(ctx, job, plan).0.store.len() == ctx.store.len(),
        forall|k: u128|
            k != job.id ==> by_id(executed(ctx, job, plan).0.store, k) == by_id(ctx.store, k),
        by_id(executed(ctx, job, plan).0.store, job.id) == Some(
            if executed(ctx, job, plan).0.store == ctx.store {
                job
            } else {
                patched(job, plan.update->0)
            },
        ),
        executed(ctx, job, plan).0.store != ctx.store ==> plan.update is Some,
        failures_recorded(ctx.store) ==> failures_recorded(executed(ctx, job, plan).0.store),
{
    let after = executed(ctx, job, plan).0.store;
    if let Some(patch) = plan.update {
        if let Ok(t) = optimistic_update(ctx.store, job.id, job.version, patch) {
            let p = place_of_id(ctx.store, job.id);
            lemma_update_keeps_unique(ctx.store, job.id, job.version, patch);
            assert(after == t);
            assert(ctx.store[p] == job);
            assert forall|i: int| 0 <= i < ctx.store.len() implies (#[trigger] t[i])
                == ctx.store[i] || updated_legally(ctx.store[i], t[i]) by {
                if i == p {
                    assert(t[i] == patched(job, patch));
                }
            }
            if failures_recorded(ctx.store) {
                assert forall|i: int|
                    0 <= i < t.len() && (#[trigger] t[i]).status == JobStatus::Failed implies {
                    &&& t[i].metadata.contains_key(JOB_LAST_STATUS_METADATA_KEY@)
                    &&& JobStatus::named(t[i].metadata[JOB_LAST_STATUS_METADATA_KEY@]) is Some
                    &&& JobStatus::named(t[i].metadata[JOB_LAST_STATUS_METADATA_KEY@]) != Some(
                        JobStatus::Failed,
                    )
                } by {
                    if i == p {
                        assert(t[i] == patched(job, patch));
                        job.status.lemma_named_name();
                    } else {
                        assert(t[i] == ctx.store[i]);
                    }
                }
            }
            if t == ctx.store {
                assert(t[p].version == job.version);
                assert(false);
            }
        }
    }
}

/// Of two updates that were made for the same reading of a job the store
/// accepts one: once an update made for `job` is stored, carrying out any
/// other plan for `job` changes nothing and returns `StaleVersion`.
pub proof fn lemma_stale_reading(
    ctx: ContextView,
    job: JobItemView,
    first: PlanView,
    second: PlanView,
)
    requires
        unique(ctx.store),
        by_id(ctx.store, job.id) == Some(job),
        executed(ctx, job, first).0.store != ctx.store,
        second.update is Some,
    ensures
        executed(executed(ctx, job, first).0, job, second) == (
            executed(ctx, job, first).0,
            Err::<(), JobErrorView>(JobErrorView::StaleVersion),
        ),
{
    let patch = first.update->0;
    lemma_update_keeps_unique(ctx.store, job.id, job.version, patch);
    let after = executed(ctx, job, first).0.store;
    assert(by_id(after, job.id) == Some(patched(job, patch)));
    assert(patched(job, patch).version != job.version);
}

/// After any event the store is free of doubles, every record of before is
/// still in its place and went through at most two legal updates, each of
/// which raised its version by one, and every failed job still names the
/// status it failed from.
pub proof fn lemma_step(ctx: ContextView, e: Event)
    requires
        unique(ctx.store),
    ensures
        unique(step(ctx, e).0.store),
        evolves(ctx.store, step(ctx, e).0.store),
        failures_recorded(ctx.store) ==> failures_recorded(step(ctx, e).0.store),
{
    let after = step(ctx, e).0.store;
    assert(one_update(ctx.store, ctx.store));
    match e {
        Event::Create { job_type, internal_id, built: answer } => {
            if after != ctx.store {
                let record = initial_record(answer->0->Ok_0, job_type, internal_id);
                lemma_push(ctx.store, record);
                assert(after == ctx.store.push(record));
                assert(one_update(after, after));
                if failures_recorded(ctx.store) {
                    assert forall|i: int|
                        0 <= i < after.len() && (#[trigger] after[i]).status
                            == JobStatus::Failed implies {
                        &&& after[i].metadata.contains_key(JOB_LAST_STATUS_METADATA_KEY@)
                        &&& JobStatus::named(after[i].metadata[JOB_LAST_STATUS_METADATA_KEY@])
                            is Some
                        &&& JobStatus::named(after[i].metadata[JOB_LAST_STATUS_METADATA_KEY@])
                            != Some(JobStatus::Failed)
                    } by {
                        if i < ctx.store.len() {
                            assert(after[i] == ctx.store[i]);
                        }
                    }
                }
            }
        },
        Event::Process { id, processed: answer } => {
            if let Some(job) = by_id(ctx.store, id) {
                assert(job.id == id);
                lemma_plans_legal(job, Err(Seq::empty()), VerificationKind::Pending, 0, 0, 0);
                lemma_executed(ctx, job, lock_plan(job));
                let (locked, taken) = lock_step(ctx, id);
                assert(one_update(locked.store, locked.store));
                if taken is Ok {
                    if let Some((outcome, delay)) = answer {
                        let held = by_id(locked.store, id)->0;
                        assert(held.id == id);
                        lemma_plans_legal(held, outcome, VerificationKind::Pending, 0, 0, delay);
                        lemma_executed(locked, held, finish_plan(held, outcome, delay));
                        assert(after == finish_step(locked, id, outcome, delay).0.store);
                        assert(one_update(locked.store, after));
                    }
                }
            }
        },
        Event::Verify { id, found: answer } => {
            if let Some(job) = by_id(ctx.store, id) {
                assert(job.id == id);
                if after != ctx.store {
                    let a = answer->0;
                    let kind = a.outcome->Ok_0;
                    lemma_plans_legal(
                        job,
                        Err(Seq::empty()),
                        kind,
                        a.max_process_attempts,
                        a.max_verification_attempts,
                        a.delay,
                    );
                    lemma_executed(
                        ctx,
                        job,
                        verification_plan(
                            job,
                            kind,
                            a.max_process_attempts,
                            a.max_verification_attempts,
                            a.delay,
                        ),
                    );
                    assert(one_update(after, after));
                }
            }
        },
        Event::Fail { id } => {
            if let Some(job) = by_id(ctx.store, id) {
                assert(job.id == id);
                lemma_plans_legal(job, Err(Seq::empty()), VerificationKind::Pending, 0, 0, 0);
                lemma_executed(ctx, job, failure_plan(job));
                assert(one_update(after, after));
            }
        },
    }
}

/// A completed job is never changed again: after any event it is stored
/// exactly as before.
pub proof fn lemma_completed_is_final(ctx: ContextView, e: Event, id: u128)
    requires
        unique(ctx.store),
        by_id(ctx.store, id) matches Some(job) && job.status == JobStatus::Completed,
    ensures
        by_id(step(ctx, e).0.store, id) == by_id(ctx.store, id),
{
    let done = by_id(ctx.store, id)->0;
    assert(done.id == id);
    let after = step(ctx, e).0.store;
    match e {
        Event::Create { job_type, internal_id, built: answer } => {
            if after != ctx.store {
                let record = initial_record(answer->0->Ok_0, job_type, internal_id);
                lemma_push(ctx.store, record);
            }
        },
        Event::Process { id: target, processed: answer } => {
            if let Some(job) = by_id(ctx.store, target) {
                assert(job.id == target);
                lemma_plans_legal(job, Err(Seq::empty()), VerificationKind::Pending, 0, 0, 0);
                lemma_executed(ctx, job, lock_plan(job));
                let (locked, taken) = lock_step(ctx, target);
                if taken is Ok {
                    if let Some((outcome, delay)) = answer {
                        let held = by_id(locked.store, target)->0;
                        assert(held.id == target);
                        lemma_plans_legal(held, outcome, VerificationKind::Pending, 0, 0, delay);
                        lemma_executed(locked, held, finish_plan(held, outcome, delay));
                    }
                }
            }
        },
        Event::Verify { id: target, found: answer } => {
            if let Some(job) = by_id(ctx.store, target) {
                assert(job.id == target);
                if after != ctx.store {
                    let a = answer->0;
                    let kind = a.outcome->Ok_0;
                    lemma_plans_legal(
                        job,
                        Err(Seq::empty()),
                        kind,
                        a.max_process_attempts,
                        a.max_verification_attempts,
                        a.delay,
                    );
                    lemma_executed(
                        ctx,
                        job,
                        verification_plan(
                            job,
                            kind,
                            a.max_process_attempts,
                            a.max_verification_attempts,
                            a.delay,
                        ),
                    );
                }
            }
        },
        Event::Fail { id: target } => {
            if let Some(job) = by_id(ctx.store, target) {
                assert(job.id == target);
                lemma_plans_legal(job, Err(Seq::empty()), VerificationKind::Pending, 0, 0, 0);
                lemma_executed(ctx, job, failure_plan(job));
            }
        },
    }
}

/// Along every run, from a store without doubles: no two records ever share
/// an identifier or a type and internal id; each event takes every record
/// through at most two legal updates, each raising its version by one; every
/// failed job names the status it failed from, if that held at the start;
/// and a job that is completed at some point of the run is stored unchanged
/// at every later point.
pub proof fn lemma_run(ctx: ContextView, events: Seq<Event>)
    requires
        unique(ctx.store),
    ensures
        unique(run(ctx, events).store),
        failures_recorded(ctx.store) ==> failures_recorded(run(ctx, events).store),
        forall|k: int|
            0 <= k < events.len() ==> evolves(
                (#[trigger] run(ctx, events.take(k))).store,
                run(ctx, events.take(k + 1)).store,
            ),
        forall|k: int|
            0 <= k <= events.len() ==> unique((#[trigger] run(ctx, events.take(k))).store),
        forall|k: int, id: u128|
            0 <= k <= events.len() && (#[trigger] by_id(run(ctx, events.take(k)).store, id)
                matches Some(job) && job.status == JobStatus::Completed) ==> by_id(
                run(ctx, events).store,
                id,
            ) == by_id(run(ctx, events.take(k)).store, id),
    decreases events.len(),
{
    if events.len() == 0 {
        assert forall|k: int| 0 <= k <= events.len() implies #[trigger] events.take(k)
            =~= events by {}
    } else {
        let head = events.drop_last();
        let before = run(ctx, head);
        lemma_run(ctx, head);
        lemma_step(before, events.last());
        assert(events.take(events.len() as int) =~= events);
        assert(events.take(events.len() - 1) =~= head);
        assert forall|k: int| 0 <= k < events.len() implies #[trigger] events.take(k)
            =~= head.take(k) by {}
        assert forall|k: int| 0 <= k < events.len() implies evolves(
            (#[trigger] run(ctx, events.take(k))).store,
            run(ctx, events.take(k + 1)).store,
        ) by {
            if k < events.len() - 1 {
                assert(events.take(k) =~= head.take(k));
                assert(events.take(k + 1) =~= head.take(k + 1));
            } else {
                assert(events.take(k) =~= head);
                assert(events.take(k + 1) =~= events);
            }
        }
        assert forall|k: int| 0 <= k <= events.len() implies unique(
            (#[trigger] run(ctx, events.take(k))).store,
        ) by {
            if k < events.len() {
                assert(events.take(k) =~= head.take(k));
            } else {
                assert(events.take(k) =~= events);
            }
        }
        assert forall|k: int, id: u128|
            0 <= k <= events.len() && (#[trigger] by_id(run(ctx, events.take(k)).store, id)
                matches Some(job) && job.status == JobStatus::Completed) implies by_id(
            run(ctx, events).store,
            id,
        ) == by_id(run(ctx, events.take(k)).store, id) by {
            if k < events.len() {
                assert(events.take(k) =~= head.take(k));
                assert(by_id(before.store, id) == by_id(run(ctx, head.take(k)).store, id));
                lemma_completed_is_final(before, events.last(), id);
            } else {
                assert(events.take(k) =~= events);
            }
        }
    }
}

/// A processing message that is delivered again after `process_job` went
/// through changes nothing: the second call finds the job pending
/// verification and returns `InvalidState`, whatever the handler would
/// answer.
pub proof fn lemma_processing_redelivered(
    ctx: ContextView,
    id: u128,
    answer: Option<(Result<Seq<char>, Seq<char>>, u64)>,
    again: Option<(Result<Seq<char>, Seq<char>>, u64)>,
)
    requires
        unique(ctx.store),
        process_step(ctx, id, answer).1 is Ok,
    ensures
        process_step(process_step(ctx, id, answer).0, id, again) == (
            process_step(ctx, id, answer).0,
            Err::<(), JobErrorView>(JobErrorView::InvalidState(JobStatus::PendingVerification)),
        ),
{
    let job = by_id(ctx.store, id)->0;
    assert(job.id == id);
    lemma_plans_legal(job, Err(Seq::empty()), VerificationKind::Pending, 0, 0, 0);
    lemma_executed(ctx, job, lock_plan(job));
    let (locked, taken) = lock_step(ctx, id);
    let (outcome, delay) = answer->0;
    let held = by_id(locked.store, id)->0;
    assert(held.id == id);
    lemma_plans_legal(held, outcome, VerificationKind::Pending, 0, 0, delay);
    lemma_executed(locked, held, finish_plan(held, outcome, delay));
}

/// Verifying a job again after it was found verified changes nothing: the
/// second call finds the job completed and returns `InvalidState`, whatever
/// the handler would answer.
pub proof fn lemma_verified_again(
    ctx: ContextView,
    id: u128,
    answer: Option<VerificationAnswer>,
    again: Option<VerificationAnswer>,
)
    requires
        unique(ctx.store),
        verify_step(ctx, id, answer).1 is Ok,
        answer matches Some(a) && a.outcome == Ok::<VerificationKind, Seq<char>>(
            VerificationKind::Verified,
        ),
    ensures
        verify_step(verify_step(ctx, id, answer).0, id, again) == (
            verify_step(ctx, id, answer).0,
            Err::<(), JobErrorView>(JobErrorView::InvalidState(JobStatus::Completed)),
        ),
{
    let job = by_id(ctx.store, id)->0;
    assert(job.id == id);
    let a = answer->0;
    lemma_plans_legal(
        job,
        Err(Seq::empty()),
        VerificationKind::Verified,
        a.max_process_attempts,
        a.max_verification_attempts,
        a.delay,
    );
    lemma_executed(
        ctx,
        job,
        verification_plan(
            job,
            VerificationKind::Verified,
            a.max_process_attempts,
            a.max_verification_attempts,
            a.delay,
        ),
    );
}

} // verus!
