use orchestrator::errors::JobError;
use orchestrator::lifecycle::{
    execute, initial_job_record, plan_failure, plan_finish, plan_lock, plan_verification, Context,
    Plan, QueueRequest,
};
use orchestrator::metadata::{CounterError, Metadata};
use orchestrator::queue::QueueName;
use orchestrator::store::JobUpdate;
use orchestrator::types::{ExternalId, JobItem, JobStatus, JobType, VerificationKind};

fn job(status: JobStatus, process_attempt: &str, verification_attempt: &str) -> JobItem {
    let mut metadata = Metadata::new();
    metadata.insert("process_attempt".to_string(), process_attempt.to_string());
    metadata.insert("verification_attempt".to_string(), verification_attempt.to_string());
    JobItem {
        id: 11,
        internal_id: "5".to_string(),
        job_type: JobType::DataSubmission,
        status,
        external_id: ExternalId::Number(0),
        metadata,
        version: 3,
    }
}

fn status_of(plan: &Plan) -> Option<JobStatus> {
    plan.update.as_ref().and_then(|u| u.status)
}

fn counter_of(plan: &Plan, key: &str) -> Option<String> {
    plan.update.as_ref().and_then(|u| u.metadata.as_ref()).and_then(|m| m.get(key).cloned())
}

#[test]
fn plan_lock_locks_what_may_be_processed() {
    for status in [JobStatus::Created, JobStatus::VerificationFailed] {
        let plan = plan_lock(&job(status, "0", "0"));
        assert_eq!(status_of(&plan), Some(JobStatus::LockedForProcessing));
        let update = plan.update.unwrap();
        assert!(update.external_id.is_none());
        assert!(update.metadata.is_none());
        assert_eq!(plan.enqueue, None);
        assert_eq!(plan.result, Ok(()));
    }
}

#[test]
fn plan_lock_refuses_every_other_status() {
    for status in [
        JobStatus::LockedForProcessing,
        JobStatus::PendingVerification,
        JobStatus::Completed,
        JobStatus::VerificationTimeout,
        JobStatus::Failed,
    ] {
        let plan = plan_lock(&job(status, "0", "0"));
        assert!(plan.update.is_none());
        assert_eq!(plan.enqueue, None);
        assert_eq!(plan.result, Err(JobError::InvalidState(status)));
    }
}

#[test]
fn plan_finish_with_a_handle() {
    let plan = plan_finish(&job(JobStatus::LockedForProcessing, "2", "0"), Ok("0xbeef".to_string()), 30);
    assert_eq!(status_of(&plan), Some(JobStatus::PendingVerification));
    assert_eq!(counter_of(&plan, "process_attempt"), Some("3".to_string()));
    assert_eq!(counter_of(&plan, "verification_attempt"), Some("0".to_string()));
    assert_eq!(
        plan.update.as_ref().unwrap().external_id,
        Some(ExternalId::String("0xbeef".to_string()))
    );
    assert_eq!(plan.enqueue, Some(QueueRequest { queue: QueueName::Verification, delay: 30 }));
    assert_eq!(plan.result, Ok(()));
}

#[test]
fn plan_finish_with_a_failure() {
    let plan =
        plan_finish(&job(JobStatus::LockedForProcessing, "2", "0"), Err("down".to_string()), 30);
    assert_eq!(status_of(&plan), None);
    assert!(plan.update.as_ref().unwrap().external_id.is_none());
    assert_eq!(counter_of(&plan, "process_attempt"), Some("3".to_string()));
    assert_eq!(plan.enqueue, None);
    assert_eq!(plan.result, Err(JobError::HandlerError("down".to_string())));
}

#[test]
fn plan_finish_with_a_counter_that_cannot_be_raised() {
    let locked = job(JobStatus::LockedForProcessing, "x", "0");
    let plan = plan_finish(&locked, Ok("0xbeef".to_string()), 30);
    assert!(plan.update.is_none());
    assert_eq!(plan.enqueue, None);
    assert_eq!(plan.result, Err(JobError::Counter(CounterError::NotANumber)));

    let plan = plan_finish(&locked, Err("down".to_string()), 30);
    assert!(plan.update.is_none());
    assert_eq!(plan.result, Err(JobError::HandlerError("down".to_string())));
}

#[test]
fn plan_finish_refuses_a_job_that_is_not_locked() {
    let plan = plan_finish(&job(JobStatus::Created, "0", "0"), Ok("0xbeef".to_string()), 30);
    assert!(plan.update.is_none());
    assert_eq!(plan.enqueue, None);
    assert_eq!(plan.result, Err(JobError::InvalidState(JobStatus::Created)));
}

#[test]
fn plan_verification_verified() {
    let plan = plan_verification(
        &job(JobStatus::PendingVerification, "1", "0"),
        VerificationKind::Verified,
        1,
        1,
        9,
    );
    assert_eq!(status_of(&plan), Some(JobStatus::Completed));
    assert!(plan.update.as_ref().unwrap().metadata.is_none());
    assert_eq!(plan.enqueue, None);
    assert_eq!(plan.result, Ok(()));
}

/// A rejection sends the job back for processing while it has had fewer
/// attempts than allowed.
#[test]
fn plan_verification_rejected_compares_attempts_with_the_cap() {
    let cases = [("0", 2u64, true), ("1", 2, true), ("2", 2, false), ("3", 2, false), ("0", 0, false)];
    for (attempts, cap, again) in cases {
        let plan = plan_verification(
            &job(JobStatus::PendingVerification, attempts, "0"),
            VerificationKind::Rejected,
            cap,
            7,
            9,
        );
        assert_eq!(status_of(&plan), Some(JobStatus::VerificationFailed));
        assert!(plan.update.as_ref().unwrap().metadata.is_none());
        let expected =
            if again { Some(QueueRequest { queue: QueueName::Processing, delay: 0 }) } else { None };
        assert_eq!(plan.enqueue, expected, "attempts {} cap {}", attempts, cap);
        assert_eq!(plan.result, Ok(()));
    }
}

/// A pending verification is asked about again while it has come back
/// pending fewer times than allowed; then it times out.
#[test]
fn plan_verification_pending_compares_attempts_with_the_cap() {
    let again = plan_verification(
        &job(JobStatus::PendingVerification, "1", "4"),
        VerificationKind::Pending,
        1,
        5,
        9,
    );
    assert_eq!(status_of(&again), None);
    assert_eq!(counter_of(&again, "verification_attempt"), Some("5".to_string()));
    assert_eq!(counter_of(&again, "process_attempt"), Some("1".to_string()));
    assert_eq!(again.enqueue, Some(QueueRequest { queue: QueueName::Verification, delay: 9 }));
    assert_eq!(again.result, Ok(()));

    for (attempts, cap) in [("5", 5u64), ("6", 5), ("0", 0)] {
        let timeout = plan_verification(
            &job(JobStatus::PendingVerification, "1", attempts),
            VerificationKind::Pending,
            1,
            cap,
            9,
        );
        assert_eq!(status_of(&timeout), Some(JobStatus::VerificationTimeout));
        assert!(timeout.update.as_ref().unwrap().metadata.is_none());
        assert_eq!(timeout.enqueue, None);
        assert_eq!(timeout.result, Ok(()));
    }
}

#[test]
fn plan_verification_refuses_a_job_that_is_not_pending() {
    for kind in [VerificationKind::Verified, VerificationKind::Rejected, VerificationKind::Pending] {
        let plan = plan_verification(&job(JobStatus::Completed, "0", "0"), kind, 1, 1, 9);
        assert!(plan.update.is_none());
        assert_eq!(plan.result, Err(JobError::InvalidState(JobStatus::Completed)));
    }
}

#[test]
fn plan_failure_of_each_status() {
    let completed = plan_failure(&job(JobStatus::Completed, "0", "0"));
    assert!(completed.update.is_none());
    assert_eq!(completed.result, Err(JobError::InvalidStateOnDeadLetter(JobStatus::Completed)));

    let failed = plan_failure(&job(JobStatus::Failed, "0", "0"));
    assert!(failed.update.is_none());
    assert_eq!(failed.result, Ok(()));

    let locked = plan_failure(&job(JobStatus::LockedForProcessing, "4", "0"));
    assert_eq!(status_of(&locked), Some(JobStatus::Failed));
    assert_eq!(counter_of(&locked, "last_job_status"), Some("LockedForProcessing".to_string()));
    assert_eq!(counter_of(&locked, "process_attempt"), Some("4".to_string()));
    assert_eq!(locked.enqueue, None);
    assert_eq!(locked.result, Ok(()));
}

/// A plan is carried out for the version it was made for: after another
/// update of the job it is refused and nothing is sent.
#[test]
fn execute_refuses_a_plan_for_a_stale_reading() {
    let mut ctx = Context::new();
    let stored = job(JobStatus::Created, "0", "0");
    ctx.store.create_job(stored.clone()).unwrap();

    let first = plan_lock(&stored);
    let second = Plan {
        update: Some(JobUpdate {
            status: Some(JobStatus::Failed),
            external_id: None,
            metadata: None,
        }),
        enqueue: Some(QueueRequest { queue: QueueName::Processing, delay: 0 }),
        result: Ok(()),
    };
    assert_eq!(execute(&mut ctx, &stored, first), Ok(()));
    assert_eq!(execute(&mut ctx, &stored, second), Err(JobError::StaleVersion));

    let now = ctx.store.get_job_by_id(11).unwrap();
    assert_eq!(now.status, JobStatus::LockedForProcessing);
    assert_eq!(now.version, 4);
    assert_eq!(ctx.queue.pending_len(), 0);
}

/// A plan without an update sends nothing and returns its result.
#[test]
fn execute_of_a_refusal_changes_nothing() {
    let mut ctx = Context::new();
    let stored = job(JobStatus::Completed, "0", "0");
    ctx.store.create_job(stored.clone()).unwrap();
    let result = execute(&mut ctx, &stored, plan_lock(&stored));
    assert_eq!(result, Err(JobError::InvalidState(JobStatus::Completed)));
    assert_eq!(ctx.store.get_job_by_id(11).unwrap(), stored);
}

#[test]
fn initial_job_record_sets_what_the_engine_owns() {
    let built = job(JobStatus::Failed, "9", "9");
    let record = initial_job_record(built, JobType::SnosRun, "100".to_string());
    assert_eq!(record.id, 11);
    assert_eq!(record.internal_id, "100");
    assert_eq!(record.job_type, JobType::SnosRun);
    assert_eq!(record.status, JobStatus::Created);
    assert_eq!(record.version, 0);
    assert_eq!(record.external_id, ExternalId::Number(0));
    assert_eq!(record.metadata.get("process_attempt").unwrap(), "0");
    assert_eq!(record.metadata.get("verification_attempt").unwrap(), "0");
}
