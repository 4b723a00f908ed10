use orchestrator::consumer::{consume_job_from_queue, handle_dead_letter, settle};
use orchestrator::errors::JobError;
use orchestrator::handler::{HandlerRegistry, Job};
use orchestrator::lifecycle::Context;
use orchestrator::metadata::{CounterError, Metadata};
use orchestrator::queue::{
    disposition, Delivery, Disposition, JobQueue, JobQueueMessage, QueueError, QueueName,
    JOB_PROCESSING_QUEUE, JOB_VERIFICATION_QUEUE,
};
use orchestrator::types::{ExternalId, JobItem, JobStatus, JobType, JobVerificationStatus};

struct FixedJob {
    processed: Result<String, String>,
    verified: Result<u8, String>,
}

impl Job for FixedJob {
    fn create_job(&self, _internal_id: String, _metadata: Metadata) -> Result<JobItem, String> {
        Err("not used".to_string())
    }

    fn process_job(&self, _job: &JobItem) -> Result<String, String> {
        self.processed.clone()
    }

    fn verify_job(&self, _job: &JobItem) -> Result<JobVerificationStatus, String> {
        match &self.verified {
            Ok(0) => Ok(JobVerificationStatus::Pending),
            Ok(1) => Ok(JobVerificationStatus::Verified),
            Ok(_) => Ok(JobVerificationStatus::Rejected("rejected".to_string())),
            Err(reason) => Err(reason.clone()),
        }
    }

    fn max_process_attempts(&self) -> u64 {
        1
    }

    fn max_verification_attempts(&self) -> u64 {
        1
    }

    fn verification_polling_delay_seconds(&self) -> u64 {
        4
    }
}

fn registry(processed: Result<String, String>, verified: Result<u8, String>) -> HandlerRegistry<FixedJob> {
    let mut registry = HandlerRegistry::new();
    registry.register(JobType::SnosRun, FixedJob { processed, verified });
    registry
}

fn job(id: u128, status: JobStatus) -> JobItem {
    JobItem {
        id,
        internal_id: id.to_string(),
        job_type: JobType::SnosRun,
        status,
        external_id: ExternalId::Number(0),
        metadata: Metadata::new(),
        version: 0,
    }
}

fn message(id: u128) -> JobQueueMessage {
    JobQueueMessage { id }
}

#[test]
fn queue_names() {
    assert_eq!(JOB_PROCESSING_QUEUE, "job_processing_queue");
    assert_eq!(JOB_VERIFICATION_QUEUE, "job_verification_queue");
    assert_eq!(QueueName::Processing.as_str(), "job_processing_queue");
    assert_eq!(QueueName::Verification.as_str(), "job_verification_queue");
}

#[test]
fn empty_queue_has_no_data() {
    let mut queue = JobQueue::new();
    assert_eq!(queue.now(), 0);
    assert_eq!(queue.consume(QueueName::Processing), Err(QueueError::NoData));
    assert_eq!(queue.consume(QueueName::Verification), Err(QueueError::NoData));
    assert_eq!(queue.pending_len(), 0);
    assert_eq!(queue.dead_len(), 0);
}

#[test]
fn message_without_delay_is_due_at_once() {
    let mut queue = JobQueue::new();
    queue.enqueue(QueueName::Processing, message(7), None);
    assert_eq!(queue.pending_len(), 1);
    let delivery = queue.consume(QueueName::Processing).unwrap();
    assert_eq!(
        delivery,
        Delivery { queue: QueueName::Processing, payload: message(7), deliveries: 1 }
    );
    assert_eq!(queue.pending_len(), 0);
    assert_eq!(queue.consume(QueueName::Processing), Err(QueueError::NoData));
}

#[test]
fn message_waits_in_its_own_queue() {
    let mut queue = JobQueue::new();
    queue.enqueue(QueueName::Verification, message(7), Some(0));
    assert_eq!(queue.consume(QueueName::Processing), Err(QueueError::NoData));
    assert_eq!(queue.consume(QueueName::Verification).unwrap().payload.id, 7);
}

/// A delayed message is not handed out before its delay has passed.
#[test]
fn delayed_message_is_not_handed_out_early() {
    let mut queue = JobQueue::new();
    queue.advance(10);
    queue.enqueue(QueueName::Verification, message(7), Some(2));
    assert_eq!(queue.consume(QueueName::Verification), Err(QueueError::NoData));
    queue.advance(1);
    assert_eq!(queue.now(), 11);
    assert_eq!(queue.consume(QueueName::Verification), Err(QueueError::NoData));
    queue.advance(1);
    assert_eq!(queue.consume(QueueName::Verification).unwrap().payload.id, 7);
}

/// Of the messages that are due the oldest is handed out; one that is not
/// due yet is passed over.
#[test]
fn due_messages_come_in_order() {
    let mut queue = JobQueue::new();
    queue.enqueue(QueueName::Processing, message(1), Some(5));
    queue.enqueue(QueueName::Processing, message(2), None);
    queue.enqueue(QueueName::Verification, message(3), None);
    queue.enqueue(QueueName::Processing, message(4), None);
    assert_eq!(queue.consume(QueueName::Processing).unwrap().payload.id, 2);
    queue.advance(5);
    assert_eq!(queue.consume(QueueName::Processing).unwrap().payload.id, 1);
    assert_eq!(queue.consume(QueueName::Processing).unwrap().payload.id, 4);
    assert_eq!(queue.consume(QueueName::Processing), Err(QueueError::NoData));
    assert_eq!(queue.consume(QueueName::Verification).unwrap().payload.id, 3);
}

#[test]
fn time_stops_at_the_last_second() {
    let mut queue = JobQueue::new();
    queue.advance(u64::MAX - 1);
    queue.enqueue(QueueName::Processing, message(1), Some(10));
    queue.advance(5);
    assert_eq!(queue.now(), u64::MAX);
    assert_eq!(queue.consume(QueueName::Processing).unwrap().payload.id, 1);
}

#[test]
fn ack_is_the_end_of_a_message() {
    let mut queue = JobQueue::new();
    queue.enqueue(QueueName::Processing, message(1), None);
    let delivery = queue.consume(QueueName::Processing).unwrap();
    queue.ack(delivery);
    assert_eq!(queue.pending_len(), 0);
    assert_eq!(queue.dead_len(), 0);
    assert_eq!(queue.consume(QueueName::Processing), Err(QueueError::NoData));
}

/// A message that was given back is handed out again and counts its
/// deliveries.
#[test]
fn nack_brings_the_message_back() {
    let mut queue = JobQueue::new();
    queue.enqueue(QueueName::Processing, message(1), None);
    let first = queue.consume(QueueName::Processing).unwrap();
    assert_eq!(first.deliveries, 1);
    queue.nack(first);
    assert_eq!(queue.pending_len(), 1);
    let second = queue.consume(QueueName::Processing).unwrap();
    assert_eq!(second.payload.id, 1);
    assert_eq!(second.deliveries, 2);
}

#[test]
fn dead_letters_are_kept_in_order() {
    let mut queue = JobQueue::new();
    queue.enqueue(QueueName::Processing, message(1), None);
    queue.enqueue(QueueName::Verification, message(2), None);
    let a = queue.consume(QueueName::Processing).unwrap();
    let b = queue.consume(QueueName::Verification).unwrap();
    queue.send_to_dead_letter(a, "first".to_string());
    queue.send_to_dead_letter(b, "second".to_string());
    assert_eq!(queue.dead_len(), 2);
    assert_eq!(queue.pending_len(), 0);

    let letter = queue.take_dead_letter().unwrap();
    assert_eq!(letter.payload.id, 1);
    assert_eq!(letter.queue, QueueName::Processing);
    assert_eq!(letter.reason, "first");
    let letter = queue.take_dead_letter().unwrap();
    assert_eq!(letter.payload.id, 2);
    assert_eq!(letter.reason, "second");
    assert!(queue.take_dead_letter().is_none());
}

/// The policy for each outcome of the work.
#[test]
fn disposition_of_each_outcome() {
    assert_eq!(disposition(&Ok(()), 1), Disposition::Ack);
    assert_eq!(disposition(&Err(JobError::Duplicate), 1), Disposition::Ack);
    assert_eq!(disposition(&Err(JobError::InvalidState(JobStatus::Completed)), 1), Disposition::Ack);
    assert_eq!(
        disposition(&Err(JobError::InvalidStateOnDeadLetter(JobStatus::Completed)), 1),
        Disposition::Ack
    );
    assert_eq!(disposition(&Err(JobError::StaleVersion), 1), Disposition::Nack);
    assert_eq!(disposition(&Err(JobError::StaleVersion), 9), Disposition::Nack);
    assert_eq!(disposition(&Err(JobError::HandlerError("x".to_string())), 3), Disposition::Nack);
    assert_eq!(disposition(&Err(JobError::BackendUnavailable), 3), Disposition::Nack);
    assert_eq!(
        disposition(&Err(JobError::HandlerNotFound(JobType::SnosRun)), 1),
        Disposition::DeadLetter
    );
    assert_eq!(
        disposition(&Err(JobError::Counter(CounterError::NotANumber)), 1),
        Disposition::DeadLetter
    );
    assert_eq!(
        disposition(&Err(JobError::Counter(CounterError::Overflow)), 1),
        Disposition::DeadLetter
    );
    assert_eq!(disposition(&Err(JobError::VersionOverflow), 1), Disposition::DeadLetter);
    assert_eq!(disposition(&Err(JobError::InternalIdNotANumber), 1), Disposition::DeadLetter);
}

/// A job that is not found is tried once more and then given up.
#[test]
fn disposition_of_not_found_depends_on_deliveries() {
    assert_eq!(disposition(&Err(JobError::NotFound), 0), Disposition::Nack);
    assert_eq!(disposition(&Err(JobError::NotFound), 1), Disposition::Nack);
    assert_eq!(disposition(&Err(JobError::NotFound), 2), Disposition::DeadLetter);
    assert_eq!(disposition(&Err(JobError::NotFound), u64::MAX), Disposition::DeadLetter);
}

#[test]
fn settle_gives_up_with_the_error_in_words() {
    let mut ctx = Context::new();
    let delivery = Delivery { queue: QueueName::Processing, payload: message(3), deliveries: 1 };
    let d = settle(&mut ctx, delivery, &Err(JobError::HandlerNotFound(JobType::SnosRun)));
    assert_eq!(d, Disposition::DeadLetter);
    assert_eq!(ctx.queue.pending_len(), 0);
    let letter = ctx.queue.take_dead_letter().unwrap();
    assert_eq!(letter.reason, "Job type not implemented yet.");
    assert_eq!(letter.payload.id, 3);
}

#[test]
fn consumer_without_message_does_nothing() {
    let registry = registry(Ok("0x1".to_string()), Ok(1));
    let mut ctx = Context::new();
    ctx.store.create_job(job(1, JobStatus::Created)).unwrap();
    assert!(consume_job_from_queue(&mut ctx, &registry, QueueName::Processing).is_none());
    assert_eq!(ctx.store.get_job_by_id(1).unwrap(), job(1, JobStatus::Created));
}

/// A processing message is worked off and acknowledged; the verification
/// message it leads to is worked off in turn once it is due.
#[test]
fn consumer_processes_then_verifies() {
    let registry = registry(Ok("0x1".to_string()), Ok(1));
    let mut ctx = Context::new();
    ctx.store.create_job(job(1, JobStatus::Created)).unwrap();
    ctx.queue.enqueue(QueueName::Processing, message(1), None);

    let settlement = consume_job_from_queue(&mut ctx, &registry, QueueName::Processing).unwrap();
    assert_eq!(settlement.disposition, Disposition::Ack);
    assert_eq!(settlement.result, Ok(()));
    assert_eq!(settlement.delivery.payload.id, 1);
    assert_eq!(ctx.store.get_job_by_id(1).unwrap().status, JobStatus::PendingVerification);

    assert!(consume_job_from_queue(&mut ctx, &registry, QueueName::Verification).is_none());
    ctx.queue.advance(4);
    let settlement = consume_job_from_queue(&mut ctx, &registry, QueueName::Verification).unwrap();
    assert_eq!(settlement.disposition, Disposition::Ack);
    assert_eq!(ctx.store.get_job_by_id(1).unwrap().status, JobStatus::Completed);
    assert_eq!(ctx.queue.pending_len(), 0);
    assert_eq!(ctx.queue.dead_len(), 0);
}

/// A message that is delivered a second time finds its job in another
/// status and is acknowledged without a change.
#[test]
fn consumer_acknowledges_a_repeated_message() {
    let registry = registry(Ok("0x1".to_string()), Ok(1));
    let mut ctx = Context::new();
    ctx.store.create_job(job(1, JobStatus::Created)).unwrap();
    ctx.queue.enqueue(QueueName::Processing, message(1), None);
    ctx.queue.enqueue(QueueName::Processing, message(1), None);

    consume_job_from_queue(&mut ctx, &registry, QueueName::Processing).unwrap();
    let after_first = ctx.store.get_job_by_id(1).unwrap();
    let settlement = consume_job_from_queue(&mut ctx, &registry, QueueName::Processing).unwrap();
    assert_eq!(settlement.result, Err(JobError::InvalidState(JobStatus::PendingVerification)));
    assert_eq!(settlement.disposition, Disposition::Ack);
    assert_eq!(ctx.store.get_job_by_id(1).unwrap(), after_first);
    assert!(consume_job_from_queue(&mut ctx, &registry, QueueName::Processing).is_none());
}

/// A failed handler leaves the message for another delivery.
#[test]
fn consumer_gives_back_after_handler_failure() {
    let registry = registry(Err("down".to_string()), Ok(1));
    let mut ctx = Context::new();
    ctx.store.create_job(job(1, JobStatus::Created)).unwrap();
    ctx.queue.enqueue(QueueName::Processing, message(1), None);

    let settlement = consume_job_from_queue(&mut ctx, &registry, QueueName::Processing).unwrap();
    assert_eq!(settlement.result, Err(JobError::HandlerError("down".to_string())));
    assert_eq!(settlement.disposition, Disposition::Nack);
    assert_eq!(ctx.queue.pending_len(), 1);
    let again = ctx.queue.consume(QueueName::Processing).unwrap();
    assert_eq!(again.deliveries, 2);
}

/// A message for a job that does not exist is given back once and then
/// given up; working off the dead letter finds no job either.
#[test]
fn consumer_gives_up_on_unknown_job_at_second_delivery() {
    let registry = registry(Ok("0x1".to_string()), Ok(1));
    let mut ctx = Context::new();
    ctx.queue.enqueue(QueueName::Verification, message(9), None);

    let first = consume_job_from_queue(&mut ctx, &registry, QueueName::Verification).unwrap();
    assert_eq!(first.result, Err(JobError::NotFound));
    assert_eq!(first.disposition, Disposition::Nack);
    let second = consume_job_from_queue(&mut ctx, &registry, QueueName::Verification).unwrap();
    assert_eq!(second.result, Err(JobError::NotFound));
    assert_eq!(second.disposition, Disposition::DeadLetter);
    assert_eq!(ctx.queue.pending_len(), 0);
    assert_eq!(ctx.queue.dead_len(), 1);

    assert_eq!(handle_dead_letter(&mut ctx), Some(Err(JobError::NotFound)));
    assert_eq!(ctx.queue.dead_len(), 0);
    assert_eq!(handle_dead_letter(&mut ctx), None);
}

/// A job whose type has no handler is given up at once, and working off
/// the dead letter fails the job.
#[test]
fn consumer_dead_letters_job_without_handler_and_fails_it() {
    let registry: HandlerRegistry<FixedJob> = HandlerRegistry::new();
    let mut ctx = Context::new();
    ctx.store.create_job(job(1, JobStatus::PendingVerification)).unwrap();
    ctx.queue.enqueue(QueueName::Verification, message(1), None);

    let settlement = consume_job_from_queue(&mut ctx, &registry, QueueName::Verification).unwrap();
    assert_eq!(settlement.result, Err(JobError::HandlerNotFound(JobType::SnosRun)));
    assert_eq!(settlement.disposition, Disposition::DeadLetter);

    assert_eq!(handle_dead_letter(&mut ctx), Some(Ok(())));
    let failed = ctx.store.get_job_by_id(1).unwrap();
    assert_eq!(failed.status, JobStatus::Failed);
    assert_eq!(failed.metadata.get("last_job_status").unwrap(), "PendingVerification");
}
