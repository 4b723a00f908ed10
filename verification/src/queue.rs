//! The two work queues, with delayed delivery and a dead-letter list.
//!
//! Time is a count of seconds that the owner of the queue moves forward. A
//! message is not handed out before the second it was delayed to. Messages of
//! one queue that are due are handed out in the order in which they came.

use crate::errors::{result_view, JobError, JobErrorView};
use vstd::prelude::*;
use vstd::string::*;

verus! {

/// Name of the queue whose messages ask for a job to be processed.
pub const JOB_PROCESSING_QUEUE: &'static str = "job_processing_queue";

/// Name of the queue whose messages ask for a job to be verified.
pub const JOB_VERIFICATION_QUEUE: &'static str = "job_verification_queue";

/// One of the two queues.
#[derive(Clone, Copy, Debug, PartialEq, Eq, Hash, Structural)]
pub enum QueueName {
    Processing,
    Verification,
}

impl QueueName {
    /// The name of the queue at the broker.
    pub fn as_str(&self) -> (r: &'static str)
        ensures
            r@ == (match self {
                QueueName::Processing => JOB_PROCESSING_QUEUE@,
                QueueName::Verification => JOB_VERIFICATION_QUEUE@,
            }),
    {
        match self {
            QueueName::Processing => JOB_PROCESSING_QUEUE,
            QueueName::Verification => JOB_VERIFICATION_QUEUE,
        }
    }
}

/// What a message carries: the identifier of the job it is about.
#[derive(Clone, Copy, Debug, PartialEq, Eq, Structural)]
pub struct JobQueueMessage {
    pub id: u128,
}

/// A message waiting in a queue.
#[derive(Clone, Copy, Debug, PartialEq, Eq, Structural)]
pub struct QueuedMessage {
    /// The queue it waits in.
    pub queue: QueueName,
    /// What it carries.
    pub payload: JobQueueMessage,
    /// The second from which on it may be handed out.
    pub ready_at: u64,
    /// How often it was handed out before.
    pub deliveries: u64,
}

/// A message that was handed out and waits to be acknowledged.
#[derive(Clone, Copy, Debug, PartialEq, Eq, Structural)]
pub struct Delivery {
    /// The queue it came from.
    pub queue: QueueName,
    /// What it carries.
    pub payload: JobQueueMessage,
    /// How often it was handed out, this time included.
    pub deliveries: u64,
}

/// A message that was given up, with the reason.
#[derive(Debug)]
pub struct DeadLetter {
    pub queue: QueueName,
    pub payload: JobQueueMessage,
    pub reason: String,
}

/// What a `DeadLetter` holds.
pub struct DeadLetterView {
    pub queue: QueueName,
    pub payload: JobQueueMessage,
    pub reason: Seq<char>,
}

impl View for DeadLetter {
    type V = DeadLetterView;

    open spec fn view(&self) -> DeadLetterView {
        DeadLetterView { queue: self.queue, payload: self.payload, reason: self.reason@ }
    }
}

/// Why nothing was handed out.
#[derive(Clone, Copy, Debug, PartialEq, Eq, Structural)]
pub enum QueueError {
    /// No message of the queue is due.
    NoData,
}

/// What the queues hold.
pub struct QueueView {
    /// The current second.
    pub now: u64,
    /// The messages that wait, oldest first.
    pub pending: Seq<QueuedMessage>,
    /// The messages that were given up, oldest first.
    pub dead: Seq<DeadLetterView>,
}

/// The second to which a message sent at `now` with `delay` is delayed.
pub open spec fn due(now: u64, delay: u64) -> u64 {
    if now + delay > u64::MAX {
        u64::MAX
    } else {
        (now + delay) as u64
    }
}

/// The message is in the queue and may be handed out at `now`.
pub open spec fn deliverable(m: QueuedMessage, queue: QueueName, now: u64) -> bool {
    m.queue == queue && m.ready_at <= now
}

/// `i` is the place of the first message that may be handed out.
pub open spec fn is_first_ready(s: Seq<QueuedMessage>, i: int, queue: QueueName, now: u64) -> bool {
    &&& 0 <= i < s.len()
    &&& deliverable(s[i], queue, now)
    &&& forall|k: int| 0 <= k < i ==> !deliverable(#[trigger] s[k], queue, now)
}

/// The queues after a message for the job `id` was sent to `queue`.
pub open spec fn enqueued(q: QueueView, queue: QueueName, id: u128, delay: u64) -> QueueView {
    QueueView {
        pending: q.pending.push(
            QueuedMessage {
                queue,
                payload: JobQueueMessage { id },
                ready_at: due(q.now, delay),
                deliveries: 0,
            },
        ),
        ..q
    }
}

/// The work queues of one orchestrator.
#[derive(Debug)]
pub struct JobQueue {
    now: u64,
    pending: Vec<QueuedMessage>,
    dead: Vec<DeadLetter>,
}

impl View for JobQueue {
    type V = QueueView;

    closed spec fn view(&self) -> QueueView {
        QueueView {
            now: self.now,
            pending: self.pending@,
            dead: self.dead@.map_values(|d: DeadLetter| d@),
        }
    }
}

impl JobQueue {
    /// Empty queues at second zero.
    pub fn new() -> (q: JobQueue)
        ensures
            q@ == (QueueView {
                now: 0,
                pending: Seq::<QueuedMessage>::empty(),
                dead: Seq::<DeadLetterView>::empty(),
            }),
    {
        let q = JobQueue { now: 0, pending: Vec::new(), dead: Vec::new() };
        assert(q@.dead =~= Seq::<DeadLetterView>::empty());
        q
    }

    /// The current second.
    pub fn now(&self) -> (t: u64)
        ensures
            t == self@.now,
    {
        self.now
    }

    /// Moves time forward by `seconds`; it stops at the last second there is.
    pub fn advance(&mut self, seconds: u64)
        ensures
            final(self)@ == (QueueView { now: due(old(self)@.now, seconds), ..old(self)@ }),
    {
        self.now = self.now.saturating_add(seconds);
    }

    /// Sends a message for the job `id` to `queue`, not to be handed out
    /// before `delay` seconds have passed; without a delay it is due at once.
    pub fn enqueue(&mut self, queue: QueueName, payload: JobQueueMessage, delay: Option<u64>)
        ensures
            final(self)@ == enqueued(
                old(self)@,
                queue,
                payload.id,
                match delay {
                    Some(d) => d,
                    None => 0,
                },
            ),
    {
        let wait: u64 = match delay {
            Some(d) => d,
            None => 0,
        };
        let ready_at: u64 = self.now.saturating_add(wait);
        self.pending.push(QueuedMessage { queue, payload, ready_at, deliveries: 0 });
    }

    /// Hands out the first message of `queue` that is due and takes it from
    /// the queue; `NoData` where none is due.
    pub fn consume(&mut self, queue: QueueName) -> (r: Result<Delivery, QueueError>)
        ensures
            match r {
                Ok(d) => exists|i: int|
                    {
                        &&& is_first_ready(old(self)@.pending, i, queue, old(self)@.now)
                        &&& d.queue == queue
                        &&& d.payload == (#[trigger] old(self)@.pending[i]).payload
                        &&& d.deliveries == if old(self)@.pending[i].deliveries == u64::MAX {
                            u64::MAX
                        } else {
                            (old(self)@.pending[i].deliveries + 1) as u64
                        }
                        &&& final(self)@ == (QueueView {
                            pending: old(self)@.pending.remove(i),
                            ..old(self)@
                        })
                    },
                Err(e) => {
                    &&& e == QueueError::NoData
                    &&& forall|i: int|
                        0 <= i < old(self)@.pending.len() ==> !deliverable(
                            #[trigger] old(self)@.pending[i],
                            queue,
                            old(self)@.now,
                        )
                    &&& final(self)@ == old(self)@
                },
            },
    {
        let mut i: usize = 0;
        while i < self.pending.len()
            invariant
                i <= self.pending@.len(),
                *self == *old(self),
                forall|k: int| 0 <= k < i ==> !deliverable(#[trigger] self.pending@[k], queue, self.now),
            decreases self.pending@.len() - i,
        {
            let m = self.pending[i];
            if m.queue == queue && m.ready_at <= self.now {
                let taken = self.pending.remove(i);
                assert(is_first_ready(old(self)@.pending, i as int, queue, old(self)@.now));
                return Ok(
                    Delivery {
                        queue,
                        payload: taken.payload,
                        deliveries: taken.deliveries.saturating_add(1),
                    },
                );
            }
            i = i + 1;
        }
        Err(QueueError::NoData)
    }

    /// Acknowledges a message: it is done with.
    pub fn ack(&mut self, delivery: Delivery)
        ensures
            final(self)@ == old(self)@,
    {
    }

    /// Gives a message back: it waits in its queue again, due at once, and
    /// remembers how often it was handed out.
    pub fn nack(&mut self, delivery: Delivery)
        ensures
            final(self)@ == (QueueView {
                pending: old(self)@.pending.push(
                    QueuedMessage {
                        queue: delivery.queue,
                        payload: delivery.payload,
                        ready_at: old(self)@.now,
                        deliveries: delivery.deliveries,
                    },
                ),
                ..old(self)@
            }),
    {
        self.pending.push(
            QueuedMessage {
                queue: delivery.queue,
                payload: delivery.payload,
                ready_at: self.now,
                deliveries: delivery.deliveries,
            },
        );
    }

    /// Gives a message up: it goes to the dead letters with the reason.
    pub fn send_to_dead_letter(&mut self, delivery: Delivery, reason: String)
        ensures
            final(self)@ == (QueueView {
                dead: old(self)@.dead.push(
                    DeadLetterView {
                        queue: delivery.queue,
                        payload: delivery.payload,
                        reason: reason@,
                    },
                ),
                ..old(self)@
            }),
    {
        let letter = DeadLetter { queue: delivery.queue, payload: delivery.payload, reason };
        let ghost before = self.dead@;
        self.dead.push(letter);
        assert(self.dead@.map_values(|d: DeadLetter| d@) =~= before.map_values(
            |d: DeadLetter| d@,
        ).push(letter@));
    }

    /// Takes the oldest dead letter, if there is one.
    pub fn take_dead_letter(&mut self) -> (r: Option<DeadLetter>)
        ensures
            match r {
                Some(letter) => old(self)@.dead.len() > 0 && letter@ == old(self)@.dead[0]
                    && final(self)@ == (QueueView {
                    dead: old(self)@.dead.drop_first(),
                    ..old(self)@
                }),
                None => old(self)@.dead.len() == 0 && final(self)@ == old(self)@,
            },
    {
        if self.dead.len() == 0 {
            return None;
        }
        let ghost before = self.dead@;
        let letter = self.dead.remove(0);
        assert(self.dead@.map_values(|d: DeadLetter| d@) =~= before.map_values(
            |d: DeadLetter| d@,
        ).drop_first());
        Some(letter)
    }

    /// Number of messages that wait, due or not.
    pub fn pending_len(&self) -> (n: usize)
        ensures
            n == self@.pending.len(),
    {
        self.pending.len()
    }

    /// Number of dead letters.
    pub fn dead_len(&self) -> (n: usize)
        ensures
            n == self@.dead.len(),
    {
        self.dead.len()
    }
}

/// What to do with a message once the work it asked for has returned.
#[derive(Clone, Copy, Debug, PartialEq, Eq, Structural)]
pub enum Disposition {
    /// Done with: the work went through, or the message was a repeat.
    Ack,
    /// Back to the queue: another delivery may go through.
    Nack,
    /// Given up: no delivery will go through.
    DeadLetter,
}

/// The policy: work that went through is acknowledged, and so is a message
/// that found its job in another status than it asks for, which is a repeat.
/// A lost race, a failed handler and an unreachable backend are tried again.
/// A job that is not found is tried again once and then given up. What no
/// repetition can mend is given up at once.
pub open spec fn disposition_of(result: Result<(), JobErrorView>, deliveries: u64) -> Disposition {
    match result {
        Ok(_) => Disposition::Ack,
        Err(e) => match e {
            JobErrorView::Duplicate => Disposition::Ack,
            JobErrorView::InvalidState(_) => Disposition::Ack,
            JobErrorView::InvalidStateOnDeadLetter(_) => Disposition::Ack,
            JobErrorView::NotFound => if deliveries <= 1 {
                Disposition::Nack
            } else {
                Disposition::DeadLetter
            },
            JobErrorView::StaleVersion => Disposition::Nack,
            JobErrorView::HandlerError(_) => Disposition::Nack,
            JobErrorView::BackendUnavailable => Disposition::Nack,
            JobErrorView::HandlerNotFound(_) => Disposition::DeadLetter,
            JobErrorView::Counter(_) => Disposition::DeadLetter,
            JobErrorView::VersionOverflow => Disposition::DeadLetter,
            JobErrorView::InternalIdNotANumber => Disposition::DeadLetter,
        },
    }
}

/// Decides what becomes of a message that was handed out `deliveries` times,
/// from what the work returned.
pub fn disposition(result: &Result<(), JobError>, deliveries: u64) -> (r: Disposition)
    ensures
        r == disposition_of(result_view(*result), deliveries),
{
    match result {
        Ok(_) => Disposition::Ack,
        Err(e) => match e {
            JobError::Duplicate => Disposition::Ack,
            JobError::InvalidState(_) => Disposition::Ack,
            JobError::InvalidStateOnDeadLetter(_) => Disposition::Ack,
            JobError::NotFound => if deliveries <= 1 {
                Disposition::Nack
            } else {
                Disposition::DeadLetter
            },
            JobError::StaleVersion => Disposition::Nack,
            JobError::HandlerError(_) => Disposition::Nack,
            JobError::BackendUnavailable => Disposition::Nack,
            JobError::HandlerNotFound(_) => Disposition::DeadLetter,
            JobError::Counter(_) => Disposition::DeadLetter,
            JobError::VersionOverflow => Disposition::DeadLetter,
            JobError::InternalIdNotANumber => Disposition::DeadLetter,
        },
    }
}

} // verus!
