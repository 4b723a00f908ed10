//! The dispatch loop: one turn takes a message that is due from a queue,
//! runs the entry point of the lifecycle engine that the queue stands for,
//! and settles the message by what came back. Messages that were given up
//! are worked off by failing their jobs.

use crate::errors::{message_text, result_view, JobError, JobErrorView};
use crate::handler::{HandlerRegistry, Job};
use crate::lifecycle::{
    fail_step,
    handle_job_failure,
    process_job,
    processes,
    verifies,
    verify_job,
    Context,
    ContextView,
};
use crate::queue::{
    deliverable,
    disposition,
    disposition_of,
    is_first_ready,
    DeadLetterView,
    Delivery,
    Disposition,
    QueueName,
    QueueView,
    QueuedMessage,
};
use vstd::prelude::*;
use vstd::string::*;

verus! {

/// The queues after a message that was handed out is settled by what the
/// work returned: acknowledged, it is gone; given back, it waits again, due
/// at once; given up, it joins the dead letters with the error in words.
pub open spec fn settled(q: QueueView, delivery: Delivery, result: Result<(), JobErrorView>) -> QueueView {
    match disposition_of(result, delivery.deliveries) {
        Disposition::Ack => q,
        Disposition::Nack => QueueView {
            pending: q.pending.push(
                QueuedMessage {
                    queue: delivery.queue,
                    payload: delivery.payload,
                    ready_at: q.now,
                    deliveries: delivery.deliveries,
                },
            ),
            ..q
        },
        Disposition::DeadLetter => QueueView {
            dead: q.dead.push(
                DeadLetterView {
                    queue: delivery.queue,
                    payload: delivery.payload,
                    reason: match result {
                        Err(e) => message_text(e),
                        Ok(_) => Seq::empty(),
                    },
                },
            ),
            ..q
        },
    }
}

/// The message as it is handed out from its place in the queue.
pub open spec fn handed_out(m: QueuedMessage) -> Delivery {
    Delivery {
        queue: m.queue,
        payload: m.payload,
        deliveries: if m.deliveries == u64::MAX {
            u64::MAX
        } else {
            (m.deliveries + 1) as u64
        },
    }
}

/// What became of a message: how it was settled, and what the work returned.
#[derive(Debug)]
pub struct Settlement {
    pub delivery: Delivery,
    pub disposition: Disposition,
    pub result: Result<(), JobError>,
}

/// Settles a message by what the work it asked for returned.
pub fn settle(ctx: &mut Context, delivery: Delivery, result: &Result<(), JobError>) -> (d:
    Disposition)
    ensures
        d == disposition_of(result_view(*result), delivery.deliveries),
        final(ctx)@ == (ContextView {
            queue: settled(old(ctx)@.queue, delivery, result_view(*result)),
            ..old(ctx)@
        }),
        final(ctx).wf() == old(ctx).wf(),
{
    let d = disposition(result, delivery.deliveries);
    match d {
        Disposition::Ack => {
            ctx.queue.ack(delivery);
        },
        Disposition::Nack => {
            ctx.queue.nack(delivery);
        },
        Disposition::DeadLetter => {
            let reason = match result {
                Err(e) => e.message(),
                Ok(_) => String::new(),
            };
            ctx.queue.send_to_dead_letter(delivery, reason);
        },
    }
    d
}

/// One turn of the consumer of `queue`. Without a message that is due
/// nothing happens. Otherwise the first such message is taken, the job it
/// names is processed (processing queue) or verified (verification queue),
/// and the message is settled by what that returned.
pub fn consume_job_from_queue<H: Job>(
    ctx: &mut Context,
    registry: &HandlerRegistry<H>,
    queue: QueueName,
) -> (r: Option<Settlement>)
    requires
        old(ctx).wf(),
    ensures
        final(ctx).wf(),
        match r {
            None => {
                &&& final(ctx)@ == old(ctx)@
                &&& forall|i: int|
                    0 <= i < old(ctx)@.queue.pending.len() ==> !deliverable(
                        #[trigger] old(ctx)@.queue.pending[i],
                        queue,
                        old(ctx)@.queue.now,
                    )
            },
            Some(s) => exists|i: int, worked: ContextView|
                {
                    &&& is_first_ready(old(ctx)@.queue.pending, i, queue, old(ctx)@.queue.now)
                    &&& s.delivery == handed_out(old(ctx)@.queue.pending[i])
                    &&& #[trigger] works(
                        taken(old(ctx)@, i),
                        *registry,
                        queue,
                        s.delivery.payload.id,
                        worked,
                        result_view(s.result),
                    )
                    &&& s.disposition == disposition_of(
                        result_view(s.result),
                        s.delivery.deliveries,
                    )
                    &&& final(ctx)@ == (ContextView {
                        queue: settled(worked.queue, s.delivery, result_view(s.result)),
                        ..worked
                    })
                },
        },
{
    let delivery = match ctx.queue.consume(queue) {
        Err(_) => {
            return None;
        },
        Ok(d) => d,
    };
    let ghost i = choose|i: int|
        {
            &&& is_first_ready(old(ctx)@.queue.pending, i, queue, old(ctx)@.queue.now)
            &&& delivery.queue == queue
            &&& delivery.payload == (#[trigger] old(ctx)@.queue.pending[i]).payload
            &&& delivery.deliveries == if old(ctx)@.queue.pending[i].deliveries == u64::MAX {
                u64::MAX
            } else {
                (old(ctx)@.queue.pending[i].deliveries + 1) as u64
            }
            &&& ctx.queue@ == (QueueView {
                pending: old(ctx)@.queue.pending.remove(i),
                ..old(ctx)@.queue
            })
        };
    assert(ctx@ == taken(old(ctx)@, i));
    let result = match queue {
        QueueName::Processing => process_job(ctx, registry, delivery.payload.id),
        QueueName::Verification => verify_job(ctx, registry, delivery.payload.id),
    };
    let ghost worked = ctx@;
    assert(works(
        taken(old(ctx)@, i),
        *registry,
        queue,
        delivery.payload.id,
        worked,
        result_view(result),
    ));
    let d = settle(ctx, delivery, &result);
    Some(Settlement { delivery, disposition: d, result })
}

/// The context after the message at place `i` was taken from its queue.
pub open spec fn taken(ctx: ContextView, i: int) -> ContextView {
    ContextView { queue: QueueView { pending: ctx.queue.pending.remove(i), ..ctx.queue }, ..ctx }
}

/// `after` and `result` are what the entry point that `queue` stands for
/// makes of `before` for the job `id`.
pub open spec fn works<H: Job>(
    before: ContextView,
    registry: HandlerRegistry<H>,
    queue: QueueName,
    id: u128,
    after: ContextView,
    result: Result<(), JobErrorView>,
) -> bool {
    match queue {
        QueueName::Processing => processes(before, registry, id, after, result),
        QueueName::Verification => verifies(before, registry, id, after, result),
    }
}

/// One turn of the consumer of the dead letters: takes the oldest one and
/// fails the job it names. Without a dead letter nothing happens.
pub fn handle_dead_letter(ctx: &mut Context) -> (r: Option<Result<(), JobError>>)
    requires
        old(ctx).wf(),
    ensures
        final(ctx).wf(),
        match r {
            None => old(ctx)@.queue.dead.len() == 0 && final(ctx)@ == old(ctx)@,
            Some(result) => old(ctx)@.queue.dead.len() > 0 && (final(ctx)@, result_view(result))
                == fail_step(
                ContextView {
                    queue: QueueView {
                        dead: old(ctx)@.queue.dead.drop_first(),
                        ..old(ctx)@.queue
                    },
                    ..old(ctx)@
                },
                old(ctx)@.queue.dead[0].payload.id,
            ),
        },
{
    match ctx.queue.take_dead_letter() {
        None => None,
        Some(letter) => Some(handle_job_failure(ctx, letter.payload.id)),
    }
}

} // verus!
