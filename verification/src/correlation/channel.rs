//! The bounded queue from the sources (capture, attribution, keylog) to correlation. A
//! sender never waits and never fails: when the queue is full the report is dropped, since
//! each source keeps its own record.

use vstd::prelude::*;

use crate::attribution::AttributionEvent;
use crate::capture::CapturedPacket;
use crate::keylog::DecryptedFragment;

use super::event::CorrelationEvent;

verus! {

/// How many reports may wait for correlation.
pub const CHANNEL_CAPACITY: usize = 1024;

/// The queue after offering `event`: appended when there is room, else unchanged.
pub open spec fn offered(queue: Seq<CorrelationEvent>, event: CorrelationEvent) -> Seq<CorrelationEvent> {
    if queue.len() < CHANNEL_CAPACITY {
        queue.push(event)
    } else {
        queue
    }
}

/// The reports waiting for correlation, oldest first.
pub struct CorrelationSender {
    queue: Vec<CorrelationEvent>,
}

impl CorrelationSender {
    #[verifier::type_invariant]
    spec fn bounded(&self) -> bool {
        self.queue@.len() <= CHANNEL_CAPACITY
    }

    pub closed spec fn pending(&self) -> Seq<CorrelationEvent> {
        self.queue@
    }

    fn offer(&mut self, event: CorrelationEvent)
        ensures
            final(self).pending() == offered(old(self).pending(), event),
    {
        proof {
            use_type_invariant(&*self);
        }
        let mut q: Vec<CorrelationEvent> = Vec::new();
        std::mem::swap(&mut q, &mut self.queue);
        if q.len() < CHANNEL_CAPACITY {
            q.push(event);
        }
        self.queue = q;
    }

    pub fn send_capture(&mut self, packet: CapturedPacket)
        ensures
            final(self).pending() == offered(old(self).pending(), CorrelationEvent::Capture(packet)),
    {
        self.offer(CorrelationEvent::Capture(packet));
    }

    pub fn send_attribution(&mut self, event: AttributionEvent)
        ensures
            final(self).pending() == offered(old(self).pending(), CorrelationEvent::Attribution(event)),
    {
        self.offer(CorrelationEvent::Attribution(event));
    }

    pub fn send_decryption(&mut self, fragment: DecryptedFragment)
        ensures
            final(self).pending() == offered(
                old(self).pending(),
                CorrelationEvent::Decryption(fragment),
            ),
    {
        self.offer(CorrelationEvent::Decryption(fragment));
    }

    /// The oldest waiting report, removed from the queue; `None` when nothing waits.
    pub fn try_recv(&mut self) -> (r: Option<CorrelationEvent>)
        ensures
            old(self).pending().len() == 0 ==> r is None
                && final(self).pending() == old(self).pending(),
            old(self).pending().len() > 0 ==> r == Some(old(self).pending()[0])
                && final(self).pending() == old(self).pending().drop_first(),
    {
        proof {
            use_type_invariant(&*self);
        }
        if self.queue.len() == 0 {
            None
        } else {
            let mut q: Vec<CorrelationEvent> = Vec::new();
            std::mem::swap(&mut q, &mut self.queue);
            let e = q.remove(0);
            self.queue = q;
            assert(self.queue@ =~= old(self).pending().drop_first());
            Some(e)
        }
    }

    /// How many reports wait; never more than the capacity.
    pub fn len(&self) -> (n: usize)
        ensures
            n == self.pending().len(),
            n <= CHANNEL_CAPACITY,
    {
        proof {
            use_type_invariant(self);
        }
        self.queue.len()
    }
}

/// A new, empty queue.
pub fn channel() -> (s: CorrelationSender)
    ensures
        s.pending().len() == 0,
{
    CorrelationSender { queue: Vec::new() }
}

/// The queue after offering `events`, in order.
pub open spec fn offered_all(queue: Seq<CorrelationEvent>, events: Seq<CorrelationEvent>) -> Seq<
    CorrelationEvent,
>
    decreases events.len(),
{
    if events.len() == 0 {
        queue
    } else {
        offered(offered_all(queue, events.drop_last()), events.last())
    }
}

/// Sending without receiving keeps the reports in the order they were sent, up to the
/// capacity; every report sent after that is dropped.
pub proof fn lemma_keeps_first_in_order(events: Seq<CorrelationEvent>)
    ensures
        offered_all(Seq::empty(), events) == events.take(
            if events.len() < CHANNEL_CAPACITY {
                events.len() as int
            } else {
                CHANNEL_CAPACITY as int
            },
        ),
    decreases events.len(),
{
    if events.len() > 0 {
        let rest = events.drop_last();
        lemma_keeps_first_in_order(rest);
        if rest.len() < CHANNEL_CAPACITY {
            assert(rest.take(rest.len() as int).push(events.last()) =~= events.take(events.len() as int));
        } else {
            assert(rest.take(CHANNEL_CAPACITY as int) =~= events.take(CHANNEL_CAPACITY as int));
        }
    }
}

/// First in, first out: while there is room, offering a report does not change which report
/// comes out next, and receiving then offering gives the same queue as offering then
/// receiving.
pub proof fn lemma_first_in_first_out(queue: Seq<CorrelationEvent>, event: CorrelationEvent)
    requires
        0 < queue.len() < CHANNEL_CAPACITY,
    ensures
        offered(queue, event)[0] == queue[0],
        offered(queue, event).drop_first() == offered(queue.drop_first(), event),
{
    assert(offered(queue, event).drop_first() =~= offered(queue.drop_first(), event));
}

} // verus!
