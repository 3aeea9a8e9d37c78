//! The call relay: converts one synchronous call into one queued request plus
//! a one-shot response slot, correlated by id.
//!
//! A calling thread enqueues its request with [`Relay::dispatch_enqueue`],
//! which assigns a fresh correlation id and registers a response slot, and
//! then polls [`Relay::take_response`] until the slot has been fulfilled.
//! The consumer drains requests in FIFO order with
//! [`Relay::wait_for_next`] and answers each with [`Relay::respond`], in any
//! order. Blocking and wake-ups are the embedding host's concern; this type
//! holds the state and its guarantees: fresh ids, strict FIFO delivery, and
//! exactly one response per request.

use std::collections::HashMap;
use std::collections::VecDeque;
use vstd::prelude::*;

verus! {

/// Failure of [`Relay::respond`]: no response slot is registered under the
/// given correlation id — it was never issued, was already answered, or its
/// answer was already consumed. This signals a desynchronized protocol.
#[derive(Clone, Copy, PartialEq, Eq, Structural, Debug)]
pub enum RelayError {
    UnknownCorrelationId,
}

/// A single-use handoff cell for one response: registered when the request
/// is created, fulfilled by the consumer at most once, and removed when the
/// synchronous side consumes the answer.
pub enum SlotState<Resp> {
    /// The request is outstanding; no response has been written yet.
    Waiting,
    /// The consumer has answered; the synchronous side has not yet taken it.
    Fulfilled(Resp),
}

/// The abstract state of a relay: the next correlation id, the FIFO queue of
/// pending requests, and the response slots keyed by correlation id.
#[verifier::ext_equal]
pub ghost struct RelayView<Req, Resp> {
    pub next_id: u32,
    pub queue: Seq<(u32, Req)>,
    pub slots: Map<u32, SlotState<Resp>>,
}

impl<Req, Resp> RelayView<Req, Resp> {
    /// Well-formedness: ids in the queue are pairwise distinct, and every id
    /// ever issued (queued or slotted) is below the counter.
    pub open spec fn wf(self) -> bool {
        &&& forall|p: int, q: int|
            0 <= p < q < self.queue.len() ==> (#[trigger] self.queue[p]).0 != (#[trigger] self.queue[q]).0
        &&& forall|p: int| 0 <= p < self.queue.len() ==> (#[trigger] self.queue[p]).0 < self.next_id
        &&& forall|id: u32| #[trigger] self.slots.contains_key(id) ==> id < self.next_id
    }

    /// The state after a call enqueued `req`: the fresh id is the counter
    /// value, the request joins the back of the queue, and a waiting slot is
    /// registered under the fresh id.
    pub open spec fn enqueued(self, req: Req) -> RelayView<Req, Resp> {
        RelayView {
            next_id: (self.next_id + 1) as u32,
            queue: self.queue.push((self.next_id, req)),
            slots: self.slots.insert(self.next_id, SlotState::Waiting),
        }
    }

    /// The state after the consumer took the oldest pending request.
    pub open spec fn popped(self) -> RelayView<Req, Resp> {
        RelayView { queue: self.queue.subrange(1, self.queue.len() as int), ..self }
    }

    /// Whether `respond` succeeds for `id`: a slot is registered and still
    /// waiting.
    pub open spec fn can_respond(self, id: u32) -> bool {
        self.slots.contains_key(id) && self.slots[id] is Waiting
    }

    /// The state after the consumer answered `id` with `resp`.
    pub open spec fn responded(self, id: u32, resp: Resp) -> RelayView<Req, Resp> {
        RelayView { slots: self.slots.insert(id, SlotState::Fulfilled(resp)), ..self }
    }

    /// The response that the caller waiting on `id` would consume now, if
    /// one has been written.
    pub open spec fn take_result(self, id: u32) -> Option<Resp> {
        if self.slots.contains_key(id) {
            match self.slots[id] {
                SlotState::Fulfilled(resp) => Some(resp),
                SlotState::Waiting => None,
            }
        } else {
            None
        }
    }

    /// The state after the caller waiting on `id` consumed its response:
    /// the slot is removed, so no second delivery can occur.
    pub open spec fn taken(self, id: u32) -> RelayView<Req, Resp> {
        RelayView { slots: self.slots.remove(id), ..self }
    }

    /// The state after enqueueing every request of `reqs`, in order.
    pub open spec fn enqueued_all(self, reqs: Seq<Req>) -> RelayView<Req, Resp>
        decreases reqs.len(),
    {
        if reqs.len() == 0 {
            self
        } else {
            self.enqueued(reqs[0]).enqueued_all(reqs.subrange(1, reqs.len() as int))
        }
    }

    /// The requests that `m` consecutive `wait_for_next` calls deliver.
    pub open spec fn popped_seq(self, m: nat) -> Seq<(u32, Req)>
        decreases m,
    {
        if m == 0 {
            Seq::empty()
        } else {
            seq![self.queue[0]] + self.popped().popped_seq((m - 1) as nat)
        }
    }
}

/// One synchronous-to-asynchronous call relay.
pub struct Relay<Req, Resp> {
    next_id: u32,
    queue: VecDeque<(u32, Req)>,
    slots: HashMap<u32, SlotState<Resp>>,
}

impl<Req, Resp> View for Relay<Req, Resp> {
    type V = RelayView<Req, Resp>;

    closed spec fn view(&self) -> RelayView<Req, Resp> {
        RelayView { next_id: self.next_id, queue: self.queue@, slots: self.slots@ }
    }
}

impl<Req, Resp> Relay<Req, Resp> {
    /// A fresh relay: counter at zero, no pending requests, no slots.
    pub fn new() -> (r: Self)
        ensures
            r@.wf(),
            r@.next_id == 0,
            r@.queue == Seq::<(u32, Req)>::empty(),
            r@.slots == Map::<u32, SlotState<Resp>>::empty(),
    {
        Relay { next_id: 0, queue: VecDeque::new(), slots: HashMap::new() }
    }

    /// Whether a fresh correlation id is still available. The 32-bit id
    /// space is a machine limit; a relay that has issued every id can
    /// accept no further dispatch.
    pub fn can_assign_id(&self) -> (b: bool)
        ensures
            b == (self@.next_id < u32::MAX),
    {
        self.next_id < u32::MAX
    }

    /// The synchronous half of a dispatch: assigns a fresh correlation id,
    /// registers a waiting slot under it, and appends the request to the
    /// queue. The caller then polls `take_response` with the returned id.
    /// The bound on the counter is a machine limit of the 32-bit id space.
    pub fn dispatch_enqueue(&mut self, req: Req) -> (id: u32)
        requires
            old(self)@.wf(),
            old(self)@.next_id < u32::MAX,
        ensures
            final(self)@ == old(self)@.enqueued(req),
            final(self)@.wf(),
            id == old(self)@.next_id,
            !old(self)@.slots.contains_key(id),
    {
        proof {
            broadcast use vstd::std_specs::hash::group_hash_axioms;

            old(self)@.lemma_enqueued_wf(req);
        }
        let id = self.next_id;
        self.next_id = id + 1;
        self.slots.insert(id, SlotState::Waiting);
        self.queue.push_back((id, req));
        id
    }

    /// The consumer's poll: removes and returns the oldest pending request,
    /// or `None` when the queue is empty (the consumer then suspends until a
    /// dispatch arrives).
    pub fn wait_for_next(&mut self) -> (r: Option<(u32, Req)>)
        requires
            old(self)@.wf(),
        ensures
            final(self)@.wf(),
            match r {
                Some(item) => old(self)@.queue.len() > 0 && item == old(self)@.queue[0]
                    && final(self)@ == old(self)@.popped(),
                None => old(self)@.queue.len() == 0 && *final(self) == *old(self),
            },
    {
        proof {
            old(self)@.lemma_popped_wf();
        }
        if self.queue.len() == 0 {
            return None;
        }
        self.queue.pop_front()
    }

    /// The consumer's answer to the request with correlation id `id`:
    /// fulfills the waiting slot, so the dispatching caller can consume
    /// `resp`. Fails with `UnknownCorrelationId` — and changes nothing —
    /// when no waiting slot is registered under `id`: the id was never
    /// issued, was already answered, or its answer was already consumed.
    pub fn respond(&mut self, id: u32, resp: Resp) -> (r: Result<(), RelayError>)
        requires
            old(self)@.wf(),
        ensures
            final(self)@.wf(),
            match r {
                Ok(()) => old(self)@.can_respond(id)
                    && final(self)@ == old(self)@.responded(id, resp),
                Err(e) => e == RelayError::UnknownCorrelationId
                    && !old(self)@.can_respond(id) && *final(self) == *old(self),
            },
    {
        proof {
            broadcast use vstd::std_specs::hash::group_hash_axioms;

            if old(self)@.slots.contains_key(id) {
                old(self)@.lemma_responded_wf(id, resp);
            }
        }
        let waiting = match self.slots.get(&id) {
            Some(slot) => match slot {
                SlotState::Waiting => true,
                SlotState::Fulfilled(_) => false,
            },
            None => false,
        };
        if waiting {
            self.slots.insert(id, SlotState::Fulfilled(resp));
            Ok(())
        } else {
            Err(RelayError::UnknownCorrelationId)
        }
    }

    /// The synchronous half of the wait: consumes the response written for
    /// `id`, removing the slot so the answer is delivered exactly once.
    /// Returns `None` while no response has been written (the caller then
    /// keeps waiting).
    pub fn take_response(&mut self, id: u32) -> (r: Option<Resp>)
        requires
            old(self)@.wf(),
        ensures
            final(self)@.wf(),
            match r {
                Some(resp) => old(self)@.take_result(id) == Some(resp)
                    && final(self)@ == old(self)@.taken(id),
                None => old(self)@.take_result(id) is None && *final(self) == *old(self),
            },
    {
        proof {
            broadcast use vstd::std_specs::hash::group_hash_axioms;

            old(self)@.lemma_taken_wf(id);
        }
        let fulfilled = match self.slots.get(&id) {
            Some(slot) => match slot {
                SlotState::Waiting => false,
                SlotState::Fulfilled(_) => true,
            },
            None => false,
        };
        if fulfilled {
            match self.slots.remove(&id) {
                Some(SlotState::Fulfilled(resp)) => Some(resp),
                _ => {
                    proof {
                        assert(false);
                    }
                    None
                },
            }
        } else {
            None
        }
    }
}

impl<Req, Resp> RelayView<Req, Resp> {
    /// Enqueueing preserves well-formedness; the fresh id is fresh.
    pub proof fn lemma_enqueued_wf(self, req: Req)
        requires
            self.wf(),
            self.next_id < u32::MAX,
        ensures
            self.enqueued(req).wf(),
            !self.slots.contains_key(self.next_id),
    {
        let w = self.enqueued(req);
        assert forall|p: int, q: int| 0 <= p < q < w.queue.len() implies (#[trigger] w.queue[p]).0
            != (#[trigger] w.queue[q]).0 by {
            if q < w.queue.len() - 1 {
                assert(w.queue[p] == self.queue[p]);
                assert(w.queue[q] == self.queue[q]);
            } else {
                assert(w.queue[q].0 == self.next_id);
                assert(w.queue[p] == self.queue[p]);
            }
        }
    }

    /// Answering a waiting slot preserves well-formedness.
    pub proof fn lemma_responded_wf(self, id: u32, resp: Resp)
        requires
            self.wf(),
            self.slots.contains_key(id),
        ensures
            self.responded(id, resp).wf(),
    {
        let w = self.responded(id, resp);
        assert forall|k: u32| #[trigger] w.slots.contains_key(k) implies k < w.next_id by {
            if k != id {
                assert(self.slots.contains_key(k));
            }
        }
    }

    /// Removing a consumed slot preserves well-formedness.
    pub proof fn lemma_taken_wf(self, id: u32)
        requires
            self.wf(),
        ensures
            self.taken(id).wf(),
    {
        let w = self.taken(id);
        assert forall|k: u32| #[trigger] w.slots.contains_key(k) implies k < w.next_id by {
            assert(self.slots.contains_key(k));
        }
    }

    /// Law: responses never cross over between correlation ids. After the
    /// consumer answers two distinct outstanding ids — in either order —
    /// each waiting caller consumes exactly the bytes answered under its own
    /// id, and consuming one answer leaves the other untouched.
    pub proof fn lemma_no_cross_delivery(self, i: u32, j: u32, a: Resp, b: Resp)
        requires
            i != j,
            self.can_respond(i),
            self.can_respond(j),
        ensures
            ({
                let w = self.responded(i, a).responded(j, b);
                &&& w.take_result(i) == Some(a)
                &&& w.take_result(j) == Some(b)
                &&& w == self.responded(j, b).responded(i, a)
                &&& w.taken(i).take_result(j) == Some(b)
                &&& w.taken(j).take_result(i) == Some(a)
            }),
    {
        let w = self.responded(i, a).responded(j, b);
        assert(w.slots =~= self.responded(j, b).responded(i, a).slots);
        assert(w =~= self.responded(j, b).responded(i, a));
    }

    /// Enqueueing a whole sequence appends it to the queue: the fresh ids
    /// are consecutive counter values, each paired with its request in
    /// order.
    pub proof fn lemma_enqueued_all_props(self, reqs: Seq<Req>)
        requires
            self.wf(),
            self.next_id + reqs.len() <= u32::MAX,
        ensures
            ({
                let w = self.enqueued_all(reqs);
                &&& w.wf()
                &&& w.next_id == self.next_id + reqs.len()
                &&& w.queue.len() == self.queue.len() + reqs.len()
                &&& forall|k: int|
                    0 <= k < self.queue.len() ==> w.queue[k] == self.queue[k]
                &&& forall|k: int|
                    0 <= k < reqs.len() ==> #[trigger] w.queue[self.queue.len() + k]
                        == (((self.next_id + k) as u32), reqs[k])
            }),
        decreases reqs.len(),
    {
        if reqs.len() > 0 {
            let stepped = self.enqueued(reqs[0]);
            let rest = reqs.subrange(1, reqs.len() as int);
            self.lemma_enqueued_wf(reqs[0]);
            stepped.lemma_enqueued_all_props(rest);
            let w = self.enqueued_all(reqs);
            assert(w == stepped.enqueued_all(rest));
            assert forall|k: int|
                0 <= k < reqs.len() implies #[trigger] w.queue[self.queue.len() + k]
                == (((self.next_id + k) as u32), reqs[k]) by {
                if k == 0 {
                    assert(w.queue[self.queue.len() as int] == stepped.queue[self.queue.len() as int]);
                } else {
                    assert(w.queue[stepped.queue.len() + (k - 1)]
                        == (((stepped.next_id + (k - 1)) as u32), rest[k - 1]));
                }
            }
        }
    }

    /// Draining `m` requests yields exactly the first `m` queue entries, in
    /// queue order.
    pub proof fn lemma_fifo_drain(self, m: nat)
        requires
            self.wf(),
            m <= self.queue.len(),
        ensures
            self.popped_seq(m) == self.queue.take(m as int),
        decreases m,
    {
        if m > 0 {
            self.lemma_popped_wf();
            self.popped().lemma_fifo_drain((m - 1) as nat);
            assert(self.popped_seq(m) =~= self.queue.take(m as int));
        } else {
            assert(self.popped_seq(0) =~= self.queue.take(0));
        }
    }

    /// Law: after `M` dispatches on a relay with an empty queue and no
    /// response yet issued, `M` `wait_for_next` calls drain exactly those
    /// `M` requests, in enqueue order, and no request is delivered twice:
    /// the `M` correlation ids are pairwise distinct.
    pub proof fn lemma_dispatch_then_drain(self, reqs: Seq<Req>)
        requires
            self.wf(),
            self.queue.len() == 0,
            self.next_id + reqs.len() <= u32::MAX,
        ensures
            ({
                let w = self.enqueued_all(reqs);
                let drained = w.popped_seq(reqs.len());
                &&& drained.len() == reqs.len()
                &&& forall|k: int| 0 <= k < reqs.len() ==> (#[trigger] drained[k]).1 == reqs[k]
                &&& forall|p: int, q: int|
                    0 <= p < q < reqs.len() ==> (#[trigger] drained[p]).0 != (#[trigger] drained[q]).0
            }),
    {
        self.lemma_enqueued_all_props(reqs);
        let w = self.enqueued_all(reqs);
        w.lemma_fifo_drain(reqs.len());
        assert(w.queue.take(reqs.len() as int) =~= w.queue);
        let drained = w.popped_seq(reqs.len());
        assert forall|k: int| 0 <= k < reqs.len() implies (#[trigger] drained[k]).1
            == reqs[k] by {
            assert(w.queue[self.queue.len() + k] == (((self.next_id + k) as u32), reqs[k]));
            assert(drained[k] == w.queue[k]);
        }
        assert forall|p: int, q: int| 0 <= p < q < reqs.len() implies (#[trigger] drained[p]).0
            != (#[trigger] drained[q]).0 by {
            assert(drained[p] == w.queue[p]);
            assert(drained[q] == w.queue[q]);
        }
    }

    /// Taking the oldest request preserves well-formedness.
    pub proof fn lemma_popped_wf(self)
        requires
            self.wf(),
        ensures
            self.queue.len() > 0 ==> self.popped().wf(),
    {
        if self.queue.len() > 0 {
            let w = self.popped();
            assert forall|p: int, q: int| 0 <= p < q < w.queue.len() implies (#[trigger] w
                .queue[p]).0 != (#[trigger] w.queue[q]).0 by {
                assert(w.queue[p] == self.queue[p + 1]);
                assert(w.queue[q] == self.queue[q + 1]);
            }
            assert forall|p: int| 0 <= p < w.queue.len() implies (#[trigger] w.queue[p]).0
                < w.next_id by {
                assert(w.queue[p] == self.queue[p + 1]);
            }
        }
    }
}

} // verus!
