//! The request/response bridge between sandbox and host: a FIFO queue of
//! typed request envelopes, each paired with exactly one single-use reply
//! slot. Submission may happen from any sandbox call site; the host consumes
//! envelopes strictly in order, which gives every operation a total order of
//! observable host effects. A request whose slot is dropped (the host tore
//! the bridge down mid-flight) resolves its waiting caller with a distinct
//! disconnect failure instead of letting it wait forever.

use vstd::prelude::*;

verus! {

/// The lifecycle of one reply slot. It moves only forward:
/// `InQueue -> Processing -> Replied -> Consumed`, or to `Dropped` on
/// teardown; at most one reply is ever deposited.
pub enum SlotState<Resp> {
    InQueue,
    Processing,
    Replied(Resp),
    Consumed,
    Dropped,
}

/// What a waiting caller observes when it polls its reply slot.
pub enum PollOutcome<Resp> {
    Ready(Resp),
    Pending,
    Disconnected,
}

/// What one submission guarantees about the bridge, whoever performed it:
/// the request got the next id, its slot is live exactly when the bridge was,
/// and nothing else changed. A capability op that posts an envelope promises
/// this, so callers can chain submissions and poll the slot.
pub open spec fn submission<Req, Resp>(
    pre: RequestBridge<Req, Resp>,
    post: RequestBridge<Req, Resp>,
    rid: usize,
) -> bool {
    &&& rid as int == pre.slots@.len()
    &&& post.slots@.len() == pre.slots@.len() + 1
    &&& post.connected == pre.connected
    &&& (pre.connected ==> post.slots@[rid as int] is InQueue)
    &&& (!pre.connected ==> post.slots@[rid as int] is Dropped && post.queue@ == pre.queue@)
    &&& forall|i: int| 0 <= i < pre.slots@.len() ==> post.slots@[i] == pre.slots@[i]
}

/// The bridge. Request ids index `slots`; `queue` holds the envelopes the
/// host has not yet taken, oldest first.
pub struct RequestBridge<Req, Resp> {
    pub queue: Vec<(usize, Req)>,
    pub slots: Vec<SlotState<Resp>>,
    pub connected: bool,
}

impl<Req, Resp> RequestBridge<Req, Resp> {
    pub open spec fn slot_of(self, id: int) -> SlotState<Resp> {
        self.slots@[id]
    }

    pub open spec fn wf(self) -> bool {
        &&& forall|k: int|
            0 <= k < self.queue@.len() ==> (#[trigger] self.queue@[k]).0 < self.slots@.len()
                && self.slots@[self.queue@[k].0 as int] is InQueue
        &&& forall|k1: int, k2: int|
            0 <= k1 < k2 < self.queue@.len() ==> self.queue@[k1].0 != self.queue@[k2].0
    }

    /// What a poll of slot `id` observes, and must observe: a deposited reply
    /// exactly once, a disconnect once the slot is dropped or spent, and a
    /// wait only while the request is genuinely in flight.
    pub open spec fn poll_outcome(self, id: int) -> PollOutcome<Resp> {
        match self.slots@[id] {
            SlotState::Replied(resp) => PollOutcome::Ready(resp),
            SlotState::InQueue => PollOutcome::Pending,
            SlotState::Processing => PollOutcome::Pending,
            SlotState::Consumed => PollOutcome::Disconnected,
            SlotState::Dropped => PollOutcome::Disconnected,
        }
    }

    pub fn new() -> (b: RequestBridge<Req, Resp>)
        ensures
            b.wf(),
            b.queue@.len() == 0,
            b.slots@.len() == 0,
            b.connected,
    {
        RequestBridge { queue: Vec::new(), slots: Vec::new(), connected: true }
    }

    /// Posts a request and returns its id. On a live bridge the envelope
    /// joins the queue; on a torn-down bridge the slot is born dropped, so
    /// the caller's poll resolves with a disconnect instead of hanging.
    pub fn submit(&mut self, data: Req) -> (id: usize)
        requires
            old(self).wf(),
            old(self).slots@.len() < usize::MAX as int,
        ensures
            final(self).wf(),
            id as int == old(self).slots@.len(),
            final(self).slots@.len() == old(self).slots@.len() + 1,
            final(self).connected == old(self).connected,
            forall|i: int|
                0 <= i < old(self).slots@.len() ==> final(self).slots@[i] == old(self).slots@[i],
            old(self).connected ==> final(self).slots@[id as int] is InQueue && final(self).queue@
                == old(self).queue@.push((id, data)),
            !old(self).connected ==> final(self).slots@[id as int] is Dropped && final(self).queue@
                == old(self).queue@,
    {
        let id = self.slots.len();
        if self.connected {
            self.slots.push(SlotState::InQueue);
            self.queue.push((id, data));
        } else {
            self.slots.push(SlotState::Dropped);
        }
        id
    }

    /// The host takes the oldest pending envelope, if any; its slot moves to
    /// `Processing`.
    pub fn host_next(&mut self) -> (r: Option<(usize, Req)>)
        requires
            old(self).wf(),
        ensures
            final(self).wf(),
            final(self).connected == old(self).connected,
            final(self).slots@.len() == old(self).slots@.len(),
            r is None <==> old(self).queue@.len() == 0,
            r is None ==> *final(self) == *old(self),
            r matches Some(env) ==> {
                &&& env == old(self).queue@[0]
                &&& final(self).queue@ == old(self).queue@.drop_first()
                &&& final(self).slots@[env.0 as int] is Processing
                &&& forall|i: int|
                    0 <= i < old(self).slots@.len() && i != env.0 as int ==> final(self).slots@[i]
                        == old(self).slots@[i]
            },
    {
        if self.queue.len() == 0 {
            return None;
        }
        let (id, data) = self.queue.remove(0);
        proof {
            assert(old(self).queue@[0].0 == id);
            assert(self.queue@ =~= old(self).queue@.drop_first());
        }
        let slot = &mut self.slots[id];
        *slot = SlotState::Processing;
        Some((id, data))
    }

    /// The host deposits the reply for a request it is processing. Exactly
    /// one reply is ever accepted per request: any further deposit on the
    /// same slot is refused and handed back.
    pub fn host_reply(&mut self, id: usize, resp: Resp) -> (r: Result<(), Resp>)
        requires
            old(self).wf(),
        ensures
            final(self).wf(),
            r is Ok <==> (id as int) < old(self).slots@.len() && old(self).slots@[id as int]
                is Processing,
            r matches Err(back) ==> back == resp && *final(self) == *old(self),
            r is Ok ==> final(self).slots@[id as int] == SlotState::<Resp>::Replied(resp)
                && final(self).queue@ == old(self).queue@ && final(self).connected == old(
                self,
            ).connected && final(self).slots@.len() == old(self).slots@.len() && forall|i: int|
                0 <= i < old(self).slots@.len() && i != id as int ==> final(self).slots@[i] == old(
                    self,
                ).slots@[i],
    {
        if id < self.slots.len() {
            let is_processing = match &self.slots[id] {
                SlotState::Processing => true,
                _ => false,
            };
            if is_processing {
                let slot = &mut self.slots[id];
                *slot = SlotState::Replied(resp);
                proof {
                    assert forall|k: int|
                        0 <= k < self.queue@.len() implies (#[trigger] self.queue@[k]).0
                        < self.slots@.len() && self.slots@[self.queue@[k].0 as int] is InQueue by {
                        assert(old(self).slots@[old(self).queue@[k].0 as int] is InQueue);
                    }
                }
                return Ok(());
            }
        }
        Err(resp)
    }

    /// The waiting caller polls its reply slot: it receives a deposited reply
    /// exactly once, waits while the request is in flight, and observes a
    /// disconnect — immediately, not after a timeout — once the slot was
    /// dropped or already spent.
    pub fn try_take_reply(&mut self, id: usize) -> (r: PollOutcome<Resp>)
        requires
            old(self).wf(),
            (id as int) < old(self).slots@.len(),
        ensures
            final(self).wf(),
            r == old(self).poll_outcome(id as int),
            final(self).queue@ == old(self).queue@,
            final(self).connected == old(self).connected,
            final(self).slots@.len() == old(self).slots@.len(),
            forall|i: int|
                0 <= i < old(self).slots@.len() && i != id as int ==> final(self).slots@[i] == old(
                    self,
                ).slots@[i],
            old(self).slots@[id as int] is Replied ==> final(self).slots@[id as int] is Consumed,
            !(old(self).slots@[id as int] is Replied) ==> *final(self) == *old(self),
    {
        let is_replied = match &self.slots[id] {
            SlotState::Replied(_) => true,
            _ => false,
        };
        if is_replied {
            let prev = self.slots.remove(id);
            self.slots.insert(id, SlotState::Consumed);
            proof {
                assert(self.slots@ =~= old(self).slots@.update(id as int, SlotState::Consumed));
                assert forall|k: int|
                    0 <= k < self.queue@.len() implies (#[trigger] self.queue@[k]).0
                    < self.slots@.len() && self.slots@[self.queue@[k].0 as int] is InQueue by {
                    assert(old(self).slots@[old(self).queue@[k].0 as int] is InQueue);
                }
            }
            match prev {
                SlotState::Replied(resp) => PollOutcome::Ready(resp),
                _ => PollOutcome::Disconnected,
            }
        } else {
            match &self.slots[id] {
                SlotState::InQueue => PollOutcome::Pending,
                SlotState::Processing => PollOutcome::Pending,
                _ => PollOutcome::Disconnected,
            }
        }
    }

    /// Tears the bridge down: every request that has not had its reply
    /// consumed loses its slot, and the queue is emptied. Later submissions
    /// are born dropped.
    pub fn teardown(&mut self)
        requires
            old(self).wf(),
        ensures
            final(self).wf(),
            !final(self).connected,
            final(self).queue@.len() == 0,
            final(self).slots@.len() == old(self).slots@.len(),
            forall|i: int|
                0 <= i < old(self).slots@.len() ==> final(self).slots@[i] == (if old(
                    self,
                ).slots@[i] is Consumed {
                    old(self).slots@[i]
                } else {
                    SlotState::<Resp>::Dropped
                }),
    {
        self.connected = false;
        self.queue.clear();
        let n = self.slots.len();
        let mut i: usize = 0;
        while i < n
            invariant
                n == self.slots@.len(),
                n == old(self).slots@.len(),
                !self.connected,
                self.queue@.len() == 0,
                forall|j: int|
                    0 <= j < i ==> self.slots@[j] == (if old(self).slots@[j] is Consumed {
                        old(self).slots@[j]
                    } else {
                        SlotState::<Resp>::Dropped
                    }),
                forall|j: int| i <= j < n ==> self.slots@[j] == old(self).slots@[j],
            decreases n - i,
        {
            let keep = match &self.slots[i] {
                SlotState::Consumed => true,
                _ => false,
            };
            if !keep {
                let slot = &mut self.slots[i];
                *slot = SlotState::Dropped;
            }
            i += 1;
        }
    }

    /// A request whose reply slot was dropped resolves its caller with a
    /// disconnect failure the moment it polls: a dropped slot never reads as
    /// pending, so the caller can never be left hanging.
    pub proof fn lemma_dropped_request_resolves(self, id: int)
        requires
            0 <= id < self.slots@.len(),
            self.slots@[id] is Dropped,
        ensures
            self.poll_outcome(id) is Disconnected,
    {
    }

    /// Any request in flight when the host tears the bridge down resolves
    /// its waiting caller with a disconnect, never a hang: teardown leaves
    /// every slot without a consumed reply dropped, and a dropped slot polls
    /// `Disconnected` the moment the caller looks — whatever the request was
    /// and wherever it stood (queued, being processed, or even replied but
    /// not yet taken). The second premise is exactly what `teardown` ensures.
    pub proof fn lemma_mid_flight_teardown_resolves(
        after_submit: RequestBridge<Req, Resp>,
        after_teardown: RequestBridge<Req, Resp>,
        id: int,
    )
        requires
            0 <= id < after_submit.slots@.len(),
            !(after_submit.slots@[id] is Consumed),
            after_teardown.slots@.len() == after_submit.slots@.len(),
            forall|i: int|
                0 <= i < after_submit.slots@.len() ==> after_teardown.slots@[i] == (if after_submit.slots@[i]
                    is Consumed {
                    after_submit.slots@[i]
                } else {
                    SlotState::<Resp>::Dropped
                }),
        ensures
            after_teardown.poll_outcome(id) is Disconnected,
    {
    }

    /// A caller is only ever left waiting while its request is genuinely in
    /// flight: once a slot is no longer queued or being processed — as after
    /// teardown, which drops every such slot — a poll resolves at once.
    pub proof fn lemma_no_wait_without_flight(self, id: int)
        requires
            0 <= id < self.slots@.len(),
            !(self.slots@[id] is InQueue),
            !(self.slots@[id] is Processing),
        ensures
            !(self.poll_outcome(id) is Pending),
    {
    }
}

} // verus!
