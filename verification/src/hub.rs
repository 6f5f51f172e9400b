use vstd::prelude::*;
use std::collections::VecDeque;
use crate::event::ServerMessage;
use crate::event::ServerMessageView;
use crate::event::wire_ready;

verus! {

/// Most undelivered events one receiver may queue; beyond that the oldest
/// undelivered event is dropped rather than stalling the publisher.
pub const HUB_CAPACITY: usize = 32;

/// Mathematical model of one hub subscription.
#[verifier::ext_equal]
pub ghost struct ReceiverModel {
    /// Still registered: publishes are delivered to it.
    pub active: bool,
    /// Events delivered by the hub but not yet consumed, oldest first.
    pub pending: Seq<ServerMessageView>,
    /// Everything this subscription's owner has consumed so far, in
    /// order: the join-time snapshot followed by every event taken from
    /// the queue.
    pub observed: Seq<ServerMessageView>,
    /// Index into the publish log from which this subscription's owner
    /// covers every event.
    pub base: int,
    /// Whether the lossy queue ever discarded an event for this receiver.
    pub dropped: bool,
}

impl ReceiverModel {
    /// A receiver's bookkeeping agrees with the publish log: unless the
    /// queue overflowed, what the owner has observed followed by what
    /// still waits in the queue is exactly the publish sequence from the
    /// receiver's base onward.
    pub open spec fn wf(self, log: Seq<ServerMessageView>) -> bool {
        &&& 0 <= self.base <= log.len()
        &&& self.pending.len() <= HUB_CAPACITY
        &&& (forall|j: int| 0 <= j < self.pending.len() ==> wire_ready(#[trigger] self.pending[j]))
        &&& (self.active && !self.dropped ==> self.observed + self.pending == log.skip(self.base))
    }

    /// How one publish changes a receiver: an inactive one is left alone;
    /// an active one gets the event at the back of its queue, after the
    /// oldest undelivered event is dropped if the queue is full.
    pub open spec fn offered(self, r0: ReceiverModel, m: ServerMessageView) -> bool {
        &&& self.active == r0.active
        &&& self.base == r0.base
        &&& self.observed == r0.observed
        &&& if !r0.active {
            self.pending == r0.pending && self.dropped == r0.dropped
        } else if r0.pending.len() < HUB_CAPACITY {
            self.pending == r0.pending.push(m) && self.dropped == r0.dropped
        } else {
            self.pending == r0.pending.drop_first().push(m) && self.dropped
        }
    }
}

/// One subscription handle's state inside the hub.
pub struct Receiver {
    active: bool,
    pending: VecDeque<ServerMessage>,
    observed: Ghost<Seq<ServerMessageView>>,
    base: Ghost<int>,
    dropped: Ghost<bool>,
}

impl View for Receiver {
    type V = ReceiverModel;

    closed spec fn view(&self) -> ReceiverModel {
        ReceiverModel {
            active: self.active,
            pending: self.pending@.map(|i: int, m: ServerMessage| m@),
            observed: self.observed@,
            base: self.base@,
            dropped: self.dropped@,
        }
    }
}

impl Receiver {
    /// Delivers one published event into this receiver's queue, by the
    /// lossy-oldest-first policy.
    fn offer(&mut self, m: ServerMessage)
        requires
            old(self)@.pending.len() <= HUB_CAPACITY,
            wire_ready(m@),
        ensures
            final(self)@.offered(old(self)@, m@),
    {
        if self.active {
            if self.pending.len() >= HUB_CAPACITY {
                self.pending.pop_front();
                self.dropped = Ghost(true);
                proof {
                    assert(self@.pending =~= old(self)@.pending.drop_first());
                }
            }
            let ghost before = self@.pending;
            self.pending.push_back(m);
            proof {
                assert(self@.pending =~= before.push(m@));
            }
        }
    }
}

/// In-process publish/subscribe fan-out: every published event reaches
/// every registered receiver, in one total order shared by all receivers.
pub struct Hub {
    log: Ghost<Seq<ServerMessageView>>,
    receivers: Vec<Receiver>,
}

impl Hub {
    /// The single total order of everything published so far.
    pub closed spec fn log(&self) -> Seq<ServerMessageView> {
        self.log@
    }

    /// The registered receivers, by handle.
    pub closed spec fn receivers(&self) -> Seq<ReceiverModel> {
        self.receivers@.map(|i: int, r: Receiver| r@)
    }

    /// Every receiver's bookkeeping agrees with the publish log, and
    /// every published event can be rendered on the wire.
    pub open spec fn wf(&self) -> bool {
        &&& (forall|i: int|
            0 <= i < self.receivers().len() ==> (#[trigger] self.receivers()[i]).wf(self.log()))
        &&& (forall|j: int| 0 <= j < self.log().len() ==> wire_ready(#[trigger] self.log()[j]))
    }

    /// A hub with no history and no receivers.
    pub fn new() -> (h: Self)
        ensures
            h.wf(),
            h.log() == Seq::<ServerMessageView>::empty(),
            h.receivers() == Seq::<ReceiverModel>::empty(),
    {
        let h = Hub { log: Ghost(Seq::empty()), receivers: Vec::new() };
        proof {
            assert(h.receivers() =~= Seq::<ReceiverModel>::empty());
        }
        h
    }

    /// How many receivers have been registered so far.
    pub fn receiver_count(&self) -> (n: usize)
        ensures
            n == self.receivers().len(),
    {
        self.receivers.len()
    }

    /// Registers a receiver whose owner has already observed the given
    /// prefix of the publish log; used by the atomic snapshot-and-
    /// subscribe operation.
    pub(crate) fn subscribe_from(
        &mut self,
        observed: Ghost<Seq<ServerMessageView>>,
        base: Ghost<int>,
    ) -> (idx: usize)
        requires
            old(self).wf(),
            0 <= base@ <= old(self).log().len(),
            observed@ == old(self).log().skip(base@),
        ensures
            final(self).wf(),
            final(self).log() == old(self).log(),
            idx == old(self).receivers().len(),
            final(self).receivers() == old(self).receivers().push(
                ReceiverModel {
                    active: true,
                    pending: Seq::empty(),
                    observed: observed@,
                    base: base@,
                    dropped: false,
                },
            ),
    {
        let idx = self.receivers.len();
        let r = Receiver {
            active: true,
            pending: VecDeque::new(),
            observed,
            base,
            dropped: Ghost(false),
        };
        proof {
            assert(r@.pending =~= Seq::<ServerMessageView>::empty());
            assert(r@.observed + r@.pending =~= observed@);
        }
        self.receivers.push(r);
        proof {
            assert(self.receivers() =~= old(self).receivers().push(r@));
        }
        idx
    }

    /// Registers a new receiver; it observes every event published after
    /// registration and may miss events published strictly before.
    pub fn subscribe(&mut self) -> (idx: usize)
        requires
            old(self).wf(),
        ensures
            final(self).wf(),
            final(self).log() == old(self).log(),
            idx == old(self).receivers().len(),
            final(self).receivers() == old(self).receivers().push(
                ReceiverModel {
                    active: true,
                    pending: Seq::empty(),
                    observed: Seq::empty(),
                    base: old(self).log().len() as int,
                    dropped: false,
                },
            ),
    {
        let ghost base = self.log@.len() as int;
        proof {
            assert(Seq::<ServerMessageView>::empty() =~= self.log@.skip(base));
        }
        self.subscribe_from(Ghost(Seq::empty()), Ghost(base))
    }

    /// Appends the event to the shared publish order and delivers it to
    /// every registered receiver, never blocking on a full queue.
    pub fn publish(&mut self, message: ServerMessage)
        requires
            old(self).wf(),
            wire_ready(message@),
        ensures
            final(self).wf(),
            final(self).log() == old(self).log().push(message@),
            final(self).receivers().len() == old(self).receivers().len(),
            forall|i: int|
                0 <= i < old(self).receivers().len() ==> (#[trigger] final(self).receivers()[i])
                    .offered(old(self).receivers()[i], message@),
    {
        let ghost log0 = self.log@;
        let n = self.receivers.len();
        let mut i: usize = 0;
        while i < n
            invariant
                n == self.receivers@.len(),
                n == old(self).receivers@.len(),
                i <= n,
                self.log@ == log0,
                log0 == old(self).log(),
                old(self).wf(),
                wire_ready(message@),
                forall|j: int|
                    0 <= j < i ==> (#[trigger] self.receivers@[j]@).offered(
                        old(self).receivers@[j]@,
                        message@,
                    ),
                forall|j: int| i <= j < n ==> self.receivers@[j] == old(self).receivers@[j],
            decreases n - i,
        {
            proof {
                assert(old(self).receivers()[i as int] == old(self).receivers@[i as int]@);
                assert(old(self).receivers()[i as int].wf(log0));
            }
            let ghost pre = self.receivers@;
            let r = &mut self.receivers[i];
            r.offer(message.clone());
            i += 1;
            proof {
                let j0 = i as int - 1;
                assert(self.receivers@[j0]@.offered(pre[j0]@, message@));
                assert forall|j: int| 0 <= j < j0 implies self.receivers@[j] == pre[j] by {}
            }
        }
        self.log = Ghost(self.log@.push(message@));
        proof {
            assert forall|j: int|
                0 <= j < self.receivers().len() implies (#[trigger] self.receivers()[j]).offered(
                old(self).receivers()[j],
                message@,
            ) by {
                assert(self.receivers()[j] == self.receivers@[j]@);
                assert(old(self).receivers()[j] == old(self).receivers@[j]@);
            }
            assert forall|j: int| 0 <= j < self.receivers().len() implies (
            #[trigger] self.receivers()[j]).wf(self.log@) by {
                let r0 = old(self).receivers()[j];
                let r1 = self.receivers()[j];
                assert(r1.offered(r0, message@));
                assert(r0.wf(log0));
                assert forall|k: int| 0 <= k < r1.pending.len() implies wire_ready(
                    #[trigger] r1.pending[k],
                ) by {
                    if r0.active && k < r1.pending.len() - 1 {
                        if r0.pending.len() < HUB_CAPACITY {
                            assert(r1.pending[k] == r0.pending[k]);
                        } else {
                            assert(r1.pending[k] == r0.pending[k + 1]);
                        }
                    }
                }
                if r1.active && !r1.dropped {
                    assert(r0.pending.len() < HUB_CAPACITY);
                    assert(r1.observed + r1.pending =~= (r0.observed + r0.pending).push(
                        message@,
                    ));
                    assert(r1.observed + r1.pending =~= log0.skip(r0.base).push(message@));
                    assert(log0.push(message@).skip(r1.base) =~= log0.skip(r1.base).push(
                        message@,
                    ));
                }
            }
        }
    }

    /// Whether the given receiver has undelivered events queued.
    pub fn has_pending(&self, idx: usize) -> (r: bool)
        requires
            idx < self.receivers().len(),
        ensures
            r == (self.receivers()[idx as int].pending.len() > 0),
    {
        proof {
            assert(self.receivers()[idx as int] == self.receivers@[idx as int]@);
        }
        self.receivers[idx].pending.len() > 0
    }

    /// Takes the oldest undelivered event for the given receiver, if any.
    pub fn recv(&mut self, idx: usize) -> (r: Option<ServerMessage>)
        requires
            old(self).wf(),
            idx < old(self).receivers().len(),
        ensures
            final(self).wf(),
            final(self).log() == old(self).log(),
            final(self).receivers().len() == old(self).receivers().len(),
            forall|j: int|
                0 <= j < old(self).receivers().len() && j != idx
                    ==> final(self).receivers()[j] == old(self).receivers()[j],
            match r {
                Some(m) => {
                    &&& old(self).receivers()[idx as int].pending.len() > 0
                    &&& m@ == old(self).receivers()[idx as int].pending[0]
                    &&& wire_ready(m@)
                    &&& final(self).receivers()[idx as int] == (ReceiverModel {
                        pending: old(self).receivers()[idx as int].pending.drop_first(),
                        observed: old(self).receivers()[idx as int].observed.push(m@),
                        ..old(self).receivers()[idx as int]
                    })
                },
                None => {
                    &&& old(self).receivers()[idx as int].pending.len() == 0
                    &&& final(self).receivers() == old(self).receivers()
                },
            },
    {
        proof {
            assert(self.receivers()[idx as int] == self.receivers@[idx as int]@);
            assert(old(self).receivers()[idx as int].wf(old(self).log()));
        }
        let ghost pre = self.receivers@;
        let r = &mut self.receivers[idx];
        let ghost r0 = r@;
        let popped = r.pending.pop_front();
        let result = match popped {
            Some(m) => {
                r.observed = Ghost(r.observed@.push(m@));
                Some(m)
            },
            None => None,
        };
        proof {
            let r1 = self.receivers@[idx as int]@;
            assert forall|j: int|
                0 <= j < old(self).receivers().len() && j != idx implies #[trigger] self.receivers()[j]
                == old(self).receivers()[j] by {
                assert(self.receivers@[j] == pre[j]);
            }
            assert(self.receivers()[idx as int] == r1);
            match result {
                Some(ref m) => {
                    assert(r1.pending =~= r0.pending.drop_first());
                    assert(r1 =~= (ReceiverModel {
                        pending: r0.pending.drop_first(),
                        observed: r0.observed.push(m@),
                        ..r0
                    }));
                    assert(wire_ready(r0.pending[0]));
                    assert forall|k: int| 0 <= k < r1.pending.len() implies wire_ready(
                        #[trigger] r1.pending[k],
                    ) by {
                        assert(r1.pending[k] == r0.pending[k + 1]);
                    }
                    if r0.active && !r0.dropped {
                        assert(r1.observed + r1.pending =~= r0.observed + r0.pending);
                    }
                    assert(r1.wf(self.log@));
                },
                None => {
                    assert(r1 =~= r0);
                    assert(self.receivers() =~= old(self).receivers());
                },
            }
        }
        result
    }

    /// Releases a subscription: the receiver stops getting publishes and
    /// its queue is discarded.
    pub fn unsubscribe(&mut self, idx: usize)
        requires
            old(self).wf(),
            idx < old(self).receivers().len(),
        ensures
            final(self).wf(),
            final(self).log() == old(self).log(),
            final(self).receivers().len() == old(self).receivers().len(),
            forall|j: int|
                0 <= j < old(self).receivers().len() && j != idx
                    ==> final(self).receivers()[j] == old(self).receivers()[j],
            !final(self).receivers()[idx as int].active,
            final(self).receivers()[idx as int].pending.len() == 0,
    {
        let ghost pre = self.receivers@;
        let r = &mut self.receivers[idx];
        r.active = false;
        r.pending.clear();
        proof {
            let r1 = self.receivers@[idx as int]@;
            assert(self.receivers()[idx as int] == r1);
            assert(r1.pending =~= Seq::<ServerMessageView>::empty());
            assert forall|j: int|
                0 <= j < old(self).receivers().len() && j != idx implies #[trigger] self.receivers()[j]
                == old(self).receivers()[j] by {
                assert(self.receivers@[j] == pre[j]);
            }
            assert(old(self).receivers()[idx as int].wf(old(self).log()));
            assert(r1.wf(self.log@));
        }
    }
}

/// A receiver that was subscribed before a run of publishes and whose
/// queue never overflowed observes exactly those publishes: what it has
/// consumed so far followed by what still waits in its queue is the
/// publish sequence from its subscription point onward, in publish order.
pub proof fn lemma_receiver_observes_publishes(hub: &Hub, idx: int)
    requires
        hub.wf(),
        0 <= idx < hub.receivers().len(),
        hub.receivers()[idx].active,
        !hub.receivers()[idx].dropped,
    ensures
        hub.receivers()[idx].observed + hub.receivers()[idx].pending == hub.log().skip(
            hub.receivers()[idx].base,
        ),
{
    assert(hub.receivers()[idx].wf(hub.log()));
}

/// All receivers share one total order: whatever two receivers both see,
/// they see in the same relative order, because each one's view is the
/// publish log from its own subscription point onward.
pub proof fn lemma_shared_total_order(hub: &Hub, i: int, j: int)
    requires
        hub.wf(),
        0 <= i < hub.receivers().len(),
        0 <= j < hub.receivers().len(),
        hub.receivers()[i].active && !hub.receivers()[i].dropped,
        hub.receivers()[j].active && !hub.receivers()[j].dropped,
        hub.receivers()[i].base <= hub.receivers()[j].base,
    ensures
        (hub.receivers()[i].observed + hub.receivers()[i].pending).skip(
            hub.receivers()[j].base - hub.receivers()[i].base,
        ) == hub.receivers()[j].observed + hub.receivers()[j].pending,
{
    let bi = hub.receivers()[i].base;
    let bj = hub.receivers()[j].base;
    lemma_receiver_observes_publishes(hub, i);
    lemma_receiver_observes_publishes(hub, j);
    assert(hub.log().skip(bi).skip(bj - bi) =~= hub.log().skip(bj));
}

} // verus!
