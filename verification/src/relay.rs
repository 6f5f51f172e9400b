use vstd::prelude::*;
use crate::event::ServerMessage;
use crate::event::ServerMessageView;
use crate::event::wire_ready;
use crate::history::ChatHistory;
use crate::history::history_push;
use crate::history::replay;
use crate::history::retained_from;
use crate::history::lemma_history_bounded;
use crate::hub::Hub;
use crate::hub::ReceiverModel;

verus! {

/// The process-wide state every connection shares: the broadcast hub and
/// the history buffer, created once at startup. Every event is appended
/// to the history and published to the hub in one critical section, so
/// the history is always exactly the replay of the publish log.
pub struct Relay {
    hub: Hub,
    history: ChatHistory,
}

impl Relay {
    /// The single total order of everything published so far.
    pub closed spec fn log(&self) -> Seq<ServerMessageView> {
        self.hub.log()
    }

    /// The registered receivers, by handle.
    pub closed spec fn receivers(&self) -> Seq<ReceiverModel> {
        self.hub.receivers()
    }

    /// The current contents of the history buffer, oldest first.
    pub closed spec fn history_view(&self) -> Seq<ServerMessageView> {
        self.history@
    }

    /// The hub's bookkeeping agrees with the publish log, and the history
    /// buffer holds exactly the replay of that log.
    pub closed spec fn inv(&self) -> bool {
        &&& self.hub.wf()
        &&& self.history.wf()
        &&& self.history@ == replay(self.hub.log())
    }

    /// A fresh relay: nothing published, nobody subscribed.
    pub fn new() -> (r: Self)
        ensures
            r.inv(),
            r.log() == Seq::<ServerMessageView>::empty(),
            r.receivers() == Seq::<ReceiverModel>::empty(),
            r.history_view() == Seq::<ServerMessageView>::empty(),
    {
        Relay { hub: Hub::new(), history: ChatHistory::new() }
    }

    /// Appends the event to the history buffer and delivers it to every
    /// registered receiver, in one critical section.
    pub fn publish(&mut self, message: ServerMessage)
        requires
            old(self).inv(),
            wire_ready(message@),
        ensures
            final(self).inv(),
            final(self).log() == old(self).log().push(message@),
            final(self).history_view() == history_push(old(self).history_view(), message@),
            final(self).receivers().len() == old(self).receivers().len(),
            forall|i: int|
                0 <= i < old(self).receivers().len() ==> (#[trigger] final(self).receivers()[i])
                    .offered(old(self).receivers()[i], message@),
    {
        let ghost log0 = self.hub.log();
        self.history.add_message(message.clone());
        self.hub.publish(message);
        proof {
            assert(self.hub.log().drop_last() =~= log0);
            assert(self.hub.log().last() == message@);
        }
    }

    /// The join-time operation: atomically copies the history buffer and
    /// registers a new hub subscription, so that no event published around
    /// this moment is either missed or seen twice by the new receiver.
    pub fn snapshot_and_subscribe(&mut self) -> (r: (Vec<ServerMessage>, usize))
        requires
            old(self).inv(),
        ensures
            final(self).inv(),
            final(self).log() == old(self).log(),
            final(self).history_view() == old(self).history_view(),
            r.0@.map(|i: int, m: ServerMessage| m@) == old(self).history_view(),
            forall|j: int| 0 <= j < r.0@.len() ==> wire_ready(#[trigger] r.0@[j]@),
            r.1 == old(self).receivers().len(),
            final(self).receivers() == old(self).receivers().push(
                ReceiverModel {
                    active: true,
                    pending: Seq::empty(),
                    observed: old(self).history_view(),
                    base: old(self).log().len() - old(self).history_view().len(),
                    dropped: false,
                },
            ),
    {
        let snapshot = self.history.get_recent_messages();
        proof {
            lemma_history_bounded(self.hub.log());
            assert(self.history@ =~= self.hub.log().skip(
                self.hub.log().len() - self.history@.len(),
            ));
            assert forall|j: int| 0 <= j < snapshot@.len() implies wire_ready(
                #[trigger] snapshot@[j]@,
            ) by {
                let base = self.hub.log().len() - self.history@.len();
                assert(snapshot@[j]@ == self.history@[j]);
                assert(self.history@[j] == self.hub.log()[base + j]);
            }
        }
        let ghost observed = self.history@;
        let ghost base = self.hub.log().len() - self.history@.len();
        let idx = self.hub.subscribe_from(Ghost(observed), Ghost(base));
        (snapshot, idx)
    }

    /// How many receivers have been registered so far; handles below this
    /// count are valid.
    pub fn receiver_count(&self) -> (n: usize)
        ensures
            n == self.receivers().len(),
    {
        self.hub.receiver_count()
    }

    /// A copy of the history buffer's current contents, oldest first.
    pub fn recent_history(&self) -> (r: Vec<ServerMessage>)
        ensures
            r@.map(|i: int, m: ServerMessage| m@) == self.history_view(),
            r@.len() == self.history_view().len(),
    {
        self.history.get_recent_messages()
    }

    /// Whether the given receiver has undelivered events queued.
    pub fn has_pending(&self, idx: usize) -> (r: bool)
        requires
            idx < self.receivers().len(),
        ensures
            r == (self.receivers()[idx as int].pending.len() > 0),
    {
        self.hub.has_pending(idx)
    }

    /// Takes the oldest undelivered event for the given receiver, if any.
    pub fn recv(&mut self, idx: usize) -> (r: Option<ServerMessage>)
        requires
            old(self).inv(),
            idx < old(self).receivers().len(),
        ensures
            final(self).inv(),
            final(self).log() == old(self).log(),
            final(self).history_view() == old(self).history_view(),
            final(self).receivers().len() == old(self).receivers().len(),
            forall|j: int|
                0 <= j < old(self).receivers().len() && j != idx
                    ==> final(self).receivers()[j] == old(self).receivers()[j],
            match r {
                Some(m) => {
                    &&& old(self).receivers()[idx as int].pending.len() > 0
                    &&& m@ == old(self).receivers()[idx as int].pending[0]
                    &&& wire_ready(m@)
                    &&& final(self).receivers()[idx as int] == (ReceiverModel {
                        pending: old(self).receivers()[idx as int].pending.drop_first(),
                        observed: old(self).receivers()[idx as int].observed.push(m@),
                        ..old(self).receivers()[idx as int]
                    })
                },
                None => {
                    &&& old(self).receivers()[idx as int].pending.len() == 0
                    &&& final(self).receivers() == old(self).receivers()
                },
            },
    {
        self.hub.recv(idx)
    }

    /// Releases a subscription on teardown of its connection.
    pub fn unsubscribe(&mut self, idx: usize)
        requires
            old(self).inv(),
            idx < old(self).receivers().len(),
        ensures
            final(self).inv(),
            final(self).log() == old(self).log(),
            final(self).history_view() == old(self).history_view(),
            final(self).receivers().len() == old(self).receivers().len(),
            forall|j: int|
                0 <= j < old(self).receivers().len() && j != idx
                    ==> final(self).receivers()[j] == old(self).receivers()[j],
            !final(self).receivers()[idx as int].active,
            final(self).receivers()[idx as int].pending.len() == 0,
    {
        self.hub.unsubscribe(idx)
    }
}

/// Joining is atomic: what a receiver created by `snapshot_and_subscribe`
/// has observed (its snapshot followed by every event it has consumed
/// since) followed by what still waits in its queue is exactly the publish
/// sequence from the snapshot's start onward — no gap and no duplicate —
/// as long as its lossy queue never overflowed.
pub proof fn lemma_snapshot_no_gap_no_duplicate(relay: &Relay, idx: int)
    requires
        relay.inv(),
        0 <= idx < relay.receivers().len(),
        relay.receivers()[idx].active,
        !relay.receivers()[idx].dropped,
    ensures
        relay.receivers()[idx].observed + relay.receivers()[idx].pending == relay.log().skip(
            relay.receivers()[idx].base,
        ),
{
    assert(relay.receivers()[idx].wf(relay.log()));
}

/// The history buffer never exceeds its capacity, and holds exactly the
/// most recent events of the publish sequence, in publish order.
pub proof fn lemma_history_is_recent_suffix(relay: &Relay)
    requires
        relay.inv(),
    ensures
        relay.history_view().len() <= crate::history::MAX_HISTORY_SIZE,
        relay.history_view() == relay.log().skip(retained_from(relay.log().len() as int)),
{
    lemma_history_bounded(relay.log());
}

} // verus!
