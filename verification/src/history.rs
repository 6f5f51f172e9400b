use vstd::prelude::*;
use std::collections::VecDeque;
use crate::event::ServerMessage;
use crate::event::ServerMessageView;

verus! {

/// Most events the history retains.
pub const MAX_HISTORY_SIZE: usize = 100;

/// Bounded FIFO of past events, replayed to newly joined clients.
/// The oldest event leaves first once the buffer is full, so the buffer
/// always holds the most recent events in their original publish order.
#[derive(Debug)]
pub struct ChatHistory {
    messages: VecDeque<ServerMessage>,
}

impl View for ChatHistory {
    type V = Seq<ServerMessageView>;

    closed spec fn view(&self) -> Seq<ServerMessageView> {
        self.messages@.map(|i: int, m: ServerMessage| m@)
    }
}

/// One append to a bounded buffer: the event goes to the back, and the
/// oldest entry leaves first when the buffer is already full.
pub open spec fn history_push(
    h: Seq<ServerMessageView>,
    m: ServerMessageView,
) -> Seq<ServerMessageView> {
    if h.len() < MAX_HISTORY_SIZE { h.push(m) } else { h.drop_first().push(m) }
}

/// The buffer that results from appending a whole publish sequence,
/// oldest first, into an empty buffer.
pub open spec fn replay(events: Seq<ServerMessageView>) -> Seq<ServerMessageView>
    decreases events.len(),
{
    if events.len() == 0 {
        Seq::empty()
    } else {
        history_push(replay(events.drop_last()), events.last())
    }
}

/// Index of the oldest event a bounded buffer retains out of a publish
/// sequence of length `n`.
pub open spec fn retained_from(n: int) -> int {
    if n <= MAX_HISTORY_SIZE { 0 } else { n - MAX_HISTORY_SIZE }
}

/// The buffer never exceeds its capacity, and after any number of appends
/// it equals exactly the most recent events of the publish sequence, in
/// publish order.
pub proof fn lemma_history_bounded(events: Seq<ServerMessageView>)
    ensures
        replay(events).len() <= MAX_HISTORY_SIZE,
        replay(events) == events.skip(retained_from(events.len() as int)),
    decreases events.len(),
{
    if events.len() == 0 {
        assert(replay(events) =~= events.skip(0));
    } else {
        let prefix = events.drop_last();
        lemma_history_bounded(prefix);
        let k = retained_from(prefix.len() as int);
        assert(replay(prefix) =~= prefix.skip(k));
        if replay(prefix).len() < MAX_HISTORY_SIZE {
            assert(replay(events) =~= events.skip(retained_from(events.len() as int)));
        } else {
            assert(replay(events) =~= events.skip(retained_from(events.len() as int)));
        }
    }
}

impl ChatHistory {
    /// A buffer may never hold more than its capacity.
    pub open spec fn wf(&self) -> bool {
        self@.len() <= MAX_HISTORY_SIZE
    }

    /// An empty history.
    pub fn new() -> (h: Self)
        ensures
            h@ == Seq::<ServerMessageView>::empty(),
            h.wf(),
    {
        let h = ChatHistory { messages: VecDeque::with_capacity(MAX_HISTORY_SIZE) };
        proof {
            assert(h@ =~= Seq::<ServerMessageView>::empty());
        }
        h
    }

    /// Appends one event, evicting the oldest entry first if the buffer
    /// is at capacity.
    pub fn add_message(&mut self, message: ServerMessage)
        requires
            old(self).wf(),
        ensures
            final(self).wf(),
            final(self)@ == history_push(old(self)@, message@),
    {
        if self.messages.len() >= MAX_HISTORY_SIZE {
            self.messages.pop_front();
        }
        self.messages.push_back(message);
        proof {
            assert(self@ =~= history_push(old(self)@, message@));
        }
    }

    /// A copy of the whole buffer, oldest event first.
    pub fn get_recent_messages(&self) -> (r: Vec<ServerMessage>)
        ensures
            r@.map(|i: int, m: ServerMessage| m@) == self@,
            r@.len() == self@.len(),
    {
        let mut out: Vec<ServerMessage> = Vec::new();
        let mut i: usize = 0;
        while i < self.messages.len()
            invariant
                i <= self.messages@.len(),
                out@.len() == i,
                forall|j: int| 0 <= j < i ==> out@[j] == self.messages@[j],
            decreases self.messages@.len() - i,
        {
            out.push(self.messages[i].clone());
            i += 1;
        }
        proof {
            assert(out@.map(|i: int, m: ServerMessage| m@) =~= self@);
        }
        out
    }
}

} // verus!
