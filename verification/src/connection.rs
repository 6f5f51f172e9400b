use vstd::prelude::*;
use crate::clock;
use crate::event::ChatMessage;
use crate::event::ChatMessageView;
use crate::event::ServerMessage;
use crate::event::ServerMessageView;
use crate::event::author_of;
use crate::event::wire_ready;
use crate::history::history_push;
use crate::hub::ReceiverModel;
use crate::relay::Relay;
use crate::text::str_eq;
use crate::text::trim_bytes;
use crate::text::trimmed;
use crate::text::utf8_lossy;
use crate::text::utf8_lossy_of;
use crate::wire::encode_message;
use crate::wire::wire_line;

verus! {

/// Lifecycle of one connection, from accept to teardown.
#[derive(Debug, Clone, Copy, PartialEq, Eq, Structural)]
pub enum ConnState {
    Connecting,
    AwaitingUsername,
    Active,
    Disconnecting,
    Closed,
}

/// What a connection's reader or writer task can report.
#[derive(Debug, Clone, Copy, PartialEq, Eq, Structural)]
pub enum ConnEvent {
    /// The socket was accepted; no application data read yet.
    Accepted,
    /// The handshake line with the username arrived.
    UsernameRead,
    /// A complete inbound record was reassembled.
    RecordDecoded,
    /// Undecodable input arrived; it is dropped silently.
    MalformedRecord,
    /// The peer closed its sending side.
    ReaderClosed,
    /// A read failed.
    ReaderFailed,
    /// A write failed.
    WriterFailed,
    /// Both tasks have stopped and resources were released.
    TornDown,
}

/// What the runtime must do after a transition.
#[derive(Debug, Clone, Copy, PartialEq, Eq, Structural)]
pub enum ConnAction {
    /// Read the handshake line.
    AwaitUsername,
    /// Snapshot-and-subscribe, replay the snapshot, start both loops.
    ReplayAndStart,
    /// Publish the decoded record as a chat event.
    PublishChat,
    /// Publish a leave event and signal the sibling task to stop.
    PublishLeftAndCancel,
    /// Release the socket and the hub subscription.
    ReleaseResources,
    /// Do nothing.
    Nothing,
}

/// The connection state machine: which state and action follow an event.
/// Failures in `Active` all lead through `Disconnecting` with a leave
/// event; `Closed` is terminal; events out of place change nothing.
pub open spec fn spec_step(s: ConnState, e: ConnEvent) -> (ConnState, ConnAction) {
    match (s, e) {
        (ConnState::Connecting, ConnEvent::Accepted) => (
            ConnState::AwaitingUsername,
            ConnAction::AwaitUsername,
        ),
        (ConnState::AwaitingUsername, ConnEvent::UsernameRead) => (
            ConnState::Active,
            ConnAction::ReplayAndStart,
        ),
        (ConnState::Active, ConnEvent::RecordDecoded) => (
            ConnState::Active,
            ConnAction::PublishChat,
        ),
        (ConnState::Active, ConnEvent::MalformedRecord) => (ConnState::Active, ConnAction::Nothing),
        (ConnState::Active, ConnEvent::ReaderClosed) => (
            ConnState::Disconnecting,
            ConnAction::PublishLeftAndCancel,
        ),
        (ConnState::Active, ConnEvent::ReaderFailed) => (
            ConnState::Disconnecting,
            ConnAction::PublishLeftAndCancel,
        ),
        (ConnState::Active, ConnEvent::WriterFailed) => (
            ConnState::Disconnecting,
            ConnAction::PublishLeftAndCancel,
        ),
        (ConnState::Disconnecting, ConnEvent::TornDown) => (
            ConnState::Closed,
            ConnAction::ReleaseResources,
        ),
        (_, _) => (s, ConnAction::Nothing),
    }
}

/// Runs one transition of the connection state machine.
pub fn conn_step(s: ConnState, e: ConnEvent) -> (r: (ConnState, ConnAction))
    ensures
        r == spec_step(s, e),
{
    match (s, e) {
        (ConnState::Connecting, ConnEvent::Accepted) => (
            ConnState::AwaitingUsername,
            ConnAction::AwaitUsername,
        ),
        (ConnState::AwaitingUsername, ConnEvent::UsernameRead) => (
            ConnState::Active,
            ConnAction::ReplayAndStart,
        ),
        (ConnState::Active, ConnEvent::RecordDecoded) => (
            ConnState::Active,
            ConnAction::PublishChat,
        ),
        (ConnState::Active, ConnEvent::MalformedRecord) => (ConnState::Active, ConnAction::Nothing),
        (ConnState::Active, ConnEvent::ReaderClosed) => (
            ConnState::Disconnecting,
            ConnAction::PublishLeftAndCancel,
        ),
        (ConnState::Active, ConnEvent::ReaderFailed) => (
            ConnState::Disconnecting,
            ConnAction::PublishLeftAndCancel,
        ),
        (ConnState::Active, ConnEvent::WriterFailed) => (
            ConnState::Disconnecting,
            ConnAction::PublishLeftAndCancel,
        ),
        (ConnState::Disconnecting, ConnEvent::TornDown) => (
            ConnState::Closed,
            ConnAction::ReleaseResources,
        ),
        (_, _) => (s, ConnAction::Nothing),
    }
}

/// Once closed, a connection stays closed whatever arrives.
pub proof fn lemma_closed_is_terminal(e: ConnEvent)
    ensures
        spec_step(ConnState::Closed, e).0 == ConnState::Closed,
        spec_step(ConnState::Closed, e).1 == ConnAction::Nothing,
{
}

/// The three failure kinds of the relay and their severity.
#[derive(Debug, Clone, Copy, PartialEq, Eq, Structural)]
pub enum ErrorKind {
    /// Socket I/O failure or peer close: ends one connection only.
    ConnectionError,
    /// Malformed or undecodable input: the record is dropped, the
    /// connection stays active.
    ProtocolError,
    /// Listener bind failure at startup: fatal for the process.
    StartupError,
}

/// Whether a failure kind aborts the whole process.
pub open spec fn spec_is_fatal(k: ErrorKind) -> bool {
    k == ErrorKind::StartupError
}

/// Whether a failure kind tears down the connection it occurred on.
pub open spec fn spec_closes_connection(k: ErrorKind) -> bool {
    k == ErrorKind::ConnectionError
}

/// Only a startup failure aborts the process.
pub fn is_fatal(k: ErrorKind) -> (r: bool)
    ensures
        r == spec_is_fatal(k),
{
    match k {
        ErrorKind::StartupError => true,
        _ => false,
    }
}

/// Only a connection failure tears its connection down; a protocol
/// failure leaves the connection active.
pub fn closes_connection(k: ErrorKind) -> (r: bool)
    ensures
        r == spec_closes_connection(k),
{
    match k {
        ErrorKind::ConnectionError => true,
        _ => false,
    }
}

/// Mathematical model of a connection handler.
pub ghost struct ConnectionView {
    pub username: Seq<char>,
    pub state: ConnState,
    pub handle: int,
}

/// One client's server-side handler: its registered display name and its
/// hub subscription handle. Uniqueness of names is not enforced; an
/// empty name is treated as anonymous, not rejected.
pub struct Connection {
    username: String,
    state: ConnState,
    handle: usize,
}

impl View for Connection {
    type V = ConnectionView;

    closed spec fn view(&self) -> ConnectionView {
        ConnectionView {
            username: self.username@,
            state: self.state,
            handle: self.handle as int,
        }
    }
}

/// The chat event a connection publishes for one decoded record.
pub open spec fn chat_event(user: Seq<char>, content: Seq<char>, t: int) -> ServerMessageView {
    ServerMessageView::ChatMessage(
        ChatMessageView { user_id: user, content: content, timestamp: t },
    )
}

impl Connection {
    /// The connection's lifecycle state.
    pub fn state(&self) -> (s: ConnState)
        ensures
            s == self@.state,
    {
        self.state
    }

    /// The hub subscription handle this connection consumes from.
    pub fn handle(&self) -> (h: usize)
        ensures
            h == self@.handle,
    {
        self.handle
    }

    /// Brings a freshly accepted connection to `Active`: reads the
    /// username out of the handshake bytes, atomically snapshots the
    /// history and subscribes, announces the join, and returns the wire
    /// records that replay the snapshot to the client, in order.
    pub fn establish(relay: &mut Relay, raw_handshake: &[u8]) -> (r: (Connection, Vec<Vec<u8>>))
        requires
            old(relay).inv(),
        ensures
            final(relay).inv(),
            r.0@.state == ConnState::Active,
            r.0@.username == utf8_lossy_of(trimmed(raw_handshake@)),
            r.0@.handle == old(relay).receivers().len(),
            r.1@.len() == old(relay).history_view().len(),
            forall|j: int|
                0 <= j < r.1@.len() ==> (#[trigger] r.1@[j])@ == wire_line(
                    old(relay).history_view()[j],
                ),
            final(relay).log() == old(relay).log().push(
                ServerMessageView::UserJoined(r.0@.username),
            ),
            final(relay).history_view() == history_push(
                old(relay).history_view(),
                ServerMessageView::UserJoined(r.0@.username),
            ),
            final(relay).receivers().len() == old(relay).receivers().len() + 1,
            forall|i: int|
                0 <= i < old(relay).receivers().len() ==> (#[trigger] final(relay).receivers()[i])
                    .offered(
                    old(relay).receivers()[i],
                    ServerMessageView::UserJoined(r.0@.username),
                ),
            final(relay).receivers()[r.0@.handle] == (ReceiverModel {
                active: true,
                pending: seq![ServerMessageView::UserJoined(r.0@.username)],
                observed: old(relay).history_view(),
                base: old(relay).log().len() - old(relay).history_view().len(),
                dropped: false,
            }),
    {
        let name_bytes = trim_bytes(raw_handshake);
        let username = utf8_lossy(name_bytes.as_slice());
        let (snapshot, handle) = relay.snapshot_and_subscribe();
        let mut lines: Vec<Vec<u8>> = Vec::new();
        let mut i: usize = 0;
        while i < snapshot.len()
            invariant
                i <= snapshot@.len(),
                lines@.len() == i,
                forall|j: int| 0 <= j < snapshot@.len() ==> wire_ready(#[trigger] snapshot@[j]@),
                forall|j: int|
                    0 <= j < i ==> (#[trigger] lines@[j])@ == wire_line(snapshot@[j]@),
            decreases snapshot@.len() - i,
        {
            lines.push(encode_message(&snapshot[i]));
            i += 1;
        }
        relay.publish(ServerMessage::UserJoined(username.clone()));
        proof {
            assert(seq![ServerMessageView::UserJoined(username@)]
                =~= Seq::<ServerMessageView>::empty().push(
                ServerMessageView::UserJoined(username@),
            ));
            assert(relay.receivers()[handle as int] =~= (ReceiverModel {
                active: true,
                pending: seq![ServerMessageView::UserJoined(username@)],
                observed: old(relay).history_view(),
                base: old(relay).log().len() - old(relay).history_view().len(),
                dropped: false,
            }));
        }
        (Connection { username, state: ConnState::Active, handle }, lines)
    }

    /// Publishes one decoded inbound record as this user's chat line,
    /// stamped with the current clock reading.
    pub fn on_record(&self, relay: &mut Relay, record: &[u8])
        requires
            old(relay).inv(),
            self@.state == ConnState::Active,
        ensures
            final(relay).inv(),
            exists|t: int|
                {
                    &&& 0 <= t <= clock::MAX_TIMESTAMP
                    &&& final(relay).log() == old(relay).log().push(
                        chat_event(self@.username, utf8_lossy_of(trimmed(record@)), t),
                    )
                    &&& final(relay).history_view() == history_push(
                        old(relay).history_view(),
                        chat_event(self@.username, utf8_lossy_of(trimmed(record@)), t),
                    )
                    &&& final(relay).receivers().len() == old(relay).receivers().len()
                    &&& forall|i: int|
                        0 <= i < old(relay).receivers().len()
                            ==> (#[trigger] final(relay).receivers()[i]).offered(
                            old(relay).receivers()[i],
                            chat_event(self@.username, utf8_lossy_of(trimmed(record@)), t),
                        )
                },
    {
        let content_bytes = trim_bytes(record);
        let content = utf8_lossy(content_bytes.as_slice());
        let message = ChatMessage::new(self.username.clone(), content);
        let ghost t = message.timestamp as int;
        relay.publish(ServerMessage::ChatMessage(message));
        proof {
            assert(relay.log() == old(relay).log().push(
                chat_event(self@.username, utf8_lossy_of(trimmed(record@)), t),
            ));
        }
    }

    /// Tears the connection down: announces the leave and releases the
    /// hub subscription. Terminal; the connection is `Closed` afterwards.
    pub fn disconnect(&mut self, relay: &mut Relay)
        requires
            old(relay).inv(),
            old(self)@.state == ConnState::Active,
            old(self)@.handle < old(relay).receivers().len(),
        ensures
            final(relay).inv(),
            final(self)@.state == ConnState::Closed,
            final(self)@.username == old(self)@.username,
            final(self)@.handle == old(self)@.handle,
            final(relay).log() == old(relay).log().push(
                ServerMessageView::UserLeft(old(self)@.username),
            ),
            final(relay).history_view() == history_push(
                old(relay).history_view(),
                ServerMessageView::UserLeft(old(self)@.username),
            ),
            final(relay).receivers().len() == old(relay).receivers().len(),
            !final(relay).receivers()[old(self)@.handle].active,
            forall|i: int|
                0 <= i < old(relay).receivers().len() && i != old(self)@.handle ==> (
                #[trigger] final(relay).receivers()[i]).offered(
                    old(relay).receivers()[i],
                    ServerMessageView::UserLeft(old(self)@.username),
                ),
    {
        relay.publish(ServerMessage::UserLeft(self.username.clone()));
        relay.unsubscribe(self.handle);
        self.state = ConnState::Closed;
    }

    /// The writer task's step: takes the oldest undelivered event for
    /// this connection, filters out the connection's own events, and
    /// serializes everything else to its wire record. Nothing is ever
    /// handed back for an event this user originated.
    pub fn poll_outgoing(&self, relay: &mut Relay) -> (r: Option<Vec<u8>>)
        requires
            old(relay).inv(),
            self@.handle < old(relay).receivers().len(),
        ensures
            final(relay).inv(),
            final(relay).log() == old(relay).log(),
            final(relay).history_view() == old(relay).history_view(),
            final(relay).receivers().len() == old(relay).receivers().len(),
            forall|j: int|
                0 <= j < old(relay).receivers().len() && j != self@.handle
                    ==> final(relay).receivers()[j] == old(relay).receivers()[j],
            ({
                let pend = old(relay).receivers()[self@.handle].pending;
                match r {
                    Some(bytes) => {
                        &&& pend.len() > 0
                        &&& author_of(pend[0]) != self@.username
                        &&& bytes@ == wire_line(pend[0])
                        &&& final(relay).receivers()[self@.handle] == (ReceiverModel {
                            pending: pend.drop_first(),
                            observed: old(relay).receivers()[self@.handle].observed.push(pend[0]),
                            ..old(relay).receivers()[self@.handle]
                        })
                    },
                    None => {
                        if pend.len() == 0 {
                            final(relay).receivers() == old(relay).receivers()
                        } else {
                            &&& author_of(pend[0]) == self@.username
                            &&& final(relay).receivers()[self@.handle] == (ReceiverModel {
                                pending: pend.drop_first(),
                                observed: old(relay).receivers()[self@.handle].observed.push(
                                    pend[0],
                                ),
                                ..old(relay).receivers()[self@.handle]
                            })
                        }
                    },
                }
            }),
    {
        match relay.recv(self.handle) {
            Some(message) => {
                let own = match &message {
                    ServerMessage::UserJoined(name) => str_eq(name.as_str(), self.username.as_str()),
                    ServerMessage::UserLeft(name) => str_eq(name.as_str(), self.username.as_str()),
                    ServerMessage::ChatMessage(c) => str_eq(
                        c.user_id.as_str(),
                        self.username.as_str(),
                    ),
                };
                if own {
                    None
                } else {
                    Some(encode_message(&message))
                }
            },
            None => None,
        }
    }
}

} // verus!
