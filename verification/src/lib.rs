//! A real-time chat relay core: a bounded history buffer, an in-process
//! broadcast hub with per-receiver queues, a per-connection state machine,
//! a line-oriented wire codec, and the small user directory and message
//! archive that accompany the relay.
use vstd::prelude::*;

pub mod clock;
pub mod connection;
pub mod event;
pub mod history;
pub mod hub;
pub mod relay;
pub mod text;
pub mod messages;
pub mod users;
pub mod wire;

pub use event::ChatMessage;
pub use event::ServerMessage;

verus! {

} // verus!
