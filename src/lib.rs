//! Building blocks for the members of a simulated cluster: the message
//! envelope, the start-up handshake, and the state machines of the nodes that
//! exchange those messages. Every state machine here is pure: it takes an
//! inbound message (or the current time) and hands back what to send.

pub mod message;
pub mod node;
pub mod broadcast;
pub mod broadcast_laws;
pub mod echo;
pub mod unique_ids;
pub mod keyed;
pub mod g_counter;
pub mod kafka;
pub mod runtime;
