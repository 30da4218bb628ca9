//! A verified model of a websocket relay that bridges browser clients to a
//! chat-completion service: a text channel that answers one reply per inbound
//! frame, and a voice channel that sends one ephemeral-session frame and
//! closes.
//!
//! The relay's decisions (what to reply, when to stop) live here with proved
//! contracts; the surrounding server performs the network work and feeds the
//! results in as plain values.

pub mod frame;
pub mod relay;
pub mod session;
pub mod voice;
