//! A small duplex messaging client: fixed-size framing of text messages,
//! an ordered outbound queue, and the decisions of the interactive and
//! socket-polling loops.
pub mod frame;
pub mod queue;
pub mod session;
