//! A compact, authenticated framing protocol for duty-cycled devices, plus a
//! catch-up mechanism: a bounded event log with monotonically assigned offsets
//! and the offset-comparison rule a server uses to answer a client that missed
//! messages.

pub mod catch_up;
pub mod event_log;
pub mod frame;
