//! Pointer session protocol: the paired state machines of a touchscreen
//! remote-pointer system.  The sending side turns raw touch offsets into a
//! throttled, sensitivity-curved stream of motion and click commands; the
//! receiving side keeps a heartbeat-supervised session that decodes those
//! commands and hands them to a pointer sink.

pub mod codec;
pub mod command;
pub mod controller;
pub mod layout;
pub mod link;
pub mod session;
pub mod transform;
pub mod transmitter;
