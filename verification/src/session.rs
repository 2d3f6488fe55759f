//! The session actor of the receiving side.  One `Session` exists per
//! accepted connection; it owns the liveness timestamp, decodes inbound
//! text frames and dispatches recognized commands to the pointer sink, and
//! asks to be terminated on timeout, close or channel error.  A malformed
//! frame is dropped without touching the session; an unrecognized
//! discriminant is ignored for forward compatibility.

use vstd::prelude::*;

use crate::codec;
use crate::codec::Decoded;
use crate::command::Command;
use crate::command::Mouse;

verus! {

/// Interval of the recurring liveness check, in milliseconds.
pub const HEARTBEAT_INTERVAL_MS: u64 = 5000;

/// Silence after which a peer is considered dead, in milliseconds.
pub const CLIENT_TIMEOUT_MS: u64 = 300000;

/// One inbound transport event, as the channel hands it to the session.
pub enum Frame {
    /// A ping control frame with its payload; answered with a pong.
    Ping(Vec<u8>),
    /// A pong control frame; refreshes the liveness timestamp.
    Pong,
    /// A text frame carrying one encoded command.
    Text(Vec<u8>),
    /// A binary frame; the protocol is text only, so it is ignored.
    Binary(Vec<u8>),
    /// The peer closed the channel.
    Close,
    /// The channel errored; fatal to this session only.
    ProtocolError,
}

/// A call into the pointer sink.
#[derive(Clone, Copy, PartialEq, Eq, Structural, Debug)]
pub enum SinkCall {
    MoveRelative(i32, i32),
    ClickButton(Mouse),
}

/// What handling one frame asks the surrounding actor to do.
pub struct HandleOutcome {
    /// Payload to echo back as a pong, for a ping frame.
    pub pong_reply: Option<Vec<u8>>,
    /// The one pointer-sink call of a recognized command, if any.
    pub sink: Option<SinkCall>,
    /// Whether the session terminates immediately.
    pub stop: bool,
}

/// Receiving-side session state: the liveness timestamp alone.
#[derive(Clone, Copy, PartialEq, Eq, Structural, Debug)]
pub struct Session {
    pub last_heartbeat: u64,
}

/// The liveness timestamp after one frame: ping and pong refresh it,
/// nothing else touches it.
pub open spec fn heartbeat_after(s: Session, frame: Frame, now: u64) -> u64 {
    match frame {
        Frame::Ping(_) => now,
        Frame::Pong => now,
        _ => s.last_heartbeat,
    }
}

/// The pointer-sink call that one text frame produces: exactly one for a
/// recognized command, none for an unknown or malformed frame.
pub open spec fn sink_of_text(t: Seq<u8>) -> Option<SinkCall> {
    match codec::decode_spec(t) {
        Decoded::Cmd(Command::Move { x, y }) => Some(SinkCall::MoveRelative(x, y)),
        Decoded::Cmd(Command::Click(b)) => Some(SinkCall::ClickButton(b)),
        Decoded::Unknown => None,
        Decoded::Malformed => None,
    }
}

impl Session {
    /// The peer has been silent for longer than the timeout at `now`.
    pub open spec fn stale(self, now: u64) -> bool {
        self.last_heartbeat + CLIENT_TIMEOUT_MS < now
    }

    /// A fresh session records `now` as its first heartbeat.
    pub fn new(now: u64) -> (r: Session)
        ensures
            r.last_heartbeat == now,
    {
        Session { last_heartbeat: now }
    }

    /// Handles one inbound frame at time `now`: pings are answered and
    /// refresh liveness, pongs refresh liveness, text frames dispatch at
    /// most one sink call and never touch the session state, close and
    /// channel error terminate, binary frames are ignored.
    pub fn handle(&mut self, frame: Frame, now: u64) -> (r: HandleOutcome)
        ensures
            final(self).last_heartbeat == heartbeat_after(*old(self), frame, now),
            r.stop == (frame is Close || frame is ProtocolError),
            match frame {
                Frame::Ping(p) => r.pong_reply matches Some(q) && q@ == p@ && r.sink is None,
                Frame::Text(t) => r.pong_reply is None && r.sink == sink_of_text(t@),
                _ => r.pong_reply is None && r.sink is None,
            },
    {
        match frame {
            Frame::Ping(p) => {
                self.last_heartbeat = now;
                HandleOutcome { pong_reply: Some(p), sink: None, stop: false }
            },
            Frame::Pong => {
                self.last_heartbeat = now;
                HandleOutcome { pong_reply: None, sink: None, stop: false }
            },
            Frame::Text(t) => {
                let sink = match codec::decode(&t) {
                    Decoded::Cmd(Command::Move { x, y }) => Some(SinkCall::MoveRelative(x, y)),
                    Decoded::Cmd(Command::Click(b)) => Some(SinkCall::ClickButton(b)),
                    Decoded::Unknown => None,
                    Decoded::Malformed => None,
                };
                HandleOutcome { pong_reply: None, sink, stop: false }
            },
            Frame::Binary(_) => HandleOutcome { pong_reply: None, sink: None, stop: false },
            Frame::Close => HandleOutcome { pong_reply: None, sink: None, stop: true },
            Frame::ProtocolError => HandleOutcome { pong_reply: None, sink: None, stop: true },
        }
    }

    /// The recurring liveness check at time `now`: asks for termination
    /// exactly when the peer has been silent for longer than the timeout.
    pub fn liveness_check(&self, now: u64) -> (stop: bool)
        ensures
            stop == self.stale(now),
    {
        now > CLIENT_TIMEOUT_MS && self.last_heartbeat < now - CLIENT_TIMEOUT_MS
    }
}

/// Only ping and pong frames refresh liveness: any other frame leaves the
/// timestamp where it was, so a peer that stops sending control frames
/// ages towards the timeout whatever else arrives.
pub proof fn lemma_only_heartbeats_refresh(s: Session, frame: Frame, now: u64)
    requires
        !(frame is Ping),
        !(frame is Pong),
    ensures
        heartbeat_after(s, frame, now) == s.last_heartbeat,
{
}

/// A session that has received no liveness-refreshing frame for longer
/// than the timeout is found stale by the next liveness check.
pub proof fn lemma_silent_session_times_out(s: Session, now: u64)
    requires
        s.last_heartbeat + CLIENT_TIMEOUT_MS < now,
    ensures
        s.stale(now),
{
}

/// A session that received a pong at `t_pong` survives a liveness check at
/// any `t_check` within the timeout after it.
pub proof fn lemma_recent_pong_survives(s: Session, t_pong: u64, t_check: u64)
    requires
        t_check <= t_pong + CLIENT_TIMEOUT_MS,
    ensures
        !(Session { last_heartbeat: heartbeat_after(s, Frame::Pong, t_pong) }).stale(t_check),
{
}

} // verus!
