//! The link manager of the sending side.  It owns the one channel handle,
//! mirrors the handle's observable ready state, and re-establishes the
//! channel lazily: a reconnect while the handle is already connecting or
//! open is a no-op, so there is never more than one live channel.

use vstd::prelude::*;

verus! {

/// Observable ready state of the duplex channel handle.
#[derive(Clone, Copy, PartialEq, Eq, Structural, Debug)]
pub enum ChannelState {
    Connecting,
    Open,
    Closing,
    Closed,
}

/// Owner of the single channel handle.  `generation` counts the handles
/// constructed so far; it grows exactly when a fresh channel replaces a
/// dead one, so an unchanged generation means no new connection was made.
#[derive(Clone, Copy, PartialEq, Eq, Structural, Debug)]
pub struct LinkManager {
    pub state: ChannelState,
    pub generation: u64,
}

/// What `reconnect` does: nothing while the handle is already connecting
/// or open; otherwise the handle is replaced by a fresh one in
/// `Connecting` state.
pub open spec fn reconnect_spec(m: LinkManager) -> LinkManager {
    if m.state is Connecting || m.state is Open {
        m
    } else {
        LinkManager { state: ChannelState::Connecting, generation: (m.generation + 1) as u64 }
    }
}

/// A reconnect while the channel is already connecting or open changes
/// nothing: done twice from such a state it still leaves the one existing
/// handle, with no second channel ever constructed.
pub proof fn lemma_reconnect_idempotent(m: LinkManager)
    requires
        m.state is Connecting || m.state is Open,
    ensures
        reconnect_spec(reconnect_spec(m)) == m,
        reconnect_spec(reconnect_spec(m)).generation == m.generation,
{
}

impl LinkManager {
    /// Constructs the manager with its first handle, freshly connecting.
    pub fn new() -> (r: LinkManager)
        ensures
            r.state is Connecting,
            r.generation == 1,
    {
        LinkManager { state: ChannelState::Connecting, generation: 1 }
    }

    /// Replaces a dead handle with a fresh connecting one; idempotent while
    /// the current handle is connecting or open.
    pub fn reconnect(&mut self)
        requires
            old(self).generation < u64::MAX,
        ensures
            *final(self) == reconnect_spec(*old(self)),
    {
        match self.state {
            ChannelState::Connecting => (),
            ChannelState::Open => (),
            _ => {
                self.state = ChannelState::Connecting;
                self.generation = self.generation + 1;
            },
        }
    }

    /// Records that the current handle finished its handshake.
    pub fn on_open(&mut self)
        ensures
            final(self).state is Open,
            final(self).generation == old(self).generation,
    {
        self.state = ChannelState::Open;
    }

    /// Records that the current handle began closing.
    pub fn on_closing(&mut self)
        ensures
            final(self).state is Closing,
            final(self).generation == old(self).generation,
    {
        self.state = ChannelState::Closing;
    }

    /// Records that the current handle closed.
    pub fn on_close(&mut self)
        ensures
            final(self).state is Closed,
            final(self).generation == old(self).generation,
    {
        self.state = ChannelState::Closed;
    }
}

} // verus!
