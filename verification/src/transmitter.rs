//! The sampler/transformer of the sending side.  A `Transmitter` holds the
//! latest raw offset from the joystick's center, the emission flag computed
//! from the dead-zone rule, and the activation flag owned by the gesture
//! lifecycle.  A periodic tick reads that state, curves the offset, and
//! yields a `move` frame exactly when the gesture is active, emission is
//! enabled and the channel is open.

use vstd::prelude::*;

use crate::codec;
use crate::command::Command;
use crate::command::Mouse;
use crate::link::ChannelState;
use crate::link::LinkManager;
use crate::link::reconnect_spec;
use crate::transform;
use crate::transform::adapt_spec;
use crate::transform::clamp_i32;

verus! {

/// A raw offset from the joystick's center, one signed component per axis.
#[derive(Clone, Copy, PartialEq, Eq, Structural, Debug)]
pub struct Coordinates {
    pub x: i32,
    pub y: i32,
}

/// Sending-side session state together with the link manager.
#[derive(Clone, Copy, PartialEq, Eq, Structural, Debug)]
pub struct Transmitter {
    pub activated: bool,
    pub should_emit: bool,
    pub coordinates: Coordinates,
    pub link: LinkManager,
}

/// What one emission tick yields: possibly a frame to send, and whether
/// the tick shall be scheduled again.
pub struct TickOutcome {
    pub frame: Option<Vec<u8>>,
    pub reschedule: bool,
}

/// The curved and saturated offset that a motion frame of this state would
/// carry.
pub open spec fn adapted_of(t: Transmitter) -> (int, int) {
    (clamp_i32(adapt_spec(t.coordinates.x as int)), clamp_i32(adapt_spec(t.coordinates.y as int)))
}

/// The tick emits a motion frame exactly when the gesture is active,
/// emission is enabled and the channel is open.
pub open spec fn tick_emits(t: Transmitter) -> bool {
    t.activated && t.should_emit && t.link.state is Open
}

/// The exact frame a tick of this state emits, when it emits one.
pub open spec fn tick_frame(t: Transmitter) -> Seq<u8> {
    codec::encode_spec(
        Command::Move {
            x: adapted_of(t).0 as i32,
            y: adapted_of(t).1 as i32,
        },
    )
}

/// For every offset with emission disabled — in particular for every offset
/// inside the dead zone, whose rule sets `should_emit` to false — a tick
/// sends no motion frame, whatever the activation flag and the channel
/// state are.
pub proof fn lemma_no_emission_without_flag(t: Transmitter)
    requires
        !t.should_emit,
    ensures
        !tick_emits(t),
{
}

impl Transmitter {
    /// Fresh sending-side state: inactive, emission disabled, centered, the
    /// first channel handle connecting.
    pub fn new() -> (r: Transmitter)
        ensures
            !r.activated,
            !r.should_emit,
            r.coordinates == (Coordinates { x: 0, y: 0 }),
            r.link.state is Connecting,
            r.link.generation == 1,
    {
        Transmitter {
            activated: false,
            should_emit: false,
            coordinates: Coordinates { x: 0, y: 0 },
            link: LinkManager::new(),
        }
    }

    /// Overwrites the raw offset and the emission flag, unconditionally;
    /// the activation flag and the link are untouched.
    pub fn update(&mut self, x: i32, y: i32, should_emit: bool)
        ensures
            final(self).coordinates == (Coordinates { x, y }),
            final(self).should_emit == should_emit,
            final(self).activated == old(self).activated,
            final(self).link == old(self).link,
    {
        self.coordinates = Coordinates { x, y };
        self.should_emit = should_emit;
    }

    /// Marks a gesture as in progress.
    pub fn activate(&mut self)
        ensures
            final(self).activated,
            final(self).should_emit == old(self).should_emit,
            final(self).coordinates == old(self).coordinates,
            final(self).link == old(self).link,
    {
        self.activated = true;
    }

    /// Ends the gesture; if the channel was found closed, the link manager
    /// replaces it with a fresh connecting handle, so the next gesture
    /// starts against a healing channel.
    pub fn deactivate(&mut self)
        requires
            old(self).link.generation < u64::MAX,
        ensures
            !final(self).activated,
            final(self).should_emit == old(self).should_emit,
            final(self).coordinates == old(self).coordinates,
            final(self).link == (if old(self).link.state is Closed {
                reconnect_spec(old(self).link)
            } else {
                old(self).link
            }),
    {
        self.activated = false;
        if let ChannelState::Closed = self.link.state {
            self.link.reconnect();
        }
    }

    /// The curved and saturated offset the next motion frame would carry.
    pub fn get_adapted_coordinates(&self) -> (r: Coordinates)
        ensures
            r.x as int == adapted_of(*self).0,
            r.y as int == adapted_of(*self).1,
    {
        Coordinates {
            x: transform::clamp(transform::adapt(self.coordinates.x)),
            y: transform::clamp(transform::adapt(self.coordinates.y)),
        }
    }

    /// One emission tick: yields the motion frame exactly when the gesture
    /// is active, emission is enabled and the channel is open, and asks to
    /// be scheduled again exactly while the gesture is active.
    pub fn start_move(&self) -> (r: TickOutcome)
        ensures
            r.reschedule == self.activated,
            match r.frame {
                Some(f) => tick_emits(*self) && f@ == tick_frame(*self),
                None => !tick_emits(*self),
            },
    {
        let frame: Option<Vec<u8>> = if self.activated && self.should_emit && matches!(
            self.link.state,
            ChannelState::Open,
        ) {
            let adapted = self.get_adapted_coordinates();
            Some(codec::encode(&Command::Move { x: adapted.x, y: adapted.y }))
        } else {
            None
        };
        TickOutcome { frame, reschedule: self.activated }
    }

    /// Encodes a click frame for immediate sending, independent of the tick
    /// loop and of the gesture state; a closed channel must never be used
    /// to send, so the click is a no-op then.
    pub fn click(&self, button: Mouse) -> (r: Option<Vec<u8>>)
        ensures
            match r {
                Some(f) => !(self.link.state is Closed) && f@ == codec::encode_spec(
                    Command::Click(button),
                ),
                None => self.link.state is Closed,
            },
    {
        if let ChannelState::Closed = self.link.state {
            None
        } else {
            Some(codec::encode(&Command::Click(button)))
        }
    }
}

} // verus!
