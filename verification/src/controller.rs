//! The gesture controller of the sending side: the glue between the touch
//! event stream and the sampler.  A touch start on the dead zone begins a
//! gesture (activation plus the emission tick loop); a start on a button
//! yields one click frame; every touch move overwrites the sampler's
//! offset and recomputes the emission flag from the dead-zone rule; the
//! touch end deactivates and lets the link heal lazily.

use vstd::prelude::*;

use crate::layout::Element;
use crate::layout::Layout;
use crate::layout::layout_spec;
use crate::transform::clamp_i32;
use crate::transmitter::Coordinates;
use crate::transmitter::TickOutcome;
use crate::transmitter::Transmitter;
use crate::transmitter::tick_emits;

verus! {

/// The canonical emission rule: emit only while the touch point is outside
/// the dead zone.
pub open spec fn should_emit_at(lay: Layout, x: int, y: int) -> bool {
    !lay.in_dead_zone(x, y)
}

/// What a touch start asks the surroundings to do.
pub enum StartOutcome {
    /// A gesture began on the dead zone: schedule the emission tick loop.
    Gesture,
    /// A button was hit: the click frame to send, if the channel may send.
    ClickFrame(Option<Vec<u8>>),
    /// The touch landed on nothing.
    Ignored,
}

/// Sending-side state machine driven by touch events.
pub struct Controller {
    pub layout: Layout,
    pub touch: Coordinates,
    pub transmitter: Transmitter,
}

/// For every touch point inside the dead zone the emission rule clears
/// `should_emit`, and a sampler state carrying that flag emits no motion
/// frame on any tick, regardless of its activation flag and of the channel
/// state.
pub proof fn lemma_dead_zone_no_move(lay: Layout, x: int, y: int, t: Transmitter)
    requires
        lay.in_dead_zone(x, y),
        t.should_emit == should_emit_at(lay, x, y),
    ensures
        !t.should_emit,
        !tick_emits(t),
{
}

impl Controller {
    /// Builds the controller of a canvas of the given size: the joystick
    /// layout, the touch point at the center, and a fresh sampler.
    pub fn new(width: i32, height: i32) -> (r: Controller)
        requires
            0 <= width <= 1000000,
            0 <= height <= 1000000,
        ensures
            r.layout == layout_spec(width as int, height as int),
            r.touch == r.layout.center,
            !r.transmitter.activated,
            !r.transmitter.should_emit,
            r.transmitter.coordinates == (Coordinates { x: 0, y: 0 }),
            r.transmitter.link.state is Connecting,
            r.transmitter.link.generation == 1,
    {
        let layout = Layout::new(width, height);
        Controller { layout, touch: layout.center, transmitter: Transmitter::new() }
    }

    /// A touch start: on the dead zone it zeroes the offset, disables
    /// emission, activates the gesture and asks for the tick loop; on a
    /// button it yields one click frame, independent of the gesture state;
    /// anywhere else it does nothing.
    pub fn on_touch_start(&mut self, x: i32, y: i32) -> (r: StartOutcome)
        ensures
            final(self).layout == old(self).layout,
            match old(self).layout.element_hit_spec(x as int, y as int) {
                Some(Element::Center) => r is Gesture && final(self).touch == (Coordinates { x, y })
                    && final(self).transmitter.activated && !final(self).transmitter.should_emit
                    && final(self).transmitter.coordinates == (Coordinates { x: 0, y: 0 })
                    && final(self).transmitter.link == old(self).transmitter.link,
                Some(_) => *final(self) == *old(self) && (r matches StartOutcome::ClickFrame(f)
                    && match f {
                    Some(b) => !(old(self).transmitter.link.state is Closed) && b@
                        == crate::codec::encode_spec(
                        crate::command::Command::Click(
                            if old(self).layout.element_hit_spec(x as int, y as int) == Some(
                                Element::ButtonLeft,
                            ) {
                                crate::command::Mouse::Left
                            } else {
                                crate::command::Mouse::Right
                            },
                        ),
                    ),
                    None => old(self).transmitter.link.state is Closed,
                }),
                None => *final(self) == *old(self) && r is Ignored,
            },
    {
        match self.layout.element_hit(x, y) {
            Some(Element::Center) => {
                self.transmitter.update(0, 0, false);
                self.transmitter.activate();
                self.touch = Coordinates { x, y };
                StartOutcome::Gesture
            },
            Some(Element::ButtonLeft) => StartOutcome::ClickFrame(
                self.transmitter.click(crate::command::Mouse::Left),
            ),
            Some(Element::ButtonRight) => StartOutcome::ClickFrame(
                self.transmitter.click(crate::command::Mouse::Right),
            ),
            None => StartOutcome::Ignored,
        }
    }

    /// A touch move: overwrites the touch point, hands the sampler the
    /// shifted offset from the center, and recomputes the emission flag
    /// from the dead-zone rule; the gesture flag and the link are
    /// untouched.
    pub fn on_touch_move(&mut self, x: i32, y: i32)
        ensures
            final(self).layout == old(self).layout,
            final(self).touch == (Coordinates { x, y }),
            final(self).transmitter.activated == old(self).transmitter.activated,
            final(self).transmitter.link == old(self).transmitter.link,
            final(self).transmitter.should_emit == should_emit_at(
                old(self).layout,
                x as int,
                y as int,
            ),
            final(self).transmitter.coordinates.x as int == clamp_i32(
                old(self).layout.offset_spec(x as int, y as int).0,
            ),
            final(self).transmitter.coordinates.y as int == clamp_i32(
                old(self).layout.offset_spec(x as int, y as int).1,
            ),
    {
        self.touch = Coordinates { x, y };
        let off = self.layout.offset_from_center(x, y);
        let hit = self.layout.element_hit(x, y);
        let se = !matches!(hit, Some(Element::Center));
        self.transmitter.update(off.x, off.y, se);
    }

    /// A touch end: the gesture stops, and a channel found closed is
    /// replaced by a fresh connecting one.
    pub fn on_touch_end(&mut self)
        requires
            old(self).transmitter.link.generation < u64::MAX,
        ensures
            final(self).layout == old(self).layout,
            final(self).touch == old(self).touch,
            !final(self).transmitter.activated,
            final(self).transmitter.should_emit == old(self).transmitter.should_emit,
            final(self).transmitter.coordinates == old(self).transmitter.coordinates,
            final(self).transmitter.link == (if old(self).transmitter.link.state is Closed {
                crate::link::reconnect_spec(old(self).transmitter.link)
            } else {
                old(self).transmitter.link
            }),
    {
        self.transmitter.deactivate();
    }

    /// One emission tick of the sampler.
    pub fn on_tick(&self) -> (r: TickOutcome)
        ensures
            r.reschedule == self.transmitter.activated,
            match r.frame {
                Some(f) => tick_emits(self.transmitter) && f@ == crate::transmitter::tick_frame(
                    self.transmitter,
                ),
                None => !tick_emits(self.transmitter),
            },
    {
        self.transmitter.start_move()
    }
}

} // verus!
