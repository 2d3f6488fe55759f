//! Geometry of the virtual joystick, modelled in whole pixels: the central
//! dead-zone circle and the two click buttons, laid out from the canvas
//! size the way the drawing layer places them.  Hit testing on this model
//! decides which element a touch lands on, and the offset of the current
//! touch from the center feeds the sampler.

use vstd::prelude::*;

use crate::transform;
use crate::transform::clamp_i32;
use crate::transmitter::Coordinates;

verus! {

/// An element of the joystick surface that a touch can land on.
#[derive(Clone, Copy, PartialEq, Eq, Structural, Debug)]
pub enum Element {
    Center,
    ButtonLeft,
    ButtonRight,
}

/// A rectangular click button.
#[derive(Clone, Copy, PartialEq, Eq, Structural, Debug)]
pub struct Button {
    pub coordinates: Coordinates,
    pub width: i32,
    pub height: i32,
}

impl Button {
    /// The point lies strictly inside the rectangle.
    pub open spec fn contains_spec(self, x: int, y: int) -> bool {
        x > self.coordinates.x && x < self.coordinates.x + self.width && y > self.coordinates.y
            && y < self.coordinates.y + self.height
    }

    /// Hit test of the rectangle.
    pub fn contains(&self, x: i32, y: i32) -> (r: bool)
        ensures
            r == self.contains_spec(x as int, y as int),
    {
        (x as i64) > (self.coordinates.x as i64) && (x as i64) < (self.coordinates.x as i64)
            + (self.width as i64) && (y as i64) > (self.coordinates.y as i64) && (y as i64)
            < (self.coordinates.y as i64) + (self.height as i64)
    }
}

/// The joystick surface: the dead-zone circle and the two buttons.
#[derive(Clone, Copy, PartialEq, Eq, Structural, Debug)]
pub struct Layout {
    pub center: Coordinates,
    pub center_radius: i32,
    pub button_left: Button,
    pub button_right: Button,
}

/// The layout that a canvas of the given size gets: the dead-zone radius,
/// the button sizes and the margins are fixed ratios of the canvas width,
/// the center sits above the middle by one radius, and the buttons sit
/// below the middle, one left and one right of it.
pub open spec fn layout_spec(w: int, h: int) -> Layout {
    let radius = w * 11 / 100;
    let bw = w * 30 / 100;
    let bh = w * 15 / 100;
    let m = w * 5 / 100;
    let by = h / 2 + 2 * m;
    Layout {
        center: Coordinates { x: (w / 2) as i32, y: (h / 2 - radius) as i32 },
        center_radius: radius as i32,
        button_left: Button {
            coordinates: Coordinates { x: (w / 2 - bw - m / 2) as i32, y: by as i32 },
            width: bw as i32,
            height: bh as i32,
        },
        button_right: Button {
            coordinates: Coordinates { x: (w / 2 + m / 2) as i32, y: by as i32 },
            width: bw as i32,
            height: bh as i32,
        },
    }
}

impl Layout {
    /// Builds the layout of a canvas of the given size.
    pub fn new(width: i32, height: i32) -> (r: Layout)
        requires
            0 <= width <= 1000000,
            0 <= height <= 1000000,
        ensures
            r == layout_spec(width as int, height as int),
    {
        let radius = width * 11 / 100;
        let bw = width * 30 / 100;
        let bh = width * 15 / 100;
        let m = width * 5 / 100;
        let by = height / 2 + 2 * m;
        Layout {
            center: Coordinates { x: width / 2, y: height / 2 - radius },
            center_radius: radius,
            button_left: Button {
                coordinates: Coordinates { x: width / 2 - bw - m / 2, y: by },
                width: bw,
                height: bh,
            },
            button_right: Button {
                coordinates: Coordinates { x: width / 2 + m / 2, y: by },
                width: bw,
                height: bh,
            },
        }
    }

    /// The point lies in the dead zone: strictly closer to the center than
    /// one radius.
    pub open spec fn in_dead_zone(self, x: int, y: int) -> bool {
        let dx = x - self.center.x;
        let dy = y - self.center.y;
        dx * dx + dy * dy < self.center_radius * self.center_radius
    }

    /// Hit test of the dead-zone circle.
    pub fn is_inside_center(&self, x: i32, y: i32) -> (r: bool)
        ensures
            r == self.in_dead_zone(x as int, y as int),
    {
        let dx: i128 = x as i128 - self.center.x as i128;
        let dy: i128 = y as i128 - self.center.y as i128;
        let rr: i128 = self.center_radius as i128;
        proof {
            assert(dx * dx < 0x10000000000000000int && dx * dx >= 0) by (nonlinear_arith)
                requires
                    -0xFFFFFFFFint <= dx <= 0xFFFFFFFFint,
            ;
            assert(dy * dy < 0x10000000000000000int && dy * dy >= 0) by (nonlinear_arith)
                requires
                    -0xFFFFFFFFint <= dy <= 0xFFFFFFFFint,
            ;
            assert(rr * rr < 0x10000000000000000int && rr * rr >= 0) by (nonlinear_arith)
                requires
                    -0xFFFFFFFFint <= rr <= 0xFFFFFFFFint,
            ;
        }
        dx * dx + dy * dy < rr * rr
    }

    /// Which element the point lands on: the dead zone wins, then the two
    /// buttons; anywhere else is a miss.
    pub open spec fn element_hit_spec(self, x: int, y: int) -> Option<Element> {
        if self.in_dead_zone(x, y) {
            Some(Element::Center)
        } else if self.button_left.contains_spec(x, y) {
            Some(Element::ButtonLeft)
        } else if self.button_right.contains_spec(x, y) {
            Some(Element::ButtonRight)
        } else {
            None
        }
    }

    /// Hit test of the whole surface.
    pub fn element_hit(&self, x: i32, y: i32) -> (r: Option<Element>)
        ensures
            r == self.element_hit_spec(x as int, y as int),
    {
        if self.is_inside_center(x, y) {
            Some(Element::Center)
        } else if self.button_left.contains(x, y) {
            Some(Element::ButtonLeft)
        } else if self.button_right.contains(x, y) {
            Some(Element::ButtonRight)
        } else {
            None
        }
    }

    /// Raw offset of the point from the center, pushed outward by one
    /// radius on each axis, before saturation.
    pub open spec fn offset_spec(self, x: int, y: int) -> (int, int) {
        let dx = x - self.center.x;
        let dy = y - self.center.y;
        (
            if dx < 0 {
                dx - self.center_radius
            } else {
                dx + self.center_radius
            },
            if dy < 0 {
                dy - self.center_radius
            } else {
                dy + self.center_radius
            },
        )
    }

    /// Offset of the point from the center as the sampler receives it,
    /// saturated into the 32-bit range.
    pub fn offset_from_center(&self, x: i32, y: i32) -> (r: Coordinates)
        ensures
            r.x as int == clamp_i32(self.offset_spec(x as int, y as int).0),
            r.y as int == clamp_i32(self.offset_spec(x as int, y as int).1),
    {
        let dx: i64 = x as i64 - self.center.x as i64;
        let dy: i64 = y as i64 - self.center.y as i64;
        let ox: i64 = if dx < 0 {
            dx - self.center_radius as i64
        } else {
            dx + self.center_radius as i64
        };
        let oy: i64 = if dy < 0 {
            dy - self.center_radius as i64
        } else {
            dy + self.center_radius as i64
        };
        Coordinates { x: transform::clamp(ox), y: transform::clamp(oy) }
    }
}

} // verus!
