//! The commands of the pointer session protocol: a relative motion of the
//! pointer, or a click of one of the two mouse buttons.

use vstd::prelude::*;

verus! {

/// A mouse button.
#[derive(Clone, Copy, PartialEq, Eq, Structural, Debug)]
pub enum Mouse {
    Left,
    Right,
}

/// A command carried by one wire frame: move the pointer by a relative
/// offset, or click a button.
#[derive(Clone, Copy, PartialEq, Eq, Structural, Debug)]
pub enum Command {
    Move { x: i32, y: i32 },
    Click(Mouse),
}

} // verus!
