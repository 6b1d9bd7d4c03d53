//! Events list, which is used in the IO module. All these constants are
//! consecutive indexes; [`EVENT_LAST`] is the amount of events.
use vstd::prelude::*;

verus! {

/// Draws a dot in a world.
pub const EVENT_SET_DOT: usize = 0;

/// Moves a dot in a world from one offset into another.
pub const EVENT_MOVE_DOT: usize = 1;

/// Runs or pauses the system.
pub const EVENT_RUN: usize = 2;

/// Stops the system.
pub const EVENT_QUIT: usize = 3;

/// Loads atoms and VMs into the world from a dump.
pub const EVENT_LOAD_DUMP: usize = 4;

/// Saves atoms and VMs of the world into a dump.
pub const EVENT_SAVE_DUMP: usize = 5;

/// Amount of events; every event id is below this.
pub const EVENT_LAST: usize = 6;

} // verus!
