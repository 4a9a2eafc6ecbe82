//! Core logic of a Wayland window-switcher daemon.
//!
//! The daemon overlays a window-switcher panel driven by a hotkey-bound
//! client command. This crate holds the verified heart of that program:
//! the reactor state machine that owns overlay visibility, the control
//! protocol wire codec, the geometry request correlation, the debounce
//! timer schedule, and the window-list/selection/layout state. The
//! process glue (sockets, compositor protocol, rendering) lives outside
//! and talks to these types through plain values.

pub mod config_worker;
pub mod daemon;
pub mod geometry_ipc;
pub mod geometry_provider;
pub mod geometry_worker;
pub mod gui_state;
pub mod icon_helper;
pub mod image_resizer;
pub mod ipc;
pub mod timer;

use vstd::prelude::*;

verus! {

/// A navigation direction carried by a `Show` command.
#[derive(Clone, Copy, PartialEq, Eq, Structural, Debug)]
pub enum Direction {
    Next,
    Previous,
}

/// A modifier key that must stay held for the overlay to remain visible.
#[derive(Clone, Copy, PartialEq, Eq, Structural, Debug)]
pub enum Modifier {
    Super,
    Alt,
    Ctrl,
    Shift,
}

} // verus!
