//! The window-manager geometry query interface.

use vstd::prelude::*;

verus! {

/// A window geometry in compositor logical coordinates:
/// x, y, width, height.
pub type Geometry = (i32, i32, i32, i32);

/// A source of window geometry, backed by some window manager's own
/// query interface. A lookup failure is recoverable: the provider
/// simply yields no answer for that request.
pub trait GeometryProvider {
    fn get_active_window_geometry(&mut self) -> Option<Geometry>;
}

} // verus!
