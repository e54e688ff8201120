//! Runtime bridge for kiosk-style graphical applications: raw input device
//! records are decoded into discrete interaction events, and a single
//! long-lived application object is handed between the input path and a
//! foreign render loop through one serialized dispatch gateway.

use vstd::prelude::*;

pub mod bridge;
pub mod decoder;
pub mod event;
pub mod record;
pub mod registry;

verus! {

/// Names the platform this runtime targets.
pub fn platform() -> (r: String)
    ensures
        r@ == "linux"@,
{
    String::from_str("linux")
}

/// Capabilities an application must provide to the runtime.
///
/// `size` and `handle` have safe no-op defaults; `draw` must be supplied.
pub trait Application {
    /// Resizes the current application screen.
    fn size(&mut self, width: u32, height: u32) {
    }

    /// Draws the current application screen.
    fn draw(&mut self, width: u32, height: u32);

    /// Handles application events.
    fn handle(&mut self, event: &crate::event::Event) {
    }
}

} // verus!
