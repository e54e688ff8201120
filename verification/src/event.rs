//! Discrete, application-facing interaction events.
//!
//! Events are immutable, transient values: the decoder produces them and the
//! dispatch gateway delivers them; nothing stores them beyond that call.

use vstd::prelude::*;

verus! {

/// The phase of a touch contact reported at a report boundary.
#[derive(Clone, Copy, Debug, PartialEq, Eq, Structural)]
pub enum TouchKind {
    /// The slot transitioned from inactive to active.
    Begin,
    /// The slot stayed active and its position changed.
    Move,
    /// The slot transitioned from active to inactive.
    End,
}

/// A discrete interaction event delivered to the application.
#[derive(Clone, Copy, Debug, PartialEq, Eq, Structural)]
pub enum Event {
    /// A touch contact changed on one slot.
    Touch { slot: u16, kind: TouchKind, x: i32, y: i32 },
    /// A key was pressed or released.
    Key { code: u16, pressed: bool },
    /// A timer heartbeat carrying no payload.
    Tick,
}

} // verus!
