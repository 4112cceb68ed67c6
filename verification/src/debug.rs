//! The debug overlay: toggling it, and how each clickable object's click
//! zone is classified for coloring.
use vstd::prelude::*;
use crate::components::ObjectState;

verus! {

/// Toggle for the debug overlay.
#[derive(Debug, Clone, Copy, PartialEq, Eq, Structural)]
pub struct DebugOverlay {
    pub enabled: bool,
}

impl Default for DebugOverlay {
    fn default() -> (r: Self)
        ensures
            !r.enabled,
    {
        DebugOverlay { enabled: false }
    }
}

/// Flips the overlay when its key was just pressed.
pub fn toggle_debug(debug: &mut DebugOverlay, just_pressed: bool)
    ensures
        final(debug).enabled == (old(debug).enabled != just_pressed),
{
    if just_pressed {
        debug.enabled = !debug.enabled;
    }
}

/// The kind of a click zone, by what the object does when clicked.
#[derive(Debug, Clone, Copy, PartialEq, Eq, Structural)]
pub enum ZoneKind {
    Portal,
    Collectible,
    Navigable,
    Stateful,
    Examinable,
}

/// Classifies a click zone: portals first, then collectibles, navigable
/// objects, stateful objects, and plain examinable ones.
pub fn zone_kind(portal: bool, collectible: bool, navigable: bool, stateful: bool) -> (r: ZoneKind)
    ensures
        r == (if portal {
            ZoneKind::Portal
        } else if collectible {
            ZoneKind::Collectible
        } else if navigable {
            ZoneKind::Navigable
        } else if stateful {
            ZoneKind::Stateful
        } else {
            ZoneKind::Examinable
        }),
{
    if portal {
        ZoneKind::Portal
    } else if collectible {
        ZoneKind::Collectible
    } else if navigable {
        ZoneKind::Navigable
    } else if stateful {
        ZoneKind::Stateful
    } else {
        ZoneKind::Examinable
    }
}

/// The state marker shown above a stateful object.
#[derive(Debug, Clone, Copy, PartialEq, Eq, Structural)]
pub enum StateMarker {
    Closed,
    Open,
    Locked,
    Other,
}

/// The marker for an object state: closed, open and locked have their own.
pub fn state_marker(s: ObjectState) -> (r: StateMarker)
    ensures
        r == (match s {
            ObjectState::Closed => StateMarker::Closed,
            ObjectState::Open => StateMarker::Open,
            ObjectState::Locked => StateMarker::Locked,
            _ => StateMarker::Other,
        }),
{
    match s {
        ObjectState::Closed => StateMarker::Closed,
        ObjectState::Open => StateMarker::Open,
        ObjectState::Locked => StateMarker::Locked,
        _ => StateMarker::Other,
    }
}

} // verus!
