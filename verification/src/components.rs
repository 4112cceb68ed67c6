//! Per-object data attached to scene entities: what can be clicked, picked
//! up, opened, unlocked, or navigated to. Entities are named by their ids.
use vstd::prelude::*;

verus! {

/// Marks an entity as clickable by the player.
#[derive(Debug, Clone)]
pub struct Clickable {
    pub label: String,
    pub description: String,
}

/// Marks an entity as a collectible inventory item.
#[derive(Debug, Clone)]
pub struct InventoryItem {
    pub name: String,
    pub description: String,
    pub item_id: String,
}

/// Per-entity state for interactive objects.
#[derive(Debug, Clone, Copy, PartialEq, Eq, Structural)]
pub enum ObjectState {
    Default,
    Locked,
    Unlocked,
    Open,
    Closed,
    Collected,
}

impl Default for ObjectState {
    fn default() -> (r: Self)
        ensures
            r == ObjectState::Default,
    {
        ObjectState::Default
    }
}

/// Links a clickable object to the camera spot it should navigate to when clicked.
#[derive(Debug, Clone)]
pub struct NavigatesTo {
    pub spot_name: String,
}

/// Marks the parent camera spot for back-navigation.
#[derive(Debug, Clone)]
pub struct ParentSpot {
    pub spot_name: String,
}

/// Links an item entity to the container entity it's hidden inside.
#[derive(Debug, Clone, Copy, PartialEq, Eq, Structural)]
pub struct ContainedIn {
    pub container: u64,
}

/// String-based container reference, resolved to `ContainedIn` by matching
/// entity names.
#[derive(Debug, Clone)]
pub struct ContainedInName {
    pub container_name: String,
}

/// Specifies what inventory item is needed to interact with a Locked object.
#[derive(Debug, Clone)]
pub struct RequiresItem {
    pub item_id: String,
    pub use_message: String,
    pub fail_message: String,
    /// Objective ID to complete when the item is successfully used.
    pub completes_objective: String,
}

} // verus!
