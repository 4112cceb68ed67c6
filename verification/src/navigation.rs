//! Rooms and moving between them: the room registry, the current room, and
//! the staged portal transition (approach the door, swap the room, move
//! the camera to the entry spot).
use vstd::prelude::*;
use crate::seqs::{first_index, lemma_first_index_is, lemma_first_index_none};
use crate::text::{str_views, opt_view, clone_opt};
use crate::camera::{CameraController, CameraView, named};
use crate::game_data::{RoomSet, RoomDef};

verus! {

/// Marks an entity as a portal to another room.
#[derive(Debug, Clone)]
pub struct Portal {
    pub target_room: String,
    pub entry_spot: String,
}

/// Tracks which room the player is currently in.
#[derive(Debug)]
pub struct CurrentRoom {
    pub name: String,
    pub display_name: String,
    pub description: String,
}

impl Default for CurrentRoom {
    fn default() -> (r: Self)
        ensures
            r.name@ == Seq::<char>::empty(),
            r.display_name@ == Seq::<char>::empty(),
            r.description@ == Seq::<char>::empty(),
    {
        CurrentRoom { name: String::new(), display_name: String::new(), description: String::new() }
    }
}

/// All room definitions loaded from data: (name, display name, description,
/// starting spot).
#[derive(Debug)]
pub struct RoomRegistry {
    pub rooms: Vec<(String, String, String, Option<String>)>,
}

/// The mathematical content of one registry entry.
pub type RoomEntry = (Seq<char>, Seq<char>, Seq<char>, Option<Seq<char>>);

/// The views of the registry entries.
pub open spec fn room_views(rooms: Seq<(String, String, String, Option<String>)>) -> Seq<RoomEntry> {
    rooms.map_values(|r: (String, String, String, Option<String>)| (r.0@, r.1@, r.2@, opt_view(r.3)))
}

/// Predicate: the entry describes the room named `name`.
pub open spec fn room_named(name: Seq<char>) -> spec_fn(RoomEntry) -> bool {
    |r: RoomEntry| r.0 == name
}

/// Position of the first entry for room `name`, or -1.
pub open spec fn room_pos(rooms: Seq<RoomEntry>, name: Seq<char>) -> int {
    first_index(rooms, room_named(name))
}

/// Message for room transitions (despawn the old room, load the new one).
#[derive(Debug, Clone)]
pub struct RoomTransition {
    pub target_room: String,
    pub entry_spot: String,
}

/// Message fired when a portal is clicked (starts the approach to the door).
#[derive(Debug, Clone)]
pub struct PortalApproachRequested {
    pub portal_entity: u64,
    pub target_room: String,
    pub entry_spot: String,
}

/// Tracks a pending camera move after a room transition, and a transition
/// waiting for the approach to the door to finish.
#[derive(Debug)]
pub struct PendingRoomEntry {
    pub spot_name: Option<String>,
    /// (target_room, entry_spot)
    pub pending_transition: Option<(String, String)>,
}

impl Default for PendingRoomEntry {
    fn default() -> (r: Self)
        ensures
            r.spot_name is None,
            r.pending_transition is None,
    {
        PendingRoomEntry { spot_name: None, pending_transition: None }
    }
}

impl Default for RoomRegistry {
    fn default() -> (r: Self)
        ensures
            r.rooms@.len() == 0,
    {
        RoomRegistry { rooms: Vec::new() }
    }
}

impl RoomRegistry {
    /// The entries as their views.
    pub open spec fn view_rooms(&self) -> Seq<RoomEntry> {
        room_views(self.rooms@)
    }

    /// Index of the first entry for room `name`.
    fn position(&self, name: &str) -> (r: Option<usize>)
        ensures
            match r {
                Some(k) => k < self.rooms@.len() && k as int == room_pos(self.view_rooms(), name@),
                None => room_pos(self.view_rooms(), name@) == -1,
            },
    {
        let key = name.to_owned();
        let mut i: usize = 0;
        while i < self.rooms.len()
            invariant
                i <= self.rooms@.len(),
                key@ == name@,
                forall|j: int| 0 <= j < i ==> !room_named(name@)(#[trigger] self.view_rooms()[j]),
            decreases self.rooms@.len() - i,
        {
            if self.rooms[i].0 == key {
                proof {
                    lemma_first_index_is(self.view_rooms(), room_named(name@), i as int);
                }
                return Some(i);
            }
            i = i + 1;
        }
        proof {
            lemma_first_index_none(self.view_rooms(), room_named(name@));
        }
        None
    }

    /// The display name and description of the first entry for room `name`.
    pub fn find(&self, name: &str) -> (r: Option<(&str, &str)>)
        ensures
            room_pos(self.view_rooms(), name@) == -1 <==> r is None,
            r matches Some(found) ==> ({
                let e = self.view_rooms()[room_pos(self.view_rooms(), name@)];
                found.0@ == e.1 && found.1@ == e.2
            }),
    {
        match self.position(name) {
            Some(k) => {
                let e = &self.rooms[k];
                Some((e.1.as_str(), e.2.as_str()))
            },
            None => None,
        }
    }

    /// The starting camera spot of the first entry for room `name` (none
    /// when that entry has none, or there is no entry).
    pub fn starting_spot(&self, name: &str) -> (r: Option<&str>)
        ensures
            room_pos(self.view_rooms(), name@) == -1 ==> r is None,
            room_pos(self.view_rooms(), name@) >= 0 ==> ({
                let e = self.view_rooms()[room_pos(self.view_rooms(), name@)];
                match r {
                    Some(s) => e.3 == Some(s@),
                    None => e.3 is None,
                }
            }),
    {
        match self.position(name) {
            Some(k) => match &self.rooms[k].3 {
                Some(s) => Some(s.as_str()),
                None => None,
            },
            None => None,
        }
    }
}

/// The registry entry that a `RoomDef` loads as.
pub open spec fn def_entry(d: RoomDef) -> RoomEntry {
    (d.name@, d.display_name@, d.description@, opt_view(d.starting_spot))
}

/// Fills the registry from the rooms data file and enters its starting
/// room, once: nothing happens when the rooms were loaded already, the data
/// is not ready, or the file is not available. The current room changes only
/// when the registry knows the starting room.
pub fn load_rooms_from_data(
    registry: &mut RoomRegistry,
    current_room: &mut CurrentRoom,
    loaded: &mut bool,
    ready: bool,
    data: Option<&RoomSet>,
)
    ensures
        (*old(loaded) || !ready || data is None) ==> (final(registry).view_rooms() == old(registry).view_rooms()
            && *final(current_room) == *old(current_room) && *final(loaded) == *old(loaded)),
        (!*old(loaded) && ready && data is Some) ==> ({
            let set = data.unwrap();
            let rooms = final(registry).view_rooms();
            let p = room_pos(rooms, set.starting_room@);
            &&& *final(loaded)
            &&& rooms == set.rooms@.map_values(|d: RoomDef| def_entry(d))
            &&& p == -1 ==> *final(current_room) == *old(current_room)
            &&& p >= 0 ==> final(current_room).name@ == set.starting_room@
                && final(current_room).display_name@ == rooms[p].1
                && final(current_room).description@ == rooms[p].2
        }),
{
    if *loaded || !ready {
        return;
    }
    let set = match data {
        Some(set) => set,
        None => return,
    };
    let mut rooms: Vec<(String, String, String, Option<String>)> = Vec::new();
    let ghost defs = set.rooms@.map_values(|d: RoomDef| def_entry(d));
    let mut i: usize = 0;
    while i < set.rooms.len()
        invariant
            i <= set.rooms@.len(),
            defs == set.rooms@.map_values(|d: RoomDef| def_entry(d)),
            room_views(rooms@) == defs.take(i as int),
        decreases set.rooms@.len() - i,
    {
        let d = &set.rooms[i];
        let ghost before = rooms@;
        rooms.push((d.name.clone(), d.display_name.clone(), d.description.clone(), clone_opt(&d.starting_spot)));
        assert(room_views(rooms@) =~= room_views(before).push(def_entry(*d)));
        assert(defs.take(i + 1) =~= defs.take(i as int).push(defs[i as int]));
        i = i + 1;
    }
    assert(defs.take(i as int) =~= defs);
    registry.rooms = rooms;
    match registry.find(set.starting_room.as_str()) {
        Some((display, desc)) => {
            current_room.name = set.starting_room.clone();
            current_room.display_name = display.to_owned();
            current_room.description = desc.to_owned();
        },
        None => {},
    }
    *loaded = true;
}

/// Applies a room transition to the game state: the current room takes the
/// target's registry entry (when it has one), the camera forgets its history
/// and heads for the entry spot, and that spot is queued for the camera move
/// once the new room has loaded.
pub fn process_room_transition(
    ev: &RoomTransition,
    current_room: &mut CurrentRoom,
    registry: &RoomRegistry,
    camera_ctrl: &mut CameraController,
    pending: &mut PendingRoomEntry,
)
    ensures
        ({
            let p = room_pos(registry.view_rooms(), ev.target_room@);
            &&& p == -1 ==> *final(current_room) == *old(current_room)
            &&& p >= 0 ==> final(current_room).name@ == ev.target_room@
                && final(current_room).display_name@ == registry.view_rooms()[p].1
                && final(current_room).description@ == registry.view_rooms()[p].2
        }),
        final(camera_ctrl)@ == (CameraView {
            history: Seq::empty(),
            current_spot: Some(ev.entry_spot@),
            transitioning: true,
        }),
        opt_view(final(pending).spot_name) == Some(ev.entry_spot@),
        final(pending).pending_transition == old(pending).pending_transition,
{
    match registry.find(ev.target_room.as_str()) {
        Some((display, desc)) => {
            current_room.name = ev.target_room.clone();
            current_room.display_name = display.to_owned();
            current_room.description = desc.to_owned();
        },
        None => {},
    }
    camera_ctrl.history.clear();
    camera_ctrl.current_spot = Some(ev.entry_spot.clone());
    camera_ctrl.transitioning = true;
    assert(str_views(camera_ctrl.history@) =~= Seq::<Seq<char>>::empty());
    pending.spot_name = Some(ev.entry_spot.clone());
}

/// Once the pending entry spot exists among the loaded camera `spots` and the
/// camera is available, starts the camera move to it: returns the spot's
/// index, marks the camera as moving and clears the pending spot. Otherwise
/// changes nothing and returns `None`.
pub fn tween_camera_to_entry(
    pending: &mut PendingRoomEntry,
    spots: &Vec<String>,
    camera_available: bool,
    camera_ctrl: &mut CameraController,
) -> (r: Option<usize>)
    ensures
        ({
            let target = opt_view(old(pending).spot_name);
            let found = target is Some && first_index(str_views(spots@), named(target.unwrap())) >= 0;
            &&& (found && camera_available) ==> (r == Some(
                first_index(str_views(spots@), named(target.unwrap())) as usize,
            ) && final(camera_ctrl).transitioning && final(pending).spot_name is None)
            &&& !(found && camera_available) ==> (r is None && final(camera_ctrl).transitioning
                == old(camera_ctrl).transitioning && final(pending).spot_name == old(pending).spot_name)
        }),
        final(camera_ctrl).history@ == old(camera_ctrl).history@,
        final(camera_ctrl).current_spot == old(camera_ctrl).current_spot,
        final(pending).pending_transition == old(pending).pending_transition,
{
    let target = match &pending.spot_name {
        Some(t) => t,
        None => return None,
    };
    match crate::camera::find_spot_by_name(spots, target.as_str()) {
        Some(k) => {
            if !camera_available {
                return None;
            }
            camera_ctrl.transitioning = true;
            pending.spot_name = None;
            Some(k)
        },
        None => None,
    }
}

/// Starts the approach to a clicked portal's door, when the portal and the
/// camera are both found: the transition is stored until the approach ends,
/// the entry spot is queued, and the camera is marked as moving. Returns
/// whether the approach starts; otherwise nothing changes.
pub fn handle_portal_approach(
    ev: &PortalApproachRequested,
    portal_found: bool,
    camera_available: bool,
    pending: &mut PendingRoomEntry,
    camera_ctrl: &mut CameraController,
) -> (r: bool)
    ensures
        r == (portal_found && camera_available),
        r ==> ({
            &&& final(pending).pending_transition matches Some(t) && t.0@ == ev.target_room@ && t.1@
                == ev.entry_spot@
            &&& opt_view(final(pending).spot_name) == Some(ev.entry_spot@)
            &&& final(camera_ctrl).transitioning
        }),
        !r ==> *final(pending) == *old(pending) && final(camera_ctrl).transitioning == old(camera_ctrl).transitioning,
        final(camera_ctrl).history@ == old(camera_ctrl).history@,
        final(camera_ctrl).current_spot == old(camera_ctrl).current_spot,
{
    if !portal_found || !camera_available {
        return false;
    }
    pending.pending_transition = Some((ev.target_room.clone(), ev.entry_spot.clone()));
    pending.spot_name = Some(ev.entry_spot.clone());
    camera_ctrl.transitioning = true;
    true
}

/// Once the approach to the door has finished (the camera is no longer
/// moving), fires the stored room transition and clears it.
pub fn fire_pending_room_transition(pending: &mut PendingRoomEntry, camera_ctrl: &CameraController) -> (r: Option<
    RoomTransition,
>)
    ensures
        (old(pending).pending_transition is None || camera_ctrl.transitioning) ==> (r is None && *final(pending)
            == *old(pending)),
        (old(pending).pending_transition is Some && !camera_ctrl.transitioning) ==> ({
            let t = old(pending).pending_transition.unwrap();
            &&& r matches Some(ev) && ev.target_room@ == t.0@ && ev.entry_spot@ == t.1@
            &&& final(pending).pending_transition is None
            &&& final(pending).spot_name == old(pending).spot_name
        }),
{
    let ev = match &pending.pending_transition {
        Some(data) => {
            if camera_ctrl.transitioning {
                return None;
            }
            RoomTransition { target_room: data.0.clone(), entry_spot: data.1.clone() }
        },
        None => return None,
    };
    pending.pending_transition = None;
    Some(ev)
}

} // verus!
