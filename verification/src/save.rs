//! Save data: building a snapshot of the game, restoring the game from one,
//! and reapplying saved object states once a room's scene has loaded.
use vstd::prelude::*;
use crate::seqs::{first_index, lemma_first_index, lemma_first_index_is, lemma_first_index_none};
use crate::text::{str_views, opt_view, clone_strings, clone_opt, join3};
use crate::components::ObjectState;
use crate::inventory::{Inventory, Item, ItemView, item_pos, has_id, ids_distinct};
use crate::objectives::{Objectives, ObjectiveView, oid_is, oids_distinct};
use crate::camera::{CameraController, CameraView};
use crate::navigation::{CurrentRoom, PendingRoomEntry, RoomTransition};
use crate::interaction::FeedbackText;

verus! {

/// One inventory item in a save.
#[derive(Debug, Clone)]
pub struct SavedItem {
    pub item_id: String,
    pub name: String,
    pub qty: u32,
}

/// The state of one objective in a save.
#[derive(Debug, Clone)]
pub struct SavedObjective {
    pub id: String,
    pub visible: bool,
    pub completed: bool,
}

/// A saved game.
#[derive(Debug)]
pub struct SaveGame {
    pub current_room: String,
    pub camera_spot: Option<String>,
    pub camera_history: Vec<String>,
    pub items: Vec<SavedItem>,
    pub objective_states: Vec<SavedObjective>,
    pub entity_states: Vec<(String, String)>,
    pub collected_entities: Vec<String>,
}

/// Saved object states waiting for the room scene to load: (entity name,
/// state name) pairs, and the names of collected entities.
#[derive(Debug)]
pub struct PendingEntityStates {
    pub entity_states: Vec<(String, String)>,
    pub collected_entities: Vec<String>,
}

impl Default for PendingEntityStates {
    fn default() -> (r: Self)
        ensures
            r.entity_states@.len() == 0,
            r.collected_entities@.len() == 0,
    {
        PendingEntityStates { entity_states: Vec::new(), collected_entities: Vec::new() }
    }
}

/// Why a save could not be loaded.
#[derive(Debug, Clone, Copy, PartialEq, Eq, Structural)]
pub enum LoadError {
    /// There is no save to read.
    NotFound,
    /// The save could not be parsed.
    Corrupted,
}

/// The name under which an object state is saved.
pub open spec fn state_name(s: ObjectState) -> Seq<char> {
    match s {
        ObjectState::Default => "Default"@,
        ObjectState::Locked => "Locked"@,
        ObjectState::Unlocked => "Unlocked"@,
        ObjectState::Open => "Open"@,
        ObjectState::Closed => "Closed"@,
        ObjectState::Collected => "Collected"@,
    }
}

/// The object state a saved name stands for.
pub open spec fn state_named(s: Seq<char>) -> Option<ObjectState> {
    if s == "Default"@ {
        Some(ObjectState::Default)
    } else if s == "Locked"@ {
        Some(ObjectState::Locked)
    } else if s == "Unlocked"@ {
        Some(ObjectState::Unlocked)
    } else if s == "Open"@ {
        Some(ObjectState::Open)
    } else if s == "Closed"@ {
        Some(ObjectState::Closed)
    } else if s == "Collected"@ {
        Some(ObjectState::Collected)
    } else {
        None
    }
}

/// Parses a saved object state name.
pub fn parse_object_state(s: &str) -> (r: Option<ObjectState>)
    ensures
        r == state_named(s@),
{
    let owned = s.to_owned();
    if owned == "Default".to_owned() {
        Some(ObjectState::Default)
    } else if owned == "Locked".to_owned() {
        Some(ObjectState::Locked)
    } else if owned == "Unlocked".to_owned() {
        Some(ObjectState::Unlocked)
    } else if owned == "Open".to_owned() {
        Some(ObjectState::Open)
    } else if owned == "Closed".to_owned() {
        Some(ObjectState::Closed)
    } else if owned == "Collected".to_owned() {
        Some(ObjectState::Collected)
    } else {
        None
    }
}

/// The name under which an object state is saved (its variant name).
pub fn object_state_name(s: ObjectState) -> (r: &'static str)
    ensures
        r@ == state_name(s),
{
    match s {
        ObjectState::Default => "Default",
        ObjectState::Locked => "Locked",
        ObjectState::Unlocked => "Unlocked",
        ObjectState::Open => "Open",
        ObjectState::Closed => "Closed",
        ObjectState::Collected => "Collected",
    }
}

/// Law: a saved state name reads back as the same state.
pub proof fn law_state_name_round_trip(s: ObjectState)
    ensures
        state_named(state_name(s)) == Some(s),
{
    reveal_strlit("Default");
    reveal_strlit("Locked");
    reveal_strlit("Unlocked");
    reveal_strlit("Open");
    reveal_strlit("Closed");
    reveal_strlit("Collected");
    assert("Default"@[0] == 'D' && "Locked"@[0] == 'L' && "Unlocked"@[0] == 'U');
    assert("Open"@[0] == 'O' && "Closed"@[0] == 'C' && "Collected"@[0] == 'C');
    assert("Closed"@.len() == 6 && "Collected"@.len() == 9);
}

/// What a save records of an inventory item: id, name, quantity.
pub type SavedItemView = (Seq<char>, Seq<char>, u32);

/// What a save records of an objective: id, visibility, completion.
pub type SavedObjectiveView = (Seq<char>, bool, bool);

/// The view of a saved item.
pub open spec fn saved_item_view(s: SavedItem) -> SavedItemView {
    (s.item_id@, s.name@, s.qty)
}

/// What a save records of the item `it`.
pub open spec fn saved_item_of(it: ItemView) -> SavedItemView {
    (it.item_id, it.name, it.qty)
}

/// The view of a saved objective state.
pub open spec fn saved_objective_view(s: SavedObjective) -> SavedObjectiveView {
    (s.id@, s.visible, s.completed)
}

/// What a save records of the objective `o`.
pub open spec fn saved_objective_of(o: ObjectiveView) -> SavedObjectiveView {
    (o.id, o.visible, o.completed)
}

/// The views of saved (entity name, state name) pairs.
pub open spec fn pair_views(v: Seq<(String, String)>) -> Seq<(Seq<char>, Seq<char>)> {
    v.map_values(|p: (String, String)| (p.0@, p.1@))
}

/// Builds the save of the current game: room, camera spot and history,
/// inventory items (without descriptions), objective flags, the states of
/// named objects (saved by state name), and the names of collected
/// entities.
pub fn build_save_game(
    inv: &Inventory,
    objectives: &Objectives,
    room: &CurrentRoom,
    camera: &CameraController,
    entity_states: &Vec<(String, ObjectState)>,
    collected: &Vec<String>,
) -> (r: SaveGame)
    ensures
        r.current_room@ == room.name@,
        opt_view(r.camera_spot) == camera@.current_spot,
        str_views(r.camera_history@) == camera@.history,
        r.items@.map_values(|s: SavedItem| saved_item_view(s)) == inv.items_view().map_values(
            |it: ItemView| saved_item_of(it),
        ),
        r.objective_states@.map_values(|s: SavedObjective| saved_objective_view(s))
            == objectives.view_all().map_values(|o: ObjectiveView| saved_objective_of(o)),
        pair_views(r.entity_states@) == entity_states@.map_values(
            |p: (String, ObjectState)| (p.0@, state_name(p.1)),
        ),
        str_views(r.collected_entities@) == str_views(collected@),
{
    let mut items: Vec<SavedItem> = Vec::new();
    let mut i: usize = 0;
    while i < inv.items.len()
        invariant
            i <= inv.items@.len(),
            items@.map_values(|s: SavedItem| saved_item_view(s)) == inv.items_view().take(i as int).map_values(
                |it: ItemView| saved_item_of(it),
            ),
        decreases inv.items@.len() - i,
    {
        let it = &inv.items[i];
        let ghost before = items@;
        items.push(SavedItem { item_id: it.item_id.clone(), name: it.name.clone(), qty: it.qty });
        assert(inv.items_view().take(i + 1) =~= inv.items_view().take(i as int).push(it@));
        assert(items@.map_values(|s: SavedItem| saved_item_view(s)) =~= before.map_values(
            |s: SavedItem| saved_item_view(s),
        ).push(saved_item_of(it@)));
        i = i + 1;
    }
    assert(inv.items_view().take(i as int) =~= inv.items_view());

    let mut states: Vec<SavedObjective> = Vec::new();
    let mut j: usize = 0;
    while j < objectives.all.len()
        invariant
            j <= objectives.all@.len(),
            states@.map_values(|s: SavedObjective| saved_objective_view(s)) == objectives.view_all().take(
                j as int,
            ).map_values(|o: ObjectiveView| saved_objective_of(o)),
        decreases objectives.all@.len() - j,
    {
        let o = &objectives.all[j];
        let ghost before = states@;
        states.push(SavedObjective { id: o.id.clone(), visible: o.visible, completed: o.completed });
        assert(objectives.view_all().take(j + 1) =~= objectives.view_all().take(j as int).push(o@));
        assert(states@.map_values(|s: SavedObjective| saved_objective_view(s)) =~= before.map_values(
            |s: SavedObjective| saved_objective_view(s),
        ).push(saved_objective_of(o@)));
        j = j + 1;
    }
    assert(objectives.view_all().take(j as int) =~= objectives.view_all());

    let mut named: Vec<(String, String)> = Vec::new();
    let mut k: usize = 0;
    while k < entity_states.len()
        invariant
            k <= entity_states@.len(),
            pair_views(named@) == entity_states@.take(k as int).map_values(
                |p: (String, ObjectState)| (p.0@, state_name(p.1)),
            ),
        decreases entity_states@.len() - k,
    {
        let e = &entity_states[k];
        let ghost before = named@;
        named.push((e.0.clone(), object_state_name(e.1).to_owned()));
        assert(entity_states@.take(k + 1) =~= entity_states@.take(k as int).push(*e));
        assert(pair_views(named@) =~= pair_views(before).push((e.0@, state_name(e.1))));
        k = k + 1;
    }
    assert(entity_states@.take(k as int) =~= entity_states@);

    SaveGame {
        current_room: room.name.clone(),
        camera_spot: clone_opt(&camera.current_spot),
        camera_history: clone_strings(&camera.history),
        items,
        objective_states: states,
        entity_states: named,
        collected_entities: clone_strings(collected),
    }
}

/// Reports the outcome of writing a save: "Game saved." (and a save now
/// exists), or "Save failed: <reason>".
pub fn finish_save(outcome: Result<(), String>, save_exists: &mut bool, feedback: &mut FeedbackText)
    ensures
        outcome is Ok ==> *final(save_exists) && final(feedback).0@ == "Game saved."@,
        outcome matches Err(e) ==> *final(save_exists) == *old(save_exists) && final(feedback).0@ == "Save failed: "@
            + e@,
{
    match outcome {
        Ok(()) => {
            *save_exists = true;
            feedback.0 = String::from_str("Game saved.");
        },
        Err(e) => {
            feedback.0 = join3("Save failed: ", e.as_str(), "");
            proof {
                reveal_strlit("");
            }
            assert(feedback.0@ =~= "Save failed: "@ + e@);
        },
    }
}

/// The inventory items restored from saved items, in turn: a saved item
/// whose id is already restored sets that item's quantity; otherwise it is
/// appended with an empty description and its saved quantity.
pub open spec fn restored_items(saved: Seq<SavedItemView>) -> Seq<ItemView>
    decreases saved.len(),
{
    if saved.len() == 0 {
        Seq::empty()
    } else {
        let cur = restored_items(saved.drop_last());
        let s = saved.last();
        let p = item_pos(cur, s.0);
        if p >= 0 {
            cur.update(p, ItemView { qty: s.2, ..cur[p] })
        } else {
            cur.push(ItemView { item_id: s.0, name: s.1, description: Seq::empty(), qty: s.2 })
        }
    }
}

/// The objectives with saved flags laid over them, in turn: each saved state
/// sets the visibility and completion of the first objective with its id;
/// saved states of unknown objectives are skipped.
pub open spec fn overlaid(objs: Seq<ObjectiveView>, saved: Seq<SavedObjectiveView>) -> Seq<ObjectiveView>
    decreases saved.len(),
{
    if saved.len() == 0 {
        objs
    } else {
        let cur = overlaid(objs, saved.drop_last());
        let s = saved.last();
        let q = first_index(cur, oid_is(s.0));
        if q < 0 {
            cur
        } else {
            cur.update(q, ObjectiveView { visible: s.1, completed: s.2, ..cur[q] })
        }
    }
}

/// Restores the inventory from saved items.
fn restore_items(inv: &mut Inventory, saved: &Vec<SavedItem>)
    ensures
        final(inv).items_view() == restored_items(saved@.map_values(|s: SavedItem| saved_item_view(s))),
        final(inv).combination_recipes@ == old(inv).combination_recipes@,
{
    let ghost sv = saved@.map_values(|s: SavedItem| saved_item_view(s));
    inv.items.clear();
    assert(inv.items_view() =~= restored_items(sv.take(0)));
    let mut i: usize = 0;
    while i < saved.len()
        invariant
            i <= saved@.len(),
            sv == saved@.map_values(|s: SavedItem| saved_item_view(s)),
            inv.items_view() == restored_items(sv.take(i as int)),
            inv.combination_recipes@ == old(inv).combination_recipes@,
        decreases saved@.len() - i,
    {
        let s = &saved[i];
        assert(sv.take(i + 1).drop_last() =~= sv.take(i as int));
        assert(sv.take(i + 1).last() == saved_item_view(*s));
        let ghost cur = inv.items_view();
        let key = s.item_id.clone();
        let pos = inv.find_item(&key);
        match pos {
            Some(p) => {
                let it = &inv.items[p];
                let updated = Item {
                    item_id: it.item_id.clone(),
                    name: it.name.clone(),
                    description: it.description.clone(),
                    qty: s.qty,
                };
                inv.items.set(p, updated);
                assert(inv.items_view() =~= cur.update(p as int, ItemView { qty: s.qty, ..cur[p as int] }));
            },
            None => {
                inv.items.push(Item { item_id: key, name: s.name.clone(), description: String::new(), qty: s.qty });
                assert(inv.items_view() =~= cur.push(
                    ItemView { item_id: s.item_id@, name: s.name@, description: Seq::empty(), qty: s.qty },
                ));
            },
        }
        i = i + 1;
    }
    assert(sv.take(i as int) =~= sv);
}

/// Lays saved objective flags over the objectives.
fn overlay_objectives(objectives: &mut Objectives, saved: &Vec<SavedObjective>)
    ensures
        final(objectives).view_all() == overlaid(
            old(objectives).view_all(),
            saved@.map_values(|s: SavedObjective| saved_objective_view(s)),
        ),
{
    let ghost sv = saved@.map_values(|s: SavedObjective| saved_objective_view(s));
    let ghost start = objectives.view_all();
    assert(sv.take(0) =~= Seq::<SavedObjectiveView>::empty());
    let mut i: usize = 0;
    while i < saved.len()
        invariant
            i <= saved@.len(),
            sv == saved@.map_values(|s: SavedObjective| saved_objective_view(s)),
            start == old(objectives).view_all(),
            objectives.view_all() == overlaid(start, sv.take(i as int)),
        decreases saved@.len() - i,
    {
        let s = &saved[i];
        assert(sv.take(i + 1).drop_last() =~= sv.take(i as int));
        assert(sv.take(i + 1).last() == saved_objective_view(*s));
        objectives.set_saved_flags(s.id.as_str(), s.visible, s.completed);
        i = i + 1;
    }
    assert(sv.take(i as int) =~= sv);
}

/// Restores a loaded save, or reports why loading failed ("No save file
/// found." / "Save file is corrupted."), changing nothing else then. On
/// success: the inventory is rebuilt from the saved items, saved objective
/// flags are laid over the objectives, the camera's spot and history are
/// restored, saved object states wait for the room to load, and the
/// feedback reads "Game loaded.". When the saved room differs from the
/// current one, the transition to it (entering at the saved camera spot, or
/// an empty spot name) is returned; otherwise the saved spot, if any, is
/// queued for the camera.
pub fn load_game(
    loaded: Result<SaveGame, LoadError>,
    inv: &mut Inventory,
    objectives: &mut Objectives,
    room: &CurrentRoom,
    camera: &mut CameraController,
    feedback: &mut FeedbackText,
    pending_entry: &mut PendingRoomEntry,
    pending_states: &mut PendingEntityStates,
) -> (r: Option<RoomTransition>)
    ensures
        loaded is Err ==> ({
            &&& r is None
            &&& final(inv).items_view() == old(inv).items_view()
            &&& final(objectives).view_all() == old(objectives).view_all()
            &&& final(camera)@ == old(camera)@
            &&& *final(pending_entry) == *old(pending_entry)
            &&& pair_views(final(pending_states).entity_states@) == pair_views(old(pending_states).entity_states@)
            &&& str_views(final(pending_states).collected_entities@) == str_views(old(pending_states).collected_entities@)
            &&& loaded == Err::<SaveGame, LoadError>(LoadError::NotFound) ==> final(feedback).0@ == "No save file found."@
            &&& loaded == Err::<SaveGame, LoadError>(LoadError::Corrupted) ==> final(feedback).0@
                == "Save file is corrupted."@
        }),
        loaded matches Ok(save) ==> ({
            &&& final(inv).items_view() == restored_items(save.items@.map_values(|s: SavedItem| saved_item_view(s)))
            &&& final(inv).combination_recipes@ == old(inv).combination_recipes@
            &&& final(objectives).view_all() == overlaid(
                old(objectives).view_all(),
                save.objective_states@.map_values(|s: SavedObjective| saved_objective_view(s)),
            )
            &&& final(camera)@ == (CameraView {
                history: str_views(save.camera_history@),
                current_spot: opt_view(save.camera_spot),
                transitioning: old(camera).transitioning,
            })
            &&& pair_views(final(pending_states).entity_states@) == pair_views(save.entity_states@)
            &&& str_views(final(pending_states).collected_entities@) == str_views(save.collected_entities@)
            &&& final(feedback).0@ == "Game loaded."@
            &&& final(pending_entry).pending_transition == old(pending_entry).pending_transition
            &&& room.name@ != save.current_room@ ==> (r matches Some(t) && t.target_room@ == save.current_room@
                && t.entry_spot@ == (match opt_view(save.camera_spot) {
                Some(spot) => spot,
                None => Seq::empty(),
            }) && final(pending_entry).spot_name == old(pending_entry).spot_name)
            &&& room.name@ == save.current_room@ ==> (r is None && (match save.camera_spot {
                Some(spot) => opt_view(final(pending_entry).spot_name) == Some(spot@),
                None => final(pending_entry).spot_name == old(pending_entry).spot_name,
            }))
        }),
{
    let save = match loaded {
        Ok(save) => save,
        Err(LoadError::NotFound) => {
            feedback.0 = String::from_str("No save file found.");
            return None;
        },
        Err(LoadError::Corrupted) => {
            feedback.0 = String::from_str("Save file is corrupted.");
            return None;
        },
    };
    restore_items(inv, &save.items);
    overlay_objectives(objectives, &save.objective_states);
    camera.history = clone_strings(&save.camera_history);
    camera.current_spot = clone_opt(&save.camera_spot);

    let mut transition: Option<RoomTransition> = None;
    if room.name != save.current_room {
        let entry_spot = match &save.camera_spot {
            Some(spot) => spot.clone(),
            None => String::new(),
        };
        transition = Some(RoomTransition { target_room: save.current_room.clone(), entry_spot });
    } else {
        match &save.camera_spot {
            Some(spot) => {
                pending_entry.spot_name = Some(spot.clone());
            },
            None => {},
        }
    }
    pending_states.entity_states = save.entity_states;
    pending_states.collected_entities = save.collected_entities;
    feedback.0 = String::from_str("Game loaded.");
    transition
}

/// An item as restored from a save: its description is not saved.
pub open spec fn without_description(it: ItemView) -> ItemView {
    ItemView { description: Seq::empty(), ..it }
}

/// Law: restoring the items that a save recorded gives back the inventory,
/// descriptions aside, when item ids are distinct (as adding keeps them).
pub proof fn law_items_save_round_trip(items: Seq<ItemView>)
    requires
        ids_distinct(items),
    ensures
        restored_items(items.map_values(|it: ItemView| saved_item_of(it))) == items.map_values(
            |it: ItemView| without_description(it),
        ),
    decreases items.len(),
{
    let sv = items.map_values(|it: ItemView| saved_item_of(it));
    if items.len() > 0 {
        let init = items.drop_last();
        assert(ids_distinct(init)) by {
            assert forall|i: int, j: int|
                0 <= i < init.len() && 0 <= j < init.len() && i != j implies #[trigger] init[i].item_id
                    != #[trigger] init[j].item_id by {
                assert(init[i] == items[i] && init[j] == items[j]);
            }
        }
        law_items_save_round_trip(init);
        assert(sv.drop_last() =~= init.map_values(|it: ItemView| saved_item_of(it)));
        let cur = init.map_values(|it: ItemView| without_description(it));
        let last = items.last();
        assert forall|m: int| 0 <= m < cur.len() implies !has_id(last.item_id)(#[trigger] cur[m]) by {
            assert(cur[m].item_id == items[m].item_id);
            assert(items[m].item_id != items[items.len() - 1].item_id);
        }
        lemma_first_index_none(cur, has_id(last.item_id));
        assert(restored_items(sv) =~= items.map_values(|it: ItemView| without_description(it)));
    } else {
        assert(restored_items(sv) =~= items.map_values(|it: ItemView| without_description(it)));
    }
}

/// Every prefix of an objective list's own saved flags leaves it unchanged.
proof fn lemma_overlay_own_flags(objs: Seq<ObjectiveView>, n: int)
    requires
        oids_distinct(objs),
        0 <= n <= objs.len(),
    ensures
        overlaid(objs, objs.map_values(|o: ObjectiveView| saved_objective_of(o)).take(n)) == objs,
    decreases n,
{
    let sv = objs.map_values(|o: ObjectiveView| saved_objective_of(o));
    if n > 0 {
        lemma_overlay_own_flags(objs, n - 1);
        assert(sv.take(n).drop_last() =~= sv.take(n - 1));
        let s = sv.take(n).last();
        assert(s == saved_objective_of(objs[n - 1]));
        assert forall|m: int| 0 <= m < n - 1 implies !oid_is(s.0)(#[trigger] objs[m]) by {
            assert(objs[m].id != objs[n - 1].id);
        }
        lemma_first_index_is(objs, oid_is(s.0), n - 1);
        assert(objs.update(n - 1, ObjectiveView { visible: s.1, completed: s.2, ..objs[n - 1] }) =~= objs);
    } else {
        assert(sv.take(0) =~= Seq::<SavedObjectiveView>::empty());
    }
}

/// Law: laying the objective flags that a save recorded over the same
/// objectives changes nothing, when objective ids are distinct.
pub proof fn law_objectives_save_round_trip(objs: Seq<ObjectiveView>)
    requires
        oids_distinct(objs),
    ensures
        overlaid(objs, objs.map_values(|o: ObjectiveView| saved_objective_of(o))) == objs,
{
    lemma_overlay_own_flags(objs, objs.len() as int);
    let sv = objs.map_values(|o: ObjectiveView| saved_objective_of(o));
    assert(sv.take(objs.len() as int) =~= sv);
}

/// Predicate: the saved objective flags carry the id `id`.
pub open spec fn saved_id_is(id: Seq<char>) -> spec_fn(SavedObjectiveView) -> bool {
    |s: SavedObjectiveView| s.0 == id
}

/// No id occurs twice among saved objective flags.
pub open spec fn saved_ids_distinct(saved: Seq<SavedObjectiveView>) -> bool {
    forall|i: int, j: int|
        0 <= i < saved.len() && 0 <= j < saved.len() && i != j ==> #[trigger] saved[i].0 != #[trigger] saved[j].0
}

/// The objective with the visible and completed flags saved for its id, or
/// unchanged when none were saved for it.
pub open spec fn with_saved_flags(o: ObjectiveView, saved: Seq<SavedObjectiveView>) -> ObjectiveView {
    let k = first_index(saved, saved_id_is(o.id));
    if k < 0 {
        o
    } else {
        ObjectiveView { visible: saved[k].1, completed: saved[k].2, ..o }
    }
}

/// Law: when the objectives at load and the saved flags each hold every id
/// once, loading gives each objective the flags saved for its id (and
/// leaves the others, and every text, as they are), whatever objectives
/// the save was made from.
pub proof fn law_saved_flags_restored(objs: Seq<ObjectiveView>, saved: Seq<SavedObjectiveView>)
    requires
        oids_distinct(objs),
        saved_ids_distinct(saved),
    ensures
        overlaid(objs, saved) == objs.map_values(|o: ObjectiveView| with_saved_flags(o, saved)),
    decreases saved.len(),
{
    let target = objs.map_values(|o: ObjectiveView| with_saved_flags(o, saved));
    if saved.len() == 0 {
        assert forall|i: int| 0 <= i < objs.len() implies #[trigger] target[i] == objs[i] by {
            assert(first_index(saved, saved_id_is(objs[i].id)) == -1);
        }
        assert(target =~= objs);
    } else {
        let n = saved.len() - 1;
        let init = saved.drop_last();
        assert forall|i: int, j: int| 0 <= i < init.len() && 0 <= j < init.len() && i != j implies #[trigger] init[i].0
            != #[trigger] init[j].0 by {
            assert(saved[i].0 != saved[j].0);
        }
        law_saved_flags_restored(objs, init);
        let cur = objs.map_values(|o: ObjectiveView| with_saved_flags(o, init));
        let sl = saved.last();
        lemma_first_index(cur, oid_is(sl.0));
        let q = first_index(cur, oid_is(sl.0));
        let updated = if q < 0 {
            cur
        } else {
            cur.update(q, ObjectiveView { visible: sl.1, completed: sl.2, ..cur[q] })
        };
        assert(overlaid(objs, saved) == updated);
        assert forall|i: int| 0 <= i < objs.len() implies #[trigger] target[i] == updated[i] by {
            let o = objs[i];
            let p = saved_id_is(o.id);
            lemma_first_index(init, p);
            if o.id == sl.0 {
                assert forall|j: int| 0 <= j < n implies !p(#[trigger] saved[j]) by {
                    assert(saved[j].0 != saved[n].0);
                }
                lemma_first_index_is(saved, p, n);
                assert forall|j: int| 0 <= j < init.len() implies !p(#[trigger] init[j]) by {
                    assert(init[j] == saved[j]);
                }
                lemma_first_index_none(init, p);
                assert(cur[i] == o);
                assert forall|m: int| 0 <= m < i implies !oid_is(sl.0)(#[trigger] cur[m]) by {
                    assert(objs[m].id != objs[i].id);
                }
                lemma_first_index_is(cur, oid_is(sl.0), i);
            } else {
                let k = first_index(init, p);
                if k >= 0 {
                    assert(init[k] == saved[k]);
                    assert forall|j: int| 0 <= j < k implies !p(#[trigger] saved[j]) by {
                        assert(init[j] == saved[j]);
                    }
                    lemma_first_index_is(saved, p, k);
                } else {
                    assert forall|j: int| 0 <= j < saved.len() implies !p(#[trigger] saved[j]) by {
                        if j < n {
                            assert(init[j] == saved[j]);
                        }
                    }
                    lemma_first_index_none(saved, p);
                }
                if q >= 0 {
                    assert(cur[q].id == sl.0);
                    assert(cur[i].id == o.id);
                }
            }
        }
        assert(target =~= updated);
    }
}

/// The flags a save records for the objectives.
pub open spec fn objective_flags(all: Seq<ObjectiveView>) -> Seq<SavedObjectiveView> {
    all.map_values(|o: ObjectiveView| saved_objective_of(o))
}

/// Law: loading what a save recorded gives the game back: the inventory
/// as saved (descriptions aside) when item ids are distinct, and every
/// objective at load (distinct ids) with the flags saved for its id; when
/// the objectives at load carry the saved ids in the saved order, each gets
/// exactly the saved objective's flags and keeps its own text.
pub proof fn law_save_load_round_trip(items: Seq<ItemView>, saved_objs: Seq<ObjectiveView>, objs: Seq<ObjectiveView>)
    requires
        ids_distinct(items),
        oids_distinct(saved_objs),
        oids_distinct(objs),
    ensures
        restored_items(items.map_values(|it: ItemView| saved_item_of(it))) == items.map_values(
            |it: ItemView| without_description(it),
        ),
        overlaid(objs, objective_flags(saved_objs)) == objs.map_values(
            |o: ObjectiveView| with_saved_flags(o, objective_flags(saved_objs)),
        ),
        (objs.len() == saved_objs.len() && forall|i: int| 0 <= i < objs.len() ==> #[trigger] objs[i].id == saved_objs[i].id)
            ==> forall|i: int|
            0 <= i < objs.len() ==> #[trigger] overlaid(objs, objective_flags(saved_objs))[i]
                == (ObjectiveView { visible: saved_objs[i].visible, completed: saved_objs[i].completed, ..objs[i] }),
{
    law_items_save_round_trip(items);
    let sv = objective_flags(saved_objs);
    assert forall|i: int, j: int| 0 <= i < sv.len() && 0 <= j < sv.len() && i != j implies #[trigger] sv[i].0
        != #[trigger] sv[j].0 by {
        assert(saved_objs[i].id != saved_objs[j].id);
    }
    law_saved_flags_restored(objs, sv);
    if objs.len() == saved_objs.len() && forall|i: int| 0 <= i < objs.len() ==> #[trigger] objs[i].id == saved_objs[i].id {
        assert forall|i: int| 0 <= i < objs.len() implies #[trigger] overlaid(objs, sv)[i] == (ObjectiveView {
            visible: saved_objs[i].visible,
            completed: saved_objs[i].completed,
            ..objs[i]
        }) by {
            let p = saved_id_is(objs[i].id);
            assert(objs[i].id == saved_objs[i].id);
            assert forall|j: int| 0 <= j < i implies !p(#[trigger] sv[j]) by {
                assert(saved_objs[j].id != saved_objs[i].id);
            }
            lemma_first_index_is(sv, p, i);
        }
    }
}

/// A named entity of the loaded scene, and whether it carries an object
/// state.
#[derive(Debug, Clone)]
pub struct NamedEntity {
    pub entity: u64,
    pub name: String,
    pub has_state: bool,
}

/// What to do to an entity when reapplying saved object states.
#[derive(Debug, Clone, Copy, PartialEq, Eq, Structural)]
pub enum EntityAction {
    /// Set the entity's object state (revealing its contents when `Open`).
    SetState { entity: u64, state: ObjectState },
    /// Hide the collected entity and make it unclickable.
    Collect { entity: u64 },
}

/// Predicate: the saved pair names the entity `name`.
pub open spec fn pair_named(name: Seq<char>) -> spec_fn((Seq<char>, Seq<char>)) -> bool {
    |p: (Seq<char>, Seq<char>)| p.0 == name
}

/// The actions for one entity: its first saved state (when it parses and
/// the entity carries a state), then hiding it when it was collected.
pub open spec fn actions_for(
    e: NamedEntity,
    states: Seq<(Seq<char>, Seq<char>)>,
    collected: Seq<Seq<char>>,
) -> Seq<EntityAction> {
    let p = first_index(states, pair_named(e.name@));
    let set = if p >= 0 && e.has_state && state_named(states[p].1) is Some {
        seq![EntityAction::SetState { entity: e.entity, state: state_named(states[p].1).unwrap() }]
    } else {
        Seq::empty()
    };
    let hide = if collected.contains(e.name@) {
        seq![EntityAction::Collect { entity: e.entity }]
    } else {
        Seq::empty()
    };
    set + hide
}

/// The actions for all entities, in order.
pub open spec fn planned_actions(
    entities: Seq<NamedEntity>,
    states: Seq<(Seq<char>, Seq<char>)>,
    collected: Seq<Seq<char>>,
) -> Seq<EntityAction>
    decreases entities.len(),
{
    if entities.len() == 0 {
        Seq::empty()
    } else {
        planned_actions(entities.drop_last(), states, collected) + actions_for(entities.last(), states, collected)
    }
}

/// Whether a saved state or a collected mark names the entity.
pub open spec fn entity_matched(e: NamedEntity, states: Seq<(Seq<char>, Seq<char>)>, collected: Seq<Seq<char>>) -> bool {
    first_index(states, pair_named(e.name@)) >= 0 || collected.contains(e.name@)
}

/// Index of the first saved pair naming `name`.
fn state_position(states: &Vec<(String, String)>, name: &String) -> (r: Option<usize>)
    ensures
        match r {
            Some(k) => k < states@.len() && k as int == first_index(pair_views(states@), pair_named(name@)),
            None => first_index(pair_views(states@), pair_named(name@)) == -1,
        },
{
    let mut i: usize = 0;
    while i < states.len()
        invariant
            i <= states@.len(),
            forall|j: int| 0 <= j < i ==> !pair_named(name@)(#[trigger] pair_views(states@)[j]),
        decreases states@.len() - i,
    {
        if states[i].0 == *name {
            proof {
                lemma_first_index_is(pair_views(states@), pair_named(name@), i as int);
            }
            return Some(i);
        }
        i = i + 1;
    }
    proof {
        lemma_first_index_none(pair_views(states@), pair_named(name@));
    }
    None
}

/// Whether `names` contains `name`.
fn contains_name(names: &Vec<String>, name: &String) -> (r: bool)
    ensures
        r == str_views(names@).contains(name@),
{
    let mut i: usize = 0;
    while i < names.len()
        invariant
            i <= names@.len(),
            forall|j: int| 0 <= j < i ==> #[trigger] str_views(names@)[j] != name@,
        decreases names@.len() - i,
    {
        if names[i] == *name {
            assert(str_views(names@)[i as int] == name@);
            return true;
        }
        i = i + 1;
    }
    false
}

/// Plans how to reapply the saved object states to the entities of the
/// loaded scene, and clears the pending states once some entity matched
/// them or the scene holds more than five named entities (it has loaded).
pub fn apply_pending_entity_states(pending: &mut PendingEntityStates, entities: &Vec<NamedEntity>) -> (r: Vec<
    EntityAction,
>)
    ensures
        ({
            let states = pair_views(old(pending).entity_states@);
            let collected = str_views(old(pending).collected_entities@);
            let clear = (exists|i: int| 0 <= i < entities@.len() && #[trigger] entity_matched(entities@[i], states, collected))
                || entities@.len() > 5;
            &&& r@ == planned_actions(entities@, states, collected)
            &&& clear ==> final(pending).entity_states@.len() == 0 && final(pending).collected_entities@.len() == 0
            &&& !clear ==> pair_views(final(pending).entity_states@) == states && str_views(final(pending).collected_entities@)
                == collected
        }),
{
    let ghost states = pair_views(pending.entity_states@);
    let ghost collected = str_views(pending.collected_entities@);
    let mut r: Vec<EntityAction> = Vec::new();
    let mut applied = false;
    let mut i: usize = 0;
    while i < entities.len()
        invariant
            i <= entities@.len(),
            states == pair_views(pending.entity_states@),
            collected == str_views(pending.collected_entities@),
            states == pair_views(old(pending).entity_states@),
            collected == str_views(old(pending).collected_entities@),
            r@ == planned_actions(entities@.take(i as int), states, collected),
            applied == exists|j: int| 0 <= j < i && #[trigger] entity_matched(entities@[j], states, collected),
        decreases entities@.len() - i,
    {
        let e = &entities[i];
        assert(entities@.take(i + 1).drop_last() =~= entities@.take(i as int));
        assert(entities@.take(i + 1).last() == *e);
        let ghost before = r@;
        let pos = state_position(&pending.entity_states, &e.name);
        match pos {
            Some(p) => {
                let parsed = parse_object_state(pending.entity_states[p].1.as_str());
                assert(pair_views(pending.entity_states@)[p as int].1 == pending.entity_states@[p as int].1@);
                if e.has_state {
                    if let Some(st) = parsed {
                        r.push(EntityAction::SetState { entity: e.entity, state: st });
                    }
                }
                applied = true;
            },
            None => {},
        }
        let was_collected = contains_name(&pending.collected_entities, &e.name);
        if was_collected {
            r.push(EntityAction::Collect { entity: e.entity });
            applied = true;
        }
        assert(r@ =~= before + actions_for(*e, states, collected));
        assert(entity_matched(entities@[i as int], states, collected) == (pos is Some || was_collected));
        i = i + 1;
        assert(applied == exists|j: int| 0 <= j < i && #[trigger] entity_matched(entities@[j], states, collected)) by {
            if applied && !entity_matched(entities@[i - 1], states, collected) {
                let j = choose|j: int| 0 <= j < i - 1 && #[trigger] entity_matched(entities@[j], states, collected);
            }
        }
    }
    assert(entities@.take(i as int) =~= entities@);
    if applied || entities.len() > 5 {
        pending.entity_states.clear();
        pending.collected_entities.clear();
    }
    r
}

/// Every action planned for one entity is among the actions planned for
/// all of them.
proof fn lemma_planned_includes(
    entities: Seq<NamedEntity>,
    states: Seq<(Seq<char>, Seq<char>)>,
    collected: Seq<Seq<char>>,
    i: int,
    a: EntityAction,
)
    requires
        0 <= i < entities.len(),
        actions_for(entities[i], states, collected).contains(a),
    ensures
        planned_actions(entities, states, collected).contains(a),
    decreases entities.len(),
{
    let init = entities.drop_last();
    let pre = planned_actions(init, states, collected);
    let own = actions_for(entities.last(), states, collected);
    assert(planned_actions(entities, states, collected) == pre + own);
    if i == entities.len() - 1 {
        let w = choose|w: int| 0 <= w < own.len() && own[w] == a;
        assert((pre + own)[pre.len() + w] == a);
    } else {
        assert(init[i] == entities[i]);
        lemma_planned_includes(init, states, collected, i, a);
        let w = choose|w: int| 0 <= w < pre.len() && pre[w] == a;
        assert((pre + own)[w] == a);
    }
}

/// Law: once the room scene has loaded, each named entity that carries an
/// object state gets the state saved under its name (the first pair naming
/// it), for every one of the object states, and each entity whose name was
/// saved as collected is collected.
pub proof fn law_saved_states_reapplied(
    entities: Seq<NamedEntity>,
    states: Seq<(Seq<char>, Seq<char>)>,
    collected: Seq<Seq<char>>,
    i: int,
    s: ObjectState,
)
    requires
        0 <= i < entities.len(),
    ensures
        (entities[i].has_state && first_index(states, pair_named(entities[i].name@)) >= 0 && states[first_index(
            states,
            pair_named(entities[i].name@),
        )].1 == state_name(s)) ==> planned_actions(entities, states, collected).contains(
            EntityAction::SetState { entity: entities[i].entity, state: s },
        ),
        collected.contains(entities[i].name@) ==> planned_actions(entities, states, collected).contains(
            EntityAction::Collect { entity: entities[i].entity },
        ),
{
    let e = entities[i];
    let own = actions_for(e, states, collected);
    let p = first_index(states, pair_named(e.name@));
    if e.has_state && p >= 0 && states[p].1 == state_name(s) {
        law_state_name_round_trip(s);
        assert(own[0] == EntityAction::SetState { entity: e.entity, state: s });
        lemma_planned_includes(entities, states, collected, i, EntityAction::SetState { entity: e.entity, state: s });
    }
    if collected.contains(e.name@) {
        assert(own[own.len() - 1] == EntityAction::Collect { entity: e.entity });
        lemma_planned_includes(entities, states, collected, i, EntityAction::Collect { entity: e.entity });
    }
}

/// Whether the saved data calls for action `a` on entity `e`: setting the
/// state saved under its name (by that state's name) on an entity that
/// carries a state, or collecting an entity saved as collected.
pub open spec fn action_called_for(
    e: NamedEntity,
    states: Seq<(Seq<char>, Seq<char>)>,
    collected: Seq<Seq<char>>,
    a: EntityAction,
) -> bool {
    match a {
        EntityAction::SetState { entity, state } => entity == e.entity && e.has_state && first_index(
            states,
            pair_named(e.name@),
        ) >= 0 && states[first_index(states, pair_named(e.name@))].1 == state_name(state),
        EntityAction::Collect { entity } => entity == e.entity && collected.contains(e.name@),
    }
}

/// Every action planned for the entities is called for by the saved data
/// on one of them.
proof fn lemma_planned_justified(
    entities: Seq<NamedEntity>,
    states: Seq<(Seq<char>, Seq<char>)>,
    collected: Seq<Seq<char>>,
    a: EntityAction,
)
    requires
        planned_actions(entities, states, collected).contains(a),
    ensures
        exists|i: int| 0 <= i < entities.len() && #[trigger] action_called_for(entities[i], states, collected, a),
    decreases entities.len(),
{
    let init = entities.drop_last();
    let pre = planned_actions(init, states, collected);
    let e = entities.last();
    let own = actions_for(e, states, collected);
    assert(planned_actions(entities, states, collected) == pre + own);
    let w = choose|w: int| 0 <= w < (pre + own).len() && (pre + own)[w] == a;
    if w < pre.len() {
        assert(pre[w] == a);
        lemma_planned_justified(init, states, collected, a);
        let i = choose|i: int| 0 <= i < init.len() && #[trigger] action_called_for(init[i], states, collected, a);
        assert(init[i] == entities[i]);
        assert(action_called_for(entities[i], states, collected, a));
    } else {
        let p = first_index(states, pair_named(e.name@));
        assert(own[w - pre.len()] == a);
        if p >= 0 && e.has_state && state_named(states[p].1) is Some {
            let st = state_named(states[p].1).unwrap();
            assert(states[p].1 == state_name(st));
        }
        assert(action_called_for(entities[entities.len() - 1], states, collected, a));
    }
}

/// Law: reapplying saved states plans nothing the saved data does not call
/// for: each planned action sets, on an entity that carries a state, the
/// state saved under its name, or collects an entity saved as collected.
pub proof fn law_planned_actions_called_for(
    entities: Seq<NamedEntity>,
    states: Seq<(Seq<char>, Seq<char>)>,
    collected: Seq<Seq<char>>,
    a: EntityAction,
)
    requires
        planned_actions(entities, states, collected).contains(a),
    ensures
        exists|i: int| 0 <= i < entities.len() && #[trigger] action_called_for(entities[i], states, collected, a),
{
    lemma_planned_justified(entities, states, collected, a);
}

} // verus!
