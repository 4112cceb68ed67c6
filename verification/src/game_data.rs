//! Game content definitions read from data files: objectives, recipes,
//! rooms and the level manifest, and the readiness of that data.
use vstd::prelude::*;

verus! {

/// One objective as written in the objectives data file.
#[derive(Debug, Clone)]
pub struct ObjectiveDef {
    pub id: String,
    pub text: String,
    pub visible: bool,
    pub conflicts_with: Vec<String>,
    pub unlocks: Vec<String>,
    pub requires_item: Option<String>,
    pub requires_navigation: Option<String>,
}

/// The objectives data file.
#[derive(Debug)]
pub struct ObjectiveSet {
    pub objectives: Vec<ObjectiveDef>,
}

/// One combination recipe as written in the recipes data file.
#[derive(Debug, Clone)]
pub struct RecipeDef {
    pub item_a: String,
    pub item_b: String,
    pub result_id: String,
    pub result_name: String,
    pub result_description: String,
}

/// The recipes data file.
#[derive(Debug)]
pub struct RecipeBook {
    pub recipes: Vec<RecipeDef>,
}

/// One room as written in the rooms data file.
#[derive(Debug, Clone)]
pub struct RoomDef {
    pub name: String,
    pub display_name: String,
    pub description: String,
    pub starting_spot: Option<String>,
}

/// The rooms data file.
#[derive(Debug)]
pub struct RoomSet {
    pub rooms: Vec<RoomDef>,
    pub starting_room: String,
}

/// The scene file of one room.
#[derive(Debug, Clone)]
pub struct RoomSceneRef {
    pub scene: String,
}

/// The level manifest: which scene file each room loads. Room names are the
/// keys of a map in the data file, so each occurs at most once.
#[derive(Debug)]
pub struct LevelManifest {
    pub name: String,
    pub starting_room: String,
    pub rooms: Vec<(String, RoomSceneRef)>,
}

/// Whether all game data assets have finished loading.
#[derive(Debug)]
pub struct GameDataReady(pub bool);

impl Default for GameDataReady {
    fn default() -> (r: Self)
        ensures
            !r.0,
    {
        GameDataReady(false)
    }
}

/// The scene file of the first room named `room` in `rooms`, if any.
pub open spec fn scene_of(rooms: Seq<(String, RoomSceneRef)>, room: Seq<char>) -> Option<Seq<char>>
    decreases rooms.len(),
{
    if rooms.len() == 0 {
        None
    } else if rooms[0].0@ == room {
        Some(rooms[0].1.scene@)
    } else {
        scene_of(rooms.drop_first(), room)
    }
}

impl LevelManifest {
    /// The scene file that the manifest gives for `room`.
    pub fn scene_for(&self, room: &str) -> (r: Option<&str>)
        ensures
            match r {
                Some(s) => scene_of(self.rooms@, room@) == Some(s@),
                None => scene_of(self.rooms@, room@) is None,
            },
    {
        let key = room.to_owned();
        let mut i: usize = 0;
        assert(self.rooms@.skip(0) =~= self.rooms@);
        while i < self.rooms.len()
            invariant
                i <= self.rooms@.len(),
                key@ == room@,
                scene_of(self.rooms@, room@) == scene_of(self.rooms@.skip(i as int), room@),
            decreases self.rooms@.len() - i,
        {
            assert(self.rooms@.skip(i as int).drop_first() =~= self.rooms@.skip(i + 1));
            if self.rooms[i].0 == key {
                return Some(self.rooms[i].1.scene.as_str());
            }
            i = i + 1;
        }
        None
    }
}

/// Sets the ready flag once every data asset (objectives, hints, recipes,
/// rooms, level manifest) has loaded; a set flag stays set.
pub fn check_game_data_ready(ready: &mut GameDataReady, loaded: [bool; 5])
    ensures
        final(ready).0 == (old(ready).0 || (loaded[0] && loaded[1] && loaded[2] && loaded[3] && loaded[4])),
{
    if ready.0 {
        return;
    }
    if loaded[0] && loaded[1] && loaded[2] && loaded[3] && loaded[4] {
        ready.0 = true;
    }
}

} // verus!
