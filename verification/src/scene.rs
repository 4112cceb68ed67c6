//! Room scenes: which scene file a room loads, linking contained items to
//! their containers by name, and hiding items inside closed containers.
use vstd::prelude::*;
use crate::seqs::{first_index, lemma_first_index_is, lemma_first_index_none};
use crate::components::{ContainedIn, ObjectState};
use crate::navigation::CurrentRoom;
use crate::camera::CameraController;
use crate::text::{join3, opt_view};

verus! {

/// The scene file of a room: "scenes/<room>.glb".
pub fn scene_path(room_name: &str) -> (r: String)
    ensures
        r@ == "scenes/"@ + room_name@ + ".glb"@,
{
    join3("scenes/", room_name, ".glb")
}

/// The room whose scene loads at startup: the current room, or "study" when
/// none is set yet. The camera starts at "room_overview".
pub fn load_initial_scene(room: &CurrentRoom, camera_ctrl: &mut CameraController) -> (r: String)
    ensures
        room.name@.len() > 0 ==> r@ == "scenes/"@ + room.name@ + ".glb"@,
        room.name@.len() == 0 ==> r@ == "scenes/"@ + "study"@ + ".glb"@,
        opt_view(final(camera_ctrl).current_spot) == Some("room_overview"@),
        final(camera_ctrl).history@ == old(camera_ctrl).history@,
        final(camera_ctrl).transitioning == old(camera_ctrl).transitioning,
{
    let path = if !room.name.as_str().is_empty() {
        scene_path(room.name.as_str())
    } else {
        scene_path("study")
    };
    camera_ctrl.current_spot = Some(String::from_str("room_overview"));
    path
}

/// Predicate: the named entity carries the name `name`.
pub open spec fn entity_named(name: Seq<char>) -> spec_fn((u64, Seq<char>)) -> bool {
    |e: (u64, Seq<char>)| e.1 == name
}

/// The views of (entity, name) pairs.
pub open spec fn named_views(v: Seq<(u64, String)>) -> Seq<(u64, Seq<char>)> {
    v.map_values(|e: (u64, String)| (e.0, e.1@))
}

/// The container link of each unresolved item, in order: the first entity
/// whose name is the item's container name; items whose container is not
/// found are left out.
pub open spec fn resolved_links(unresolved: Seq<(u64, Seq<char>)>, names: Seq<(u64, Seq<char>)>) -> Seq<(u64, ContainedIn)>
    decreases unresolved.len(),
{
    if unresolved.len() == 0 {
        Seq::empty()
    } else {
        let rest = resolved_links(unresolved.drop_last(), names);
        let u = unresolved.last();
        let q = first_index(names, entity_named(u.1));
        if q >= 0 {
            rest.push((u.0, ContainedIn { container: names[q].0 }))
        } else {
            rest
        }
    }
}

/// Index of the first entity named `name`.
fn first_named(names: &Vec<(u64, String)>, name: &String) -> (r: Option<usize>)
    ensures
        match r {
            Some(k) => k < names@.len() && k as int == first_index(named_views(names@), entity_named(name@)),
            None => first_index(named_views(names@), entity_named(name@)) == -1,
        },
{
    let mut j: usize = 0;
    while j < names.len()
        invariant
            j <= names@.len(),
            forall|m: int| 0 <= m < j ==> !entity_named(name@)(#[trigger] named_views(names@)[m]),
        decreases names@.len() - j,
    {
        if names[j].1 == *name {
            proof {
                lemma_first_index_is(named_views(names@), entity_named(name@), j as int);
            }
            return Some(j);
        }
        j = j + 1;
    }
    proof {
        lemma_first_index_none(named_views(names@), entity_named(name@));
    }
    None
}

/// Links each item (entity, container name) to its container among the
/// named entities.
pub fn resolve_contained_in(unresolved: &Vec<(u64, String)>, names: &Vec<(u64, String)>) -> (r: Vec<(u64, ContainedIn)>)
    ensures
        r@ == resolved_links(named_views(unresolved@), named_views(names@)),
{
    let ghost uv = named_views(unresolved@);
    let ghost nv = named_views(names@);
    let mut r: Vec<(u64, ContainedIn)> = Vec::new();
    let mut i: usize = 0;
    while i < unresolved.len()
        invariant
            i <= unresolved@.len(),
            uv == named_views(unresolved@),
            nv == named_views(names@),
            r@ == resolved_links(uv.take(i as int), nv),
        decreases unresolved@.len() - i,
    {
        let (item, container_name) = (&unresolved[i].0, &unresolved[i].1);
        assert(uv.take(i + 1).drop_last() =~= uv.take(i as int));
        assert(uv.take(i + 1).last() == (*item, container_name@));
        let found = first_named(names, container_name);
        match found {
            Some(q) => {
                r.push((*item, ContainedIn { container: names[q].0 }));
            },
            None => {},
        }
        i = i + 1;
    }
    assert(uv.take(i as int) =~= uv);
    r
}

/// The newly linked items to hide: those whose container is closed.
/// Each entry is (item, its container's state, if the container has one).
pub fn hide_contained_items(newly_linked: &Vec<(u64, Option<ObjectState>)>) -> (r: Vec<u64>)
    ensures
        r@ == newly_linked@.filter(|e: (u64, Option<ObjectState>)| e.1 == Some(ObjectState::Closed)).map_values(
            |e: (u64, Option<ObjectState>)| e.0,
        ),
{
    let ghost closed = |e: (u64, Option<ObjectState>)| e.1 == Some(ObjectState::Closed);
    let mut r: Vec<u64> = Vec::new();
    let mut i: usize = 0;
    while i < newly_linked.len()
        invariant
            i <= newly_linked@.len(),
            closed == (|e: (u64, Option<ObjectState>)| e.1 == Some(ObjectState::Closed)),
            r@ == newly_linked@.take(i as int).filter(closed).map_values(|e: (u64, Option<ObjectState>)| e.0),
        decreases newly_linked@.len() - i,
    {
        let e = newly_linked[i];
        assert(newly_linked@.take(i + 1).drop_last() =~= newly_linked@.take(i as int));
        assert(newly_linked@.take(i + 1).last() == e);
        reveal_with_fuel(Seq::filter, 1);
        let ghost before = r@;
        if e.1 == Some(ObjectState::Closed) {
            r.push(e.0);
            assert(r@ =~= before.push(e.0));
        }
        assert(newly_linked@.take(i + 1).filter(closed) == (if closed(e) {
            newly_linked@.take(i as int).filter(closed).push(e)
        } else {
            newly_linked@.take(i as int).filter(closed)
        }));
        i = i + 1;
    }
    assert(newly_linked@.take(i as int) =~= newly_linked@);
    r
}

} // verus!
