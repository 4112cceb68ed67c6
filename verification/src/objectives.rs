//! Game objectives: a graph of goals that reveal (unlock) or cancel
//! (conflict with) one another when completed.
use vstd::prelude::*;
use crate::seqs::{first_index, lemma_first_index, lemma_first_index_is, lemma_first_index_none};
use crate::text::{str_views, opt_view, clone_strings, clone_opt};
use crate::inventory::{Inventory, holds};
use crate::game_data::{ObjectiveDef, ObjectiveSet};

verus! {

/// A single objective.
#[derive(Debug, Clone)]
pub struct Objective {
    pub id: String,
    pub text: String,
    pub visible: bool,
    pub completed: bool,
    /// Objectives that this one conflicts with (completing this removes them).
    pub conflicts_with: Vec<String>,
    /// Objectives that activate when this one completes.
    pub unlocks: Vec<String>,
    /// Item required to auto-complete this objective.
    pub requires_item: Option<String>,
    /// Camera spot navigation that completes this objective.
    pub requires_navigation: Option<String>,
}

/// Manages all game objectives.
#[derive(Debug)]
pub struct Objectives {
    pub all: Vec<Objective>,
}

/// Message fired when an objective completes.
pub struct ObjectiveCompleted {
    pub id: String,
}

/// The mathematical content of an `Objective`.
pub struct ObjectiveView {
    pub id: Seq<char>,
    pub text: Seq<char>,
    pub visible: bool,
    pub completed: bool,
    pub conflicts_with: Seq<Seq<char>>,
    pub unlocks: Seq<Seq<char>>,
    pub requires_item: Option<Seq<char>>,
    pub requires_navigation: Option<Seq<char>>,
}

impl View for Objective {
    type V = ObjectiveView;

    open spec fn view(&self) -> ObjectiveView {
        ObjectiveView {
            id: self.id@,
            text: self.text@,
            visible: self.visible,
            completed: self.completed,
            conflicts_with: str_views(self.conflicts_with@),
            unlocks: str_views(self.unlocks@),
            requires_item: opt_view(self.requires_item),
            requires_navigation: opt_view(self.requires_navigation),
        }
    }
}

/// The views of a sequence of objectives.
pub open spec fn objective_views(all: Seq<Objective>) -> Seq<ObjectiveView> {
    all.map_values(|o: Objective| o@)
}

/// Predicate: the objective carries the id `id`.
pub open spec fn oid_is(id: Seq<char>) -> spec_fn(ObjectiveView) -> bool {
    |o: ObjectiveView| o.id == id
}

/// Predicate: the objective carries the id `id` and is not completed.
pub open spec fn open_with_id(id: Seq<char>) -> spec_fn(ObjectiveView) -> bool {
    |o: ObjectiveView| o.id == id && !o.completed
}

/// Whether the objective is shown as an active goal.
pub open spec fn is_active(o: ObjectiveView) -> bool {
    o.visible && !o.completed
}

/// The active (visible and not completed) objectives, in order.
pub open spec fn active(all: Seq<ObjectiveView>) -> Seq<ObjectiveView>
    decreases all.len(),
{
    if all.len() == 0 {
        Seq::empty()
    } else if is_active(all.last()) {
        active(all.drop_last()).push(all.last())
    } else {
        active(all.drop_last())
    }
}

/// The objectives after `add(id, text, visible)`: unchanged when one with
/// that id exists, otherwise a new, uncompleted objective is appended.
pub open spec fn added_objective(all: Seq<ObjectiveView>, id: Seq<char>, text: Seq<char>, visible: bool) -> Seq<ObjectiveView> {
    if first_index(all, oid_is(id)) >= 0 {
        all
    } else {
        all.push(
            ObjectiveView {
                id: id,
                text: text,
                visible: visible,
                completed: false,
                conflicts_with: Seq::empty(),
                unlocks: Seq::empty(),
                requires_item: None,
                requires_navigation: None,
            },
        )
    }
}

/// The first objective with id `id` marked completed and hidden.
pub open spec fn cancel_one(all: Seq<ObjectiveView>, id: Seq<char>) -> Seq<ObjectiveView> {
    let q = first_index(all, oid_is(id));
    if q < 0 {
        all
    } else {
        all.update(q, ObjectiveView { completed: true, visible: false, ..all[q] })
    }
}

/// The first objective with id `id` made visible.
pub open spec fn reveal_one(all: Seq<ObjectiveView>, id: Seq<char>) -> Seq<ObjectiveView> {
    let q = first_index(all, oid_is(id));
    if q < 0 {
        all
    } else {
        all.update(q, ObjectiveView { visible: true, ..all[q] })
    }
}

/// `cancel_one` applied for each id of `ids`, in order.
pub open spec fn cancel_all(all: Seq<ObjectiveView>, ids: Seq<Seq<char>>) -> Seq<ObjectiveView>
    decreases ids.len(),
{
    if ids.len() == 0 {
        all
    } else {
        cancel_one(cancel_all(all, ids.drop_last()), ids.last())
    }
}

/// `reveal_one` applied for each id of `ids`, in order.
pub open spec fn reveal_all(all: Seq<ObjectiveView>, ids: Seq<Seq<char>>) -> Seq<ObjectiveView>
    decreases ids.len(),
{
    if ids.len() == 0 {
        all
    } else {
        reveal_one(reveal_all(all, ids.drop_last()), ids.last())
    }
}

/// The objectives after `complete(id)`: the first uncompleted objective with
/// that id is completed, then the objectives it conflicts with are completed
/// and hidden, then the ones it unlocks are made visible. Unchanged when no
/// uncompleted objective carries `id`.
pub open spec fn completed_objectives(all: Seq<ObjectiveView>, id: Seq<char>) -> Seq<ObjectiveView> {
    let p = first_index(all, open_with_id(id));
    if p < 0 {
        all
    } else {
        let o = all[p];
        let marked = all.update(p, ObjectiveView { completed: true, ..o });
        reveal_all(cancel_all(marked, o.conflicts_with), o.unlocks)
    }
}

/// Whether some objective with id `id` is completed.
pub open spec fn is_done(all: Seq<ObjectiveView>, id: Seq<char>) -> bool {
    exists|k: int| 0 <= k < all.len() && #[trigger] all[k].id == id && all[k].completed
}

/// `completed_objectives` applied for each id of `ids`, in order.
pub open spec fn completed_all(all: Seq<ObjectiveView>, ids: Seq<Seq<char>>) -> Seq<ObjectiveView>
    decreases ids.len(),
{
    if ids.len() == 0 {
        all
    } else {
        completed_objectives(completed_all(all, ids.drop_last()), ids.last())
    }
}

/// Whether holding `items` completes the objective `o` (it is uncompleted
/// and requires an item that is held).
pub open spec fn item_trigger(o: ObjectiveView, items: Seq<crate::inventory::ItemView>) -> bool {
    !o.completed && (o.requires_item matches Some(r) && holds(items, r))
}

/// Ids of the objectives, in order, that holding `items` completes.
pub open spec fn item_completions(objs: Seq<ObjectiveView>, items: Seq<crate::inventory::ItemView>) -> Seq<Seq<char>>
    decreases objs.len(),
{
    if objs.len() == 0 {
        Seq::empty()
    } else if item_trigger(objs.last(), items) {
        item_completions(objs.drop_last(), items).push(objs.last().id)
    } else {
        item_completions(objs.drop_last(), items)
    }
}

/// Whether reaching the camera spot `spot` completes the objective `o`.
pub open spec fn nav_trigger(o: ObjectiveView, spot: Seq<char>) -> bool {
    !o.completed && o.requires_navigation == Some(spot)
}

/// Ids of the objectives, in order, that reaching `spot` completes.
pub open spec fn nav_completions(objs: Seq<ObjectiveView>, spot: Seq<char>) -> Seq<Seq<char>>
    decreases objs.len(),
{
    if objs.len() == 0 {
        Seq::empty()
    } else if nav_trigger(objs.last(), spot) {
        nav_completions(objs.drop_last(), spot).push(objs.last().id)
    } else {
        nav_completions(objs.drop_last(), spot)
    }
}

/// `nav_completions` for each reached spot, concatenated in order.
pub open spec fn nav_completions_all(objs: Seq<ObjectiveView>, spots: Seq<Seq<char>>) -> Seq<Seq<char>>
    decreases spots.len(),
{
    if spots.len() == 0 {
        Seq::empty()
    } else {
        nav_completions_all(objs, spots.drop_last()) + nav_completions(objs, spots.last())
    }
}

/// The objective an `ObjectiveDef` loads as: uncompleted, with the
/// definition's fields.
pub open spec fn def_objective(d: ObjectiveDef) -> ObjectiveView {
    ObjectiveView {
        id: d.id@,
        text: d.text@,
        visible: d.visible,
        completed: false,
        conflicts_with: str_views(d.conflicts_with@),
        unlocks: str_views(d.unlocks@),
        requires_item: opt_view(d.requires_item),
        requires_navigation: opt_view(d.requires_navigation),
    }
}

impl Default for Objectives {
    fn default() -> (r: Self)
        ensures
            r.all@.len() == 0,
    {
        Objectives { all: Vec::new() }
    }
}

impl Objectives {
    /// The objectives as their views.
    pub open spec fn view_all(&self) -> Seq<ObjectiveView> {
        objective_views(self.all@)
    }

    /// Index of the first objective satisfying `open_only ? open_with_id : oid_is`.
    fn find(&self, key: &String, open_only: bool) -> (r: Option<usize>)
        ensures
            ({
                let p = if open_only { open_with_id(key@) } else { oid_is(key@) };
                match r {
                    Some(k) => k < self.all@.len() && k as int == first_index(self.view_all(), p),
                    None => first_index(self.view_all(), p) == -1,
                }
            }),
    {
        let ghost p = if open_only { open_with_id(key@) } else { oid_is(key@) };
        let mut i: usize = 0;
        while i < self.all.len()
            invariant
                i <= self.all@.len(),
                p == (if open_only { open_with_id(key@) } else { oid_is(key@) }),
                forall|j: int| 0 <= j < i ==> !p(#[trigger] self.view_all()[j]),
            decreases self.all@.len() - i,
        {
            let o = &self.all[i];
            if o.id == *key && (!open_only || !o.completed) {
                proof {
                    lemma_first_index_is(self.view_all(), p, i as int);
                }
                return Some(i);
            }
            i = i + 1;
        }
        proof {
            lemma_first_index_none(self.view_all(), p);
        }
        None
    }

    /// Replaces the flags of the objective at `k`.
    fn set_flags(&mut self, k: usize, visible: bool, completed: bool)
        requires
            k < old(self).all@.len(),
        ensures
            final(self).view_all() == old(self).view_all().update(
                k as int,
                ObjectiveView { visible: visible, completed: completed, ..old(self).view_all()[k as int] },
            ),
    {
        let o = &self.all[k];
        let replaced = Objective {
            id: o.id.clone(),
            text: o.text.clone(),
            visible: visible,
            completed: completed,
            conflicts_with: clone_strings(&o.conflicts_with),
            unlocks: clone_strings(&o.unlocks),
            requires_item: clone_opt(&o.requires_item),
            requires_navigation: clone_opt(&o.requires_navigation),
        };
        self.all.set(k, replaced);
        assert(self.view_all() =~= old(self).view_all().update(
            k as int,
            ObjectiveView { visible: visible, completed: completed, ..old(self).view_all()[k as int] },
        ));
    }

    /// Adds a new, uncompleted objective unless one with the same id exists.
    pub fn add(&mut self, id: &str, text: &str, visible: bool)
        ensures
            final(self).view_all() == added_objective(old(self).view_all(), id@, text@, visible),
    {
        let key = id.to_owned();
        if self.find(&key, false).is_some() {
            return;
        }
        self.all.push(
            Objective {
                id: key,
                text: text.to_owned(),
                visible,
                completed: false,
                conflicts_with: Vec::new(),
                unlocks: Vec::new(),
                requires_item: None,
                requires_navigation: None,
            },
        );
        assert(str_views(Seq::<String>::empty()) =~= Seq::<Seq<char>>::empty());
        assert(self.view_all().last() == added_objective(old(self).view_all(), id@, text@, visible).last());
        assert(self.view_all() =~= added_objective(old(self).view_all(), id@, text@, visible));
    }

    /// Completes the first uncompleted objective with id `id`, cancels the
    /// objectives it conflicts with and reveals the ones it unlocks. Returns
    /// whether such an objective existed.
    pub fn complete(&mut self, id: &str) -> (r: bool)
        ensures
            r == (first_index(old(self).view_all(), open_with_id(id@)) >= 0),
            final(self).view_all() == completed_objectives(old(self).view_all(), id@),
    {
        let key = id.to_owned();
        let k = match self.find(&key, true) {
            Some(k) => k,
            None => return false,
        };
        let ghost o = self.view_all()[k as int];
        let conflicts = clone_strings(&self.all[k].conflicts_with);
        let unlocks = clone_strings(&self.all[k].unlocks);
        let vis = self.all[k].visible;
        self.set_flags(k, vis, true);
        assert(self.view_all() == old(self).view_all().update(k as int, ObjectiveView { completed: true, ..o }));
        let ghost marked = self.view_all();

        let mut i: usize = 0;
        while i < conflicts.len()
            invariant
                i <= conflicts@.len(),
                str_views(conflicts@) == o.conflicts_with,
                self.view_all() == cancel_all(marked, o.conflicts_with.take(i as int)),
            decreases conflicts@.len() - i,
        {
            assert(o.conflicts_with.take(i + 1).drop_last() =~= o.conflicts_with.take(i as int));
            assert(o.conflicts_with.take(i + 1).last() == conflicts@[i as int]@);
            match self.find(&conflicts[i], false) {
                Some(q) => {
                    self.set_flags(q, false, true);
                },
                None => {},
            }
            i = i + 1;
        }
        assert(o.conflicts_with.take(i as int) =~= o.conflicts_with);
        let ghost cancelled = self.view_all();

        let mut j: usize = 0;
        while j < unlocks.len()
            invariant
                j <= unlocks@.len(),
                str_views(unlocks@) == o.unlocks,
                self.view_all() == reveal_all(cancelled, o.unlocks.take(j as int)),
            decreases unlocks@.len() - j,
        {
            assert(o.unlocks.take(j + 1).drop_last() =~= o.unlocks.take(j as int));
            assert(o.unlocks.take(j + 1).last() == unlocks@[j as int]@);
            match self.find(&unlocks[j], false) {
                Some(q) => {
                    let done = self.all[q].completed;
                    self.set_flags(q, true, done);
                },
                None => {},
            }
            j = j + 1;
        }
        assert(o.unlocks.take(j as int) =~= o.unlocks);
        true
    }

    /// The visible, uncompleted objectives, in order.
    pub fn active_visible(&self) -> (r: Vec<&Objective>)
        ensures
            r@.map_values(|o: &Objective| o@) == active(self.view_all()),
    {
        let mut r: Vec<&Objective> = Vec::new();
        let mut i: usize = 0;
        while i < self.all.len()
            invariant
                i <= self.all@.len(),
                r@.map_values(|o: &Objective| o@) == active(self.view_all().take(i as int)),
            decreases self.all@.len() - i,
        {
            let ghost before = r@;
            let o = &self.all[i];
            assert(self.view_all().take(i + 1).drop_last() =~= self.view_all().take(i as int));
            assert(self.view_all().take(i + 1).last() == o@);
            if o.visible && !o.completed {
                r.push(o);
                assert(r@.map_values(|o: &Objective| o@) =~= before.map_values(|o: &Objective| o@).push(o@));
            }
            i = i + 1;
        }
        assert(self.view_all().take(i as int) =~= self.view_all());
        r
    }

    /// The text of the first active objective, or "Look around." when there
    /// is none.
    pub fn current_text(&self) -> (r: &str)
        ensures
            active(self.view_all()).len() > 0 ==> r@ == active(self.view_all())[0].text,
            active(self.view_all()).len() == 0 ==> r@ == "Look around."@,
    {
        let act = self.active_visible();
        if act.len() > 0 {
            let o: &Objective = act[0];
            assert(act@.map_values(|o: &Objective| o@)[0] == o@);
            o.text.as_str()
        } else {
            "Look around."
        }
    }

    /// Whether some objective with id `id` is completed.
    pub fn is_completed(&self, id: &str) -> (r: bool)
        ensures
            r == is_done(self.view_all(), id@),
    {
        let key = id.to_owned();
        let mut i: usize = 0;
        while i < self.all.len()
            invariant
                i <= self.all@.len(),
                key@ == id@,
                forall|j: int| 0 <= j < i ==> !(#[trigger] self.view_all()[j].id == key@ && self.view_all()[j].completed),
            decreases self.all@.len() - i,
        {
            assert(self.view_all()[i as int] == self.all@[i as int]@);
            if self.all[i].id == key && self.all[i].completed {
                assert(self.view_all()[i as int].id == id@);
                return true;
            }
            i = i + 1;
        }
        false
    }

    /// Ids of the uncompleted objectives whose required item `inv` holds.
    pub fn check_item_objectives(&self, inv: &Inventory) -> (r: Vec<String>)
        ensures
            str_views(r@) == item_completions(self.view_all(), inv.items_view()),
    {
        let mut r: Vec<String> = Vec::new();
        let mut i: usize = 0;
        while i < self.all.len()
            invariant
                i <= self.all@.len(),
                str_views(r@) == item_completions(self.view_all().take(i as int), inv.items_view()),
            decreases self.all@.len() - i,
        {
            let ghost before = r@;
            let o = &self.all[i];
            assert(self.view_all().take(i + 1).drop_last() =~= self.view_all().take(i as int));
            assert(self.view_all().take(i + 1).last() == o@);
            if !o.completed {
                match &o.requires_item {
                    Some(req) => {
                        if inv.has_item(req.as_str()) {
                            r.push(o.id.clone());
                            assert(str_views(r@) =~= str_views(before).push(o.id@));
                        }
                    },
                    None => {},
                }
            }
            i = i + 1;
        }
        assert(self.view_all().take(i as int) =~= self.view_all());
        r
    }

    /// Ids of the uncompleted objectives whose required camera spot is
    /// `spot`, in order.
    fn nav_matches(&self, spot: &String) -> (r: Vec<String>)
        ensures
            str_views(r@) == nav_completions(self.view_all(), spot@),
    {
        let mut r: Vec<String> = Vec::new();
        let mut i: usize = 0;
        while i < self.all.len()
            invariant
                i <= self.all@.len(),
                str_views(r@) == nav_completions(self.view_all().take(i as int), spot@),
            decreases self.all@.len() - i,
        {
            let ghost before = r@;
            let o = &self.all[i];
            assert(self.view_all().take(i + 1).drop_last() =~= self.view_all().take(i as int));
            assert(self.view_all().take(i + 1).last() == o@);
            if !o.completed {
                match &o.requires_navigation {
                    Some(req) => {
                        if *req == *spot {
                            r.push(o.id.clone());
                            assert(str_views(r@) =~= str_views(before).push(o.id@));
                        }
                    },
                    None => {},
                }
            }
            i = i + 1;
        }
        assert(self.view_all().take(i as int) =~= self.view_all());
        r
    }

    /// Ids of the objectives completed by reaching each of `spots` in turn.
    pub fn check_navigation_objectives(&self, spots: &Vec<String>) -> (r: Vec<String>)
        ensures
            str_views(r@) == nav_completions_all(self.view_all(), str_views(spots@)),
    {
        let mut r: Vec<String> = Vec::new();
        let mut i: usize = 0;
        while i < spots.len()
            invariant
                i <= spots@.len(),
                str_views(r@) == nav_completions_all(self.view_all(), str_views(spots@).take(i as int)),
            decreases spots@.len() - i,
        {
            let ghost before = r@;
            let mut found = self.nav_matches(&spots[i]);
            let ghost f = found@;
            r.append(&mut found);
            assert(str_views(spots@).take(i + 1).drop_last() =~= str_views(spots@).take(i as int));
            assert(str_views(spots@).take(i + 1).last() == spots@[i as int]@);
            assert(str_views(r@) =~= str_views(before) + str_views(f));
            i = i + 1;
        }
        assert(str_views(spots@).take(i as int) =~= str_views(spots@));
        r
    }

    /// Completes each objective id of `ids` in turn.
    pub fn process_completions(&mut self, ids: &Vec<String>)
        ensures
            final(self).view_all() == completed_all(old(self).view_all(), str_views(ids@)),
    {
        let mut i: usize = 0;
        while i < ids.len()
            invariant
                i <= ids@.len(),
                self.view_all() == completed_all(old(self).view_all(), str_views(ids@).take(i as int)),
            decreases ids@.len() - i,
        {
            assert(str_views(ids@).take(i + 1).drop_last() =~= str_views(ids@).take(i as int));
            assert(str_views(ids@).take(i + 1).last() == ids@[i as int]@);
            self.complete(ids[i].as_str());
            i = i + 1;
        }
        assert(str_views(ids@).take(i as int) =~= str_views(ids@));
    }

    /// Sets the visibility and completion of the first objective with id
    /// `id`; changes nothing when there is none.
    pub fn set_saved_flags(&mut self, id: &str, visible: bool, completed: bool)
        ensures
            ({
                let q = first_index(old(self).view_all(), oid_is(id@));
                &&& q < 0 ==> final(self).view_all() == old(self).view_all()
                &&& q >= 0 ==> final(self).view_all() == old(self).view_all().update(
                    q,
                    ObjectiveView { visible: visible, completed: completed, ..old(self).view_all()[q] },
                )
            }),
    {
        let key = id.to_owned();
        match self.find(&key, false) {
            Some(q) => self.set_flags(q, visible, completed),
            None => {},
        }
    }
}

/// Appends the objectives of the data file, once: nothing happens when they
/// were loaded already, the data is not ready, or the file is not available.
pub fn load_objectives_from_data(
    objectives: &mut Objectives,
    loaded: &mut bool,
    ready: bool,
    data: Option<&ObjectiveSet>,
)
    ensures
        (*old(loaded) || !ready || data is None) ==> (final(objectives).view_all() == old(objectives).view_all()
            && *final(loaded) == *old(loaded)),
        (!*old(loaded) && ready && data is Some) ==> ({
            let defs = data.unwrap().objectives@;
            &&& *final(loaded)
            &&& final(objectives).view_all() == old(objectives).view_all() + defs.map_values(|d: ObjectiveDef| def_objective(d))
        }),
{
    if *loaded || !ready {
        return;
    }
    let set = match data {
        Some(set) => set,
        None => return,
    };
    let ghost start = objectives.view_all();
    let ghost defs = set.objectives@.map_values(|d: ObjectiveDef| def_objective(d));
    let mut i: usize = 0;
    while i < set.objectives.len()
        invariant
            i <= set.objectives@.len(),
            defs == set.objectives@.map_values(|d: ObjectiveDef| def_objective(d)),
            objectives.view_all() == start + defs.take(i as int),
        decreases set.objectives@.len() - i,
    {
        let d = &set.objectives[i];
        let o = Objective {
            id: d.id.clone(),
            text: d.text.clone(),
            visible: d.visible,
            completed: false,
            conflicts_with: clone_strings(&d.conflicts_with),
            unlocks: clone_strings(&d.unlocks),
            requires_item: clone_opt(&d.requires_item),
            requires_navigation: clone_opt(&d.requires_navigation),
        };
        assert(o@ == def_objective(*d));
        let ghost before = objectives.all@;
        objectives.all.push(o);
        assert(objectives.view_all() =~= objective_views(before).push(o@));
        assert(defs.take(i + 1) =~= defs.take(i as int).push(defs[i as int]));
        i = i + 1;
        assert(objectives.view_all() =~= start + defs.take(i as int));
    }
    assert(defs.take(i as int) =~= defs);
    *loaded = true;
}


/// `b` has the objectives of `a`, with the same ids, and every objective
/// completed in `a` is completed in `b`.
pub open spec fn keeps_progress(a: Seq<ObjectiveView>, b: Seq<ObjectiveView>) -> bool {
    &&& a.len() == b.len()
    &&& forall|j: int| 0 <= j < a.len() ==> #[trigger] b[j].id == a[j].id && (a[j].completed ==> b[j].completed)
}

/// No two objectives share an id.
pub open spec fn oids_distinct(all: Seq<ObjectiveView>) -> bool {
    forall|i: int, j: int|
        0 <= i < all.len() && 0 <= j < all.len() && i != j ==> #[trigger] all[i].id != #[trigger] all[j].id
}

proof fn lemma_keeps_trans(a: Seq<ObjectiveView>, b: Seq<ObjectiveView>, c: Seq<ObjectiveView>)
    requires
        keeps_progress(a, b),
        keeps_progress(b, c),
    ensures
        keeps_progress(a, c),
{
    assert forall|j: int| 0 <= j < a.len() implies #[trigger] c[j].id == a[j].id && (a[j].completed ==> c[j].completed) by {
        assert(b[j].id == a[j].id);
        assert(c[j].id == b[j].id);
    }
}

proof fn lemma_cancel_all_keeps(all: Seq<ObjectiveView>, ids: Seq<Seq<char>>)
    ensures
        keeps_progress(all, cancel_all(all, ids)),
    decreases ids.len(),
{
    if ids.len() > 0 {
        lemma_cancel_all_keeps(all, ids.drop_last());
        let mid = cancel_all(all, ids.drop_last());
        lemma_first_index(mid, oid_is(ids.last()));
    }
}

proof fn lemma_reveal_all_keeps(all: Seq<ObjectiveView>, ids: Seq<Seq<char>>)
    ensures
        keeps_progress(all, reveal_all(all, ids)),
    decreases ids.len(),
{
    if ids.len() > 0 {
        lemma_reveal_all_keeps(all, ids.drop_last());
        let mid = reveal_all(all, ids.drop_last());
        lemma_first_index(mid, oid_is(ids.last()));
        let r = reveal_all(all, ids);
        assert(r == reveal_one(mid, ids.last()));
        assert forall|j: int| 0 <= j < all.len() implies #[trigger] r[j].id == all[j].id && (all[j].completed
            ==> r[j].completed) by {
            assert(mid[j].id == all[j].id);
        }
    }
}

/// Completing an objective keeps every objective's id and never undoes a
/// completion; the completed objective is the first open one with that id.
proof fn lemma_complete_keeps(all: Seq<ObjectiveView>, id: Seq<char>)
    ensures
        keeps_progress(all, completed_objectives(all, id)),
        first_index(all, open_with_id(id)) >= 0 ==> completed_objectives(all, id)[first_index(
            all,
            open_with_id(id),
        )].completed,
{
    lemma_first_index(all, open_with_id(id));
    let p = first_index(all, open_with_id(id));
    if p >= 0 {
        let o = all[p];
        let marked = all.update(p, ObjectiveView { completed: true, ..o });
        lemma_cancel_all_keeps(marked, o.conflicts_with);
        let c = cancel_all(marked, o.conflicts_with);
        lemma_reveal_all_keeps(c, o.unlocks);
        let r = reveal_all(c, o.unlocks);
        assert(keeps_progress(c, r));
        assert(keeps_progress(marked, c));
        assert(marked[p].completed);
        assert(c[p].id == marked[p].id);
        assert(r[p].id == c[p].id);
        lemma_keeps_trans(all, marked, c);
        lemma_keeps_trans(all, c, r);
    }
}

/// Law: completing never undoes a completion and never changes which
/// objectives exist; once some objective with id `id` exists, completing
/// `id` leaves an objective with that id completed.
pub proof fn law_completion_is_permanent(all: Seq<ObjectiveView>, id: Seq<char>)
    ensures
        keeps_progress(all, completed_objectives(all, id)),
        (exists|k: int| 0 <= k < all.len() && #[trigger] all[k].id == id) ==> is_done(
            completed_objectives(all, id),
            id,
        ),
{
    lemma_complete_keeps(all, id);
    lemma_first_index(all, open_with_id(id));
    let r = completed_objectives(all, id);
    let p = first_index(all, open_with_id(id));
    if exists|k: int| 0 <= k < all.len() && #[trigger] all[k].id == id {
        let k = choose|k: int| 0 <= k < all.len() && #[trigger] all[k].id == id;
        if p >= 0 {
            assert(r[p].id == id && r[p].completed);
        } else {
            assert(!open_with_id(id)(all[k]));
            assert(r[k].id == id && r[k].completed);
        }
    }
}

/// Law: with distinct ids, completing the same objective twice changes
/// nothing the second time, and the second completion reports `false`.
pub proof fn law_complete_idempotent(all: Seq<ObjectiveView>, id: Seq<char>)
    requires
        oids_distinct(all),
    ensures
        first_index(completed_objectives(all, id), open_with_id(id)) == -1,
        completed_objectives(completed_objectives(all, id), id) == completed_objectives(all, id),
{
    lemma_complete_keeps(all, id);
    lemma_first_index(all, open_with_id(id));
    let r = completed_objectives(all, id);
    let p = first_index(all, open_with_id(id));
    assert forall|j: int| 0 <= j < r.len() implies !open_with_id(id)(#[trigger] r[j]) by {
        if r[j].id == id && !r[j].completed {
            assert(all[j].id == id);
            if p >= 0 {
                if j != p {
                    assert(all[p].id == id);
                }
            } else {
                assert(!open_with_id(id)(all[j]));
            }
        }
    }
    lemma_first_index_none(r, open_with_id(id));
}

/// Law: adding an objective whose id exists changes nothing; otherwise the
/// new objective is appended and is found by its id.
pub proof fn law_add_objective(all: Seq<ObjectiveView>, id: Seq<char>, text: Seq<char>, visible: bool)
    ensures
        (exists|k: int| 0 <= k < all.len() && #[trigger] all[k].id == id) ==> added_objective(all, id, text, visible) == all,
        first_index(added_objective(all, id, text, visible), oid_is(id)) >= 0,
{
    lemma_first_index(all, oid_is(id));
    let r = added_objective(all, id, text, visible);
    if exists|k: int| 0 <= k < all.len() && #[trigger] all[k].id == id {
        let k = choose|k: int| 0 <= k < all.len() && #[trigger] all[k].id == id;
        assert(oid_is(id)(all[k]));
    }
    if first_index(all, oid_is(id)) < 0 {
        assert(oid_is(id)(r[all.len() as int]));
    }
    lemma_first_index(r, oid_is(id));
}

/// Objectives with the same ids, position by position, have the same first
/// objective with any id.
proof fn lemma_same_ids_first(a: Seq<ObjectiveView>, b: Seq<ObjectiveView>, k: Seq<char>)
    requires
        a.len() == b.len(),
        forall|j: int| 0 <= j < a.len() ==> #[trigger] a[j].id == b[j].id,
    ensures
        first_index(a, oid_is(k)) == first_index(b, oid_is(k)),
{
    lemma_first_index(a, oid_is(k));
    let f = first_index(a, oid_is(k));
    if f >= 0 {
        assert forall|j: int| 0 <= j < f implies !oid_is(k)(#[trigger] b[j]) by {
            assert(a[j].id == b[j].id);
            assert(!oid_is(k)(a[j]));
        }
        assert(a[f].id == b[f].id);
        lemma_first_index_is(b, oid_is(k), f);
    } else {
        assert forall|j: int| 0 <= j < b.len() implies !oid_is(k)(#[trigger] b[j]) by {
            assert(a[j].id == b[j].id);
            assert(!oid_is(k)(a[j]));
        }
        lemma_first_index_none(b, oid_is(k));
    }
}

/// What cancelling does: ids stay, objectives whose id is not listed stay
/// as they are, and the first objective with each listed id ends completed
/// and hidden.
proof fn lemma_cancel_all_effect(all: Seq<ObjectiveView>, ids: Seq<Seq<char>>)
    ensures
        cancel_all(all, ids).len() == all.len(),
        forall|j: int| #![trigger cancel_all(all, ids)[j]] 0 <= j < all.len() ==> cancel_all(all, ids)[j].id == all[j].id,
        forall|j: int| #![trigger cancel_all(all, ids)[j]] 0 <= j < all.len() && !ids.contains(all[j].id) ==> cancel_all(all, ids)[j] == all[j],
        forall|k: Seq<char>|
            #![trigger ids.contains(k)]
            ids.contains(k) && first_index(all, oid_is(k)) >= 0 ==> cancel_all(all, ids)[first_index(all, oid_is(k))].completed
                && !cancel_all(all, ids)[first_index(all, oid_is(k))].visible,
    decreases ids.len(),
{
    if ids.len() > 0 {
        let init = ids.drop_last();
        let k0 = ids.last();
        lemma_cancel_all_effect(all, init);
        let mid = cancel_all(all, init);
        lemma_same_ids_first(mid, all, k0);
        lemma_first_index(all, oid_is(k0));
        let f0 = first_index(all, oid_is(k0));
        let r = cancel_all(all, ids);
        assert(r == cancel_one(mid, k0));
        assert(ids[ids.len() - 1] == k0);
        assert forall|j: int| 0 <= j < all.len() && !ids.contains(all[j].id) implies #[trigger] r[j] == all[j] by {
            assert forall|i: int| 0 <= i < init.len() implies init[i] != all[j].id by {
                assert(ids[i] == init[i]);
            }
            assert(!init.contains(all[j].id));
            assert(mid[j] == all[j]);
            if f0 >= 0 {
                assert(all[f0].id == k0);
                assert(j != f0);
            }
        }
        assert forall|k: Seq<char>| #![trigger ids.contains(k)] ids.contains(k) && first_index(all, oid_is(k)) >= 0
            implies r[first_index(all, oid_is(k))].completed && !r[first_index(all, oid_is(k))].visible by {
            lemma_first_index(all, oid_is(k));
            let fk = first_index(all, oid_is(k));
            if k != k0 {
                let w = choose|w: int| 0 <= w < ids.len() && ids[w] == k;
                assert(w < init.len() && init[w] == k);
                assert(init.contains(k));
                assert(mid[fk].completed && !mid[fk].visible);
                if f0 >= 0 {
                    assert(r == mid.update(f0, ObjectiveView { completed: true, visible: false, ..mid[f0] }));
                } else {
                    assert(r == mid);
                }
            } else {
                assert(r == mid.update(f0, ObjectiveView { completed: true, visible: false, ..mid[f0] }));
            }
        }
    }
}

/// What revealing does: ids and completion stay, objectives whose id is not
/// listed stay as they are, and the first objective with each listed id
/// ends visible.
proof fn lemma_reveal_all_effect(all: Seq<ObjectiveView>, ids: Seq<Seq<char>>)
    ensures
        reveal_all(all, ids).len() == all.len(),
        forall|j: int| #![trigger reveal_all(all, ids)[j]] 0 <= j < all.len() ==> reveal_all(all, ids)[j].id == all[j].id
            && reveal_all(all, ids)[j].completed == all[j].completed,
        forall|j: int| #![trigger reveal_all(all, ids)[j]] 0 <= j < all.len() && !ids.contains(all[j].id) ==> reveal_all(all, ids)[j] == all[j],
        forall|k: Seq<char>|
            #![trigger ids.contains(k)]
            ids.contains(k) && first_index(all, oid_is(k)) >= 0 ==> reveal_all(all, ids)[first_index(all, oid_is(k))].visible,
    decreases ids.len(),
{
    if ids.len() > 0 {
        let init = ids.drop_last();
        let k0 = ids.last();
        lemma_reveal_all_effect(all, init);
        let mid = reveal_all(all, init);
        lemma_same_ids_first(mid, all, k0);
        lemma_first_index(all, oid_is(k0));
        let f0 = first_index(all, oid_is(k0));
        let r = reveal_all(all, ids);
        assert(r == reveal_one(mid, k0));
        assert(ids[ids.len() - 1] == k0);
        assert forall|j: int| 0 <= j < all.len() implies #[trigger] r[j].id == all[j].id && r[j].completed
            == all[j].completed by {
            assert(mid[j].id == all[j].id && mid[j].completed == all[j].completed);
        }
        assert forall|j: int| 0 <= j < all.len() && !ids.contains(all[j].id) implies #[trigger] r[j] == all[j] by {
            assert forall|i: int| 0 <= i < init.len() implies init[i] != all[j].id by {
                assert(ids[i] == init[i]);
            }
            assert(!init.contains(all[j].id));
            assert(mid[j] == all[j]);
            if f0 >= 0 {
                assert(all[f0].id == k0);
                assert(j != f0);
            }
        }
        assert forall|k: Seq<char>| #![trigger ids.contains(k)] ids.contains(k) && first_index(all, oid_is(k)) >= 0
            implies r[first_index(all, oid_is(k))].visible by {
            lemma_first_index(all, oid_is(k));
            let fk = first_index(all, oid_is(k));
            if k != k0 {
                let w = choose|w: int| 0 <= w < ids.len() && ids[w] == k;
                assert(w < init.len() && init[w] == k);
                assert(init.contains(k));
                assert(mid[fk].visible);
                if f0 >= 0 {
                    assert(r == mid.update(f0, ObjectiveView { visible: true, ..mid[f0] }));
                } else {
                    assert(r == mid);
                }
            } else {
                assert(r == mid.update(f0, ObjectiveView { visible: true, ..mid[f0] }));
            }
        }
    }
}

/// Law: completing `id` completes the first open objective `o` with that
/// id (and nothing happens when there is none); then the first objective
/// carrying each id that `o` conflicts with ends completed, and hidden
/// unless `o` also unlocks that id; the first objective carrying each id
/// that `o` unlocks ends visible; every other objective stays as it was.
pub proof fn law_complete_cancels_and_reveals(all: Seq<ObjectiveView>, id: Seq<char>)
    ensures
        first_index(all, open_with_id(id)) < 0 ==> completed_objectives(all, id) == all,
        first_index(all, open_with_id(id)) >= 0 ==> ({
            let p = first_index(all, open_with_id(id));
            let o = all[p];
            let r = completed_objectives(all, id);
            &&& r.len() == all.len()
            &&& r[p].completed
            &&& forall|k: Seq<char>|
                #![trigger o.conflicts_with.contains(k)]
                o.conflicts_with.contains(k) && first_index(all, oid_is(k)) >= 0 ==> r[first_index(all, oid_is(k))].completed
                    && (!o.unlocks.contains(k) ==> !r[first_index(all, oid_is(k))].visible)
            &&& forall|k: Seq<char>|
                #![trigger o.unlocks.contains(k)]
                o.unlocks.contains(k) && first_index(all, oid_is(k)) >= 0 ==> r[first_index(all, oid_is(k))].visible
            &&& forall|j: int|
                0 <= j < all.len() && j != p && !o.conflicts_with.contains(all[j].id) && !o.unlocks.contains(all[j].id)
                    ==> #[trigger] r[j] == all[j]
        }),
{
    lemma_first_index(all, open_with_id(id));
    let p = first_index(all, open_with_id(id));
    if p >= 0 {
        let o = all[p];
        let marked = all.update(p, ObjectiveView { completed: true, ..o });
        lemma_cancel_all_effect(marked, o.conflicts_with);
        let c = cancel_all(marked, o.conflicts_with);
        lemma_reveal_all_effect(c, o.unlocks);
        lemma_cancel_all_keeps(marked, o.conflicts_with);
        let r = reveal_all(c, o.unlocks);
        assert(r == completed_objectives(all, id));
        assert forall|j: int| 0 <= j < all.len() implies #[trigger] marked[j].id == all[j].id by {}
        assert forall|j: int| 0 <= j < all.len() implies #[trigger] c[j].id == all[j].id by {
            assert(c[j].id == marked[j].id);
        }
        assert(marked[p].completed);
        assert(c[p].completed);
        assert(r[p].completed == c[p].completed);
        assert forall|k: Seq<char>| #![trigger o.conflicts_with.contains(k)] o.conflicts_with.contains(k) && first_index(
            all,
            oid_is(k),
        ) >= 0 implies r[first_index(all, oid_is(k))].completed && (!o.unlocks.contains(k) ==> !r[first_index(
            all,
            oid_is(k),
        )].visible) by {
            lemma_same_ids_first(marked, all, k);
            lemma_first_index(all, oid_is(k));
            let f = first_index(all, oid_is(k));
            assert(c[f].completed && !c[f].visible);
            assert(r[f].completed == c[f].completed);
            assert(all[f].id == k);
            assert(c[f].id == k);
        }
        assert forall|k: Seq<char>| #![trigger o.unlocks.contains(k)] o.unlocks.contains(k) && first_index(all, oid_is(k))
            >= 0 implies r[first_index(all, oid_is(k))].visible by {
            lemma_same_ids_first(c, all, k);
        }
        assert forall|j: int|
            0 <= j < all.len() && j != p && !o.conflicts_with.contains(all[j].id) && !o.unlocks.contains(all[j].id)
                implies #[trigger] r[j] == all[j] by {
            assert(marked[j] == all[j]);
            assert(c[j] == marked[j]);
            assert(c[j].id == all[j].id);
        }
    }
}

} // verus!
