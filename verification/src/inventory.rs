//! The player's inventory: stacked items and two-item combination recipes.
use vstd::prelude::*;
use crate::seqs::{first_index, lemma_first_index, lemma_first_index_is, lemma_first_index_none};
use crate::interaction::FeedbackText;
use crate::game_data::{RecipeBook, RecipeDef};
use crate::text::join3;

verus! {

/// A collected item in the player's inventory.
#[derive(Debug, Clone)]
pub struct Item {
    pub item_id: String,
    pub name: String,
    pub description: String,
    pub qty: u32,
}

/// Defines what happens when two items are combined.
#[derive(Debug, Clone)]
pub struct CombinationRecipe {
    pub item_a: String,
    pub item_b: String,
    pub result_id: String,
    pub result_name: String,
    pub result_description: String,
}

/// The player's inventory.
#[derive(Debug)]
pub struct Inventory {
    pub items: Vec<Item>,
    pub combination_recipes: Vec<CombinationRecipe>,
}

/// The mathematical content of an `Item`: its strings as character
/// sequences and its quantity.
pub struct ItemView {
    pub item_id: Seq<char>,
    pub name: Seq<char>,
    pub description: Seq<char>,
    pub qty: u32,
}

impl View for Item {
    type V = ItemView;

    open spec fn view(&self) -> ItemView {
        ItemView { item_id: self.item_id@, name: self.name@, description: self.description@, qty: self.qty }
    }
}

/// The views of a sequence of items.
pub open spec fn item_views(items: Seq<Item>) -> Seq<ItemView> {
    items.map_values(|it: Item| it@)
}

/// Predicate: the item carries the id `id`.
pub open spec fn has_id(id: Seq<char>) -> spec_fn(ItemView) -> bool {
    |it: ItemView| it.item_id == id
}

/// Position of the first item with id `id`, or -1.
pub open spec fn item_pos(items: Seq<ItemView>, id: Seq<char>) -> int {
    first_index(items, has_id(id))
}

/// Whether some item carries the id `id`.
pub open spec fn holds(items: Seq<ItemView>, id: Seq<char>) -> bool {
    exists|k: int| 0 <= k < items.len() && #[trigger] items[k].item_id == id
}

/// The item `it` with its quantity replaced by `q`.
pub open spec fn with_qty(it: ItemView, q: u32) -> ItemView {
    ItemView { qty: q, ..it }
}

/// The items after one more unit of `id` is added: the first item with that
/// id gains one unit, or a new item with quantity 1 is appended.
pub open spec fn added(items: Seq<ItemView>, id: Seq<char>, name: Seq<char>, description: Seq<char>) -> Seq<ItemView> {
    let p = item_pos(items, id);
    if p >= 0 {
        items.update(p, with_qty(items[p], (items[p].qty + 1) as u32))
    } else {
        items.push(ItemView { item_id: id, name: name, description: description, qty: 1 })
    }
}

/// The items after one unit is taken from the item at `p`: it loses one
/// unit, or disappears when it held at most one.
pub open spec fn take_at(items: Seq<ItemView>, p: int) -> Seq<ItemView> {
    if items[p].qty > 1 {
        items.update(p, with_qty(items[p], (items[p].qty - 1) as u32))
    } else {
        items.remove(p)
    }
}

/// The items after one unit of `id` is taken away (unchanged when no item
/// carries `id`).
pub open spec fn removed(items: Seq<ItemView>, id: Seq<char>) -> Seq<ItemView> {
    let p = item_pos(items, id);
    if p < 0 {
        items
    } else {
        take_at(items, p)
    }
}

/// Whether adding one unit of `id` stays within `u32`.
pub open spec fn can_add(items: Seq<ItemView>, id: Seq<char>) -> bool {
    item_pos(items, id) >= 0 ==> items[item_pos(items, id)].qty < u32::MAX
}

/// Whether `r` combines `a` and `b`, in either order.
pub open spec fn recipe_matches(r: CombinationRecipe, a: Seq<char>, b: Seq<char>) -> bool {
    (r.item_a@ == a && r.item_b@ == b) || (r.item_a@ == b && r.item_b@ == a)
}

/// Predicate form of `recipe_matches`.
pub open spec fn matches_pair(a: Seq<char>, b: Seq<char>) -> spec_fn(CombinationRecipe) -> bool {
    |r: CombinationRecipe| recipe_matches(r, a, b)
}

/// Position of the first recipe that combines `a` and `b`, or -1.
pub open spec fn recipe_pos(recipes: Seq<CombinationRecipe>, a: Seq<char>, b: Seq<char>) -> int {
    first_index(recipes, matches_pair(a, b))
}

/// The items after combining `a` and `b` by the recipe `rc`.
pub open spec fn combined(items: Seq<ItemView>, a: Seq<char>, b: Seq<char>, rc: CombinationRecipe) -> Seq<ItemView> {
    added(removed(removed(items, a), b), rc.result_id@, rc.result_name@, rc.result_description@)
}

/// Whether combining `a` and `b` by `rc` stays within `u32`.
pub open spec fn can_combine(items: Seq<ItemView>, a: Seq<char>, b: Seq<char>, rc: CombinationRecipe) -> bool {
    can_add(removed(removed(items, a), b), rc.result_id@)
}

/// Message fired when the player picks up an item.
#[derive(Debug, Clone)]
pub struct ItemPickedUp {
    pub item_id: String,
    pub name: String,
}

/// The items after each picked-up item is added in turn (with an empty
/// description).
pub open spec fn collected(items: Seq<ItemView>, events: Seq<ItemPickedUp>) -> Seq<ItemView>
    decreases events.len(),
{
    if events.len() == 0 {
        items
    } else {
        let e = events.last();
        added(collected(items, events.drop_last()), e.item_id@, e.name@, Seq::empty())
    }
}

/// Whether adding each picked-up item in turn stays within `u32`.
pub open spec fn can_collect(items: Seq<ItemView>, events: Seq<ItemPickedUp>) -> bool
    decreases events.len(),
{
    events.len() == 0 || (can_collect(items, events.drop_last()) && can_add(
        collected(items, events.drop_last()),
        events.last().item_id@,
    ))
}

/// The recipe a `RecipeDef` loads as.
pub open spec fn def_recipe_matches(d: RecipeDef, r: CombinationRecipe) -> bool {
    &&& r.item_a@ == d.item_a@
    &&& r.item_b@ == d.item_b@
    &&& r.result_id@ == d.result_id@
    &&& r.result_name@ == d.result_name@
    &&& r.result_description@ == d.result_description@
}

impl Default for Inventory {
    fn default() -> (inv: Self)
        ensures
            inv.items@.len() == 0,
            inv.combination_recipes@.len() == 0,
    {
        Inventory { items: Vec::new(), combination_recipes: Vec::new() }
    }
}

impl Inventory {
    /// The items as their views.
    pub open spec fn items_view(&self) -> Seq<ItemView> {
        item_views(self.items@)
    }

    /// Index of the first item with id `key`, if any.
    pub(crate) fn find_item(&self, key: &String) -> (r: Option<usize>)
        ensures
            match r {
                Some(k) => k < self.items@.len() && k as int == item_pos(self.items_view(), key@),
                None => item_pos(self.items_view(), key@) == -1,
            },
    {
        let mut i: usize = 0;
        while i < self.items.len()
            invariant
                i <= self.items@.len(),
                forall|j: int| 0 <= j < i ==> !has_id(key@)(#[trigger] self.items_view()[j]),
            decreases self.items@.len() - i,
        {
            if self.items[i].item_id == *key {
                proof {
                    lemma_first_index_is(self.items_view(), has_id(key@), i as int);
                }
                return Some(i);
            }
            i = i + 1;
        }
        proof {
            lemma_first_index_none(self.items_view(), has_id(key@));
        }
        None
    }

    /// Adds one unit of `item_id`: stacks onto the first item with that id,
    /// or appends a new item with quantity 1.
    pub fn add_item(&mut self, item_id: &str, name: &str, description: &str)
        requires
            can_add(old(self).items_view(), item_id@),
        ensures
            final(self).items_view() == added(old(self).items_view(), item_id@, name@, description@),
            final(self).combination_recipes@ == old(self).combination_recipes@,
    {
        let key = item_id.to_owned();
        match self.find_item(&key) {
            Some(k) => {
                let it = &self.items[k];
                let bumped = Item {
                    item_id: it.item_id.clone(),
                    name: it.name.clone(),
                    description: it.description.clone(),
                    qty: it.qty + 1,
                };
                self.items.set(k, bumped);
            },
            None => {
                self.items.push(Item {
                    item_id: key,
                    name: name.to_owned(),
                    description: description.to_owned(),
                    qty: 1,
                });
            },
        }
        assert(self.items_view() =~= added(old(self).items_view(), item_id@, name@, description@));
    }

    /// Takes one unit of `item_id` away; returns whether the inventory held it.
    pub fn remove_item(&mut self, item_id: &str) -> (found: bool)
        ensures
            found == holds(old(self).items_view(), item_id@),
            final(self).items_view() == removed(old(self).items_view(), item_id@),
            final(self).combination_recipes@ == old(self).combination_recipes@,
    {
        proof {
            lemma_first_index(self.items_view(), has_id(item_id@));
        }
        let key = item_id.to_owned();
        match self.find_item(&key) {
            Some(k) => {
                let it = &self.items[k];
                if it.qty > 1 {
                    let lowered = Item {
                        item_id: it.item_id.clone(),
                        name: it.name.clone(),
                        description: it.description.clone(),
                        qty: it.qty - 1,
                    };
                    self.items.set(k, lowered);
                } else {
                    self.items.remove(k);
                }
                assert(self.items_view() =~= removed(old(self).items_view(), item_id@));
                assert(has_id(item_id@)(old(self).items_view()[k as int]));
                true
            },
            None => {
                assert forall|j: int| 0 <= j < self.items_view().len()
                    implies #[trigger] self.items_view()[j].item_id != item_id@ by {
                    assert(!has_id(item_id@)(self.items_view()[j]));
                }
                false
            },
        }
    }

    /// Whether some item carries `item_id`.
    pub fn has_item(&self, item_id: &str) -> (r: bool)
        ensures
            r == holds(self.items_view(), item_id@),
    {
        proof {
            lemma_first_index(self.items_view(), has_id(item_id@));
        }
        let key = item_id.to_owned();
        match self.find_item(&key) {
            Some(k) => {
                assert(has_id(item_id@)(self.items_view()[k as int]));
                true
            },
            None => {
                assert forall|j: int| 0 <= j < self.items_view().len()
                    implies #[trigger] self.items_view()[j].item_id != item_id@ by {
                    assert(!has_id(item_id@)(self.items_view()[j]));
                }
                false
            },
        }
    }

    /// A copy of the items.
    fn copy_items(&self) -> (r: Vec<Item>)
        ensures
            item_views(r@) == self.items_view(),
    {
        let mut r: Vec<Item> = Vec::new();
        let mut i: usize = 0;
        while i < self.items.len()
            invariant
                i <= self.items@.len(),
                item_views(r@) == self.items_view().take(i as int),
            decreases self.items@.len() - i,
        {
            let it = &self.items[i];
            let ghost before = r@;
            let copy = Item {
                item_id: it.item_id.clone(),
                name: it.name.clone(),
                description: it.description.clone(),
                qty: it.qty,
            };
            assert(copy@ == self.items_view()[i as int]);
            r.push(copy);
            assert(item_views(r@) =~= item_views(before).push(copy@));
            assert(self.items_view().take(i + 1) =~= self.items_view().take(i as int).push(self.items_view()[i as int]));
            i = i + 1;
        }
        assert(self.items_view().take(i as int) =~= self.items_view());
        r
    }

    /// Whether one more unit of `item_id` fits: the first item with that id
    /// holds less than `u32::MAX` units, or there is none.
    pub fn has_room_for(&self, item_id: &str) -> (r: bool)
        ensures
            r == can_add(self.items_view(), item_id@),
    {
        let key = item_id.to_owned();
        match self.find_item(&key) {
            Some(k) => self.items[k].qty < u32::MAX,
            None => true,
        }
    }

    /// Whether `combine(item_a, item_b)` stays within `u32`: true when no
    /// recipe combines them, otherwise whether the result still fits after
    /// one unit of each ingredient is consumed.
    pub fn can_combine_items(&self, item_a: &str, item_b: &str) -> (r: bool)
        ensures
            r == (recipe_pos(self.combination_recipes@, item_a@, item_b@) >= 0 ==> can_combine(
                self.items_view(),
                item_a@,
                item_b@,
                self.combination_recipes@[recipe_pos(self.combination_recipes@, item_a@, item_b@)],
            )),
    {
        let a = item_a.to_owned();
        let b = item_b.to_owned();
        let k = match self.find_recipe(&a, &b) {
            Some(k) => k,
            None => return true,
        };
        let mut scratch = Inventory { items: self.copy_items(), combination_recipes: Vec::new() };
        scratch.remove_item(item_a);
        scratch.remove_item(item_b);
        scratch.has_room_for(self.combination_recipes[k].result_id.as_str())
    }

    /// Index of the first recipe combining `a` and `b` in either order.
    fn find_recipe(&self, a: &String, b: &String) -> (r: Option<usize>)
        ensures
            match r {
                Some(k) => k < self.combination_recipes@.len()
                    && k as int == recipe_pos(self.combination_recipes@, a@, b@),
                None => recipe_pos(self.combination_recipes@, a@, b@) == -1,
            },
    {
        let mut i: usize = 0;
        while i < self.combination_recipes.len()
            invariant
                i <= self.combination_recipes@.len(),
                forall|j: int| 0 <= j < i ==> !matches_pair(a@, b@)(#[trigger] self.combination_recipes@[j]),
            decreases self.combination_recipes@.len() - i,
        {
            let r = &self.combination_recipes[i];
            if (r.item_a == *a && r.item_b == *b) || (r.item_a == *b && r.item_b == *a) {
                proof {
                    lemma_first_index_is(self.combination_recipes@, matches_pair(a@, b@), i as int);
                }
                return Some(i);
            }
            i = i + 1;
        }
        proof {
            lemma_first_index_none(self.combination_recipes@, matches_pair(a@, b@));
        }
        None
    }

    /// Combines `item_a` and `item_b` by the first recipe that names them (in
    /// either order): one unit of each is consumed and one unit of the result
    /// is added. Returns the result's name, or `None` (changing nothing) when
    /// no recipe combines them.
    pub fn combine(&mut self, item_a: &str, item_b: &str) -> (r: Option<String>)
        requires
            recipe_pos(old(self).combination_recipes@, item_a@, item_b@) >= 0 ==> can_combine(
                old(self).items_view(),
                item_a@,
                item_b@,
                old(self).combination_recipes@[recipe_pos(old(self).combination_recipes@, item_a@, item_b@)],
            ),
        ensures
            final(self).combination_recipes@ == old(self).combination_recipes@,
            r is None <==> recipe_pos(old(self).combination_recipes@, item_a@, item_b@) == -1,
            r is None ==> final(self).items_view() == old(self).items_view(),
            r matches Some(name) ==> {
                let rc = old(self).combination_recipes@[recipe_pos(old(self).combination_recipes@, item_a@, item_b@)];
                &&& name@ == rc.result_name@
                &&& final(self).items_view() == combined(old(self).items_view(), item_a@, item_b@, rc)
            },
    {
        let a = item_a.to_owned();
        let b = item_b.to_owned();
        let k = match self.find_recipe(&a, &b) {
            Some(k) => k,
            None => return None,
        };
        let rc = &self.combination_recipes[k];
        let result_id = rc.result_id.clone();
        let result_name = rc.result_name.clone();
        let result_description = rc.result_description.clone();

        self.remove_item(item_a);
        self.remove_item(item_b);
        self.add_item(result_id.as_str(), result_name.as_str(), result_description.as_str());
        Some(result_name)
    }
}

/// Adds each picked-up item to the inventory, in turn, and reports the last
/// pick-up in the feedback line ("You pick up the <name>.").
pub fn collect_item(events: &Vec<ItemPickedUp>, inventory: &mut Inventory, feedback: &mut FeedbackText)
    requires
        can_collect(old(inventory).items_view(), events@),
    ensures
        final(inventory).items_view() == collected(old(inventory).items_view(), events@),
        final(inventory).combination_recipes@ == old(inventory).combination_recipes@,
        events@.len() == 0 ==> final(feedback).0@ == old(feedback).0@,
        events@.len() > 0 ==> final(feedback).0@ == "You pick up the "@ + events@.last().name@ + "."@,
{
    let mut i: usize = 0;
    while i < events.len()
        invariant
            i <= events@.len(),
            can_collect(old(inventory).items_view(), events@),
            inventory.items_view() == collected(old(inventory).items_view(), events@.take(i as int)),
            inventory.combination_recipes@ == old(inventory).combination_recipes@,
            i == 0 ==> feedback.0@ == old(feedback).0@,
            i > 0 ==> feedback.0@ == "You pick up the "@ + events@[i - 1].name@ + "."@,
        decreases events@.len() - i,
    {
        assert(events@.take(i + 1).drop_last() =~= events@.take(i as int));
        proof {
            lemma_can_collect_prefix(old(inventory).items_view(), events@, i as int + 1);
        }
        let ev = &events[i];
        proof {
            reveal_strlit("");
        }
        assert(""@ =~= Seq::<char>::empty());
        assert(events@.take(i + 1).last() == *ev);
        inventory.add_item(ev.item_id.as_str(), ev.name.as_str(), "");
        feedback.0 = join3("You pick up the ", ev.name.as_str(), ".");
        i = i + 1;
    }
    assert(events@.take(i as int) =~= events@);
}

/// Whether `collect_item(events, inventory, ..)` stays within `u32`: adding
/// each picked-up item in turn never pushes a quantity past `u32::MAX`.
pub fn can_collect_items(events: &Vec<ItemPickedUp>, inventory: &Inventory) -> (r: bool)
    ensures
        r == can_collect(inventory.items_view(), events@),
{
    let ghost start = inventory.items_view();
    let mut scratch = Inventory { items: inventory.copy_items(), combination_recipes: Vec::new() };
    let mut i: usize = 0;
    while i < events.len()
        invariant
            i <= events@.len(),
            start == inventory.items_view(),
            can_collect(start, events@.take(i as int)),
            scratch.items_view() == collected(start, events@.take(i as int)),
        decreases events@.len() - i,
    {
        assert(events@.take(i + 1).drop_last() =~= events@.take(i as int));
        let ev = &events[i];
        assert(events@.take(i + 1).last() == *ev);
        if !scratch.has_room_for(ev.item_id.as_str()) {
            proof {
                if can_collect(start, events@) {
                    lemma_can_collect_prefix(start, events@, i as int + 1);
                    let pre = events@.take(i + 1);
                    assert(can_add(collected(start, pre.drop_last()), pre.last().item_id@));
                }
            }
            return false;
        }
        proof {
            reveal_strlit("");
        }
        assert(""@ =~= Seq::<char>::empty());
        scratch.add_item(ev.item_id.as_str(), ev.name.as_str(), "");
        i = i + 1;
    }
    assert(events@.take(i as int) =~= events@);
    true
}

/// A prefix of pick-ups that can be collected as a whole can be collected.
proof fn lemma_can_collect_prefix(items: Seq<ItemView>, events: Seq<ItemPickedUp>, n: int)
    requires
        0 <= n <= events.len(),
        can_collect(items, events),
    ensures
        can_collect(items, events.take(n)),
    decreases events.len() - n,
{
    if n < events.len() {
        assert(events.drop_last().take(n) =~= events.take(n));
        lemma_can_collect_prefix(items, events.drop_last(), n);
    } else {
        assert(events.take(n) =~= events);
    }
}

/// Appends the recipes of the data file, once: nothing happens when they
/// were loaded already, the data is not ready, or the file is not available.
pub fn load_recipes_from_data(inventory: &mut Inventory, loaded: &mut bool, ready: bool, data: Option<&RecipeBook>)
    ensures
        final(inventory).items_view() == old(inventory).items_view(),
        (*old(loaded) || !ready || data is None) ==> (final(inventory).combination_recipes@
            == old(inventory).combination_recipes@ && *final(loaded) == *old(loaded)),
        (!*old(loaded) && ready && data is Some) ==> ({
            let defs = data.unwrap().recipes@;
            let old_n = old(inventory).combination_recipes@.len();
            &&& *final(loaded)
            &&& final(inventory).combination_recipes@.len() == old_n + defs.len()
            &&& final(inventory).combination_recipes@.take(old_n as int) == old(inventory).combination_recipes@
            &&& forall|j: int| 0 <= j < defs.len() ==> #[trigger] def_recipe_matches(
                defs[j],
                final(inventory).combination_recipes@[old_n + j],
            )
        }),
{
    if *loaded || !ready {
        return;
    }
    let book = match data {
        Some(book) => book,
        None => return,
    };
    let ghost start = inventory.combination_recipes@;
    let mut i: usize = 0;
    while i < book.recipes.len()
        invariant
            i <= book.recipes@.len(),
            inventory.items_view() == old(inventory).items_view(),
            start == old(inventory).combination_recipes@,
            inventory.combination_recipes@.len() == start.len() + i,
            inventory.combination_recipes@.take(start.len() as int) == start,
            forall|j: int| 0 <= j < i ==> #[trigger] def_recipe_matches(
                book.recipes@[j],
                inventory.combination_recipes@[start.len() + j],
            ),
        decreases book.recipes@.len() - i,
    {
        let d = &book.recipes[i];
        let ghost before = inventory.combination_recipes@;
        inventory.combination_recipes.push(
            CombinationRecipe {
                item_a: d.item_a.clone(),
                item_b: d.item_b.clone(),
                result_id: d.result_id.clone(),
                result_name: d.result_name.clone(),
                result_description: d.result_description.clone(),
            },
        );
        assert(inventory.combination_recipes@.take(start.len() as int) =~= before.take(start.len() as int));
        assert forall|j: int| 0 <= j < i + 1 implies #[trigger] def_recipe_matches(
            book.recipes@[j],
            inventory.combination_recipes@[start.len() + j],
        ) by {
            if j < i {
                assert(inventory.combination_recipes@[start.len() + j] == before[start.len() + j]);
            }
        }
        i = i + 1;
    }
    *loaded = true;
}

/// No two items share an id.
pub open spec fn ids_distinct(items: Seq<ItemView>) -> bool {
    forall|i: int, j: int|
        0 <= i < items.len() && 0 <= j < items.len() && i != j ==> #[trigger] items[i].item_id
            != #[trigger] items[j].item_id
}

/// Where the first item with id `c` stands after a unit is taken from the
/// item at `p`, which carries another id.
proof fn lemma_pos_after_take(items: Seq<ItemView>, p: int, c: Seq<char>)
    requires
        0 <= p < items.len(),
        items[p].item_id != c,
    ensures
        ({
            let q = item_pos(items, c);
            let t = take_at(items, p);
            &&& q < 0 ==> item_pos(t, c) == -1
            &&& q >= 0 && items[p].qty <= 1 && p < q ==> item_pos(t, c) == q - 1 && t[q - 1] == items[q]
            &&& q >= 0 && !(items[p].qty <= 1 && p < q) ==> item_pos(t, c) == q && t[q] == items[q]
        }),
{
    lemma_first_index(items, has_id(c));
    let q = item_pos(items, c);
    let t = take_at(items, p);
    if items[p].qty > 1 {
        assert forall|j: int| 0 <= j < t.len() implies (has_id(c)(#[trigger] t[j]) <==> has_id(c)(items[j])) by {
            if j == p {
            }
        }
        if q < 0 {
            lemma_first_index_none(t, has_id(c));
        } else {
            assert(t[q] == items[q]);
            lemma_first_index_is(t, has_id(c), q);
        }
    } else {
        assert forall|j: int| 0 <= j < t.len() implies (has_id(c)(#[trigger] t[j]) <==> has_id(c)(
            items[if j < p { j } else { j + 1 }],
        )) by {}
        if q < 0 {
            assert forall|j: int| 0 <= j < t.len() implies !has_id(c)(#[trigger] t[j]) by {
                let jj = if j < p { j } else { j + 1 };
                assert(!has_id(c)(items[jj]));
            }
            lemma_first_index_none(t, has_id(c));
        } else if p < q {
            assert(t[q - 1] == items[q]);
            assert forall|j: int| 0 <= j < q - 1 implies !has_id(c)(#[trigger] t[j]) by {
                let jj = if j < p { j } else { j + 1 };
                assert(!has_id(c)(items[jj]));
            }
            lemma_first_index_is(t, has_id(c), q - 1);
        } else {
            assert(t[q] == items[q]);
            assert forall|j: int| 0 <= j < q implies !has_id(c)(#[trigger] t[j]) by {
                assert(!has_id(c)(items[j]));
            }
            lemma_first_index_is(t, has_id(c), q);
        }
    }
}

/// Every item holds at least one unit.
pub open spec fn qty_positive(items: Seq<ItemView>) -> bool {
    forall|i: int| 0 <= i < items.len() ==> #[trigger] items[i].qty >= 1
}

/// Law: removing one unit of an item just added gives back the items as
/// they were (for items that hold at least one unit each), and the item is
/// then held.
pub proof fn law_remove_undoes_add(items: Seq<ItemView>, id: Seq<char>, name: Seq<char>, description: Seq<char>)
    requires
        qty_positive(items),
        can_add(items, id),
    ensures
        removed(added(items, id, name, description), id) == items,
        holds(added(items, id, name, description), id),
{
    lemma_first_index(items, has_id(id));
    let p = item_pos(items, id);
    let new_items = added(items, id, name, description);
    if p >= 0 {
        assert forall|j: int| 0 <= j < p implies !has_id(id)(#[trigger] new_items[j]) by {
            assert(new_items[j] == items[j]);
            assert(!has_id(id)(items[j]));
        }
        assert(has_id(id)(new_items[p]));
        lemma_first_index_is(new_items, has_id(id), p);
        let it = items[p];
        assert(with_qty(new_items[p], it.qty) == it);
        assert(removed(new_items, id) =~= items);
    } else {
        let n = items.len() as int;
        assert forall|j: int| 0 <= j < n implies !has_id(id)(#[trigger] new_items[j]) by {
            assert(new_items[j] == items[j]);
            assert(!has_id(id)(items[j]));
        }
        assert(has_id(id)(new_items[n]));
        lemma_first_index_is(new_items, has_id(id), n);
        assert(new_items.remove(n) =~= items);
    }
}

/// Law: adding and removing keep item ids distinct.
pub proof fn law_ids_stay_distinct(items: Seq<ItemView>, id: Seq<char>, name: Seq<char>, description: Seq<char>)
    requires
        ids_distinct(items),
    ensures
        ids_distinct(added(items, id, name, description)),
        ids_distinct(removed(items, id)),
{
    lemma_first_index(items, has_id(id));
    let p = item_pos(items, id);
    let new_items = added(items, id, name, description);
    if p < 0 {
        let n = items.len() as int;
        assert forall|i: int, j: int|
            0 <= i < new_items.len() && 0 <= j < new_items.len() && i != j implies #[trigger] new_items[i].item_id
                != #[trigger] new_items[j].item_id by {
            if i == n {
                assert(!has_id(id)(items[j]));
            } else if j == n {
                assert(!has_id(id)(items[i]));
            }
        }
    }
    if p >= 0 {
        let r = removed(items, id);
        if items[p].qty <= 1 {
            assert forall|i: int, j: int|
                0 <= i < r.len() && 0 <= j < r.len() && i != j implies #[trigger] r[i].item_id
                    != #[trigger] r[j].item_id by {
                let ii = if i < p { i } else { i + 1 };
                let jj = if j < p { j } else { j + 1 };
                assert(r[i] == items[ii]);
                assert(r[j] == items[jj]);
            }
        }
    }
}

/// Where position `q` lands after a unit is taken from the item at `p`.
pub open spec fn shifted(items: Seq<ItemView>, p: int, q: int) -> int {
    if items[p].qty <= 1 && p < q {
        q - 1
    } else {
        q
    }
}

/// Taking a unit at two distinct positions gives the same items in either
/// order.
proof fn lemma_take_commutes(items: Seq<ItemView>, p: int, q: int)
    requires
        0 <= p < items.len(),
        0 <= q < items.len(),
        p != q,
    ensures
        take_at(items, p)[shifted(items, p, q)] == items[q],
        take_at(take_at(items, p), shifted(items, p, q)) == take_at(take_at(items, q), shifted(items, q, p)),
{
    let tp = take_at(items, p);
    let tq = take_at(items, q);
    let qq = shifted(items, p, q);
    let pp = shifted(items, q, p);
    assert(tp[qq] == items[q]);
    assert(tq[pp] == items[p]);
    let lhs = take_at(tp, qq);
    let rhs = take_at(tq, pp);
    if items[p].qty > 1 && items[q].qty > 1 {
        assert(lhs =~= rhs);
    } else if items[p].qty > 1 {
        assert(lhs =~= rhs);
    } else if items[q].qty > 1 {
        assert(lhs =~= rhs);
    } else if p < q {
        assert(lhs.len() == rhs.len());
        assert forall|j: int| 0 <= j < lhs.len() implies lhs[j] == rhs[j] by {
            if j < p {
            } else if j < q - 1 {
            } else {
            }
        }
        assert(lhs =~= rhs);
    } else {
        assert(lhs.len() == rhs.len());
        assert forall|j: int| 0 <= j < lhs.len() implies lhs[j] == rhs[j] by {
            if j < q {
            } else if j < p - 1 {
            } else {
            }
        }
        assert(lhs =~= rhs);
    }
}

/// Law: combining is order-independent: the same recipe is chosen for
/// `(a, b)` and `(b, a)`, consuming `a` then `b` leaves the same items as
/// consuming `b` then `a`, and one order fits within `u32` exactly when the
/// other does. So `combine(a, b)` and `combine(b, a)` on equal inventories
/// are allowed together, return the same name and leave the same items.
pub proof fn law_combine_order_independent(
    items: Seq<ItemView>,
    recipes: Seq<CombinationRecipe>,
    a: Seq<char>,
    b: Seq<char>,
)
    ensures
        recipe_pos(recipes, a, b) == recipe_pos(recipes, b, a),
        removed(removed(items, a), b) == removed(removed(items, b), a),
        forall|rc: CombinationRecipe| #[trigger] combined(items, a, b, rc) == combined(items, b, a, rc),
        forall|rc: CombinationRecipe| #[trigger] can_combine(items, a, b, rc) == can_combine(items, b, a, rc),
{
    assert(matches_pair(a, b) =~= matches_pair(b, a));
    if a != b {
        lemma_first_index(items, has_id(a));
        lemma_first_index(items, has_id(b));
        let p = item_pos(items, a);
        let q = item_pos(items, b);
        if p >= 0 {
            lemma_pos_after_take(items, p, b);
        }
        if q >= 0 {
            lemma_pos_after_take(items, q, a);
        }
        if p >= 0 && q >= 0 {
            lemma_take_commutes(items, p, q);
        }
    }
}

} // verus!
