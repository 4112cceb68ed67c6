//! Progressive hints: three tiers of hint text per objective, shown for the
//! first active objective once the player has been idle long enough.
use vstd::prelude::*;
use crate::seqs::{first_index, lemma_first_index, lemma_first_index_is, lemma_first_index_none};
use crate::objectives::{Objectives, ObjectiveView, active};

verus! {

/// Maps objective ids to 3-tier hint strings. Each objective id occurs at
/// most once (see `wf`).
#[derive(Debug)]
pub struct HintDatabase {
    pub hints: Vec<(String, [String; 3])>,
}

/// The current hint text to display (empty = no hint).
#[derive(Debug)]
pub struct HintText(pub String);

impl Default for HintText {
    fn default() -> (r: Self)
        ensures
            r.0@ == Seq::<char>::empty(),
    {
        HintText(String::new())
    }
}

/// The mathematical content of one database entry: the objective id and its
/// three hint texts.
pub type HintEntry = (Seq<char>, Seq<Seq<char>>);

/// The views of the database entries.
pub open spec fn hint_views(hints: Seq<(String, [String; 3])>) -> Seq<HintEntry> {
    hints.map_values(|e: (String, [String; 3])| (e.0@, e.1@.map_values(|s: String| s@)))
}

/// Predicate: the entry belongs to objective `id`.
pub open spec fn hint_for(id: Seq<char>) -> spec_fn(HintEntry) -> bool {
    |e: HintEntry| e.0 == id
}

/// The hint texts of objective `id`, if the database has them.
pub open spec fn lookup(entries: Seq<HintEntry>, id: Seq<char>) -> Option<Seq<Seq<char>>> {
    let p = first_index(entries, hint_for(id));
    if p < 0 {
        None
    } else {
        Some(entries[p].1)
    }
}

/// The tier the idle time has reached, given which thresholds it has
/// reached (a threshold counts only when positive): the highest reached.
pub open spec fn tier_of(reached: [bool; 3]) -> u8 {
    if reached[2] {
        3
    } else if reached[1] {
        2
    } else if reached[0] {
        1
    } else {
        0
    }
}

/// The hint shown for the available tier: empty at tier 0, when no
/// objective is active, or when the first active objective has no hints;
/// otherwise that objective's hint of the tier (tiers above 3 show tier 3).
pub open spec fn hint_shown(tier: u8, act: Seq<ObjectiveView>, entries: Seq<HintEntry>) -> Seq<char> {
    if tier == 0 || act.len() == 0 {
        Seq::empty()
    } else {
        match lookup(entries, act[0].id) {
            Some(h) => h[(if tier > 3 { 3 } else { tier as int }) - 1],
            None => Seq::empty(),
        }
    }
}

impl Default for HintDatabase {
    fn default() -> (r: Self)
        ensures
            r.hints@.len() == 0,
    {
        HintDatabase { hints: Vec::new() }
    }
}

impl HintDatabase {
    /// The entries as their views.
    pub open spec fn view_entries(&self) -> Seq<HintEntry> {
        hint_views(self.hints@)
    }

    /// No objective id occurs twice.
    pub open spec fn wf(&self) -> bool {
        forall|i: int, j: int|
            0 <= i < self.hints@.len() && 0 <= j < self.hints@.len() && i != j ==> #[trigger] self.view_entries()[i].0
                != #[trigger] self.view_entries()[j].0
    }

    /// Index of the entry for objective `id`.
    fn position(&self, id: &str) -> (r: Option<usize>)
        ensures
            match r {
                Some(k) => k < self.hints@.len() && k as int == first_index(self.view_entries(), hint_for(id@)),
                None => first_index(self.view_entries(), hint_for(id@)) == -1,
            },
    {
        let key = id.to_owned();
        let mut i: usize = 0;
        while i < self.hints.len()
            invariant
                i <= self.hints@.len(),
                key@ == id@,
                forall|j: int| 0 <= j < i ==> !hint_for(id@)(#[trigger] self.view_entries()[j]),
            decreases self.hints@.len() - i,
        {
            if self.hints[i].0 == key {
                proof {
                    lemma_first_index_is(self.view_entries(), hint_for(id@), i as int);
                }
                return Some(i);
            }
            i = i + 1;
        }
        proof {
            lemma_first_index_none(self.view_entries(), hint_for(id@));
        }
        None
    }

    /// The three hint texts of objective `id`, if any.
    pub fn get(&self, id: &str) -> (r: Option<&[String; 3]>)
        ensures
            match r {
                Some(h) => lookup(self.view_entries(), id@) == Some(h@.map_values(|s: String| s@)),
                None => lookup(self.view_entries(), id@) is None,
            },
    {
        match self.position(id) {
            Some(k) => Some(&self.hints[k].1),
            None => None,
        }
    }

    /// Sets the hint texts of objective `id`, replacing earlier ones.
    pub fn insert(&mut self, id: String, tiers: [String; 3])
        ensures
            old(self).wf() ==> final(self).wf(),
            lookup(final(self).view_entries(), id@) == Some(tiers@.map_values(|s: String| s@)),
            forall|other: Seq<char>| other != id@ ==> #[trigger] lookup(final(self).view_entries(), other) == lookup(
                old(self).view_entries(),
                other,
            ),
    {
        let ghost entry: HintEntry = (id@, tiers@.map_values(|s: String| s@));
        let ghost v = self.view_entries();
        proof {
            lemma_first_index(v, hint_for(id@));
        }
        match self.position(id.as_str()) {
            Some(k) => {
                self.hints.set(k, (id, tiers));
                assert(self.view_entries() =~= v.update(k as int, entry));
                proof {
                    let nv = self.view_entries();
                    assert forall|j: int| 0 <= j < k implies !hint_for(id@)(#[trigger] nv[j]) by {
                        assert(nv[j] == v[j]);
                    }
                    lemma_first_index_is(nv, hint_for(id@), k as int);
                    assert forall|i: int, j: int|
                        old(self).wf() && 0 <= i < nv.len() && 0 <= j < nv.len() && i != j implies #[trigger] nv[i].0 != #[trigger] nv[j].0 by {
                        assert(v[k as int].0 == id@);
                        if i != k && j != k {
                            assert(nv[i] == v[i] && nv[j] == v[j]);
                        } else if i == k {
                            assert(nv[j] == v[j]);
                        } else {
                            assert(nv[i] == v[i]);
                        }
                    }
                    assert forall|other: Seq<char>| other != id@ implies #[trigger] lookup(nv, other) == lookup(v, other) by {
                        lemma_first_index(v, hint_for(other));
                        assert forall|j: int| 0 <= j < nv.len() implies (hint_for(other)(#[trigger] nv[j]) <==> hint_for(other)(v[j])) by {
                            if j == k {
                                assert(v[j].0 == id@);
                            }
                        }
                        let q = first_index(v, hint_for(other));
                        if q < 0 {
                            assert forall|j: int| 0 <= j < nv.len() implies !hint_for(other)(#[trigger] nv[j]) by {
                                assert(!hint_for(other)(v[j]));
                            }
                            lemma_first_index_none(nv, hint_for(other));
                        } else {
                            assert forall|j: int| 0 <= j < q implies !hint_for(other)(#[trigger] nv[j]) by {
                                assert(!hint_for(other)(v[j]));
                            }
                            assert(q != k);
                            lemma_first_index_is(nv, hint_for(other), q);
                        }
                    }
                }
            },
            None => {
                self.hints.push((id, tiers));
                assert(self.view_entries() =~= v.push(entry));
                proof {
                    let nv = self.view_entries();
                    let n = v.len() as int;
                    assert forall|j: int| 0 <= j < n implies !hint_for(id@)(#[trigger] nv[j]) by {
                        assert(nv[j] == v[j]);
                        assert(!hint_for(id@)(v[j]));
                    }
                    lemma_first_index_is(nv, hint_for(id@), n);
                    assert forall|other: Seq<char>| other != id@ implies #[trigger] lookup(nv, other) == lookup(v, other) by {
                        lemma_first_index(v, hint_for(other));
                        let q = first_index(v, hint_for(other));
                        if q < 0 {
                            assert forall|j: int| 0 <= j < nv.len() implies !hint_for(other)(#[trigger] nv[j]) by {
                                if j < n {
                                    assert(!hint_for(other)(v[j]));
                                }
                            }
                            lemma_first_index_none(nv, hint_for(other));
                        } else {
                            assert forall|j: int| 0 <= j < q implies !hint_for(other)(#[trigger] nv[j]) by {
                                assert(!hint_for(other)(v[j]));
                            }
                            lemma_first_index_is(nv, hint_for(other), q);
                        }
                    }
                    assert forall|i: int, j: int|
                        old(self).wf() && 0 <= i < nv.len() && 0 <= j < nv.len() && i != j implies #[trigger] nv[i].0 != #[trigger] nv[j].0 by {
                        if i == n {
                            assert(!hint_for(id@)(v[j]));
                        } else if j == n {
                            assert(!hint_for(id@)(v[i]));
                        } else {
                            assert(nv[i] == v[i] && nv[j] == v[j]);
                        }
                    }
                }
            },
        }
    }
}

/// The tier of hints available: 3, 2 or 1 for the highest threshold the
/// idle time has reached, 0 when it has reached none.
pub fn tier_for(reached: [bool; 3]) -> (r: u8)
    ensures
        r == tier_of(reached),
{
    if reached[2] {
        3
    } else if reached[1] {
        2
    } else if reached[0] {
        1
    } else {
        0
    }
}

/// Shows the hint of the available tier for the first active objective.
pub fn sync_hint_text(available_tier: u8, db: &HintDatabase, objectives: &Objectives, hint_text: &mut HintText)
    ensures
        final(hint_text).0@ == hint_shown(available_tier, active(objectives.view_all()), db.view_entries()),
{
    if available_tier == 0 {
        hint_text.0 = String::new();
        return;
    }
    let act = objectives.active_visible();
    if act.len() == 0 {
        hint_text.0 = String::new();
        return;
    }
    let current = act[0];
    assert(act@.map_values(|o: &crate::objectives::Objective| o@)[0] == current@);
    match db.get(current.id.as_str()) {
        Some(hints) => {
            let tier_idx: usize = if available_tier > 3 { 3 } else { available_tier as usize } - 1;
            hint_text.0 = hints[tier_idx].clone();
        },
        None => {
            hint_text.0 = String::new();
        },
    }
}

/// Law: at tiers 1 to 3 the first active objective's hint of that tier is
/// shown (its text at index tier - 1), and tiers above 3 show the last;
/// nothing is shown at tier 0 or without an active objective or hints for
/// it. With the tier taken from the reached thresholds, the highest
/// threshold reached (index k) picks the hint at index k.
pub proof fn law_hint_tier_text(tier: u8, act: Seq<ObjectiveView>, entries: Seq<HintEntry>, reached: [bool; 3], k: int)
    ensures
        (1 <= tier <= 3 && act.len() > 0 && lookup(entries, act[0].id) is Some) ==> hint_shown(tier, act, entries)
            == lookup(entries, act[0].id).unwrap()[tier - 1],
        (tier > 3 && act.len() > 0 && lookup(entries, act[0].id) is Some) ==> hint_shown(tier, act, entries)
            == lookup(entries, act[0].id).unwrap()[2],
        (tier == 0 || act.len() == 0 || lookup(entries, act[0].id) is None) ==> hint_shown(tier, act, entries)
            == Seq::<char>::empty(),
        (0 <= k < 3 && reached[k] && (forall|j: int| k < j < 3 ==> !reached[j]) && act.len() > 0 && lookup(
            entries,
            act[0].id,
        ) is Some) ==> hint_shown(tier_of(reached), act, entries) == lookup(entries, act[0].id).unwrap()[k],
        (!reached[0] && !reached[1] && !reached[2]) ==> tier_of(reached) == 0,
{
    if 0 <= k < 3 && reached[k] && (forall|j: int| k < j < 3 ==> !reached[j]) {
        if k == 0 {
            assert(!reached[1] && !reached[2]);
        } else if k == 1 {
            assert(!reached[2]);
        }
    }
}

} // verus!
