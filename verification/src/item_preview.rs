//! Inventory preview pictures: which items still need one, and the slot
//! each new preview is rendered at.
use vstd::prelude::*;
use crate::text::str_views;

verus! {

/// Requests a preview picture for an item that was not picked up from the
/// scene (such as a combination result).
#[derive(Debug, Clone)]
pub struct PreviewRequested {
    pub item_id: String,
    pub name: String,
}


/// The previews to create for the requested item ids, in order: an id that
/// already has a preview (or was planned earlier in the list) is skipped;
/// each new one takes the next slot. Returns the planned (id, slot) pairs
/// and the next free slot.
pub open spec fn planned_previews(existing: Seq<Seq<char>>, requested: Seq<Seq<char>>, next_slot: int) -> (Seq<(Seq<char>, int)>, int)
    decreases requested.len(),
{
    if requested.len() == 0 {
        (Seq::empty(), next_slot)
    } else {
        let (plan, slot) = planned_previews(existing, requested.drop_last(), next_slot);
        let id = requested.last();
        if existing.contains(id) || plan.map_values(|p: (Seq<char>, int)| p.0).contains(id) {
            (plan, slot)
        } else {
            (plan.push((id, slot)), slot + 1)
        }
    }
}

/// The ids a plan picks do not depend on the first slot, and the next free
/// slot is the first slot plus the number of new previews.
proof fn lemma_planned_shift(existing: Seq<Seq<char>>, requested: Seq<Seq<char>>, next_slot: int)
    ensures
        planned_previews(existing, requested, next_slot).0.map_values(|p: (Seq<char>, int)| p.0)
            == planned_previews(existing, requested, 0).0.map_values(|p: (Seq<char>, int)| p.0),
        planned_previews(existing, requested, next_slot).1 == next_slot + planned_previews(existing, requested, 0).1,
        0 <= planned_previews(existing, requested, 0).1 <= requested.len(),
    decreases requested.len(),
{
    if requested.len() > 0 {
        let init = requested.drop_last();
        lemma_planned_shift(existing, init, next_slot);
        let (ps, ss) = planned_previews(existing, init, next_slot);
        let (pz, sz) = planned_previews(existing, init, 0);
        let id = requested.last();
        assert(ps.push((id, ss)).map_values(|p: (Seq<char>, int)| p.0) =~= ps.map_values(|p: (Seq<char>, int)| p.0).push(id));
        assert(pz.push((id, sz)).map_values(|p: (Seq<char>, int)| p.0) =~= pz.map_values(|p: (Seq<char>, int)| p.0).push(id));
    }
}

/// Planning a prefix of the requests never goes past the slot that planning
/// all of them reaches.
proof fn lemma_planned_prefix(existing: Seq<Seq<char>>, requested: Seq<Seq<char>>, next_slot: int, n: int)
    requires
        0 <= n <= requested.len(),
    ensures
        planned_previews(existing, requested.take(n), next_slot).1 <= planned_previews(existing, requested, next_slot).1,
    decreases requested.len(),
{
    if n < requested.len() {
        assert(requested.drop_last().take(n) =~= requested.take(n));
        lemma_planned_prefix(existing, requested.drop_last(), next_slot, n);
    } else {
        assert(requested.take(n) =~= requested);
    }
}

/// Whether `v` contains a string with the characters of `s`.
fn contains_str(v: &Vec<String>, s: &String) -> (r: bool)
    ensures
        r == str_views(v@).contains(s@),
{
    let mut i: usize = 0;
    while i < v.len()
        invariant
            i <= v@.len(),
            forall|j: int| 0 <= j < i ==> #[trigger] str_views(v@)[j] != s@,
        decreases v@.len() - i,
    {
        if v[i] == *s {
            assert(str_views(v@)[i as int] == s@);
            return true;
        }
        i = i + 1;
    }
    false
}

/// Plans the previews to create for the requested item ids (`existing`
/// lists the ids that have one) and advances `next_slot` past the slots
/// taken.
pub fn plan_previews(existing: &Vec<String>, requested: &Vec<String>, next_slot: &mut usize) -> (r: Vec<(String, usize)>)
    requires
        planned_previews(str_views(existing@), str_views(requested@), *old(next_slot) as int).1 <= usize::MAX,
    ensures
        ({
            let (plan, slot) = planned_previews(str_views(existing@), str_views(requested@), *old(next_slot) as int);
            &&& r@.map_values(|p: (String, usize)| (p.0@, p.1 as int)) == plan
            &&& *final(next_slot) as int == slot
        }),
{
    let ghost ex = str_views(existing@);
    let ghost rq = str_views(requested@);
    let ghost start = *next_slot as int;
    let mut r: Vec<(String, usize)> = Vec::new();
    let mut planned_ids: Vec<String> = Vec::new();
    let mut i: usize = 0;
    while i < requested.len()
        invariant
            i <= requested@.len(),
            ex == str_views(existing@),
            rq == str_views(requested@),
            start == *old(next_slot) as int,
            planned_previews(ex, rq, start).1 <= usize::MAX,
            r@.len() <= i,
            *next_slot as int == start + r@.len(),
            str_views(planned_ids@) == r@.map_values(|p: (String, usize)| p.0@),
            ({
                let (plan, slot) = planned_previews(ex, rq.take(i as int), start);
                r@.map_values(|p: (String, usize)| (p.0@, p.1 as int)) == plan && *next_slot as int == slot
            }),
        decreases requested@.len() - i,
    {
        let id = &requested[i];
        assert(rq.take(i + 1).drop_last() =~= rq.take(i as int));
        assert(rq.take(i + 1).last() == id@);
        let ghost before = r@;
        let ghost before_ids = planned_ids@;
        let ghost plan0 = planned_previews(ex, rq.take(i as int), start).0;
        assert(plan0.map_values(|p: (Seq<char>, int)| p.0) =~= r@.map_values(|p: (String, usize)| p.0@));
        let skip = contains_str(existing, id) || contains_str(&planned_ids, id);
        if !skip {
            proof {
                lemma_planned_prefix(ex, rq, start, i + 1);
            }
            let slot = *next_slot;
            r.push((id.clone(), slot));
            planned_ids.push(id.clone());
            *next_slot = slot + 1;
            assert(r@.map_values(|p: (String, usize)| (p.0@, p.1 as int)) =~= before.map_values(
                |p: (String, usize)| (p.0@, p.1 as int),
            ).push((id@, slot as int)));
            assert(str_views(planned_ids@) =~= str_views(before_ids).push(id@));
            assert(r@.map_values(|p: (String, usize)| p.0@) =~= before.map_values(|p: (String, usize)| p.0@).push(id@));
        }
        i = i + 1;
    }
    assert(rq.take(i as int) =~= rq);
    r
}

/// Whether planning previews for `requested` from `next_slot` keeps every
/// slot within `usize`.
pub fn previews_fit(existing: &Vec<String>, requested: &Vec<String>, next_slot: usize) -> (r: bool)
    ensures
        r == (planned_previews(str_views(existing@), str_views(requested@), next_slot as int).1 <= usize::MAX),
{
    let n = requested.len();
    proof {
        lemma_planned_shift(str_views(existing@), str_views(requested@), next_slot as int);
    }
    let mut new_count: usize = 0;
    let _plan = plan_previews(existing, requested, &mut new_count);
    new_count <= usize::MAX - next_slot
}

} // verus!
