//! Camera navigation state: the current camera spot, the history of spots
//! for going back, and whether a camera move is under way.
use vstd::prelude::*;
use crate::seqs::{first_index, lemma_first_index_is, lemma_first_index_none};
use crate::text::{str_views, opt_view};

verus! {

/// Tracks camera navigation state.
#[derive(Debug)]
pub struct CameraController {
    /// Stack of visited spot names for back-navigation.
    pub history: Vec<String>,
    /// Name of the current camera spot.
    pub current_spot: Option<String>,
    /// True while a camera transition is in progress.
    pub transitioning: bool,
}

/// The mathematical content of a `CameraController`.
pub struct CameraView {
    pub history: Seq<Seq<char>>,
    pub current_spot: Option<Seq<char>>,
    pub transitioning: bool,
}

impl View for CameraController {
    type V = CameraView;

    open spec fn view(&self) -> CameraView {
        CameraView {
            history: str_views(self.history@),
            current_spot: opt_view(self.current_spot),
            transitioning: self.transitioning,
        }
    }
}

/// The camera after moving to `spot`: the current spot (if any) is pushed
/// on the history, and a transition starts.
pub open spec fn moved_to(c: CameraView, spot: Seq<char>) -> CameraView {
    CameraView {
        history: match c.current_spot {
            Some(cur) => c.history.push(cur),
            None => c.history,
        },
        current_spot: Some(spot),
        transitioning: true,
    }
}

/// The camera after going back: the last spot of the history becomes the
/// current one and a transition starts; unchanged with an empty history.
pub open spec fn moved_back(c: CameraView) -> CameraView {
    if c.history.len() == 0 {
        c
    } else {
        CameraView { history: c.history.drop_last(), current_spot: Some(c.history.last()), transitioning: true }
    }
}

/// Predicate: the spot name equals `name`.
pub open spec fn named(name: Seq<char>) -> spec_fn(Seq<char>) -> bool {
    |s: Seq<char>| s == name
}

impl Default for CameraController {
    fn default() -> (r: Self)
        ensures
            r@.history.len() == 0,
            r@.current_spot is None,
            !r@.transitioning,
    {
        CameraController { history: Vec::new(), current_spot: None, transitioning: false }
    }
}

impl CameraController {
    /// Moves to `spot_name`, remembering the current spot for going back.
    pub fn navigate_to(&mut self, spot_name: &str)
        ensures
            final(self)@ == moved_to(old(self)@, spot_name@),
    {
        let ghost before = self.history@;
        match &self.current_spot {
            Some(current) => {
                let c = current.clone();
                self.history.push(c);
                assert(str_views(self.history@) =~= str_views(before).push(c@));
            },
            None => {},
        }
        self.current_spot = Some(spot_name.to_owned());
        self.transitioning = true;
    }

    /// Goes back to the last remembered spot and returns it, or returns
    /// `None` (changing nothing) when there is none.
    pub fn navigate_back(&mut self) -> (r: Option<String>)
        ensures
            final(self)@ == moved_back(old(self)@),
            opt_view(r) == (if old(self)@.history.len() == 0 {
                None
            } else {
                Some(old(self)@.history.last())
            }),
    {
        let ghost before = self.history@;
        match self.history.pop() {
            Some(previous) => {
                assert(str_views(self.history@) =~= str_views(before).drop_last());
                self.current_spot = Some(previous.clone());
                self.transitioning = true;
                Some(previous)
            },
            None => None,
        }
    }

    /// Whether there is a spot to go back to.
    pub fn can_go_back(&self) -> (r: bool)
        ensures
            r == (self@.history.len() > 0),
    {
        !self.history.is_empty()
    }
}

/// Index of the first camera spot named `name` among `spots`.
pub fn find_spot_by_name(spots: &Vec<String>, name: &str) -> (r: Option<usize>)
    ensures
        match r {
            Some(k) => k < spots@.len() && k as int == first_index(str_views(spots@), named(name@)),
            None => first_index(str_views(spots@), named(name@)) == -1,
        },
{
    let key = name.to_owned();
    let mut i: usize = 0;
    while i < spots.len()
        invariant
            i <= spots@.len(),
            key@ == name@,
            forall|j: int| 0 <= j < i ==> !named(name@)(#[trigger] str_views(spots@)[j]),
        decreases spots@.len() - i,
    {
        if spots[i] == key {
            proof {
                lemma_first_index_is(str_views(spots@), named(name@), i as int);
            }
            return Some(i);
        }
        i = i + 1;
    }
    proof {
        lemma_first_index_none(str_views(spots@), named(name@));
    }
    None
}

/// Ends the camera transition once the camera has no running tween.
pub fn detect_tween_complete(controller: &mut CameraController, tween_finished: bool)
    ensures
        final(controller).history@ == old(controller).history@,
        final(controller).current_spot == old(controller).current_spot,
        final(controller).transitioning == (old(controller).transitioning && !tween_finished),
{
    if controller.transitioning && tween_finished {
        controller.transitioning = false;
    }
}

/// Law: going back right after moving to a spot returns to the spot the
/// camera was at, with the history as it was.
pub proof fn law_back_undoes_navigate(c: CameraView, spot: Seq<char>)
    requires
        c.current_spot is Some,
    ensures
        moved_back(moved_to(c, spot)).history == c.history,
        moved_back(moved_to(c, spot)).current_spot == c.current_spot,
        moved_to(c, spot).history.last() == c.current_spot.unwrap(),
{
    assert(moved_to(c, spot).history.drop_last() =~= c.history);
}

} // verus!
