//! What a click or a confirm on an object does, and the interaction state
//! around it: the play state, the feedback line, and the messages fired.
use vstd::prelude::*;
use crate::camera::{CameraController, CameraView, moved_to, named, find_spot_by_name};
use crate::components::{Clickable, InventoryItem, NavigatesTo, ObjectState, RequiresItem};
use crate::inventory::{Inventory, holds};
use crate::navigation::Portal;
use crate::seqs::first_index;
use crate::text::{join3, str_views};
use crate::input::InputIntent;
use crate::navigation::{RoomRegistry, CurrentRoom, room_pos};

verus! {

/// Current player interaction state. An examined object is named by its
/// entity id.
#[derive(Debug, Clone, Copy, PartialEq, Eq, Structural)]
pub enum PlayState {
    Exploring,
    Examining(u64),
    Transitioning,
}

impl Default for PlayState {
    fn default() -> (r: Self)
        ensures
            r == PlayState::Exploring,
    {
        PlayState::Exploring
    }
}

/// The last interaction feedback message, displayed in the UI.
#[derive(Debug)]
pub struct FeedbackText(pub String);

impl Default for FeedbackText {
    fn default() -> (r: Self)
        ensures
            r.0@ == Seq::<char>::empty(),
    {
        FeedbackText(String::new())
    }
}

/// Fired when the player navigates to a camera spot.
#[derive(Debug, Clone)]
pub struct PlayerNavigated {
    pub spot_name: String,
}

/// Fired when the player wins the game.
#[derive(Debug, Clone, Copy)]
pub struct GameWon;

/// Fired when the player is permanently stuck (no portal, failed interaction).
#[derive(Debug, Clone, Copy)]
pub struct GameOver;

/// What the clicked (or keyboard-confirmed) entity carries.
#[derive(Debug, Clone)]
pub struct ClickTarget {
    pub entity: u64,
    pub clickable: Clickable,
    pub navigates_to: Option<NavigatesTo>,
    pub inventory_item: Option<InventoryItem>,
    pub portal: Option<Portal>,
    pub required_item: Option<RequiresItem>,
    pub state: Option<ObjectState>,
}

/// What a click does beyond the feedback line, the camera and the play
/// state, for the caller to carry out on the scene.
#[derive(Debug, Clone, Copy, PartialEq, Eq, Structural)]
pub enum ClickEffect {
    /// The click is not handled (the UI took it, or nothing was confirmed).
    Ignored,
    /// Only the feedback line changes.
    Feedback,
    /// Start the approach to the target's portal.
    ApproachPortal,
    /// Pick up the target's inventory item, and hide the target.
    PickUp,
    /// Unlock the target; complete its required item's objective when it names one.
    Unlock { completes_objective: bool },
    /// The player wins.
    Win,
    /// Open the target and reveal what it contains.
    Open,
    /// Close the target and hide what it contains.
    Close,
    /// Move the camera to the camera spot with this index.
    Navigate(usize),
    /// The player examines the target.
    Examine,
}

/// Whether the player holds the item that the target requires.
pub open spec fn holds_required(t: ClickTarget, inv: Inventory) -> bool {
    t.required_item matches Some(req) && holds(inv.items_view(), req.item_id@)
}

/// Index of the camera spot the target navigates to among `spots`, or -1
/// when it names none, the spot is absent or the camera is unavailable.
pub open spec fn nav_spot(t: ClickTarget, spots: Seq<String>, camera_available: bool) -> int {
    match t.navigates_to {
        Some(n) => if camera_available {
            first_index(str_views(spots), named(n.spot_name@))
        } else {
            -1
        },
        None => -1,
    }
}

/// The effect of clicking the target: nothing when the UI took the click;
/// only a feedback line while the camera moves; otherwise portals, then
/// items, then stateful objects (locked, unlocked, closed, open), then
/// navigation, else examine.
pub open spec fn click_effect(t: ClickTarget, ui_busy: bool, moving: bool, holds_req: bool, spot: int) -> ClickEffect {
    if ui_busy {
        ClickEffect::Ignored
    } else if moving {
        ClickEffect::Feedback
    } else if t.portal is Some {
        ClickEffect::ApproachPortal
    } else if t.inventory_item is Some {
        ClickEffect::PickUp
    } else if t.state is Some {
        match t.state.unwrap() {
            ObjectState::Locked => match t.required_item {
                Some(req) => if holds_req {
                    ClickEffect::Unlock { completes_objective: req.completes_objective@.len() > 0 }
                } else {
                    ClickEffect::Feedback
                },
                None => ClickEffect::Feedback,
            },
            ObjectState::Unlocked => ClickEffect::Win,
            ObjectState::Closed => ClickEffect::Open,
            ObjectState::Open => ClickEffect::Close,
            _ => ClickEffect::Feedback,
        }
    } else if t.navigates_to is Some {
        if spot >= 0 {
            ClickEffect::Navigate(spot as usize)
        } else {
            ClickEffect::Feedback
        }
    } else {
        ClickEffect::Examine
    }
}

/// The feedback line after clicking the target: unchanged when the UI took
/// the click; the target's description while the camera moves.
pub open spec fn click_feedback(t: ClickTarget, ui_busy: bool, moving: bool, holds_req: bool, old_text: Seq<char>) -> Seq<char> {
    if ui_busy {
        old_text
    } else if moving {
        t.clickable.description@
    } else if t.portal is Some {
        t.clickable.description@
    } else if t.inventory_item is Some {
        "You pick up the "@ + t.inventory_item.unwrap().name@ + "."@
    } else if t.state is Some {
        match t.state.unwrap() {
            ObjectState::Locked => match t.required_item {
                Some(req) => if holds_req {
                    req.use_message@
                } else {
                    req.fail_message@
                },
                None => t.clickable.description@,
            },
            ObjectState::Unlocked => "You step through the door into the light."@,
            ObjectState::Closed => "You open it."@,
            ObjectState::Open => "You close it."@,
            _ => t.clickable.description@,
        }
    } else {
        t.clickable.description@
    }
}

/// The feedback line, camera and play state after an effect that moves the
/// camera or starts examining; other effects leave camera and play state.
pub open spec fn camera_after(t: ClickTarget, effect: ClickEffect, c: CameraView) -> CameraView {
    match effect {
        ClickEffect::Navigate(_) => moved_to(c, t.navigates_to.unwrap().spot_name@),
        _ => c,
    }
}

/// The play state after the effect.
pub open spec fn play_after(t: ClickTarget, effect: ClickEffect, p: PlayState) -> PlayState {
    match effect {
        ClickEffect::Navigate(_) => PlayState::Transitioning,
        ClickEffect::Examine => PlayState::Examining(t.entity),
        _ => p,
    }
}

/// Decides what a pointer click on `target` does and updates the feedback
/// line, camera and play state. Clicks are ignored while the UI wants the
/// pointer; while the camera is moving a click only answers with the
/// target's description. `spots` are the camera spots present in the scene;
/// `camera_available` tells whether the player camera exists.
pub fn on_click(
    ui_wants_pointer: bool,
    target: &ClickTarget,
    spots: &Vec<String>,
    camera_available: bool,
    inv: &Inventory,
    play_state: &mut PlayState,
    feedback: &mut FeedbackText,
    camera_ctrl: &mut CameraController,
) -> (r: ClickEffect)
    ensures
        ({
            let moving = old(camera_ctrl).transitioning || *old(play_state) == PlayState::Transitioning;
            let holds_req = holds_required(*target, *inv);
            &&& r == click_effect(*target, ui_wants_pointer, moving, holds_req, nav_spot(*target, spots@, camera_available))
            &&& final(feedback).0@ == click_feedback(*target, ui_wants_pointer, moving, holds_req, old(feedback).0@)
            &&& final(camera_ctrl)@ == camera_after(*target, r, old(camera_ctrl)@)
            &&& *final(play_state) == play_after(*target, r, *old(play_state))
        }),
{
    if ui_wants_pointer {
        return ClickEffect::Ignored;
    }
    if camera_ctrl.transitioning || *play_state == PlayState::Transitioning {
        feedback.0 = target.clickable.description.clone();
        return ClickEffect::Feedback;
    }
    if target.portal.is_some() {
        feedback.0 = target.clickable.description.clone();
        return ClickEffect::ApproachPortal;
    }
    if let Some(item) = &target.inventory_item {
        feedback.0 = join3("You pick up the ", item.name.as_str(), ".");
        return ClickEffect::PickUp;
    }
    if let Some(state) = target.state {
        match state {
            ObjectState::Locked => {
                match &target.required_item {
                    Some(req) => {
                        if inv.has_item(req.item_id.as_str()) {
                            feedback.0 = req.use_message.clone();
                            return ClickEffect::Unlock { completes_objective: !req.completes_objective.as_str().is_empty() };
                        } else {
                            feedback.0 = req.fail_message.clone();
                            return ClickEffect::Feedback;
                        }
                    },
                    None => {
                        feedback.0 = target.clickable.description.clone();
                        return ClickEffect::Feedback;
                    },
                }
            },
            ObjectState::Unlocked => {
                feedback.0 = String::from_str("You step through the door into the light.");
                return ClickEffect::Win;
            },
            ObjectState::Closed => {
                feedback.0 = String::from_str("You open it.");
                return ClickEffect::Open;
            },
            ObjectState::Open => {
                feedback.0 = String::from_str("You close it.");
                return ClickEffect::Close;
            },
            _ => {
                feedback.0 = target.clickable.description.clone();
                return ClickEffect::Feedback;
            },
        }
    }
    feedback.0 = target.clickable.description.clone();
    match &target.navigates_to {
        Some(nav) => {
            if !camera_available {
                return ClickEffect::Feedback;
            }
            match find_spot_by_name(spots, nav.spot_name.as_str()) {
                Some(k) => {
                    camera_ctrl.navigate_to(nav.spot_name.as_str());
                    *play_state = PlayState::Transitioning;
                    ClickEffect::Navigate(k)
                },
                None => ClickEffect::Feedback,
            }
        },
        None => {
            *play_state = PlayState::Examining(target.entity);
            ClickEffect::Examine
        },
    }
}

/// Whether this frame's intents include a confirm.
pub open spec fn has_intent(intents: Seq<InputIntent>, which: InputIntent) -> bool {
    exists|i: int| 0 <= i < intents.len() && #[trigger] intents[i] == which
}

/// Whether `intents` contains `which`.
pub fn contains_intent(intents: &Vec<InputIntent>, which: InputIntent) -> (r: bool)
    ensures
        r == has_intent(intents@, which),
{
    let mut i: usize = 0;
    while i < intents.len()
        invariant
            i <= intents@.len(),
            forall|j: int| 0 <= j < i ==> #[trigger] intents@[j] != which,
        decreases intents@.len() - i,
    {
        if intents[i] == which {
            return true;
        }
        i = i + 1;
    }
    false
}

/// Confirms the action on the keyboard-focused target (Enter, dwell-click):
/// the same effect as clicking it. Nothing happens without a confirm intent
/// or without a focused clickable target (`focused` is `None`).
pub fn handle_confirm_intent(
    intents: &Vec<InputIntent>,
    focused: Option<&ClickTarget>,
    spots: &Vec<String>,
    camera_available: bool,
    inv: &Inventory,
    play_state: &mut PlayState,
    feedback: &mut FeedbackText,
    camera_ctrl: &mut CameraController,
) -> (r: ClickEffect)
    ensures
        (!has_intent(intents@, InputIntent::ConfirmFocused) || focused is None) ==> (r == ClickEffect::Ignored
            && final(feedback).0@ == old(feedback).0@ && final(camera_ctrl)@ == old(camera_ctrl)@ && *final(play_state)
            == *old(play_state)),
        (has_intent(intents@, InputIntent::ConfirmFocused) && focused is Some) ==> ({
            let t = *focused.unwrap();
            let moving = old(camera_ctrl).transitioning || *old(play_state) == PlayState::Transitioning;
            let holds_req = holds_required(t, *inv);
            &&& r == click_effect(t, false, moving, holds_req, nav_spot(t, spots@, camera_available))
            &&& final(feedback).0@ == click_feedback(t, false, moving, holds_req, old(feedback).0@)
            &&& final(camera_ctrl)@ == camera_after(t, r, old(camera_ctrl)@)
            &&& *final(play_state) == play_after(t, r, *old(play_state))
        }),
{
    if !contains_intent(intents, InputIntent::ConfirmFocused) {
        return ClickEffect::Ignored;
    }
    match focused {
        Some(target) => on_click(false, target, spots, camera_available, inv, play_state, feedback, camera_ctrl),
        None => ClickEffect::Ignored,
    }
}

/// Ends the transitioning play state once the camera has stopped moving.
pub fn finish_transition(play_state: &mut PlayState, camera_ctrl: &CameraController)
    ensures
        *final(play_state) == (if *old(play_state) == PlayState::Transitioning && !camera_ctrl.transitioning {
            PlayState::Exploring
        } else {
            *old(play_state)
        }),
{
    if *play_state == PlayState::Transitioning && !camera_ctrl.transitioning {
        *play_state = PlayState::Exploring;
    }
}

/// Goes back to the previous camera spot on a cancel intent, when the camera
/// is idle and has a spot to go back to. Going back updates the camera
/// first; when the player camera or the spot is then missing (`spots` are
/// the spots present), nothing else happens. Otherwise the play state turns
/// to transitioning, the feedback reads "You step back.", and the index of
/// the spot to move to is returned.
pub fn handle_back_navigation(
    intents: &Vec<InputIntent>,
    spots: &Vec<String>,
    camera_available: bool,
    play_state: &mut PlayState,
    camera_ctrl: &mut CameraController,
    feedback: &mut FeedbackText,
) -> (r: Option<usize>)
    ensures
        ({
            let go = has_intent(intents@, InputIntent::CancelOrBack) && !old(camera_ctrl).transitioning
                && old(camera_ctrl)@.history.len() > 0;
            let target = old(camera_ctrl)@.history.last();
            let spot = if camera_available { first_index(str_views(spots@), named(target)) } else { -1 };
            &&& !go ==> (r is None && final(camera_ctrl)@ == old(camera_ctrl)@ && *final(play_state) == *old(play_state)
                && final(feedback).0@ == old(feedback).0@)
            &&& go ==> final(camera_ctrl)@ == crate::camera::moved_back(old(camera_ctrl)@)
            &&& (go && spot < 0) ==> (r is None && *final(play_state) == *old(play_state) && final(feedback).0@
                == old(feedback).0@)
            &&& (go && spot >= 0) ==> (r == Some(spot as usize) && *final(play_state) == PlayState::Transitioning
                && final(feedback).0@ == "You step back."@)
        }),
{
    let has_back = contains_intent(intents, InputIntent::CancelOrBack);
    if !has_back || camera_ctrl.transitioning || !camera_ctrl.can_go_back() {
        return None;
    }
    let target = match camera_ctrl.navigate_back() {
        Some(t) => t,
        None => return None,
    };
    if !camera_available {
        return None;
    }
    let k = match find_spot_by_name(spots, target.as_str()) {
        Some(k) => k,
        None => return None,
    };
    *play_state = PlayState::Transitioning;
    feedback.0 = String::from_str("You step back.");
    Some(k)
}

/// The spot a room is entered at: the registry's starting spot for the
/// current room, or "room_overview".
pub open spec fn center_spot(registry: RoomRegistry, room: Seq<char>) -> Seq<char> {
    let p = room_pos(registry.view_rooms(), room);
    if p >= 0 && registry.view_rooms()[p].3 is Some {
        registry.view_rooms()[p].3.unwrap()
    } else {
        "room_overview"@
    }
}

/// Returns the camera to the current room's starting spot on a
/// return-to-center intent, when the camera is idle and not already there,
/// and the player camera and that spot exist: the history is cleared, the
/// play state turns to transitioning and the feedback reads "You look around
/// the room."; returns the index of the spot to move to. Otherwise nothing
/// changes.
pub fn handle_return_to_center(
    intents: &Vec<InputIntent>,
    spots: &Vec<String>,
    camera_available: bool,
    registry: &RoomRegistry,
    current_room: &CurrentRoom,
    play_state: &mut PlayState,
    camera_ctrl: &mut CameraController,
    feedback: &mut FeedbackText,
) -> (r: Option<usize>)
    ensures
        ({
            let center = center_spot(*registry, current_room.name@);
            let spot = if camera_available { first_index(str_views(spots@), named(center)) } else { -1 };
            let go = has_intent(intents@, InputIntent::ReturnToCenter) && !old(camera_ctrl).transitioning
                && old(camera_ctrl)@.current_spot != Some(center) && spot >= 0;
            &&& !go ==> (r is None && final(camera_ctrl)@ == old(camera_ctrl)@ && *final(play_state) == *old(play_state)
                && final(feedback).0@ == old(feedback).0@)
            &&& go ==> (r == Some(spot as usize) && final(camera_ctrl)@ == (CameraView {
                history: Seq::empty(),
                current_spot: Some(center),
                transitioning: old(camera_ctrl).transitioning,
            }) && *final(play_state) == PlayState::Transitioning && final(feedback).0@ == "You look around the room."@)
        }),
{
    let has_center = contains_intent(intents, InputIntent::ReturnToCenter);
    if !has_center || camera_ctrl.transitioning {
        return None;
    }
    let starting = match registry.starting_spot(current_room.name.as_str()) {
        Some(s) => s,
        None => "room_overview",
    };
    let at_center = match &camera_ctrl.current_spot {
        Some(cur) => *cur == starting.to_owned(),
        None => false,
    };
    if at_center {
        return None;
    }
    if !camera_available {
        return None;
    }
    let k = match find_spot_by_name(spots, starting) {
        Some(k) => k,
        None => return None,
    };
    camera_ctrl.history.clear();
    camera_ctrl.current_spot = Some(starting.to_owned());
    assert(str_views(camera_ctrl.history@) =~= Seq::<Seq<char>>::empty());
    *play_state = PlayState::Transitioning;
    feedback.0 = String::from_str("You look around the room.");
    Some(k)
}

/// Whether `feedback` reports failing to use a required item that the
/// player still lacks.
pub open spec fn is_failed_use(feedback: Seq<char>, required: Seq<RequiresItem>, inv: Inventory) -> bool {
    exists|i: int|
        0 <= i < required.len() && feedback == #[trigger] required[i].fail_message@ && !holds(
            inv.items_view(),
            required[i].item_id@,
        )
}

/// Detects the stuck state: the feedback line has just changed to the fail
/// message of a required item the player lacks, and the room has no portal
/// to leave by. Returns whether the game is over.
pub fn check_stuck(
    feedback_changed: bool,
    feedback: &FeedbackText,
    required: &Vec<RequiresItem>,
    inv: &Inventory,
    any_portal: bool,
) -> (r: bool)
    ensures
        r == (feedback_changed && feedback.0@.len() > 0 && is_failed_use(feedback.0@, required@, *inv) && !any_portal),
{
    if !feedback_changed || feedback.0.as_str().is_empty() {
        return false;
    }
    let mut is_fail = false;
    let mut i: usize = 0;
    while i < required.len()
        invariant
            i <= required@.len(),
            is_fail == (exists|j: int|
                0 <= j < i && feedback.0@ == #[trigger] required@[j].fail_message@ && !holds(
                    inv.items_view(),
                    required@[j].item_id@,
                )),
        decreases required@.len() - i,
    {
        let req = &required[i];
        if feedback.0 == req.fail_message && !inv.has_item(req.item_id.as_str()) {
            is_fail = true;
        }
        i = i + 1;
    }
    is_fail && !any_portal
}

/// Law: every click that the UI did not take (moving camera or not) is
/// answered with its own feedback line: the line it leaves does not depend
/// on the line shown before.
pub proof fn law_click_always_responds(
    t: ClickTarget,
    moving: bool,
    holds_req: bool,
    spot: int,
    before: Seq<char>,
    other: Seq<char>,
)
    ensures
        click_effect(t, false, moving, holds_req, spot) != ClickEffect::Ignored,
        click_feedback(t, false, moving, holds_req, before) == click_feedback(t, false, moving, holds_req, other),
{
}

/// Law: what a click (or a confirm) on an object does, by what the object
/// carries, when the UI did not take it and the camera is still: a portal
/// is approached with its description; an item is picked up ("You pick up
/// the <name>."); a locked object whose required item the player holds is
/// unlocked with the use message (whether or not it completes an
/// objective), and otherwise answers with the fail message; an unlocked
/// door wins; a closed object opens ("You open it.") and an open one
/// closes ("You close it."); an object that only navigates moves the
/// camera to its spot when the spot is there; a plain object is examined;
/// anything else (a locked object needing nothing, a default or collected
/// one, a missing spot) only answers with its description.
pub proof fn law_click_decisions(t: ClickTarget, inv: Inventory, spot: int, before: Seq<char>, c: CameraView, p: PlayState)
    ensures
        ({
            let hr = holds_required(t, inv);
            let e = click_effect(t, false, false, hr, spot);
            let f = click_feedback(t, false, false, hr, before);
            &&& t.portal is Some ==> e == ClickEffect::ApproachPortal && f == t.clickable.description@
            &&& (t.portal is None && t.inventory_item is Some) ==> e == ClickEffect::PickUp && f == "You pick up the "@
                + t.inventory_item.unwrap().name@ + "."@
            &&& (t.portal is None && t.inventory_item is None && t.state == Some(ObjectState::Locked)
                && t.required_item is Some) ==> ({
                let req = t.required_item.unwrap();
                &&& holds(inv.items_view(), req.item_id@) ==> e == (ClickEffect::Unlock {
                    completes_objective: req.completes_objective@.len() > 0,
                }) && f == req.use_message@
                &&& !holds(inv.items_view(), req.item_id@) ==> e == ClickEffect::Feedback && f == req.fail_message@
            })
            &&& (t.portal is None && t.inventory_item is None && t.state == Some(ObjectState::Unlocked)) ==> e
                == ClickEffect::Win && f == "You step through the door into the light."@
            &&& (t.portal is None && t.inventory_item is None && t.state == Some(ObjectState::Closed)) ==> e
                == ClickEffect::Open && f == "You open it."@
            &&& (t.portal is None && t.inventory_item is None && t.state == Some(ObjectState::Open)) ==> e
                == ClickEffect::Close && f == "You close it."@
            &&& (t.portal is None && t.inventory_item is None && t.state is None && t.navigates_to is Some && spot >= 0)
                ==> e == ClickEffect::Navigate(spot as usize) && f == t.clickable.description@ && camera_after(t, e, c)
                == moved_to(c, t.navigates_to.unwrap().spot_name@) && play_after(t, e, p) == PlayState::Transitioning
            &&& (t.portal is None && t.inventory_item is None && ((t.state == Some(ObjectState::Locked)
                && t.required_item is None) || t.state == Some(ObjectState::Default) || t.state == Some(
                ObjectState::Collected) || (t.state is None && t.navigates_to is Some && spot < 0))) ==> e
                == ClickEffect::Feedback && f == t.clickable.description@ && camera_after(t, e, c) == c && play_after(t, e, p)
                == p
            &&& (t.portal is None && t.inventory_item is None && t.state is None && t.navigates_to is None) ==> e
                == ClickEffect::Examine && f == t.clickable.description@ && camera_after(t, e, c) == c && play_after(t, e, p)
                == PlayState::Examining(t.entity)
        }),
{
}

/// Law: while the camera moves, a click (or confirm) only answers with the
/// object's description, and leaves the camera and play state alone; a
/// click the UI took changes nothing.
pub proof fn law_click_while_busy(t: ClickTarget, hr: bool, spot: int, before: Seq<char>, c: CameraView, p: PlayState)
    ensures
        click_effect(t, false, true, hr, spot) == ClickEffect::Feedback,
        click_feedback(t, false, true, hr, before) == t.clickable.description@,
        camera_after(t, ClickEffect::Feedback, c) == c && play_after(t, ClickEffect::Feedback, p) == p,
        click_effect(t, true, true, hr, spot) == ClickEffect::Ignored && click_effect(t, true, false, hr, spot)
            == ClickEffect::Ignored,
        click_feedback(t, true, true, hr, before) == before && click_feedback(t, true, false, hr, before) == before,
{
}

} // verus!
