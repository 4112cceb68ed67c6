//! The game's UI text and restart: the inventory hint, the feedback line
//! shown while the camera moves, combining items from the inventory panel,
//! and resetting the game.
use vstd::prelude::*;
use crate::inventory::{Inventory, recipe_pos, can_combine, combined, removed, has_id};
use crate::seqs::lemma_first_index;
use crate::objectives::Objectives;
use crate::camera::{CameraController, CameraView};
use crate::navigation::RoomTransition;
use crate::interaction::FeedbackText;
use crate::text::{join3, str_views};
use crate::item_preview::PreviewRequested;
use crate::states::GameState;

verus! {

/// The hint under the inventory: empty pockets, one item, or how to combine.
pub fn inventory_hint(n_items: usize) -> (r: &'static str)
    ensures
        n_items == 0 ==> r@ == "Your pockets are empty."@,
        n_items == 1 ==> r@ == "1 item collected."@,
        n_items >= 2 ==> r@ == "Drag or click two items to combine."@,
{
    if n_items == 0 {
        "Your pockets are empty."
    } else if n_items >= 2 {
        "Drag or click two items to combine."
    } else {
        "1 item collected."
    }
}

/// The feedback line shown in the UI: "..." while the camera moves,
/// otherwise the latest feedback, keeping the shown line when the feedback
/// is empty.
pub fn sync_feedback(shown: &mut String, feedback: &FeedbackText, camera_ctrl: &CameraController)
    ensures
        camera_ctrl.transitioning ==> final(shown)@ == "..."@,
        !camera_ctrl.transitioning && feedback.0@.len() > 0 ==> final(shown)@ == feedback.0@,
        !camera_ctrl.transitioning && feedback.0@.len() == 0 ==> final(shown)@ == old(shown)@,
{
    if camera_ctrl.transitioning {
        *shown = String::from_str("...");
    } else if !feedback.0.as_str().is_empty() {
        *shown = feedback.0.clone();
    }
}

/// Combines two inventory items chosen in the inventory panel. On success
/// the feedback reads "You created a <result>!" and a preview is requested
/// for the last inventory item; otherwise the feedback reads "These don't
/// seem to work together." and nothing else changes.
pub fn combine_from_panel(inv: &mut Inventory, feedback: &mut FeedbackText, a: &str, b: &str) -> (r: Option<
    PreviewRequested,
>)
    requires
        recipe_pos(old(inv).combination_recipes@, a@, b@) >= 0 ==> can_combine(
            old(inv).items_view(),
            a@,
            b@,
            old(inv).combination_recipes@[recipe_pos(old(inv).combination_recipes@, a@, b@)],
        ),
    ensures
        final(inv).combination_recipes@ == old(inv).combination_recipes@,
        recipe_pos(old(inv).combination_recipes@, a@, b@) == -1 ==> ({
            &&& r is None
            &&& final(inv).items_view() == old(inv).items_view()
            &&& final(feedback).0@ == "These don't seem to work together."@
        }),
        recipe_pos(old(inv).combination_recipes@, a@, b@) >= 0 ==> ({
            let rc = old(inv).combination_recipes@[recipe_pos(old(inv).combination_recipes@, a@, b@)];
            let items = final(inv).items_view();
            &&& items == combined(old(inv).items_view(), a@, b@, rc)
            &&& final(feedback).0@ == "You created a "@ + rc.result_name@ + "!"@
            &&& items.len() > 0
            &&& r matches Some(p) && p.item_id@ == items.last().item_id && p.name@ == items.last().name
        }),
{
    let ghost before = inv.items_view();
    let ghost recipes = inv.combination_recipes@;
    match inv.combine(a, b) {
        Some(result_name) => {
            proof {
                let rc = recipes[recipe_pos(recipes, a@, b@)];
                lemma_first_index(removed(removed(before, a@), b@), has_id(rc.result_id@));
                assert(inv.items_view().len() > 0);
                assert(inv.items@.len() == inv.items_view().len());
            }
            feedback.0 = join3("You created a ", result_name.as_str(), "!");
            let n = inv.items.len();
            if n > 0 {
                let last = &inv.items[n - 1];
                assert(inv.items_view()[n - 1] == last@);
                Some(PreviewRequested { item_id: last.item_id.clone(), name: last.name.clone() })
            } else {
                None
            }
        },
        None => {
            feedback.0 = String::from_str("These don't seem to work together.");
            None
        },
    }
}

/// Resets the game for a restart: empty inventory and objectives, the
/// feedback "You look around the room.", the camera at "room_overview" with
/// no history and not moving. Returns the transition back to the study.
pub fn restart_game(
    inv: &mut Inventory,
    feedback: &mut FeedbackText,
    objectives: &mut Objectives,
    camera_ctrl: &mut CameraController,
) -> (r: RoomTransition)
    ensures
        final(inv).items@.len() == 0,
        final(inv).combination_recipes@ == old(inv).combination_recipes@,
        final(objectives).all@.len() == 0,
        final(feedback).0@ == "You look around the room."@,
        final(camera_ctrl)@ == (CameraView {
            history: Seq::empty(),
            current_spot: Some("room_overview"@),
            transitioning: false,
        }),
        r.target_room@ == "study"@,
        r.entry_spot@ == "room_overview"@,
{
    inv.items.clear();
    feedback.0 = String::from_str("You look around the room.");
    objectives.all.clear();
    camera_ctrl.history.clear();
    assert(str_views(camera_ctrl.history@) =~= Seq::<Seq<char>>::empty());
    camera_ctrl.current_spot = Some(String::from_str("room_overview"));
    camera_ctrl.transitioning = false;
    RoomTransition { target_room: String::from_str("study"), entry_spot: String::from_str("room_overview") }
}

/// What the overlay buttons pressed this frame ask for: the next game state
/// (the last request wins: resume, then start, then restart, then
/// continue), and whether to restart, save, or load.
#[derive(Debug, Clone, Copy, PartialEq, Eq, Structural)]
pub struct ButtonOutcome {
    pub next_state: Option<GameState>,
    pub restart: bool,
    pub save: bool,
    pub load: bool,
}

/// Decides what the overlay buttons pressed this frame do: "Resume" unpauses
/// a paused game, "Start" begins loading, any "Restart" resets the game and
/// returns to the title, "Save" saves, and "Continue" loads the save (and
/// begins loading).
pub fn ui_buttons(gs: GameState, resume: bool, start: bool, restart: bool, save: bool, cont: bool) -> (r: ButtonOutcome)
    ensures
        r.restart == restart,
        r.save == save,
        r.load == cont,
        r.next_state == (if cont {
            Some(GameState::Loading)
        } else if restart {
            Some(GameState::Title)
        } else if start {
            Some(GameState::Loading)
        } else if resume && gs == GameState::Paused {
            Some(GameState::Playing)
        } else {
            None
        }),
{
    let mut next: Option<GameState> = None;
    if resume && gs == GameState::Paused {
        next = Some(GameState::Playing);
    }
    if start {
        next = Some(GameState::Loading);
    }
    if restart {
        next = Some(GameState::Title);
    }
    if cont {
        next = Some(GameState::Loading);
    }
    ButtonOutcome { next_state: next, restart, save, load: cont }
}

} // verus!
