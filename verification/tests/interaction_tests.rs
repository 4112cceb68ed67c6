use litadventure::camera::CameraController;
use litadventure::components::{Clickable, InventoryItem, NavigatesTo, ObjectState, RequiresItem};
use litadventure::input::InputIntent;
use litadventure::interaction::{
    check_stuck, finish_transition, handle_back_navigation, handle_confirm_intent, handle_return_to_center, on_click,
    ClickEffect, ClickTarget, FeedbackText, PlayState,
};
use litadventure::inventory::Inventory;
use litadventure::navigation::{CurrentRoom, Portal, RoomRegistry};

#[test]
fn play_state_defaults_to_exploring() {
    assert_eq!(PlayState::default(), PlayState::Exploring);
}

#[test]
fn feedback_text_defaults_to_empty() {
    assert!(FeedbackText::default().0.is_empty());
}

#[test]
fn play_state_examining_holds_entity() {
    let entity: u64 = 42;
    assert_eq!(PlayState::Examining(entity), PlayState::Examining(entity));
}

fn target(entity: u64, description: &str) -> ClickTarget {
    ClickTarget {
        entity,
        clickable: Clickable { label: "L".into(), description: description.into() },
        navigates_to: None,
        inventory_item: None,
        portal: None,
        required_item: None,
        state: None,
    }
}

fn door() -> ClickTarget {
    let mut t = target(5, "A heavy door.");
    t.state = Some(ObjectState::Locked);
    t.required_item = Some(RequiresItem {
        item_id: "flashlight".into(),
        use_message: "You shine the light on the lock. It clicks open.".into(),
        fail_message: "It's too dark to see the lock clearly.".into(),
        completes_objective: "unlock_door".into(),
    });
    t
}

struct World {
    inv: Inventory,
    play: PlayState,
    fb: FeedbackText,
    cam: CameraController,
}

fn world() -> World {
    World { inv: Inventory::default(), play: PlayState::Exploring, fb: FeedbackText::default(), cam: CameraController::default() }
}

fn click(w: &mut World, t: &ClickTarget, spots: &Vec<String>) -> ClickEffect {
    on_click(false, t, spots, true, &w.inv, &mut w.play, &mut w.fb, &mut w.cam)
}

#[test]
fn click_portal_item_and_examine() {
    let mut w = world();
    let none = vec![];
    let mut p = target(1, "A door to the hallway.");
    p.portal = Some(Portal { target_room: "hallway".into(), entry_spot: "hallway_overview".into() });
    assert_eq!(click(&mut w, &p, &none), ClickEffect::ApproachPortal);
    assert_eq!(w.fb.0, "A door to the hallway.");

    let mut item = target(2, "A flashlight.");
    item.inventory_item = Some(InventoryItem { name: "Flashlight".into(), description: "".into(), item_id: "flashlight".into() });
    assert_eq!(click(&mut w, &item, &none), ClickEffect::PickUp);
    assert_eq!(w.fb.0, "You pick up the Flashlight.");

    let shelf = target(3, "Dusty books.");
    assert_eq!(click(&mut w, &shelf, &none), ClickEffect::Examine);
    assert_eq!(w.play, PlayState::Examining(3));
    assert_eq!(w.fb.0, "Dusty books.");
}

#[test]
fn click_is_ignored_when_ui_busy_and_only_answers_while_moving() {
    let mut w = world();
    let shelf = target(3, "Dusty books.");
    assert_eq!(on_click(true, &shelf, &vec![], true, &w.inv, &mut w.play, &mut w.fb, &mut w.cam), ClickEffect::Ignored);
    assert!(w.fb.0.is_empty());
    w.cam.transitioning = true;
    assert_eq!(click(&mut w, &shelf, &vec![]), ClickEffect::Feedback);
    assert_eq!(w.fb.0, "Dusty books.");
    assert_eq!(w.play, PlayState::Exploring);
    w.cam.transitioning = false;
    w.play = PlayState::Transitioning;
    w.fb.0 = "".into();
    let mut drawer = target(4, "A drawer.");
    drawer.state = Some(ObjectState::Closed);
    assert_eq!(click(&mut w, &drawer, &vec![]), ClickEffect::Feedback);
    assert_eq!(w.fb.0, "A drawer.");
    assert_eq!(w.play, PlayState::Transitioning);
}

#[test]
fn locked_door_fails_then_unlocks_then_wins() {
    let mut w = world();
    let mut d = door();
    assert_eq!(click(&mut w, &d, &vec![]), ClickEffect::Feedback);
    assert_eq!(w.fb.0, "It's too dark to see the lock clearly.");
    w.inv.add_item("flashlight", "Flashlight", "");
    assert_eq!(click(&mut w, &d, &vec![]), ClickEffect::Unlock { completes_objective: true });
    assert_eq!(w.fb.0, "You shine the light on the lock. It clicks open.");
    d.state = Some(ObjectState::Unlocked);
    assert_eq!(click(&mut w, &d, &vec![]), ClickEffect::Win);
    assert_eq!(w.fb.0, "You step through the door into the light.");
}

#[test]
fn drawer_opens_and_closes() {
    let mut w = world();
    let mut drawer = target(4, "A drawer.");
    drawer.state = Some(ObjectState::Closed);
    assert_eq!(click(&mut w, &drawer, &vec![]), ClickEffect::Open);
    assert_eq!(w.fb.0, "You open it.");
    drawer.state = Some(ObjectState::Open);
    assert_eq!(click(&mut w, &drawer, &vec![]), ClickEffect::Close);
    assert_eq!(w.fb.0, "You close it.");
    drawer.state = Some(ObjectState::Default);
    assert_eq!(click(&mut w, &drawer, &vec![]), ClickEffect::Feedback);
    assert_eq!(w.fb.0, "A drawer.");
}

#[test]
fn navigation_click_moves_camera_and_back_returns() {
    let mut w = world();
    w.cam.current_spot = Some("room_overview".into());
    let spots = vec!["room_overview".to_string(), "desk_closeup".to_string()];
    let mut desk = target(6, "A sturdy desk.");
    desk.navigates_to = Some(NavigatesTo { spot_name: "desk_closeup".into() });
    assert_eq!(click(&mut w, &desk, &spots), ClickEffect::Navigate(1));
    assert_eq!(w.play, PlayState::Transitioning);
    assert_eq!(w.cam.current_spot.as_deref(), Some("desk_closeup"));
    assert_eq!(w.cam.history, vec!["room_overview".to_string()]);

    // Still moving: going back is ignored.
    let back = vec![InputIntent::CancelOrBack];
    assert_eq!(handle_back_navigation(&back, &spots, true, &mut w.play, &mut w.cam, &mut w.fb), None);
    w.cam.transitioning = false;
    finish_transition(&mut w.play, &w.cam);
    assert_eq!(w.play, PlayState::Exploring);

    assert_eq!(handle_back_navigation(&back, &spots, true, &mut w.play, &mut w.cam, &mut w.fb), Some(0));
    assert_eq!(w.fb.0, "You step back.");
    assert_eq!(w.play, PlayState::Transitioning);
    assert_eq!(w.cam.current_spot.as_deref(), Some("room_overview"));
    assert!(w.cam.history.is_empty());
}

#[test]
fn navigation_without_spot_only_gives_feedback() {
    let mut w = world();
    let mut desk = target(6, "A sturdy desk.");
    desk.navigates_to = Some(NavigatesTo { spot_name: "desk_closeup".into() });
    assert_eq!(click(&mut w, &desk, &vec!["elsewhere".to_string()]), ClickEffect::Feedback);
    assert_eq!(w.fb.0, "A sturdy desk.");
    assert_eq!(w.play, PlayState::Exploring);
    assert!(w.cam.current_spot.is_none());
}

#[test]
fn confirm_acts_like_click() {
    let mut w = world();
    let confirm = vec![InputIntent::ConfirmFocused];
    let mut drawer = target(4, "A drawer.");
    drawer.state = Some(ObjectState::Closed);
    let spots = vec![];
    assert_eq!(
        handle_confirm_intent(&vec![], Some(&drawer), &spots, true, &w.inv, &mut w.play, &mut w.fb, &mut w.cam),
        ClickEffect::Ignored
    );
    assert_eq!(
        handle_confirm_intent(&confirm, None, &spots, true, &w.inv, &mut w.play, &mut w.fb, &mut w.cam),
        ClickEffect::Ignored
    );
    assert!(w.fb.0.is_empty());
    assert_eq!(
        handle_confirm_intent(&confirm, Some(&drawer), &spots, true, &w.inv, &mut w.play, &mut w.fb, &mut w.cam),
        ClickEffect::Open
    );
    assert_eq!(w.fb.0, "You open it.");
    drawer.state = Some(ObjectState::Open);
    assert_eq!(
        handle_confirm_intent(&confirm, Some(&drawer), &spots, true, &w.inv, &mut w.play, &mut w.fb, &mut w.cam),
        ClickEffect::Close
    );
    assert_eq!(w.fb.0, "You close it.");
    let d = door();
    assert_eq!(
        handle_confirm_intent(&confirm, Some(&d), &spots, true, &w.inv, &mut w.play, &mut w.fb, &mut w.cam),
        ClickEffect::Feedback
    );
    assert_eq!(w.fb.0, "It's too dark to see the lock clearly.");
    let shelf = target(3, "Dusty books.");
    assert_eq!(
        handle_confirm_intent(&confirm, Some(&shelf), &spots, true, &w.inv, &mut w.play, &mut w.fb, &mut w.cam),
        ClickEffect::Examine
    );
    assert_eq!(w.play, PlayState::Examining(3));
    // While the camera moves, confirming answers like a click does.
    w.cam.transitioning = true;
    assert_eq!(
        handle_confirm_intent(&confirm, Some(&d), &spots, true, &w.inv, &mut w.play, &mut w.fb, &mut w.cam),
        ClickEffect::Feedback
    );
    assert_eq!(w.fb.0, "A heavy door.");
}

#[test]
fn return_to_center_uses_room_starting_spot() {
    let mut w = world();
    let mut reg = RoomRegistry::default();
    reg.rooms.push(("study".into(), "The Study".into(), "".into(), Some("study_center".into())));
    let mut room = CurrentRoom::default();
    room.name = "study".into();
    let spots = vec!["desk".to_string(), "study_center".to_string()];
    let center = vec![InputIntent::ReturnToCenter];
    w.cam.navigate_to("study_center");
    w.cam.navigate_to("desk");
    w.cam.transitioning = false;
    assert_eq!(handle_return_to_center(&vec![], &spots, true, &reg, &room, &mut w.play, &mut w.cam, &mut w.fb), None);
    assert_eq!(handle_return_to_center(&center, &spots, true, &reg, &room, &mut w.play, &mut w.cam, &mut w.fb), Some(1));
    assert_eq!(w.cam.current_spot.as_deref(), Some("study_center"));
    assert!(w.cam.history.is_empty());
    assert_eq!(w.fb.0, "You look around the room.");
    // Already there.
    assert_eq!(handle_return_to_center(&center, &spots, true, &reg, &room, &mut w.play, &mut w.cam, &mut w.fb), None);
    // Unknown room falls back to "room_overview".
    room.name = "attic".into();
    let spots2 = vec!["room_overview".to_string()];
    assert_eq!(handle_return_to_center(&center, &spots2, true, &reg, &room, &mut w.play, &mut w.cam, &mut w.fb), Some(0));
}

#[test]
fn stuck_only_without_portal() {
    let d = door();
    let required = vec![d.required_item.clone().unwrap()];
    let mut inv = Inventory::default();
    let fb = FeedbackText("It's too dark to see the lock clearly.".into());
    assert!(check_stuck(true, &fb, &required, &inv, false));
    assert!(!check_stuck(true, &fb, &required, &inv, true));
    assert!(!check_stuck(false, &fb, &required, &inv, false));
    assert!(!check_stuck(true, &FeedbackText("".into()), &required, &inv, false));
    inv.add_item("flashlight", "Flashlight", "");
    assert!(!check_stuck(true, &fb, &required, &inv, false));
}

#[test]
fn every_handled_click_replaces_the_feedback_line() {
    let shelf = target(3, "Dusty books.");
    for before in ["", "You open it.", "Something else entirely."] {
        let mut w = world();
        w.fb.0 = before.into();
        assert_ne!(click(&mut w, &shelf, &vec![]), ClickEffect::Ignored);
        assert_eq!(w.fb.0, "Dusty books.");
    }
}
