use litadventure::camera::CameraController;
use litadventure::components::{ContainedIn, ObjectState};
use litadventure::interaction::FeedbackText;
use litadventure::inventory::{CombinationRecipe, Inventory};
use litadventure::item_preview::{plan_previews, previews_fit};
use litadventure::navigation::CurrentRoom;
use litadventure::objectives::Objectives;
use litadventure::scene::{hide_contained_items, load_initial_scene, resolve_contained_in, scene_path};
use litadventure::ui::{combine_from_panel, inventory_hint, restart_game, sync_feedback, ui_buttons};
use litadventure::states::GameState;

#[test]
fn scene_paths_and_initial_room() {
    assert_eq!(scene_path("hallway"), "scenes/hallway.glb");
    let mut cam = CameraController::default();
    assert_eq!(load_initial_scene(&CurrentRoom::default(), &mut cam), "scenes/study.glb");
    assert_eq!(cam.current_spot.as_deref(), Some("room_overview"));
    let mut room = CurrentRoom::default();
    room.name = "hallway".into();
    assert_eq!(load_initial_scene(&room, &mut cam), "scenes/hallway.glb");
}

#[test]
fn contained_items_link_to_first_named_container() {
    let unresolved = vec![(10, "Drawer".to_string()), (11, "Chest".to_string())];
    let names = vec![(1, "Desk".to_string()), (2, "Drawer".to_string()), (3, "Drawer".to_string())];
    assert_eq!(resolve_contained_in(&unresolved, &names), vec![(10, ContainedIn { container: 2 })]);
    let linked = vec![(10, Some(ObjectState::Closed)), (11, Some(ObjectState::Open)), (12, None)];
    assert_eq!(hide_contained_items(&linked), vec![10]);
}

#[test]
fn ui_texts() {
    assert_eq!(inventory_hint(0), "Your pockets are empty.");
    assert_eq!(inventory_hint(1), "1 item collected.");
    assert_eq!(inventory_hint(3), "Drag or click two items to combine.");
    let mut shown = String::from("old");
    let mut cam = CameraController::default();
    sync_feedback(&mut shown, &FeedbackText("".into()), &cam);
    assert_eq!(shown, "old");
    sync_feedback(&mut shown, &FeedbackText("You open it.".into()), &cam);
    assert_eq!(shown, "You open it.");
    cam.transitioning = true;
    sync_feedback(&mut shown, &FeedbackText("You open it.".into()), &cam);
    assert_eq!(shown, "...");
}

#[test]
fn panel_combine_reports_and_requests_preview() {
    let mut inv = Inventory::default();
    inv.add_item("lens", "Lens", "");
    inv.add_item("frame", "Frame", "");
    inv.combination_recipes.push(CombinationRecipe {
        item_a: "lens".into(),
        item_b: "frame".into(),
        result_id: "magnifying_glass".into(),
        result_name: "Magnifying Glass".into(),
        result_description: "A small magnifying glass.".into(),
    });
    let mut fb = FeedbackText::default();
    assert!(combine_from_panel(&mut inv, &mut fb, "frame", "frame").is_none());
    assert_eq!(fb.0, "These don't seem to work together.");
    let p = combine_from_panel(&mut inv, &mut fb, "frame", "lens").unwrap();
    assert_eq!(fb.0, "You created a Magnifying Glass!");
    assert_eq!(p.item_id, "magnifying_glass");
    assert_eq!(p.name, "Magnifying Glass");
}

#[test]
fn restart_resets_game() {
    let mut inv = Inventory::default();
    inv.add_item("lens", "Lens", "");
    let mut fb = FeedbackText("x".into());
    let mut obj = Objectives::default();
    obj.add("a", "A", true);
    let mut cam = CameraController::default();
    cam.navigate_to("desk");
    let t = restart_game(&mut inv, &mut fb, &mut obj, &mut cam);
    assert!(inv.items.is_empty() && obj.all.is_empty());
    assert_eq!(fb.0, "You look around the room.");
    assert_eq!(cam.current_spot.as_deref(), Some("room_overview"));
    assert!(!cam.transitioning && cam.history.is_empty());
    assert_eq!((t.target_room.as_str(), t.entry_spot.as_str()), ("study", "room_overview"));
}

#[test]
fn previews_planned_once_per_item() {
    let existing = vec!["flashlight".to_string()];
    let requested = vec!["lens".to_string(), "flashlight".to_string(), "lens".to_string(), "frame".to_string()];
    let mut slot = 3usize;
    assert_eq!(
        plan_previews(&existing, &requested, &mut slot),
        vec![("lens".to_string(), 3), ("frame".to_string(), 4)]
    );
    assert_eq!(slot, 5);
}

#[test]
fn overlay_buttons() {
    let r = ui_buttons(GameState::Paused, true, false, false, false, false);
    assert_eq!(r.next_state, Some(GameState::Playing));
    assert_eq!(ui_buttons(GameState::Playing, true, false, false, false, false).next_state, None);
    let r = ui_buttons(GameState::Title, false, true, false, false, true);
    assert_eq!(r.next_state, Some(GameState::Loading));
    assert!(r.load && !r.save && !r.restart);
    let r = ui_buttons(GameState::Won, false, false, true, true, false);
    assert_eq!(r.next_state, Some(GameState::Title));
    assert!(r.restart && r.save);
}

#[test]
fn preview_slots_fit_counts_only_new_ids() {
    let existing = vec!["flashlight".to_string()];
    let requested = vec!["flashlight".to_string(), "lens".to_string(), "lens".to_string()];
    assert!(previews_fit(&existing, &requested, usize::MAX - 1));
    assert!(!previews_fit(&existing, &requested, usize::MAX));
    assert!(previews_fit(&existing, &vec!["flashlight".to_string()], usize::MAX));
}
