use litadventure::camera::{detect_tween_complete, find_spot_by_name, CameraController};
use litadventure::game_data::{LevelManifest, RoomDef, RoomSceneRef, RoomSet};
use litadventure::navigation::{
    fire_pending_room_transition, handle_portal_approach, load_rooms_from_data, process_room_transition,
    tween_camera_to_entry, CurrentRoom, PendingRoomEntry, PortalApproachRequested, RoomRegistry, RoomTransition,
};

#[test]
fn camera_controller_navigate_to() {
    let mut ctrl = CameraController::default();
    assert!(!ctrl.can_go_back());
    assert!(ctrl.current_spot.is_none());

    ctrl.navigate_to("room_overview");
    assert_eq!(ctrl.current_spot.as_deref(), Some("room_overview"));
    assert!(!ctrl.can_go_back());
    assert!(ctrl.transitioning);

    ctrl.transitioning = false;
    ctrl.navigate_to("desk_closeup");
    assert_eq!(ctrl.current_spot.as_deref(), Some("desk_closeup"));
    assert!(ctrl.can_go_back());
    assert_eq!(ctrl.history.len(), 1);
    assert_eq!(ctrl.history[0], "room_overview");
}

#[test]
fn camera_controller_navigate_back() {
    let mut ctrl = CameraController::default();
    ctrl.navigate_to("room_overview");
    ctrl.transitioning = false;
    ctrl.navigate_to("desk_closeup");
    ctrl.transitioning = false;
    ctrl.navigate_to("drawer_detail");
    ctrl.transitioning = false;

    assert_eq!(ctrl.history.len(), 2);

    let back = ctrl.navigate_back();
    assert_eq!(back.as_deref(), Some("desk_closeup"));
    assert_eq!(ctrl.current_spot.as_deref(), Some("desk_closeup"));
    assert!(ctrl.transitioning);

    ctrl.transitioning = false;
    let back = ctrl.navigate_back();
    assert_eq!(back.as_deref(), Some("room_overview"));
    assert!(!ctrl.can_go_back());

    let back = ctrl.navigate_back();
    assert!(back.is_none());
}

#[test]
fn find_spot_by_name_works() {
    // Camera spots named "room" and "desk" (their positions stay with the scene).
    let spots = vec!["room".to_string(), "desk".to_string()];
    let found = find_spot_by_name(&spots, "desk");
    assert!(found.is_some());
    let idx = found.unwrap();
    assert_eq!(spots[idx], "desk");
    assert_eq!(idx, 1);

    let not_found = find_spot_by_name(&spots, "nonexistent");
    assert!(not_found.is_none());
}

#[test]
fn back_right_after_navigate_returns_to_previous_spot() {
    let mut ctrl = CameraController::default();
    ctrl.navigate_to("a");
    ctrl.navigate_to("b");
    let history_before = ctrl.history.clone();
    ctrl.navigate_to("c");
    assert_eq!(ctrl.navigate_back().as_deref(), Some("b"));
    assert_eq!(ctrl.current_spot.as_deref(), Some("b"));
    assert_eq!(ctrl.history, history_before);
}

#[test]
fn tween_completion_ends_transition() {
    let mut ctrl = CameraController::default();
    ctrl.navigate_to("a");
    detect_tween_complete(&mut ctrl, false);
    assert!(ctrl.transitioning);
    detect_tween_complete(&mut ctrl, true);
    assert!(!ctrl.transitioning);
}

fn registry() -> RoomRegistry {
    let mut reg = RoomRegistry::default();
    reg.rooms.push(("study".into(), "The Study".into(), "A room.".into(), Some("room_overview".into())));
    reg.rooms.push(("hallway".into(), "The Hallway".into(), "A dim hallway.".into(), None));
    reg
}

#[test]
fn room_registry_find() {
    let mut reg = RoomRegistry::default();
    reg.rooms.push(("study".into(), "The Study".into(), "A room.".into(), Some("room_overview".into())));

    let found = reg.find("study");
    assert!(found.is_some());
    assert_eq!(found.unwrap().0, "The Study");

    assert!(reg.find("nonexistent").is_none());
}

#[test]
fn room_registry_starting_spot() {
    let reg = registry();
    assert_eq!(reg.starting_spot("study"), Some("room_overview"));
    assert_eq!(reg.starting_spot("hallway"), None);
    assert_eq!(reg.starting_spot("cellar"), None);
    assert_eq!(reg.find("hallway"), Some(("The Hallway", "A dim hallway.")));
}

#[test]
fn rooms_load_and_enter_starting_room() {
    let set = RoomSet {
        rooms: vec![
            RoomDef {
                name: "study".into(),
                display_name: "The Study".into(),
                description: "A quiet room lined with bookshelves.".into(),
                starting_spot: Some("room_overview".into()),
            },
            RoomDef {
                name: "hallway".into(),
                display_name: "The Hallway".into(),
                description: "A dim hallway with a worn carpet.".into(),
                starting_spot: Some("hallway_overview".into()),
            },
        ],
        starting_room: "study".into(),
    };
    let mut reg = RoomRegistry::default();
    let mut room = CurrentRoom::default();
    let mut loaded = false;
    load_rooms_from_data(&mut reg, &mut room, &mut loaded, true, Some(&set));
    assert!(loaded);
    assert_eq!(reg.rooms.len(), 2);
    assert_eq!(room.name, "study");
    assert_eq!(room.display_name, "The Study");
    assert_eq!(room.description, "A quiet room lined with bookshelves.");
}

#[test]
fn portal_transition_stages() {
    let reg = registry();
    let mut room = CurrentRoom::default();
    let mut pending = PendingRoomEntry::default();
    let mut ctrl = CameraController::default();
    ctrl.navigate_to("room_overview");
    ctrl.navigate_to("desk_closeup");
    ctrl.transitioning = false;

    let ev = PortalApproachRequested {
        portal_entity: 7,
        target_room: "hallway".into(),
        entry_spot: "hallway_overview".into(),
    };
    assert!(!handle_portal_approach(&ev, false, true, &mut pending, &mut ctrl));
    assert!(pending.pending_transition.is_none());
    assert!(handle_portal_approach(&ev, true, true, &mut pending, &mut ctrl));
    assert!(ctrl.transitioning);
    assert_eq!(pending.spot_name.as_deref(), Some("hallway_overview"));

    // Stage 1 still running: nothing fires.
    assert!(fire_pending_room_transition(&mut pending, &ctrl).is_none());
    ctrl.transitioning = false;
    let t = fire_pending_room_transition(&mut pending, &ctrl).unwrap();
    assert_eq!(t.target_room, "hallway");
    assert_eq!(t.entry_spot, "hallway_overview");
    assert!(pending.pending_transition.is_none());

    process_room_transition(&t, &mut room, &reg, &mut ctrl, &mut pending);
    assert_eq!(room.name, "hallway");
    assert_eq!(room.display_name, "The Hallway");
    assert!(ctrl.history.is_empty());
    assert_eq!(ctrl.current_spot.as_deref(), Some("hallway_overview"));
    assert!(ctrl.transitioning);

    let spots = vec!["x".to_string(), "hallway_overview".to_string()];
    assert_eq!(tween_camera_to_entry(&mut pending, &spots, false, &mut ctrl), None);
    assert!(pending.spot_name.is_some());
    assert_eq!(tween_camera_to_entry(&mut pending, &spots, true, &mut ctrl), Some(1));
    assert!(pending.spot_name.is_none());
    assert_eq!(tween_camera_to_entry(&mut pending, &spots, true, &mut ctrl), None);
}

#[test]
fn transition_to_unknown_room_keeps_room_info() {
    let reg = registry();
    let mut room = CurrentRoom::default();
    room.name = "study".into();
    let mut pending = PendingRoomEntry::default();
    let mut ctrl = CameraController::default();
    let t = RoomTransition { target_room: "attic".into(), entry_spot: "attic_overview".into() };
    process_room_transition(&t, &mut room, &reg, &mut ctrl, &mut pending);
    assert_eq!(room.name, "study");
    assert_eq!(ctrl.current_spot.as_deref(), Some("attic_overview"));
}

#[test]
fn level_manifest_scene_lookup() {
    let m = LevelManifest {
        name: "demo".into(),
        starting_room: "study".into(),
        rooms: vec![
            ("study".into(), RoomSceneRef { scene: "scenes/study.glb".into() }),
            ("hallway".into(), RoomSceneRef { scene: "scenes/hallway.glb".into() }),
        ],
    };
    assert_eq!(m.scene_for("hallway"), Some("scenes/hallway.glb"));
    assert_eq!(m.scene_for("attic"), None);
}
