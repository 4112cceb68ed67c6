use litadventure::camera::CameraController;
use litadventure::components::ObjectState;
use litadventure::hints::{sync_hint_text, tier_for, HintDatabase, HintText};
use litadventure::interaction::FeedbackText;
use litadventure::inventory::Inventory;
use litadventure::navigation::{CurrentRoom, PendingRoomEntry};
use litadventure::objectives::Objectives;
use litadventure::save::{
    apply_pending_entity_states, build_save_game, finish_save, load_game, object_state_name, parse_object_state,
    EntityAction, LoadError, NamedEntity, PendingEntityStates, SaveGame,
};

#[test]
fn hint_tiers_progress() {
    let idle_time: f32 = 31.0;
    let tier_thresholds: [f32; 3] = [30.0, 60.0, 90.0];
    assert!(idle_time >= tier_thresholds[0]);
    let reached = [0, 1, 2].map(|k| tier_thresholds[k] > 0.0 && idle_time >= tier_thresholds[k]);
    assert_eq!(tier_for(reached), 1);
}

#[test]
fn hint_database_has_entries() {
    let mut db = HintDatabase::default();
    db.insert("test".into(), ["a".into(), "b".into(), "c".into()]);
    assert_eq!(db.get("test").unwrap()[0], "a");
    assert_eq!(db.get("test").unwrap()[2], "c");
}

#[test]
fn tiers_pick_highest_reached() {
    assert_eq!(tier_for([false, false, false]), 0);
    assert_eq!(tier_for([true, true, false]), 2);
    assert_eq!(tier_for([true, true, true]), 3);
    assert_eq!(tier_for([false, false, true]), 3);
}

#[test]
fn hint_text_follows_first_active_objective() {
    let mut db = HintDatabase::default();
    db.insert("explore".into(), ["nudge".into(), "suggest".into(), "solve".into()]);
    db.insert("explore".into(), ["n".into(), "s".into(), "x".into()]);
    assert_eq!(db.hints.len(), 1);
    let mut obj = Objectives::default();
    obj.add("explore", "Explore.", true);
    let mut text = HintText("old".into());
    sync_hint_text(0, &db, &obj, &mut text);
    assert!(text.0.is_empty());
    sync_hint_text(2, &db, &obj, &mut text);
    assert_eq!(text.0, "s");
    sync_hint_text(7, &db, &obj, &mut text);
    assert_eq!(text.0, "x");
    obj.add("other", "Other.", true);
    obj.complete("explore");
    sync_hint_text(1, &db, &obj, &mut text);
    assert!(text.0.is_empty());
}

#[test]
fn state_names_round_trip() {
    for s in [
        ObjectState::Default,
        ObjectState::Locked,
        ObjectState::Unlocked,
        ObjectState::Open,
        ObjectState::Closed,
        ObjectState::Collected,
    ] {
        assert_eq!(parse_object_state(object_state_name(s)), Some(s));
    }
    assert_eq!(object_state_name(ObjectState::Open), "Open");
    assert_eq!(parse_object_state("Ajar"), None);
}

fn game() -> (Inventory, Objectives, CurrentRoom, CameraController) {
    let mut inv = Inventory::default();
    inv.add_item("flashlight", "Flashlight", "A small flashlight.");
    inv.add_item("lens", "Lens", "A glass lens.");
    inv.add_item("lens", "Lens", "A glass lens.");
    let mut obj = Objectives::default();
    obj.add("explore", "Explore.", true);
    obj.add("find", "Find.", false);
    obj.complete("explore");
    let mut room = CurrentRoom::default();
    room.name = "study".into();
    let mut cam = CameraController::default();
    cam.navigate_to("room_overview");
    cam.navigate_to("desk_closeup");
    cam.transitioning = false;
    (inv, obj, room, cam)
}

#[test]
fn save_then_load_restores_game() {
    let (inv, obj, room, cam) = game();
    let save = build_save_game(
        &inv,
        &obj,
        &room,
        &cam,
        &vec![("Drawer".to_string(), ObjectState::Open)],
        &vec!["Flashlight".to_string()],
    );
    assert_eq!(save.current_room, "study");
    assert_eq!(save.entity_states, vec![("Drawer".to_string(), "Open".to_string())]);
    assert_eq!(save.items.len(), 2);
    assert_eq!(save.items[1].qty, 2);

    let (mut inv2, mut obj2, room2, mut cam2) = (Inventory::default(), Objectives::default(), room, CameraController::default());
    obj2.add("explore", "Explore.", true);
    obj2.add("find", "Find.", false);
    let mut fb = FeedbackText::default();
    let mut pending = PendingRoomEntry::default();
    let mut states = PendingEntityStates::default();
    let t = load_game(Ok(save), &mut inv2, &mut obj2, &room2, &mut cam2, &mut fb, &mut pending, &mut states);
    assert!(t.is_none());
    assert_eq!(fb.0, "Game loaded.");
    assert_eq!(pending.spot_name.as_deref(), Some("desk_closeup"));
    assert_eq!(cam2.current_spot.as_deref(), Some("desk_closeup"));
    assert_eq!(cam2.history, vec!["room_overview".to_string()]);
    let items: Vec<(String, u32, String)> =
        inv2.items.iter().map(|i| (i.item_id.clone(), i.qty, i.description.clone())).collect();
    assert_eq!(items, vec![("flashlight".to_string(), 1, "".to_string()), ("lens".to_string(), 2, "".to_string())]);
    assert!(obj2.is_completed("explore"));
    assert!(obj2.all[1].visible == obj.all[1].visible);
    assert_eq!(states.entity_states, vec![("Drawer".to_string(), "Open".to_string())]);
    assert_eq!(states.collected_entities, vec!["Flashlight".to_string()]);
}

#[test]
fn load_into_other_room_fires_transition() {
    let (mut inv, mut obj, mut room, mut cam) = game();
    room.name = "hallway".into();
    let save = SaveGame {
        current_room: "study".into(),
        camera_spot: None,
        camera_history: vec![],
        items: vec![],
        objective_states: vec![],
        entity_states: vec![],
        collected_entities: vec![],
    };
    let mut fb = FeedbackText::default();
    let mut pending = PendingRoomEntry::default();
    let mut states = PendingEntityStates::default();
    let t = load_game(Ok(save), &mut inv, &mut obj, &room, &mut cam, &mut fb, &mut pending, &mut states).unwrap();
    assert_eq!(t.target_room, "study");
    assert_eq!(t.entry_spot, "");
    assert!(inv.items.is_empty());
    assert!(pending.spot_name.is_none());
}

#[test]
fn load_errors_report_and_change_nothing() {
    let (mut inv, mut obj, room, mut cam) = game();
    let mut fb = FeedbackText::default();
    let mut pending = PendingRoomEntry::default();
    let mut states = PendingEntityStates::default();
    assert!(load_game(Err(LoadError::NotFound), &mut inv, &mut obj, &room, &mut cam, &mut fb, &mut pending, &mut states).is_none());
    assert_eq!(fb.0, "No save file found.");
    assert!(load_game(Err(LoadError::Corrupted), &mut inv, &mut obj, &room, &mut cam, &mut fb, &mut pending, &mut states).is_none());
    assert_eq!(fb.0, "Save file is corrupted.");
    assert_eq!(inv.items.len(), 2);
    assert_eq!(cam.current_spot.as_deref(), Some("desk_closeup"));
}

#[test]
fn save_outcome_feedback() {
    let mut exists = false;
    let mut fb = FeedbackText::default();
    finish_save(Err("disk full".into()), &mut exists, &mut fb);
    assert!(!exists);
    assert_eq!(fb.0, "Save failed: disk full");
    finish_save(Ok(()), &mut exists, &mut fb);
    assert!(exists);
    assert_eq!(fb.0, "Game saved.");
}

#[test]
fn pending_states_apply_once_scene_loaded() {
    let mut pending = PendingEntityStates {
        entity_states: vec![("Drawer".into(), "Open".into()), ("Box".into(), "Weird".into())],
        collected_entities: vec!["Flashlight".into()],
    };
    let ents = vec![NamedEntity { entity: 1, name: "Lamp".into(), has_state: false }];
    assert!(apply_pending_entity_states(&mut pending, &ents).is_empty());
    assert_eq!(pending.entity_states.len(), 2);
    let ents = vec![
        NamedEntity { entity: 1, name: "Drawer".into(), has_state: true },
        NamedEntity { entity: 2, name: "Box".into(), has_state: true },
        NamedEntity { entity: 3, name: "Flashlight".into(), has_state: false },
    ];
    assert_eq!(
        apply_pending_entity_states(&mut pending, &ents),
        vec![EntityAction::SetState { entity: 1, state: ObjectState::Open }, EntityAction::Collect { entity: 3 }]
    );
    assert!(pending.entity_states.is_empty());
    assert!(pending.collected_entities.is_empty());
}

#[test]
fn loading_gives_fresh_objectives_their_saved_flags() {
    let (inv, obj, room, cam) = game();
    let save = build_save_game(&inv, &obj, &room, &cam, &vec![], &vec![]);
    // The objectives at load come in another order, with other texts, and
    // one that was not saved.
    let mut obj2 = Objectives::default();
    obj2.add("find", "Find it.", true);
    obj2.add("extra", "Extra.", true);
    obj2.add("explore", "Explore it.", true);
    let (mut inv2, mut cam2) = (Inventory::default(), CameraController::default());
    let mut fb = FeedbackText::default();
    let mut pending = PendingRoomEntry::default();
    let mut states = PendingEntityStates::default();
    load_game(Ok(save), &mut inv2, &mut obj2, &room, &mut cam2, &mut fb, &mut pending, &mut states);
    let flags: Vec<(String, String, bool, bool)> =
        obj2.all.iter().map(|o| (o.id.clone(), o.text.clone(), o.visible, o.completed)).collect();
    assert_eq!(
        flags,
        vec![
            ("find".to_string(), "Find it.".to_string(), false, false),
            ("extra".to_string(), "Extra.".to_string(), true, false),
            ("explore".to_string(), "Explore it.".to_string(), true, true),
        ]
    );
}
