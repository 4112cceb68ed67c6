use litadventure::input::{
    apply_input_config, handle_cycle_intent, parse_key, produce_input_intents, update_clickable_focus_list,
    FocusedClickable, InputConfig, InputConfigRaw, InputIntent, Key, RawInput,
};
use litadventure::states::{auto_start, overlay_flags, toggle_pause, GameState};
use litadventure::game_data::{check_game_data_ready, GameDataReady};
use litadventure::debug::{state_marker, toggle_debug, zone_kind, DebugOverlay, StateMarker, ZoneKind};
use litadventure::components::ObjectState;

#[test]
fn game_state_default_is_title() {
    let state = GameState::default();
    assert_eq!(state, GameState::Title);
}

#[test]
fn loading_moves_on_to_playing() {
    assert_eq!(auto_start(GameState::Loading), Some(GameState::Playing));
    assert_eq!(auto_start(GameState::Title), None);
}

#[test]
fn pause_toggles_and_escape_at_root_pauses() {
    let p = vec![InputIntent::TogglePause];
    assert_eq!(toggle_pause(GameState::Playing, &p, true), Some(GameState::Paused));
    assert_eq!(toggle_pause(GameState::Paused, &p, true), Some(GameState::Playing));
    assert_eq!(toggle_pause(GameState::Title, &p, true), None);
    let esc = vec![InputIntent::CancelOrBack];
    assert_eq!(toggle_pause(GameState::Playing, &esc, true), None);
    assert_eq!(toggle_pause(GameState::Playing, &esc, false), Some(GameState::Paused));
    assert_eq!(toggle_pause(GameState::Playing, &vec![], false), None);
}

#[test]
fn overlays_follow_state() {
    let f = overlay_flags(GameState::Paused);
    assert!(f.show_help && f.show_room_info && f.show_inventory && f.show_objectives);
    assert!(!f.show_title && !f.show_victory && !f.show_game_over);
    let t = overlay_flags(GameState::Title);
    assert!(t.show_title && !t.show_room_info);
    assert!(overlay_flags(GameState::Won).show_victory);
    assert!(overlay_flags(GameState::GameOver).show_game_over);
}

#[test]
fn key_names_parse() {
    assert_eq!(parse_key("Escape"), Some(Key::Escape));
    assert_eq!(parse_key("KeyP"), Some(Key::KeyP));
    assert_eq!(parse_key("F1"), Some(Key::F1));
    assert_eq!(parse_key("Digit5"), Some(Key::Digit5));
    assert_eq!(parse_key("ArrowRight"), Some(Key::ArrowRight));
    assert_eq!(parse_key("escape"), None);
    assert_eq!(parse_key("F6"), None);
}

#[test]
fn config_applies_known_names_once() {
    let mut config = InputConfig::default();
    assert_eq!(config.back, Key::Escape);
    let raw = InputConfigRaw {
        back: "Backspace".into(),
        return_to_center: "Nope".into(),
        pause: "KeyQ".into(),
        cycle_next: "Tab".into(),
        confirm: "Space".into(),
        debug_overlay: "F2".into(),
    };
    let mut applied = false;
    apply_input_config(&mut config, &mut applied, None);
    assert!(!applied);
    apply_input_config(&mut config, &mut applied, Some(&raw));
    assert!(applied);
    assert_eq!(config.back, Key::Backspace);
    assert_eq!(config.return_to_center, Key::Space);
    assert_eq!(config.pause, Key::KeyQ);
    assert_eq!(config.confirm, Key::Space);
    assert_eq!(config.debug_overlay, Key::F2);
}

fn raw() -> RawInput {
    RawInput {
        keyboard_free: true,
        pointer_free: true,
        back_pressed: false,
        right_click: false,
        center_pressed: false,
        pause_pressed: false,
        cycle_pressed: false,
        shift_held: false,
        confirm_pressed: false,
    }
}

#[test]
fn intents_from_raw_input() {
    let mut r = raw();
    r.back_pressed = true;
    r.right_click = true;
    r.cycle_pressed = true;
    r.shift_held = true;
    r.confirm_pressed = true;
    assert_eq!(
        produce_input_intents(r, GameState::Playing),
        vec![InputIntent::CancelOrBack, InputIntent::CancelOrBack, InputIntent::CyclePrev, InputIntent::ConfirmFocused]
    );
    // Overlays keep Tab/Enter for their own buttons.
    assert_eq!(produce_input_intents(r, GameState::Paused), vec![InputIntent::CancelOrBack, InputIntent::CancelOrBack]);
    r.keyboard_free = false;
    r.pause_pressed = true;
    assert_eq!(produce_input_intents(r, GameState::Title), vec![InputIntent::CancelOrBack]);
    // While the UI wants the keyboard, Tab and Enter do not reach the scene either.
    assert_eq!(produce_input_intents(r, GameState::Playing), vec![InputIntent::CancelOrBack]);
}

#[test]
fn focus_cycles_with_wraparound() {
    let mut f = FocusedClickable::default();
    let mut count = 0usize;
    update_clickable_focus_list(&vec![10, 20, 30], &mut f, &mut count);
    assert_eq!(count, 3);
    assert_eq!(handle_cycle_intent(&vec![InputIntent::CycleNext], &mut f), Some((None, 10)));
    assert_eq!(handle_cycle_intent(&vec![InputIntent::CyclePrev], &mut f), Some((Some(10), 30)));
    assert_eq!(handle_cycle_intent(&vec![InputIntent::CycleNext], &mut f), Some((Some(30), 10)));
    assert_eq!(handle_cycle_intent(&vec![InputIntent::ConfirmFocused], &mut f), None);
    // Last cycle intent of the frame wins.
    assert_eq!(
        handle_cycle_intent(&vec![InputIntent::CyclePrev, InputIntent::CycleNext], &mut f),
        Some((Some(10), 20))
    );
    // Unfocused "previous" counts from position -1.
    let mut g = FocusedClickable::default();
    g.ordered = vec![1, 2, 3, 4];
    assert_eq!(handle_cycle_intent(&vec![InputIntent::CyclePrev], &mut g), Some((None, 3)));
    let mut empty = FocusedClickable::default();
    assert_eq!(handle_cycle_intent(&vec![InputIntent::CycleNext], &mut empty), None);
}

#[test]
fn focus_list_drops_vanished_entity() {
    let mut f = FocusedClickable::default();
    let mut count = 0usize;
    update_clickable_focus_list(&vec![1, 2], &mut f, &mut count);
    f.entity = Some(2);
    update_clickable_focus_list(&vec![3, 4], &mut f, &mut count);
    // Same count: no rebuild.
    assert_eq!(f.ordered, vec![1, 2]);
    update_clickable_focus_list(&vec![1, 3, 4], &mut f, &mut count);
    assert_eq!(f.ordered, vec![1, 3, 4]);
    assert_eq!(f.entity, None);
}

#[test]
fn data_ready_once_all_loaded() {
    let mut ready = GameDataReady::default();
    check_game_data_ready(&mut ready, [true, true, false, true, true]);
    assert!(!ready.0);
    check_game_data_ready(&mut ready, [true; 5]);
    assert!(ready.0);
    check_game_data_ready(&mut ready, [false; 5]);
    assert!(ready.0);
}

#[test]
fn debug_overlay_classification() {
    let mut d = DebugOverlay::default();
    toggle_debug(&mut d, true);
    assert!(d.enabled);
    toggle_debug(&mut d, false);
    assert!(d.enabled);
    toggle_debug(&mut d, true);
    assert!(!d.enabled);
    assert_eq!(zone_kind(true, true, true, true), ZoneKind::Portal);
    assert_eq!(zone_kind(false, false, true, true), ZoneKind::Navigable);
    assert_eq!(zone_kind(false, false, false, false), ZoneKind::Examinable);
    assert_eq!(state_marker(ObjectState::Locked), StateMarker::Locked);
    assert_eq!(state_marker(ObjectState::Collected), StateMarker::Other);
}
