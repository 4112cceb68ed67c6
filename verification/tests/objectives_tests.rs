use litadventure::game_data::{ObjectiveDef, ObjectiveSet};
use litadventure::inventory::Inventory;
use litadventure::objectives::{load_objectives_from_data, Objectives};

#[test]
fn add_and_query_objectives() {
    let mut obj = Objectives::default();
    obj.add("a", "Do A", true);
    obj.add("b", "Do B", false);

    assert_eq!(obj.active_visible().len(), 1);
    assert_eq!(obj.current_text(), "Do A");
}

#[test]
fn complete_objective() {
    let mut obj = Objectives::default();
    obj.add("a", "Do A", true);

    assert!(obj.complete("a"));
    assert!(obj.is_completed("a"));
    assert!(obj.active_visible().is_empty());
}

#[test]
fn complete_unlocks_next() {
    let mut obj = Objectives::default();
    obj.add("a", "Do A", true);
    obj.add("b", "Do B", false);
    obj.all[0].unlocks.push("b".into());

    obj.complete("a");
    assert_eq!(obj.active_visible().len(), 1);
    assert_eq!(obj.current_text(), "Do B");
}

#[test]
fn complete_removes_conflicts() {
    let mut obj = Objectives::default();
    obj.add("a", "Path A", true);
    obj.add("b", "Path B", true);
    obj.all[0].conflicts_with.push("b".into());

    obj.complete("a");
    assert!(obj.is_completed("a"));
    assert!(obj.is_completed("b")); // Conflict removed
}

#[test]
fn duplicate_add_ignored() {
    let mut obj = Objectives::default();
    obj.add("a", "Do A", true);
    obj.add("a", "Do A again", true);
    assert_eq!(obj.all.len(), 1);
}

#[test]
fn current_text_defaults_when_nothing_active() {
    let mut obj = Objectives::default();
    assert_eq!(obj.current_text(), "Look around.");
    obj.add("hidden", "Hidden", false);
    assert_eq!(obj.current_text(), "Look around.");
}

#[test]
fn complete_twice_reports_false_and_keeps_state() {
    let mut obj = Objectives::default();
    obj.add("a", "Do A", true);
    obj.add("b", "Do B", false);
    obj.all[0].unlocks.push("b".into());
    assert!(obj.complete("a"));
    assert!(!obj.complete("a"));
    assert!(!obj.complete("missing"));
    assert!(obj.is_completed("a"));
    assert!(!obj.is_completed("b"));
    assert!(obj.all[1].visible);
    assert!(!obj.is_completed("missing"));
}

#[test]
fn conflicts_hide_and_unlocks_reveal_completed_stays_completed() {
    let mut obj = Objectives::default();
    obj.add("a", "A", true);
    obj.add("b", "B", true);
    obj.add("c", "C", false);
    obj.all[0].conflicts_with.push("b".into());
    obj.all[0].unlocks.push("b".into());
    obj.all[0].unlocks.push("c".into());
    assert!(obj.complete("a"));
    // b was cancelled (completed, hidden) and then revealed again, but stays completed.
    assert!(obj.is_completed("b"));
    assert!(obj.all[1].visible);
    assert_eq!(obj.active_visible().len(), 1);
    assert_eq!(obj.current_text(), "C");
}

#[test]
fn item_and_navigation_checks_list_ready_objectives() {
    let mut obj = Objectives::default();
    obj.add("find", "Find it", true);
    obj.add("desk", "Go to desk", true);
    obj.add("done", "Done", true);
    obj.all[0].requires_item = Some("flashlight".into());
    obj.all[1].requires_navigation = Some("desk_closeup".into());
    obj.all[2].requires_item = Some("flashlight".into());
    obj.complete("done");

    let mut inv = Inventory::default();
    assert!(obj.check_item_objectives(&inv).is_empty());
    inv.add_item("flashlight", "Flashlight", "");
    assert_eq!(obj.check_item_objectives(&inv), vec!["find".to_string()]);

    let spots = vec!["room_overview".to_string(), "desk_closeup".to_string(), "desk_closeup".to_string()];
    assert_eq!(obj.check_navigation_objectives(&spots), vec!["desk".to_string(), "desk".to_string()]);

    obj.process_completions(&vec!["find".to_string(), "desk".to_string(), "desk".to_string()]);
    assert!(obj.is_completed("find"));
    assert!(obj.is_completed("desk"));
    assert!(obj.active_visible().is_empty());
}

#[test]
fn objectives_load_once_from_data() {
    let set = ObjectiveSet {
        objectives: vec![
            ObjectiveDef {
                id: "explore".into(),
                text: "Explore the study.".into(),
                visible: true,
                conflicts_with: vec![],
                unlocks: vec!["find_flashlight".into()],
                requires_item: None,
                requires_navigation: Some("desk_closeup".into()),
            },
            ObjectiveDef {
                id: "find_flashlight".into(),
                text: "Find the flashlight.".into(),
                visible: false,
                conflicts_with: vec![],
                unlocks: vec![],
                requires_item: Some("flashlight".into()),
                requires_navigation: None,
            },
        ],
    };
    let mut obj = Objectives::default();
    let mut loaded = false;
    load_objectives_from_data(&mut obj, &mut loaded, false, Some(&set));
    assert!(obj.all.is_empty() && !loaded);
    load_objectives_from_data(&mut obj, &mut loaded, true, Some(&set));
    assert!(loaded);
    assert_eq!(obj.all.len(), 2);
    assert_eq!(obj.current_text(), "Explore the study.");
    obj.complete("explore");
    assert_eq!(obj.current_text(), "Find the flashlight.");
    load_objectives_from_data(&mut obj, &mut loaded, true, Some(&set));
    assert_eq!(obj.all.len(), 2);
}
