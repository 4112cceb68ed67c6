use litadventure::inventory::{can_collect_items, collect_item, CombinationRecipe, Inventory, ItemPickedUp};
use litadventure::interaction::FeedbackText;
use litadventure::game_data::{RecipeBook, RecipeDef};
use litadventure::inventory::load_recipes_from_data;

#[test]
fn add_item_and_stack() {
    let mut inv = Inventory::default();
    inv.add_item("key", "Key", "A brass key.");
    assert_eq!(inv.items.len(), 1);
    assert_eq!(inv.items[0].qty, 1);

    inv.add_item("key", "Key", "A brass key.");
    assert_eq!(inv.items.len(), 1);
    assert_eq!(inv.items[0].qty, 2);

    inv.add_item("flashlight", "Flashlight", "A small flashlight.");
    assert_eq!(inv.items.len(), 2);
}

#[test]
fn remove_item_decrements_and_removes() {
    let mut inv = Inventory::default();
    inv.add_item("potion", "Potion", "Heals you.");
    inv.add_item("potion", "Potion", "Heals you.");
    assert_eq!(inv.items[0].qty, 2);

    assert!(inv.remove_item("potion"));
    assert_eq!(inv.items[0].qty, 1);

    assert!(inv.remove_item("potion"));
    assert!(inv.items.is_empty());

    assert!(!inv.remove_item("potion"));
}

#[test]
fn has_item_works() {
    let mut inv = Inventory::default();
    assert!(!inv.has_item("key"));
    inv.add_item("key", "Key", "");
    assert!(inv.has_item("key"));
}

#[test]
fn combine_items_with_recipe() {
    let mut inv = Inventory::default();
    inv.add_item("lens", "Lens", "A glass lens.");
    inv.add_item("tube", "Tube", "A metal tube.");
    inv.combination_recipes.push(CombinationRecipe {
        item_a: "lens".into(),
        item_b: "tube".into(),
        result_id: "telescope".into(),
        result_name: "Telescope".into(),
        result_description: "A small telescope.".into(),
    });

    let result = inv.combine("lens", "tube");
    assert_eq!(result.as_deref(), Some("Telescope"));
    assert!(inv.has_item("telescope"));
    assert!(!inv.has_item("lens"));
    assert!(!inv.has_item("tube"));
}

#[test]
fn combine_without_recipe_returns_none() {
    let mut inv = Inventory::default();
    inv.add_item("rock", "Rock", "");
    inv.add_item("stick", "Stick", "");

    let result = inv.combine("rock", "stick");
    assert!(result.is_none());
    // Items should still be there (not consumed)
    assert!(inv.has_item("rock"));
    assert!(inv.has_item("stick"));
}

#[test]
fn combine_is_order_independent() {
    let mut inv = Inventory::default();
    inv.add_item("a", "A", "");
    inv.add_item("b", "B", "");
    inv.combination_recipes.push(CombinationRecipe {
        item_a: "a".into(),
        item_b: "b".into(),
        result_id: "c".into(),
        result_name: "C".into(),
        result_description: "".into(),
    });

    // Reversed order should still work
    let result = inv.combine("b", "a");
    assert_eq!(result.as_deref(), Some("C"));
}

fn recipe(a: &str, b: &str, id: &str, name: &str) -> CombinationRecipe {
    CombinationRecipe {
        item_a: a.into(),
        item_b: b.into(),
        result_id: id.into(),
        result_name: name.into(),
        result_description: format!("A {}.", name),
    }
}

fn snapshot(inv: &Inventory) -> Vec<(String, String, String, u32)> {
    inv.items
        .iter()
        .map(|i| (i.item_id.clone(), i.name.clone(), i.description.clone(), i.qty))
        .collect()
}

#[test]
fn remove_after_add_restores_inventory() {
    let mut inv = Inventory::default();
    inv.add_item("key", "Key", "A key.");
    inv.add_item("lens", "Lens", "A lens.");
    let before = snapshot(&inv);
    inv.add_item("key", "Key", "ignored");
    assert!(inv.remove_item("key"));
    assert_eq!(snapshot(&inv), before);
    inv.add_item("coin", "Coin", "A coin.");
    assert!(inv.remove_item("coin"));
    assert_eq!(snapshot(&inv), before);
}

#[test]
fn stacking_keeps_first_name_and_description() {
    let mut inv = Inventory::default();
    inv.add_item("key", "Key", "A brass key.");
    inv.add_item("key", "Other", "Other text.");
    assert_eq!(snapshot(&inv), vec![("key".to_string(), "Key".to_string(), "A brass key.".to_string(), 2)]);
}

#[test]
fn combine_both_orders_give_same_inventory() {
    let build = || {
        let mut inv = Inventory::default();
        inv.add_item("lens", "Lens", "");
        inv.add_item("x", "X", "");
        inv.add_item("frame", "Frame", "");
        inv.add_item("lens", "Lens", "");
        inv.combination_recipes.push(recipe("frame", "lens", "glass", "Magnifying Glass"));
        inv
    };
    let mut one = build();
    let mut two = build();
    let r1 = one.combine("lens", "frame");
    let r2 = two.combine("frame", "lens");
    assert_eq!(r1.as_deref(), Some("Magnifying Glass"));
    assert_eq!(r1, r2);
    assert_eq!(snapshot(&one), snapshot(&two));
    assert_eq!(
        snapshot(&one),
        vec![
            ("lens".to_string(), "Lens".to_string(), "".to_string(), 1),
            ("x".to_string(), "X".to_string(), "".to_string(), 1),
            ("glass".to_string(), "Magnifying Glass".to_string(), "A Magnifying Glass.".to_string(), 1),
        ]
    );
}

#[test]
fn combine_uses_first_matching_recipe() {
    let mut inv = Inventory::default();
    inv.add_item("a", "A", "");
    inv.add_item("b", "B", "");
    inv.combination_recipes.push(recipe("x", "y", "nope", "Nope"));
    inv.combination_recipes.push(recipe("b", "a", "first", "First"));
    inv.combination_recipes.push(recipe("a", "b", "second", "Second"));
    assert_eq!(inv.combine("a", "b").as_deref(), Some("First"));
    assert!(inv.has_item("first"));
    assert!(!inv.has_item("second"));
}

#[test]
fn combine_with_missing_ingredient_still_yields_result() {
    let mut inv = Inventory::default();
    inv.add_item("a", "A", "");
    inv.combination_recipes.push(recipe("a", "b", "c", "C"));
    assert_eq!(inv.combine("a", "b").as_deref(), Some("C"));
    assert!(!inv.has_item("a"));
    assert!(inv.has_item("c"));
}

#[test]
fn collect_item_adds_and_reports_last() {
    let mut inv = Inventory::default();
    let mut fb = FeedbackText::default();
    collect_item(&Vec::new(), &mut inv, &mut fb);
    assert!(fb.0.is_empty());
    let events = vec![
        ItemPickedUp { item_id: "lens".into(), name: "Lens".into() },
        ItemPickedUp { item_id: "frame".into(), name: "Frame".into() },
        ItemPickedUp { item_id: "lens".into(), name: "Lens".into() },
    ];
    collect_item(&events, &mut inv, &mut fb);
    assert_eq!(fb.0, "You pick up the Lens.");
    assert_eq!(
        snapshot(&inv),
        vec![
            ("lens".to_string(), "Lens".to_string(), "".to_string(), 2),
            ("frame".to_string(), "Frame".to_string(), "".to_string(), 1),
        ]
    );
}

#[test]
fn recipes_load_once_when_ready() {
    let book = RecipeBook {
        recipes: vec![RecipeDef {
            item_a: "lens".into(),
            item_b: "frame".into(),
            result_id: "magnifying_glass".into(),
            result_name: "Magnifying Glass".into(),
            result_description: "A small magnifying glass.".into(),
        }],
    };
    let mut inv = Inventory::default();
    let mut loaded = false;
    load_recipes_from_data(&mut inv, &mut loaded, false, Some(&book));
    assert!(!loaded);
    assert!(inv.combination_recipes.is_empty());
    load_recipes_from_data(&mut inv, &mut loaded, true, None);
    assert!(!loaded);
    load_recipes_from_data(&mut inv, &mut loaded, true, Some(&book));
    assert!(loaded);
    assert_eq!(inv.combination_recipes.len(), 1);
    assert_eq!(inv.combination_recipes[0].result_id, "magnifying_glass");
    load_recipes_from_data(&mut inv, &mut loaded, true, Some(&book));
    assert_eq!(inv.combination_recipes.len(), 1);
}

#[test]
fn overflow_checks_match_what_fits() {
    let mut inv = Inventory::default();
    inv.add_item("lens", "Lens", "");
    inv.add_item("frame", "Frame", "");
    inv.add_item("glasses", "Glasses", "");
    inv.combination_recipes.push(recipe("lens", "frame", "glasses", "Glasses"));
    assert!(inv.has_room_for("glasses"));
    assert!(inv.can_combine_items("frame", "lens"));
    assert!(inv.can_combine_items("lens", "nothing"));
    inv.items[2].qty = u32::MAX;
    assert!(!inv.has_room_for("glasses"));
    assert!(inv.has_room_for("unknown"));
    assert!(!inv.can_combine_items("lens", "frame"));
    // A recipe whose result is one of the ingredients frees a unit first.
    inv.combination_recipes.insert(0, recipe("glasses", "lens", "glasses", "Glasses"));
    assert!(inv.can_combine_items("glasses", "lens"));

    let pick = |id: &str| ItemPickedUp { item_id: id.into(), name: id.into() };
    assert!(can_collect_items(&vec![pick("lens"), pick("lens")], &inv));
    assert!(!can_collect_items(&vec![pick("lens"), pick("glasses")], &inv));
    inv.items[0].qty = u32::MAX - 1;
    assert!(can_collect_items(&vec![pick("lens")], &inv));
    assert!(!can_collect_items(&vec![pick("lens"), pick("frame"), pick("lens")], &inv));
}
