use client_ui::crafting::{distinct_sections, selected_category};
use client_ui::crafting::{
    build_categories, order_recipe_rows, plan_recipe_rows, recipe_discovered, recipes_for_category,
    section_display_name, section_sort_key, Ingredient, Recipe,
};
use client_ui::station::{
    anvil_empty_message, anvil_recipes, batch_text, block_text, craft_block, craft_skill, crafting_tab_visible,
    footer_hints, furnace_info_line, furnace_recipes, ingredient_line, ingredient_summary, level_requirement_line,
    pulsing_label, quantity_label, quantity_mode, skill_name, station_can_craft, tool_display, tool_requirement_line,
    Check, CraftBlock, CraftCheck, CraftSkill, IngredientStock, QuantityMode, craft_button_offered, category_tabs_shown,
};
use client_ui::order::{stable_order, RankKey};

fn recipe(id: &str, name: &str, category: &str, section: Option<&str>, station: Option<&str>, level: i32, discovery: bool) -> Recipe {
    Recipe {
        id: id.to_string(),
        display_name: name.to_string(),
        category: category.to_string(),
        section: section.map(|s| s.to_string()),
        station: station.map(|s| s.to_string()),
        level_required: level,
        requires_discovery: discovery,
        ingredients: vec![Ingredient { item_id: "ore".to_string(), count: 1 }],
    }
}

#[test]
fn section_keys_and_names() {
    assert_eq!(section_sort_key("materials"), 0);
    assert_eq!(section_sort_key("equipment"), 1);
    assert_eq!(section_sort_key("scrolls"), 3);
    assert_eq!(section_sort_key("cooking"), 0);
    assert_eq!(section_sort_key("misc"), 99);
    assert_eq!(section_sort_key(""), 99);
    assert_eq!(section_display_name("stat_buffs"), "Stat Buffs");
    assert_eq!(section_display_name("mystery"), "mystery");
}

#[test]
fn categories_group_supplies_sorted_unique() {
    let recipes = vec![
        recipe("a", "A", "smithing", None, None, 1, false),
        recipe("b", "B", "materials", None, None, 1, false),
        recipe("c", "C", "consumables", None, None, 1, false),
        recipe("d", "D", "alchemy", None, None, 1, false),
        recipe("e", "E", "smithing", None, None, 1, false),
    ];
    assert_eq!(build_categories(&recipes), vec!["alchemy".to_string(), "smithing".to_string(), "supplies".to_string()]);
    assert_eq!(build_categories(&[]), Vec::<String>::new());
    assert_eq!(recipes_for_category(&recipes, "supplies"), vec![1, 2]);
    assert_eq!(recipes_for_category(&recipes, "smithing"), vec![0, 4]);
    assert_eq!(recipes_for_category(&recipes, "materials"), vec![1]);
}

#[test]
fn recipe_rows_sorted_by_section_level_name() {
    let recipes = vec![
        recipe("r0", "Zeta", "smithing", Some("equipment"), None, 5, false),
        recipe("r1", "Alpha", "smithing", Some("materials"), None, 10, false),
        recipe("r2", "Beta", "smithing", Some("materials"), None, 1, false),
        recipe("r3", "Alpha", "smithing", Some("equipment"), None, 5, false),
        recipe("r4", "Odd", "smithing", None, None, 1, false),
    ];
    let rows = vec![0, 1, 2, 3, 4];
    let order = order_recipe_rows(&recipes, &rows);
    let ids: Vec<&str> = order.iter().map(|&k| recipes[rows[k]].id.as_str()).collect();
    assert_eq!(ids, vec!["r2", "r1", "r3", "r0", "r4"]);
}

#[test]
fn recipe_rows_headers_and_selection() {
    let sections = vec!["materials".to_string(), "materials".to_string(), "".to_string(), "equipment".to_string(), "materials".to_string()];
    let known = vec![true, false, true, true, true];
    let rows = plan_recipe_rows(&sections, &known);
    let headers: Vec<bool> = rows.iter().map(|r| r.header).collect();
    let selectable: Vec<Option<usize>> = rows.iter().map(|r| r.selectable).collect();
    assert_eq!(headers, vec![true, false, false, true, true]);
    assert_eq!(selectable, vec![Some(0), None, Some(1), Some(2), Some(3)]);
}

#[test]
fn discovery_rules() {
    let known = vec!["secret".to_string()];
    assert!(recipe_discovered(&recipe("plain", "P", "c", None, None, 1, false), &known));
    assert!(recipe_discovered(&recipe("secret", "S", "c", None, None, 1, true), &known));
    assert!(!recipe_discovered(&recipe("hidden", "H", "c", None, None, 1, true), &known));
}

#[test]
fn stable_order_keeps_ties_in_place() {
    let keys = vec![
        RankKey { major: 1, minor: 0, name: "b".to_string() },
        RankKey { major: 0, minor: 5, name: "z".to_string() },
        RankKey { major: 1, minor: 0, name: "b".to_string() },
        RankKey { major: 0, minor: -5, name: "z".to_string() },
    ];
    assert_eq!(stable_order(&keys), vec![3, 1, 0, 2]);
}

#[test]
fn anvil_lists_section_by_level_stable() {
    let known = vec!["known".to_string()];
    let recipes = vec![
        recipe("a", "A", "smithing", Some("materials"), Some("anvil"), 5, false),
        recipe("b", "B", "smithing", Some("equipment"), Some("anvil"), 1, false),
        recipe("c", "C", "smithing", Some("materials"), Some("anvil"), 1, false),
        recipe("d", "D", "smithing", Some("materials"), Some("furnace"), 1, false),
        recipe("e", "E", "smithing", Some("materials"), Some("anvil"), 5, false),
        recipe("hidden", "H", "smithing", Some("materials"), Some("anvil"), 1, true),
        recipe("known", "K", "smithing", Some("materials"), Some("anvil"), 3, true),
    ];
    let list = anvil_recipes(&recipes, 0, &known);
    assert_eq!(list, vec![2, 6, 0, 4]);
    let list = anvil_recipes(&recipes, 1, &known);
    assert_eq!(list, vec![1]);
    assert_eq!(furnace_recipes(&recipes, &known), vec![3]);
    assert_eq!(anvil_empty_message(0), "No material recipes available");
    assert_eq!(anvil_empty_message(1), "No equipment recipes available");
}

#[test]
fn station_craft_checks() {
    let ok = vec![IngredientStock { count: 2, have: 3 }];
    let short = vec![IngredientStock { count: 2, have: 1 }];
    assert!(station_can_craft(&ok, 1, Some(1)));
    assert!(!station_can_craft(&short, 1, Some(99)));
    assert!(!station_can_craft(&ok, 10, Some(9)));
    assert!(station_can_craft(&ok, 10, Some(10)));
    assert!(station_can_craft(&ok, 10, None));
}

#[test]
fn ingredient_and_info_texts() {
    let parts = vec![(2, "Copper Ore".to_string()), (1, "Tin Ore".to_string())];
    assert_eq!(ingredient_summary(&parts, ", "), "2x Copper Ore, 1x Tin Ore");
    assert_eq!(ingredient_summary(&parts, " + "), "2x Copper Ore + 1x Tin Ore");
    assert_eq!(ingredient_summary(&vec![], " + "), "");
    assert_eq!(furnace_info_line(5, 12, Some("2s")), "Lv5 · 12xp · 2s");
    assert_eq!(furnace_info_line(1, 0, None), "");
    assert_eq!(furnace_info_line(1, 8, Some("1.5s")), "8xp · 1.5s");
}

#[test]
fn quantity_controls() {
    assert_eq!(quantity_mode(1), QuantityMode::One);
    assert_eq!(quantity_mode(u32::MAX), QuantityMode::All);
    assert_eq!(quantity_mode(5), QuantityMode::Custom);
    assert_eq!(quantity_label(u32::MAX), "All");
    assert_eq!(quantity_label(14), "x14");
    assert_eq!(batch_text(2, 5), Some("2/5".to_string()));
    assert_eq!(batch_text(1, 1), None);
}

#[test]
fn pulsing_labels_cycle() {
    assert_eq!(pulsing_label("SMITHING", 0), "SMITHING");
    assert_eq!(pulsing_label("SMITHING", 1), "SMITHING.");
    assert_eq!(pulsing_label("SMITHING", 6), "SMITHING..");
    assert_eq!(pulsing_label("SMITHING", 7), "SMITHING...");
    assert_eq!(pulsing_label("SMITHING", -1), "SMITHING...");
    assert_eq!(pulsing_label("SMITHING", -4), "SMITHING");
}

#[test]
fn crafting_detail_texts() {
    assert_eq!(craft_skill("fletching"), CraftSkill::Survivalist);
    assert_eq!(craft_skill("weapons"), CraftSkill::Combat);
    assert_eq!(skill_name(CraftSkill::Alchemy), "Alchemy");
    assert_eq!(level_requirement_line("smithing", 1, Some(50)), None);
    assert_eq!(
        level_requirement_line("smithing", 10, Some(12)),
        Some(("[OK] Requires Smithing Level 10".to_string(), Check::Met))
    );
    assert_eq!(
        level_requirement_line("cooking", 10, Some(2)),
        Some(("[!!] Requires Survivalist Level 10".to_string(), Check::Failed))
    );
    assert_eq!(
        level_requirement_line("magic", 4, None),
        Some(("[??] Requires Combat Level 4".to_string(), Check::Unknown))
    );
    assert_eq!(tool_display("knife"), "Knife");
    assert_eq!(tool_display("hammer"), "hammer");
    assert_eq!(tool_requirement_line("knife", true), "[OK] Requires: Knife");
    assert_eq!(tool_requirement_line("saw", false), "[!!] Requires: saw");
    assert_eq!(ingredient_line("Logs", 3, 2), "[+] Logs (3/2)");
    assert_eq!(ingredient_line("Logs", 1, 2), "[-] Logs (1/2)");
}

#[test]
fn craft_block_order() {
    let stock = vec![IngredientStock { count: 1, have: 0 }];
    let check = |level_required, player_level, needs_tool, has_tool, free_slots, ingredients: &Vec<IngredientStock>| {
        craft_block(&CraftCheck {
            level_required,
            player_level,
            needs_tool,
            has_tool,
            free_slots,
            ingredients: ingredients.iter().map(|i| IngredientStock { count: i.count, have: i.have }).collect(),
        })
    };
    assert_eq!(check(5, Some(1), true, false, 0, &stock), Some(CraftBlock::RequirementsNotMet));
    assert_eq!(check(5, None, true, false, 0, &stock), Some(CraftBlock::MissingTool));
    assert_eq!(check(1, Some(1), false, false, 0, &stock), Some(CraftBlock::InventoryFull));
    assert_eq!(check(1, Some(1), false, false, 3, &stock), Some(CraftBlock::MissingMaterials));
    assert_eq!(check(1, Some(1), false, false, 3, &vec![]), None);
    assert_eq!(block_text(CraftBlock::InventoryFull), "Inventory Full");
}

#[test]
fn crafting_footer_and_tabs() {
    assert_eq!(footer_hints(0, true, 3), vec!["[Esc] Cancel"]);
    assert_eq!(footer_hints(0, false, 2), vec!["[Q] Tab", "[A/D] Category", "[W/S] Select", "[C] Craft"]);
    assert_eq!(footer_hints(0, false, 1), vec!["[Q] Tab", "[W/S] Select", "[C] Craft"]);
    assert_eq!(footer_hints(1, false, 1), vec!["[Q] Tab", "[Tab] Buy/Sell", "[W/S] Select", "[+/-] Qty"]);
    assert!(crafting_tab_visible(None));
    assert!(!crafting_tab_visible(Some(false)));
}

#[test]
fn selected_category_falls_back() {
    let cats = vec!["alchemy".to_string(), "smithing".to_string()];
    assert_eq!(selected_category(&cats, 1), "smithing");
    assert_eq!(selected_category(&cats, 9), "smithing");
    assert_eq!(selected_category(&vec![], 0), "supplies");
    let sections = vec!["materials".to_string(), "".to_string(), "equipment".to_string(), "materials".to_string()];
    assert_eq!(distinct_sections(&sections), vec!["equipment".to_string(), "materials".to_string()]);
}

#[test]
fn every_recipe_on_exactly_one_tab() {
    let recipes = vec![
        recipe("a", "A", "smithing", None, None, 1, false),
        recipe("b", "B", "materials", None, None, 1, false),
        recipe("c", "C", "consumables", None, None, 1, false),
        recipe("d", "D", "alchemy", None, None, 1, false),
    ];
    let tabs = build_categories(&recipes);
    for i in 0..recipes.len() {
        let homes: Vec<&String> = tabs.iter().filter(|t| recipes_for_category(&recipes, t).contains(&i)).collect();
        assert_eq!(homes.len(), 1);
    }
    // A recipe whose category is literally "supplies" gets the tab but is not listed on it.
    let odd = vec![recipe("s", "S", "supplies", None, None, 1, false)];
    assert_eq!(build_categories(&odd), vec!["supplies".to_string()]);
    assert!(recipes_for_category(&odd, "supplies").is_empty());
}

#[test]
fn categories_ignore_order_and_repeats() {
    let one = vec![
        recipe("a", "A", "smithing", None, None, 1, false),
        recipe("b", "B", "materials", None, None, 1, false),
        recipe("d", "D", "alchemy", None, None, 1, false),
    ];
    let other = vec![
        recipe("d", "D", "alchemy", None, None, 1, false),
        recipe("c", "C", "consumables", None, None, 1, false),
        recipe("a", "A", "smithing", None, None, 1, false),
        recipe("a2", "A2", "smithing", None, None, 1, false),
    ];
    assert_eq!(build_categories(&one), build_categories(&other));
    let tabs = build_categories(&other);
    assert!(!tabs.contains(&"materials".to_string()));
    assert!(!tabs.contains(&"consumables".to_string()));
}

#[test]
fn tabs_list_every_recipe_once() {
    let recipes = vec![
        recipe("a", "A", "smithing", None, None, 1, false),
        recipe("b", "B", "materials", None, None, 1, false),
        recipe("c", "C", "consumables", None, None, 1, false),
        recipe("d", "D", "alchemy", None, None, 1, false),
        recipe("e", "E", "smithing", None, None, 1, false),
    ];
    let tabs = build_categories(&recipes);
    let mut total = 0;
    for t in &tabs {
        let listed = recipes_for_category(&recipes, t);
        assert!(!listed.is_empty());
        total += listed.len();
    }
    assert_eq!(total, recipes.len());
}

#[test]
fn craft_button_only_without_a_block() {
    let ok = CraftCheck { level_required: 1, player_level: Some(1), needs_tool: false, has_tool: false, free_slots: 2, ingredients: vec![] };
    assert!(craft_button_offered(&ok));
    let full = CraftCheck { level_required: 1, player_level: Some(1), needs_tool: false, has_tool: false, free_slots: 0, ingredients: vec![] };
    assert!(!craft_button_offered(&full));
    let short = CraftCheck {
        level_required: 1,
        player_level: None,
        needs_tool: false,
        has_tool: false,
        free_slots: 2,
        ingredients: vec![IngredientStock { count: 2, have: 1 }],
    };
    assert!(!craft_button_offered(&short));
}

#[test]
fn category_tabs_only_with_a_choice() {
    assert!(!category_tabs_shown(0));
    assert!(!category_tabs_shown(1));
    assert!(category_tabs_shown(2));
}
