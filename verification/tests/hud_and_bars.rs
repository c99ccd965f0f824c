use client_ui::panels::inventory_badge;
use client_ui::character::equipment_slots;
use client_ui::hud::{
    boss_bar, boss_hp_text, boss_name, enemies_text, exp_bar_text, game_over_title, koth_phase, labelled_number,
    points_text, prayer_slot_look, prayer_status_text, reward_line, skill_letter, skill_tooltip_lines, skills_header,
    BossBar, KothPhase, PrayerLook, SkillType, skill_grid, skill_in_slot, SKILL_GRID_COLS, TOTAL_SKILL_SLOTS,
};
use client_ui::panels::{chest_title, dialogue_buttons};
use client_ui::settings::{segment_look, settings_toggles, toggle_cell, toggle_look, zoom_labels, Shade, ToggleId, ToggleState};
use client_ui::hotbar::{
    clearable, item_quantity, mobile_slots_hidden, quantity_badge, quick_slot_state, slot_number, slot_view, spell_letter,
    HotkeyBinding, InvSlot, OpenPanels, SlotView, SpellInfo,
};
use client_ui::panels::{captioned_gold, choice_number, gear_slots, ground_item_label, menu_buttons, quantity_text, MenuButton, MenuFlags, MenuIcon};
use client_ui::common::SlotState;

#[test]
fn hud_texts() {
    assert_eq!(exp_bar_text(None), "Combat Lv: 3  |  Total Lv: 23");
    assert_eq!(exp_bar_text(Some((40, 210))), "Combat Lv: 40  |  Total Lv: 210");
    assert_eq!(skills_header(None), "Skills (Cmb: 3)");
    assert_eq!(skills_header(Some(12)), "Skills (Cmb: 12)");
    assert_eq!(
        skill_tooltip_lines(7, 12345, 15000, 2655),
        vec!["Level: 7".to_string(), "XP: 12,345 / 15,000".to_string(), "To next: 2,655 XP".to_string()]
    );
    assert_eq!(skill_letter(SkillType::Woodcutting), "Wc");
    assert_eq!(points_text(4, 10), "4/10");
    assert_eq!(boss_name("reaper"), "The Reaper");
    assert_eq!(boss_name("anything"), "Desert Wurm");
    assert_eq!(boss_bar("storm"), BossBar::Storm);
    assert_eq!(boss_bar("calm"), BossBar::Other);
    assert_eq!(boss_hp_text(50, 200), "50 / 200");
}

#[test]
fn prayer_slots() {
    assert_eq!(prayer_slot_look(1, 5, true, true, true), PrayerLook::Locked);
    assert_eq!(prayer_slot_look(5, 5, true, true, true), PrayerLook::Active);
    assert_eq!(prayer_slot_look(5, 5, false, true, true), PrayerLook::Hovered);
    assert_eq!(prayer_slot_look(5, 5, false, true, false), PrayerLook::Normal);
    assert_eq!(prayer_status_text(1, 9, false), "Requires level 9");
    assert_eq!(prayer_status_text(9, 9, true), "Active");
    assert_eq!(prayer_status_text(9, 9, false), "Click to activate");
}

#[test]
fn king_of_the_hill_texts() {
    assert_eq!(koth_phase("wave_complete"), KothPhase::WaveComplete);
    assert_eq!(koth_phase("lobby"), KothPhase::Other);
    assert_eq!(enemies_text(3, 10), "Enemies: 7/10");
    assert_eq!(labelled_number("Wave ", 4), "Wave 4");
    assert_eq!(labelled_number("Points: ", 120), "Points: 120");
    assert_eq!(reward_line("Gold Bar", 2), "Gold Bar x2");
    assert_eq!(game_over_title(false), "Defeated!");
}

#[test]
fn settings_toggle_grid() {
    let st = ToggleState { classic_controls: true, chat_log_visible: true, chat_log_background: false, tap_to_pathfind: true, use_joystick: false };
    let desktop = settings_toggles(false, &st);
    assert_eq!(
        desktop.iter().map(|t| (t.id, t.label, t.on)).collect::<Vec<_>>(),
        vec![
            (ToggleId::ControlScheme, "Modern", false),
            (ToggleId::ChatLog, "Chat", true),
            (ToggleId::ChatBackground, "Chat BG", false),
            (ToggleId::TapPathfind, "Click walk", true),
        ]
    );
    let phone = settings_toggles(true, &st);
    assert_eq!(phone.iter().map(|t| t.label).collect::<Vec<_>>(), vec!["Chat", "Tap walk", "Joystick"]);
    assert_eq!(toggle_cell(3), (1, 1));
    assert_eq!(toggle_cell(4), (0, 2));
    let l = toggle_look(true, true);
    assert_eq!((l.border, l.background, l.bright_label, l.check), (Shade::Lit, Shade::Hover, true, true));
    let l = toggle_look(false, false);
    assert_eq!((l.border, l.background, l.bright_label, l.check), (Shade::Plain, Shade::Plain, false, false));
    assert_eq!(segment_look(false, true), Shade::Hover);
    assert_eq!(zoom_labels(), vec!["0.5x", "1x", "2x"]);
}

#[test]
fn quick_slot_views() {
    let inv = vec![None, Some(InvSlot { item_id: "potion".to_string(), quantity: 3 }), Some(InvSlot { item_id: "potion".to_string(), quantity: 9 })];
    assert_eq!(item_quantity(&inv, "potion"), Some(3));
    assert_eq!(item_quantity(&inv, "rope"), None);
    let builtin = vec![SpellInfo { id: "fire".to_string(), name: "Fire".to_string(), mana_cost: 5 }];
    let scrolls = vec![
        SpellInfo { id: "fire".to_string(), name: "Scroll Fire".to_string(), mana_cost: 1 },
        SpellInfo { id: "tele".to_string(), name: "Teleport".to_string(), mana_cost: 20 },
    ];
    match slot_view(&HotkeyBinding::Spell { spell_id: "fire".to_string() }, &inv, &builtin, &scrolls, 4) {
        SlotView::Spell { name, mana_cost, short_of_mana } => assert_eq!((name.as_str(), mana_cost, short_of_mana), ("Fire", 5, true)),
        _ => panic!("expected a spell"),
    }
    match slot_view(&HotkeyBinding::Spell { spell_id: "tele".to_string() }, &inv, &builtin, &scrolls, 40) {
        SlotView::Spell { name, short_of_mana, .. } => assert_eq!((name.as_str(), short_of_mana), ("Teleport", false)),
        _ => panic!("expected a spell"),
    }
    assert!(matches!(slot_view(&HotkeyBinding::Spell { spell_id: "gone".to_string() }, &inv, &builtin, &scrolls, 40), SlotView::UnknownSpell));
    assert!(matches!(slot_view(&HotkeyBinding::Item { item_id: "rope".to_string() }, &inv, &builtin, &scrolls, 0), SlotView::Item { quantity: None }));
    assert!(matches!(slot_view(&HotkeyBinding::Empty, &inv, &builtin, &scrolls, 0), SlotView::Empty));
    assert_eq!(quantity_badge(Some(3)), Some("3".to_string()));
    assert_eq!(quantity_badge(Some(1)), None);
    assert_eq!(quantity_badge(None), None);
    assert_eq!(slot_number(0), "1");
    assert_eq!(spell_letter("Fire"), "F");
    assert_eq!(quick_slot_state(true), SlotState::Hovered);
    assert!(clearable(&HotkeyBinding::Item { item_id: "x".to_string() }));
    assert!(!clearable(&HotkeyBinding::Empty));
}

#[test]
fn mobile_slots_hide_behind_panels() {
    let closed = OpenPanels {
        inventory: false, character: false, skills: false, prayer_book: false, escape_menu: false, quest_log: false,
        social: false, chat: false, crafting: false, furnace: false, anvil: false, fletching: false, bank: false,
        chest: false, shop: false, dialogue: false,
    };
    assert!(!mobile_slots_hidden(&closed));
    let with_bank = OpenPanels { bank: true, ..closed };
    assert!(mobile_slots_hidden(&with_bank));
}

#[test]
fn small_panels() {
    let f = MenuFlags {
        inventory_open: true, character_open: false, skills_open: false, prayer_book_open: true, spell_tab: true,
        quest_log_open: false, social_open: false, settings_open: false,
    };
    let b = menu_buttons(&f);
    assert_eq!(b.len(), 7);
    assert_eq!(b[0], (MenuButton::Inventory, MenuIcon::Inventory, true));
    assert_eq!(b[3], (MenuButton::Prayer, MenuIcon::Magic, true));
    assert_eq!(gear_slots()[8], ("feet", 1, 4));
    assert_eq!(choice_number(0), "[1]");
    assert_eq!(ground_item_label("Coins", 12), "Coins (x12)");
    assert_eq!(ground_item_label("Sword", 1), "Sword");
    assert_eq!(captioned_gold("Total Value: ", 120), "Total Value: 120g");
    assert_eq!(quantity_text(4), "x4");
}

#[test]
fn inventory_badges_on_first_five() {
    assert_eq!(inventory_badge(0), Some("1".to_string()));
    assert_eq!(inventory_badge(4), Some("5".to_string()));
    assert_eq!(inventory_badge(5), None);
}

#[test]
fn equipment_cells_are_distinct() {
    let cells: Vec<(u8, u8)> = equipment_slots().iter().map(|s| (s.1, s.2)).collect();
    for (a, ca) in cells.iter().enumerate() {
        for cb in cells.iter().skip(a + 1) {
            assert_ne!(ca, cb);
        }
    }
}

#[test]
fn skills_grid_slots() {
    let grid = skill_grid();
    assert_eq!(grid.len(), TOTAL_SKILL_SLOTS);
    for (i, slot) in grid.iter().enumerate() {
        assert_eq!(slot.row, i / SKILL_GRID_COLS);
        assert_eq!(slot.col, i % SKILL_GRID_COLS);
    }
    assert_eq!(grid[0].skill, Some(SkillType::Hitpoints));
    assert_eq!(grid[3].skill, Some(SkillType::Woodcutting));
    assert_eq!(grid[10].skill, Some(SkillType::Slayer));
    assert_eq!(grid[11].skill, None);
    assert_eq!(grid.iter().filter(|slot| slot.skill.is_some()).count(), 11);
    assert_eq!(grid[5].row, 1);
    assert_eq!(grid[5].col, 2);
    assert_eq!(skill_in_slot(2), Some(SkillType::Fishing));
    assert_eq!(skill_in_slot(11), None);
    assert_eq!(skill_in_slot(12), None);
}

#[test]
fn chest_title_in_upper_case() {
    assert_eq!(chest_title("Bank chest"), "BANK CHEST");
}

#[test]
fn dialogue_fixed_buttons() {
    let asking = dialogue_buttons(3);
    assert!(asking.close && !asking.continue_button);
    let talking = dialogue_buttons(0);
    assert!(!talking.close && talking.continue_button);
}
