use client_ui::context_menu::{plan_context_menu, push_option, MenuGroundItem, MenuItem, MenuMarker, MenuNpc, MenuOption, MenuTarget};
use client_ui::quest::{
    find_active, quest_detail, quest_detail_has_back, quest_detail_notice, QuestDetail, level_requirement_text, objective_line, objective_progress, quest_count_text, quest_log_rows,
    quest_reward_text, quest_status, required_quest_tone, tracker_lines, ActiveQuest, CatalogObjective, QuestEntry,
    QuestObjective, QuestStatus, RequirementTone, TrackerKind,
};
use client_ui::guide::{
    guide_elements, speaker_title, GuideElement,
    guide_tiers, is_adventurer_guide_dialogue, tier_objective_line, tier_objective_progress, tier_progress_text,
    tier_reward_text, tier_status_text, tier_statuses, TierStatus,
};

fn labels(t: &MenuTarget) -> Option<(String, Vec<String>, bool)> {
    plan_context_menu(t).map(|p| {
        for (k, o) in p.options.iter().enumerate() {
            assert_eq!(o.id, k);
        }
        (p.title, p.options.into_iter().map(|o| o.label).collect(), p.hotkey_assign)
    })
}

fn npc(attackable: bool, altar: bool, station: bool, merchant: bool, banker: bool, slayer: bool) -> MenuTarget {
    MenuTarget::Npc {
        npc: Some(MenuNpc {
            name: "Bob".to_string(),
            attackable,
            is_altar: altar,
            has_station: station,
            is_merchant: merchant,
            is_banker: banker,
            is_slayer_master: slayer,
        }),
    }
}

#[test]
fn push_option_numbers_by_position() {
    let mut v: Vec<MenuOption> = Vec::new();
    push_option(&mut v, "Drop");
    push_option(&mut v, "Examine");
    assert_eq!(v[0].id, 0);
    assert_eq!(v[1].id, 1);
    assert_eq!(v[1].label, "Examine");
}

#[test]
fn context_menu_item_options() {
    let t = MenuTarget::InventorySlot { item: Some(MenuItem { item_id: "dragon_bones".to_string(), is_equipment: false }) };
    assert_eq!(labels(&t), Some(("Item".to_string(), vec!["Bury".to_string(), "Drop".to_string()], true)));
    let t = MenuTarget::InventorySlot { item: Some(MenuItem { item_id: "iron_sword".to_string(), is_equipment: true }) };
    assert_eq!(labels(&t).unwrap().1, vec!["Equip".to_string(), "Drop".to_string()]);
    let t = MenuTarget::InventorySlot { item: None };
    assert_eq!(labels(&t).unwrap().1, vec!["Drop".to_string()]);
}

#[test]
fn context_menu_npc_options() {
    assert_eq!(labels(&npc(true, true, true, true, true, true)).unwrap().1, vec!["Attack", "Target", "Examine"]);
    assert_eq!(labels(&npc(false, true, false, false, false, false)).unwrap().1, vec!["Pray", "Offer Bones", "Examine"]);
    assert_eq!(labels(&npc(false, false, true, true, false, false)).unwrap().1, vec!["Use", "Examine"]);
    assert_eq!(labels(&npc(false, false, false, true, false, false)).unwrap().1, vec!["Talk-to", "Trade", "Examine"]);
    assert_eq!(labels(&npc(false, false, false, false, true, false)).unwrap().1, vec!["Bank", "Examine"]);
    assert_eq!(labels(&npc(false, false, false, false, false, true)).unwrap().1, vec!["Get Task", "Examine"]);
    assert_eq!(labels(&npc(false, false, false, false, false, false)).unwrap().0, "Bob");
    assert_eq!(labels(&MenuTarget::Npc { npc: None }), Some(("NPC".to_string(), vec!["Examine".to_string()], false)));
}

#[test]
fn context_menu_world_targets() {
    assert_eq!(labels(&MenuTarget::Tree { kind_name: Some("Oak".to_string()) }).unwrap().0, "Oak Tree");
    assert_eq!(labels(&MenuTarget::Rock { ore_name: None }).unwrap(), ("Rock".to_string(), vec!["Mine".to_string(), "Examine".to_string()], false));
    let spot = MenuTarget::GatheringSpot { marker: Some(MenuMarker { skill: "fishing".to_string(), zone_id: "Lake".to_string() }) };
    assert_eq!(labels(&spot).unwrap(), ("Lake".to_string(), vec!["Fish".to_string(), "Examine".to_string()], false));
    let spot = MenuTarget::GatheringSpot { marker: Some(MenuMarker { skill: "herbs".to_string(), zone_id: "Field".to_string() }) };
    assert_eq!(labels(&spot).unwrap().1, vec!["Gather", "Examine"]);
    let ground = MenuTarget::GroundItem { ground: Some(MenuGroundItem { display_name: "Coins".to_string(), quantity: 25 }) };
    assert_eq!(labels(&ground).unwrap().0, "Coins (25)");
    let ground = MenuTarget::GroundItem { ground: Some(MenuGroundItem { display_name: "Logs".to_string(), quantity: 1 }) };
    assert_eq!(labels(&ground).unwrap().0, "Logs");
    let patch = MenuTarget::FarmingPatch { patch_state: Some("harvestable".to_string()) };
    assert_eq!(labels(&patch).unwrap().1, vec!["Harvest", "Examine"]);
    let patch = MenuTarget::FarmingPatch { patch_state: Some("growing".to_string()) };
    assert_eq!(labels(&patch).unwrap().1, vec!["Examine"]);
    assert_eq!(labels(&MenuTarget::Tile).unwrap().1, vec!["Walk here"]);
    assert_eq!(labels(&MenuTarget::HotkeySlot).unwrap().0, "Hotkey Slot");
    assert_eq!(labels(&MenuTarget::Player { name: None }).unwrap().1, vec!["Attack", "Follow", "Add Friend", "Examine"]);
    assert_eq!(labels(&MenuTarget::Gold).unwrap().1, vec!["Drop"]);
    assert_eq!(labels(&MenuTarget::EquipmentSlot).unwrap(), ("Equipment".to_string(), vec!["Unequip".to_string()], false));
}

#[test]
fn context_menu_spell_has_only_hotkey_row() {
    assert_eq!(labels(&MenuTarget::Spell { name: Some("Fireball".to_string()) }), Some(("Fireball".to_string(), vec![], true)));
    assert_eq!(labels(&MenuTarget::Spell { name: None }).unwrap().0, "Spell");
}

fn quest(id: &str, name: &str, objectives: Vec<QuestObjective>) -> ActiveQuest {
    ActiveQuest { id: id.to_string(), name: name.to_string(), objectives }
}

fn objective(id: &str, description: &str, current: i32, target: i32, completed: bool) -> QuestObjective {
    QuestObjective { id: id.to_string(), description: description.to_string(), current, target, completed }
}

fn entry(id: &str, name: &str) -> QuestEntry {
    QuestEntry { quest_id: id.to_string(), name: name.to_string(), objectives: vec![] }
}

#[test]
fn quest_status_prefers_completed() {
    let done = vec!["q1".to_string()];
    let active = vec![quest("q1", "One", vec![]), quest("q2", "Two", vec![])];
    assert_eq!(quest_status("q1", &done, &active), QuestStatus::Completed);
    assert_eq!(quest_status("q2", &done, &active), QuestStatus::InProgress);
    assert_eq!(quest_status("q3", &done, &active), QuestStatus::NotStarted);
    assert_eq!(find_active(&active, "q2"), Some(1));
    assert_eq!(find_active(&active, "zz"), None);
}

#[test]
fn quest_log_order() {
    let catalog = vec![entry("a", "Wolves"), entry("b", "Apples"), entry("c", "Bandits"), entry("d", "Crows"), entry("e", "Apples")];
    let done = vec!["a".to_string()];
    let active = vec![quest("c", "Bandits", vec![])];
    let rows = quest_log_rows(&catalog, &done, &active);
    let order: Vec<usize> = rows.iter().map(|r| r.catalog_index).collect();
    assert_eq!(order, vec![2, 1, 4, 3, 0]);
    assert_eq!(rows[0].status, QuestStatus::InProgress);
    assert_eq!(rows[4].status, QuestStatus::Completed);
    assert_eq!(quest_count_text(1, 5), "1 / 5 Complete");
}

#[test]
fn quest_objective_progress_sources() {
    let cat = CatalogObjective { id: "o1".to_string(), description: "Kill".to_string(), target: 10 };
    let aq = quest("q", "Q", vec![objective("o0", "x", 1, 2, false), objective("o1", "Kill", 4, 12, false)]);
    let p = objective_progress(&cat, Some(&aq), true);
    assert_eq!((p.current, p.target, p.completed), (4, 12, false));
    let other = quest("q", "Q", vec![]);
    let p = objective_progress(&cat, Some(&other), false);
    assert_eq!((p.current, p.target, p.completed), (0, 10, false));
    let p = objective_progress(&cat, None, true);
    assert_eq!((p.current, p.target, p.completed), (10, 10, true));
    let p = objective_progress(&cat, None, false);
    assert_eq!((p.current, p.target, p.completed), (0, 10, false));
    assert_eq!(objective_line("[+]", "Kill", 4, 12), "[+] Kill (4/12)");
}

#[test]
fn quest_tracker_lines() {
    assert!(tracker_lines(&[]).is_none());
    let quests = vec![
        quest("a", "First", vec![objective("x", "Do x", 1, 3, false), objective("y", "Do y", 2, 2, true)]),
        quest("b", "Second", vec![]),
        quest("c", "Third", vec![]),
        quest("d", "Fourth", vec![]),
    ];
    let lines = tracker_lines(&quests).unwrap();
    let view: Vec<(String, TrackerKind)> = lines.into_iter().map(|l| (l.text, l.kind)).collect();
    assert_eq!(
        view,
        vec![
            ("Quests".to_string(), TrackerKind::Header),
            ("First".to_string(), TrackerKind::QuestName),
            ("[ ] Do x (1/3)".to_string(), TrackerKind::ObjectivePending),
            ("[x] Do y (2/2)".to_string(), TrackerKind::ObjectiveDone),
            ("".to_string(), TrackerKind::Spacer),
            ("Second".to_string(), TrackerKind::QuestName),
            ("...and 2 more (Q to view)".to_string(), TrackerKind::More),
        ]
    );
    let one = vec![quest("a", "Only", vec![])];
    let lines = tracker_lines(&one).unwrap();
    assert_eq!(lines.len(), 2);
    assert_eq!(lines[1].kind, TrackerKind::QuestName);
}

#[test]
fn quest_misc_texts() {
    assert_eq!(quest_reward_text(150, 40), "+150 EXP  +40 Gold");
    assert_eq!(level_requirement_text(0), None);
    assert_eq!(level_requirement_text(7), Some("Level: 7".to_string()));
    let done = vec!["x".to_string()];
    assert_eq!(required_quest_tone(Some("x"), &done), RequirementTone::Met);
    assert_eq!(required_quest_tone(Some("y"), &done), RequirementTone::Unmet);
    assert_eq!(required_quest_tone(None, &done), RequirementTone::Plain);
}

#[test]
fn guide_dialogue_detection() {
    assert!(is_adventurer_guide_dialogue("Adventurer Guide"));
    assert!(is_adventurer_guide_dialogue("adventurer GUIDE"));
    assert!(!is_adventurer_guide_dialogue("Adventurer  Guide"));
    assert!(!is_adventurer_guide_dialogue("Guide"));
}

#[test]
fn guide_tier_unlocking() {
    let ids: Vec<&str> = guide_tiers().iter().map(|t| t.id).collect();
    assert_eq!(ids, vec!["adventurer_tier_1", "adventurer_tier_2", "adventurer_tier_3"]);
    assert_eq!(tier_statuses(&ids, &[], &[]), vec![TierStatus::Available, TierStatus::Locked, TierStatus::Locked]);
    let done = vec!["adventurer_tier_1".to_string()];
    let active = vec![quest("adventurer_tier_2", "T2", vec![])];
    assert_eq!(tier_statuses(&ids, &done, &active), vec![TierStatus::Completed, TierStatus::Active, TierStatus::Locked]);
    let active3 = vec![quest("adventurer_tier_3", "T3", vec![])];
    assert_eq!(tier_statuses(&ids, &[], &active3), vec![TierStatus::Available, TierStatus::Locked, TierStatus::Active]);
    assert_eq!(tier_status_text(TierStatus::Locked), "LOCKED");
}

#[test]
fn guide_objective_progress() {
    let tiers = guide_tiers();
    let o = &tiers[0].objectives[0];
    assert_eq!(tier_objective_progress(o, true, None), (8, 8, true));
    let q = quest("adventurer_tier_1", "T1", vec![objective("kill_crows", "x", 3, 8, false)]);
    let p = tier_objective_progress(o, false, Some(&q));
    assert_eq!(p, (3, 8, false));
    assert_eq!(tier_objective_line(o, p), "[ ] Defeat crows (3/8)");
    assert_eq!(tier_objective_progress(o, false, None), (0, 8, false));
    assert_eq!(tier_progress_text(1, 3), "Progress: 1/3");
    assert_eq!(tier_reward_text(tiers[2].reward_exp, tiers[2].reward_gold), "EXP: 700   Gold: 400");
}

#[test]
fn guide_elements_follow_the_dialogue() {
    let rows = vec![GuideElement::Close, GuideElement::Tier(0), GuideElement::Tier(1), GuideElement::Tier(2)];
    assert_eq!(guide_elements(0, "other_quest", 0), rows);
    let mut with_continue = rows.clone();
    with_continue.push(GuideElement::Continue);
    assert_eq!(guide_elements(0, "adventurer_tier_1", 0), with_continue);
    let mut with_choices = rows.clone();
    with_choices.push(GuideElement::Choice(0));
    with_choices.push(GuideElement::Choice(1));
    assert_eq!(guide_elements(9, "adventurer_tier_3", 2), with_choices);
    assert_eq!(guide_elements(1, "adventurer_tier_3", 2), rows);
}

#[test]
fn speaker_name_in_upper_case() {
    assert_eq!(speaker_title("Adventurer Guide"), "ADVENTURER GUIDE");
    assert_eq!(speaker_title("straße"), "STRASSE");
}

#[test]
fn quest_detail_lookup() {
    let catalog = vec![
        QuestEntry { quest_id: "q1".to_string(), name: "First".to_string(), objectives: vec![] },
        QuestEntry { quest_id: "q2".to_string(), name: "Second".to_string(), objectives: vec![] },
    ];
    assert_eq!(quest_detail(&catalog, None), QuestDetail::NoSelection);
    assert_eq!(quest_detail(&catalog, Some("q2")), QuestDetail::Entry(1));
    let missing = quest_detail(&catalog, Some("q9"));
    assert_eq!(missing, QuestDetail::NotFound);
    assert_eq!(quest_detail_notice(missing), Some("Quest not found"));
    assert!(!quest_detail_has_back(missing));
    assert!(quest_detail_has_back(QuestDetail::Entry(1)));
    assert_eq!(quest_detail_notice(QuestDetail::Entry(1)), None);
    assert_eq!(quest_detail_notice(QuestDetail::NoSelection), None);
    assert!(!quest_detail_has_back(QuestDetail::NoSelection));
}
