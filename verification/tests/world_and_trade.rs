use client_ui::world::{GatheringMarker, Portal, Renderer};
use client_ui::collection::{
    all_collected, category_counts, category_header, collected_footer, collection_categories, count_label, grid_items,
    is_obtained, subcategory_display_name, subcategory_rows, CollectionDef, ObtainedKey,
};
use client_ui::ge::{field_text, market_row_info, offer_actions, offer_progress, picked_item_label, side_tag, submit_label, visible_rows};
use client_ui::shop::{buy_transaction, gold_amount, sell_list, sell_transaction, stock_text, transaction_labels, SellPick, StockPick, Transaction};
use client_ui::altar::{bone_name_text, bone_rows, bone_xp_text, known_bone_xp, BoneSlot};

#[test]
fn gathering_markers_only_fishing_in_debug() {
    let m = |skill: &str| GatheringMarker { skill: skill.to_string(), x: 1, y: 2 };
    let markers = vec![m("fishing"), m("mining"), m("fishing")];
    let shown = Renderer::render_gathering_markers(true, &markers);
    assert_eq!(shown.iter().map(|s| (s.marker, s.sprite)).collect::<Vec<_>>(), vec![(0, "trout"), (2, "trout")]);
    assert!(Renderer::render_gathering_markers(false, &markers).is_empty());
}

#[test]
fn npc_footprints() {
    let f = Renderer::render_npc_debug_tiles(&[1, 2, 0, 3]);
    assert_eq!(f.len(), 2);
    assert_eq!(f[0].npc, 1);
    assert_eq!(f[0].tiles, vec![(0, 0), (1, 0), (0, 1), (1, 1)]);
    assert_eq!(f[0].center_twice, 1);
    assert_eq!(f[1].npc, 3);
    assert_eq!(f[1].tiles.len(), 9);
    assert_eq!(f[1].tiles[5], (2, 1));
    assert_eq!(f[1].center_twice, 2);
}

#[test]
fn npc_footprint_counts() {
    let sizes = [1u32, 2, 0, 3, 4, 1];
    let f = Renderer::render_npc_debug_tiles(&sizes);
    assert_eq!(f.len(), sizes.iter().filter(|s| **s > 1).count());
    let tiles: usize = f.iter().map(|x| x.tiles.len()).sum();
    assert_eq!(tiles, 4 + 9 + 16);
    assert!(Renderer::render_npc_debug_tiles(&[1, 0, 1]).is_empty());
    assert!(Renderer::render_npc_debug_tiles(&[]).is_empty());
}

#[test]
fn exit_portal_spans_by_edge() {
    let p = |x, y, width, height| Portal { x, y, width, height };
    // 10 x 8 interior: bottom edge wins over the others.
    let portals = vec![p(3, 7, 2, 1), p(6, 7, 1, 1), p(0, 0, 1, 1), p(9, 3, 1, 2), p(0, 4, 1, 1), p(4, 4, 1, 1)];
    let spans = Renderer::render_exit_portal_arrows(&portals, 10, 8);
    assert_eq!(spans.bottom, Some((3, 7)));
    assert_eq!(spans.top, Some((0, 1)));
    assert_eq!(spans.right, Some((3, 5)));
    assert_eq!(spans.left, Some((4, 5)));
    let none = Renderer::render_exit_portal_arrows(&[p(4, 4, 1, 1)], 10, 8);
    assert_eq!((none.bottom, none.top, none.right, none.left), (None, None, None, None));
}

fn def(item: &str, source: &str, detail: &str) -> CollectionDef {
    CollectionDef { item_id: item.to_string(), source: source.to_string(), detail: detail.to_string() }
}

fn got(item: &str, source: &str) -> ObtainedKey {
    ObtainedKey { item_id: item.to_string(), source: source.to_string() }
}

#[test]
fn collection_counts_and_subcategories() {
    let defs = vec![
        def("bone", "monster_drops", "goblin"),
        def("hat", "monster_drops", "goblin"),
        def("fang", "monster_drops", "wolf"),
        def("crown", "boss_rewards", "reaper"),
        def("pelt", "monster_drops", "bear_cave"),
    ];
    let obtained = vec![got("hat", "monster_drops"), got("crown", "boss_rewards"), got("fang", "skilling")];
    assert!(is_obtained(&obtained, "hat", "monster_drops"));
    assert!(!is_obtained(&obtained, "fang", "monster_drops"));
    assert_eq!(category_counts(&defs, "monster_drops", &obtained), (4, 1));
    assert_eq!(category_counts(&defs, "boss_rewards", &obtained), (1, 1));
    assert_eq!(category_counts(&defs, "skilling", &obtained), (0, 0));
    let rows = subcategory_rows(&defs, "monster_drops", &obtained);
    let v: Vec<(String, usize, usize)> = rows.into_iter().map(|r| (r.name, r.total, r.got)).collect();
    assert_eq!(
        v,
        vec![("bear_cave".to_string(), 1, 0), ("goblin".to_string(), 2, 1), ("wolf".to_string(), 1, 0)]
    );
    assert!(all_collected(1, 1));
    assert!(!all_collected(0, 0));
    assert!(!all_collected(1, 2));
}

#[test]
fn collection_texts_and_grid() {
    let names = vec![("goblin".to_string(), "Goblins".to_string())];
    assert_eq!(subcategory_display_name("goblin", &names), "Goblins");
    assert_eq!(subcategory_display_name("bear_cave", &names), "bear cave");
    assert_eq!(collection_categories()[1], ("boss_rewards", "Boss Rewards"));
    assert_eq!(category_header(true, "Skilling", 2, 5), "v Skilling (2/5)");
    assert_eq!(category_header(false, "Skilling", 2, 5), "> Skilling (2/5)");
    assert_eq!(count_label("Goblins", 1, 2), "Goblins (1/2)");
    assert_eq!(collected_footer(3, 40), "3 / 40 Collected");
    let defs = vec![def("zeta", "m", "g"), def("alpha", "m", "g"), def("beta", "m", "h"), def("alpha", "m", "g")];
    let items = grid_items(&defs, "m", "g");
    assert_eq!(items, vec!["alpha".to_string(), "alpha".to_string(), "zeta".to_string()]);
}

#[test]
fn grand_exchange_texts() {
    assert_eq!(side_tag("sell"), "SELL");
    assert_eq!(side_tag("buy"), "BUY");
    assert_eq!(market_row_info(1_500_000, 3, 6), "1.5 x3");
    assert_eq!(market_row_info(25, 1, 0), "2.5 x1");
    assert_eq!(offer_progress(10, 4, 2_000, 3), "6/10 @ 2");
    let a = offer_actions(2, 0);
    assert_eq!((a.collect, a.cancel), (Some("Get 2".to_string()), false));
    let a = offer_actions(0, 5);
    assert_eq!((a.collect, a.cancel), (None, true));
    assert_eq!(visible_rows(2, 10, 5), (2, 7));
    assert_eq!(visible_rows(8, 10, 5), (8, 10));
    assert_eq!(visible_rows(12, 10, 5), (12, 12));
    let f = field_text("Price", "", false);
    assert_eq!((f.text.as_str(), f.dim), ("Price", true));
    let f = field_text("Price", "", true);
    assert_eq!((f.text.as_str(), f.dim), ("_", true));
    let f = field_text("Price", "12", true);
    assert_eq!((f.text.as_str(), f.dim), ("12_", false));
    assert_eq!(submit_label(true), "Place Sell Offer");
    assert_eq!(picked_item_label(None), "Pick an item below");
}

#[test]
fn shop_transactions() {
    assert_eq!(buy_transaction(Some(StockPick { price: 15, stock: 4 }), 3, 45), Transaction { total: 45, can_transact: true });
    assert_eq!(buy_transaction(Some(StockPick { price: 15, stock: 4 }), 3, 44).can_transact, false);
    assert_eq!(buy_transaction(Some(StockPick { price: 15, stock: 2 }), 3, 100).can_transact, false);
    assert_eq!(buy_transaction(None, 3, 100), Transaction { total: 0, can_transact: false });
    assert_eq!(
        sell_transaction(Some(SellPick { sellable: true, unit_price: 7, have: 5 }), 5),
        Transaction { total: 35, can_transact: true }
    );
    assert_eq!(sell_transaction(Some(SellPick { sellable: true, unit_price: 7, have: 4 }), 5).can_transact, false);
    assert_eq!(sell_transaction(Some(SellPick { sellable: false, unit_price: 7, have: 9 }), 1), Transaction { total: 0, can_transact: false });
    assert_eq!(sell_list(&[false, true, true, false, true]), vec![1, 2, 4]);
    assert_eq!(gold_amount(30), "30 gold");
    assert_eq!(stock_text(4), "Stock: 4");
    assert_eq!(transaction_labels(false), ("You get:", "Sell"));
}

fn slot(id: &str, name: &str, quantity: i32, prayer_xp: i32, xp: i32) -> BoneSlot {
    BoneSlot { item_id: id.to_string(), display_name: name.to_string(), quantity, prayer_xp, xp_per_bone: xp }
}

#[test]
fn altar_bone_rows_merge() {
    let slots = vec![
        slot("regular_bones", "Bones", 3, 5, 12),
        slot("logs", "Logs", 10, 5, 0),
        slot("big_bones", "Big Bones", 1, 15, 37),
        slot("regular_bones", "Bones", 2, 5, 12),
        slot("fake_bones", "Fake", 4, 0, 0),
    ];
    let rows = bone_rows(&slots);
    let v: Vec<(String, i32, i32)> = rows.into_iter().map(|r| (r.item_id, r.quantity, r.xp_per_bone)).collect();
    assert_eq!(v, vec![("regular_bones".to_string(), 5, 12), ("big_bones".to_string(), 1, 37)]);
    assert_eq!(known_bone_xp("dragon_bones"), Some(180));
    assert_eq!(known_bone_xp("wolf_bones"), None);
    assert_eq!(bone_name_text("Bones", 5), "Bones x5");
    assert_eq!(bone_xp_text(12, 5), "12xp ea / 60xp total");
}

#[test]
fn ge_form_inventory() {
    assert_eq!(client_ui::ge::form_inventory_cells(28), 20);
    assert_eq!(client_ui::ge::form_inventory_cells(7), 7);
    assert!(client_ui::ge::form_cell_selected(Some("ore"), Some("ore")));
    assert!(!client_ui::ge::form_cell_selected(Some("ore"), None));
    assert!(!client_ui::ge::form_cell_selected(None, Some("ore")));
}
