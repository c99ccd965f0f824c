use client_ui::bank::{drag_mark, help_lines, BankDrag, DragMark, HelpTone};
use client_ui::collection::{subcategory_counts, CollectionDef, ObtainedKey};
use client_ui::context_menu::{shows_hotkey_row, MenuTarget};
use client_ui::order::{compare_rank, insert_sorted_unique, text_listed, RankKey};
use client_ui::solst::{is_space_char, parse_i64_range};
use client_ui::station::{ingredients_in_stock, IngredientStock};
use client_ui::text::{chars_of, digit, push_i64, push_str, push_u64, string_of_range, to_ascii_upper};

#[test]
fn bank_drag_marks() {
    let slots = vec![Some("ore".to_string()), Some("ore".to_string()), Some("log".to_string()), None];
    let drag = BankDrag { active: true, from_slot: 0 };
    assert_eq!(drag_mark(Some(&drag), 0, true, &slots), DragMark::Source);
    assert_eq!(drag_mark(Some(&drag), 1, true, &slots), DragMark::Merge);
    assert_eq!(drag_mark(Some(&drag), 2, true, &slots), DragMark::Target);
    assert_eq!(drag_mark(Some(&drag), 3, true, &slots), DragMark::Target);
    assert_eq!(drag_mark(Some(&drag), 2, false, &slots), DragMark::Plain);
    let idle = BankDrag { active: false, from_slot: 0 };
    assert_eq!(drag_mark(Some(&idle), 0, true, &slots), DragMark::Plain);
    assert_eq!(drag_mark(None, 1, true, &slots), DragMark::Plain);
    let lines = help_lines();
    assert_eq!(lines[0], ("Bank Controls", HelpTone::Title));
    assert_eq!(lines.len(), 6);
}

#[test]
fn subcategory_counting() {
    let d = |i: &str, s: &str, t: &str| CollectionDef { item_id: i.to_string(), source: s.to_string(), detail: t.to_string() };
    let defs = vec![d("a", "m", "x"), d("b", "m", "x"), d("c", "m", "y"), d("a", "q", "x")];
    let obtained = vec![ObtainedKey { item_id: "a".to_string(), source: "m".to_string() }];
    assert_eq!(subcategory_counts(&defs, "m", "x", &obtained), (2, 1));
    assert_eq!(subcategory_counts(&defs, "q", "x", &obtained), (1, 0));
    assert_eq!(subcategory_counts(&defs, "m", "z", &obtained), (0, 0));
}

#[test]
fn hotkey_row_only_for_items_and_spells() {
    assert!(shows_hotkey_row(&MenuTarget::InventorySlot { item: None }));
    assert!(shows_hotkey_row(&MenuTarget::Spell { name: None }));
    assert!(!shows_hotkey_row(&MenuTarget::Tile));
}

#[test]
fn ordering_helpers() {
    let k = |major, minor, name: &str| RankKey { major, minor, name: name.to_string() };
    assert_eq!(compare_rank(&k(0, 5, "z"), &k(1, 0, "a")), -1);
    assert_eq!(compare_rank(&k(1, 0, "b"), &k(1, 0, "a")), 1);
    assert_eq!(compare_rank(&k(1, 2, "b"), &k(1, 2, "b")), 0);
    let mut v: Vec<String> = Vec::new();
    assert_eq!(insert_sorted_unique(&mut v, "m".to_string()), 0);
    assert_eq!(insert_sorted_unique(&mut v, "c".to_string()), 0);
    assert_eq!(insert_sorted_unique(&mut v, "x".to_string()), 2);
    assert_eq!(insert_sorted_unique(&mut v, "m".to_string()), 1);
    assert_eq!(v, vec!["c".to_string(), "m".to_string(), "x".to_string()]);
    assert!(text_listed(&v, "x"));
    assert!(!text_listed(&v, "y"));
}

#[test]
fn parsing_helpers() {
    assert!(is_space_char(' '));
    assert!(is_space_char('\u{3000}'));
    assert!(!is_space_char('a'));
    let v = chars_of("x-42y");
    assert_eq!(parse_i64_range(&v, 1, 4), Some(-42));
    assert_eq!(parse_i64_range(&v, 0, 4), None);
    assert_eq!(parse_i64_range(&chars_of("+7"), 0, 2), Some(7));
    assert_eq!(parse_i64_range(&chars_of(""), 0, 0), None);
}

#[test]
fn stock_check() {
    assert!(ingredients_in_stock(&[]));
    assert!(ingredients_in_stock(&[IngredientStock { count: 2, have: 2 }]));
    assert!(!ingredients_in_stock(&[IngredientStock { count: 2, have: 2 }, IngredientStock { count: 3, have: 1 }]));
}

#[test]
fn text_helpers() {
    assert_eq!(digit(7), '7');
    let mut s = String::from("a");
    push_str(&mut s, "bc");
    push_u64(&mut s, 90);
    push_i64(&mut s, -3);
    assert_eq!(s, "abc90-3");
    assert_eq!(chars_of("hé"), vec!['h', 'é']);
    assert_eq!(string_of_range(&chars_of("hello"), 1, 4), "ell");
    assert_eq!(to_ascii_upper('q'), 'Q');
    assert_eq!(to_ascii_upper('é'), 'é');
}
