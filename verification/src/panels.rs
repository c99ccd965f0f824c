//! Smaller panels: the menu buttons, the gear panel's grid, dialogue
//! choices, ground item labels, the chest and the gold dialogs.

use vstd::prelude::*;
use crate::text::{int_text, nat_text, push_str, push_char, push_i64, push_u64};
use crate::board::{unicode_upper, upper_case};

verus! {

/// A menu button of the bottom bar.
#[derive(Clone, Copy, PartialEq, Eq, Structural, Debug)]
pub enum MenuButton {
    Inventory,
    Character,
    Skills,
    Prayer,
    Quest,
    Social,
    Settings,
}

/// The icon frames of the sprite sheet.
#[derive(Clone, Copy, PartialEq, Eq, Structural, Debug)]
pub enum MenuIcon {
    Inventory,
    Character,
    Settings,
    Skills,
    Social,
    Prayer,
    Magic,
    Quest,
}

/// Which panels are open, and whether the prayer book shows its spell tab.
pub struct MenuFlags {
    pub inventory_open: bool,
    pub character_open: bool,
    pub skills_open: bool,
    pub prayer_book_open: bool,
    pub spell_tab: bool,
    pub quest_log_open: bool,
    pub social_open: bool,
    pub settings_open: bool,
}

/// The menu buttons left to right with their icon and whether their panel
/// is open; the prayer button shows the magic icon while the spell tab is
/// chosen.
pub fn menu_buttons(f: &MenuFlags) -> (v: Vec<(MenuButton, MenuIcon, bool)>)
    ensures
        v@ == seq![
            (MenuButton::Inventory, MenuIcon::Inventory, f.inventory_open),
            (MenuButton::Character, MenuIcon::Character, f.character_open),
            (MenuButton::Skills, MenuIcon::Skills, f.skills_open),
            (MenuButton::Prayer, if f.spell_tab { MenuIcon::Magic } else { MenuIcon::Prayer }, f.prayer_book_open),
            (MenuButton::Quest, MenuIcon::Quest, f.quest_log_open),
            (MenuButton::Social, MenuIcon::Social, f.social_open),
            (MenuButton::Settings, MenuIcon::Settings, f.settings_open),
        ],
{
    let v = vec![
        (MenuButton::Inventory, MenuIcon::Inventory, f.inventory_open),
        (MenuButton::Character, MenuIcon::Character, f.character_open),
        (MenuButton::Skills, MenuIcon::Skills, f.skills_open),
        (MenuButton::Prayer, if f.spell_tab { MenuIcon::Magic } else { MenuIcon::Prayer }, f.prayer_book_open),
        (MenuButton::Quest, MenuIcon::Quest, f.quest_log_open),
        (MenuButton::Social, MenuIcon::Social, f.social_open),
        (MenuButton::Settings, MenuIcon::Settings, f.settings_open),
    ];
    assert(v@ =~= seq![
        (MenuButton::Inventory, MenuIcon::Inventory, f.inventory_open),
        (MenuButton::Character, MenuIcon::Character, f.character_open),
        (MenuButton::Skills, MenuIcon::Skills, f.skills_open),
        (MenuButton::Prayer, if f.spell_tab { MenuIcon::Magic } else { MenuIcon::Prayer }, f.prayer_book_open),
        (MenuButton::Quest, MenuIcon::Quest, f.quest_log_open),
        (MenuButton::Social, MenuIcon::Social, f.social_open),
        (MenuButton::Settings, MenuIcon::Settings, f.settings_open),
    ]);
    v
}

/// The gear panel's grid: each slot type with its column and row (the
/// feet sit on a fifth row, below the body).
pub open spec fn gear_layout() -> Seq<(Seq<char>, int, int)> {
    seq![
        ("head"@, 1int, 0int),
        ("back"@, 0int, 1int),
        ("body"@, 1int, 1int),
        ("weapon"@, 2int, 1int),
        ("gloves"@, 0int, 2int),
        ("ring"@, 2int, 2int),
        ("necklace"@, 0int, 3int),
        ("belt"@, 2int, 3int),
        ("feet"@, 1int, 4int),
    ]
}

/// The slots of the gear panel with their grid cells.
pub fn gear_slots() -> (v: Vec<(&'static str, u8, u8)>)
    ensures
        v.len() == gear_layout().len(),
        forall|k: int| 0 <= k < v.len() ==> ((#[trigger] v@[k]).0@, v@[k].1 as int, v@[k].2 as int) == gear_layout()[k],
{
    vec![
        ("head", 1u8, 0u8),
        ("back", 0u8, 1u8),
        ("body", 1u8, 1u8),
        ("weapon", 2u8, 1u8),
        ("gloves", 0u8, 2u8),
        ("ring", 2u8, 2u8),
        ("necklace", 0u8, 3u8),
        ("belt", 2u8, 3u8),
        ("feet", 1u8, 4u8),
    ]
}

/// The fixed buttons of a dialogue box: the close button is offered only
/// while the dialogue asks for a choice, and "[ Continue ]" only when it
/// does not (the choice buttons then take its place).
pub struct DialogueButtons {
    pub close: bool,
    pub continue_button: bool,
}

/// Which fixed buttons a dialogue with `choice_count` choices offers.
pub fn dialogue_buttons(choice_count: usize) -> (b: DialogueButtons)
    ensures
        b.close == (choice_count > 0),
        b.continue_button == (choice_count == 0),
{
    DialogueButtons { close: choice_count > 0, continue_button: choice_count == 0 }
}

/// "[{n}]", the number before dialogue choice `i` (counted from 1).
pub fn choice_number(i: usize) -> (s: String)
    requires
        i < usize::MAX,
    ensures
        s@ == "["@ + nat_text((i + 1) as nat) + "]"@,
{
    let mut s = String::new();
    push_str(&mut s, "[");
    push_u64(&mut s, (i + 1) as u64);
    push_str(&mut s, "]");
    s
}

/// The label of a hovered ground item: "{name} (x{quantity})" for a stack,
/// the name alone otherwise.
pub fn ground_item_label(name: &str, quantity: i32) -> (s: String)
    ensures
        s@ == (if quantity > 1 { name@ + " (x"@ + int_text(quantity as int) + ")"@ } else { name@ }),
{
    let mut s = String::new();
    push_str(&mut s, name);
    if quantity > 1 {
        push_str(&mut s, " (x");
        push_i64(&mut s, quantity as i64);
        push_str(&mut s, ")");
    }
    s
}

/// "{label}{n}g", a gold amount after a caption: "Total Value: 120g",
/// "Available: 35g".
pub fn captioned_gold(label: &str, n: i64) -> (s: String)
    ensures
        s@ == label@ + int_text(n as int) + "g"@,
{
    let mut s = String::new();
    push_str(&mut s, label);
    push_i64(&mut s, n);
    push_str(&mut s, "g");
    s
}

/// "x{n}", a quantity.
pub fn quantity_text(n: i64) -> (s: String)
    ensures
        s@ == "x"@ + int_text(n as int),
{
    let mut s = String::new();
    push_char(&mut s, 'x');
    push_i64(&mut s, n);
    proof {
        reveal_strlit("x");
    }
    assert(s@ =~= "x"@ + int_text(n as int));
    s
}

/// The number badge of inventory slot `i`: the first five slots carry the
/// quick-slot key "1" to "5".
pub fn inventory_badge(i: usize) -> (r: Option<String>)
    ensures
        r is Some <==> i < 5,
        r matches Some(t) ==> t@ == nat_text((i + 1) as nat),
{
    if i < 5 {
        let mut t = String::new();
        push_u64(&mut t, (i + 1) as u64);
        Some(t)
    } else {
        None
    }
}

/// The title of the chest panel: the chest's name in upper case.
pub fn chest_title(chest_name: &str) -> (s: String)
    ensures
        s@ == unicode_upper(chest_name@),
{
    upper_case(chest_name)
}

} // verus!
