//! The right-click context menu: its title and the options it offers for
//! each kind of target, numbered in the order they are listed.

use vstd::prelude::*;
use crate::text::{has_substring, int_text, text_contains, push_str, push_char, push_i64, same_text};

verus! {

/// An inventory item as the menu sees it.
pub struct MenuItem {
    pub item_id: String,
    /// The item definition has equipment stats.
    pub is_equipment: bool,
}

/// An NPC as the menu sees it.
pub struct MenuNpc {
    pub name: String,
    pub attackable: bool,
    pub is_altar: bool,
    pub has_station: bool,
    pub is_merchant: bool,
    pub is_banker: bool,
    pub is_slayer_master: bool,
}

/// An item lying on the ground.
pub struct MenuGroundItem {
    pub display_name: String,
    pub quantity: i32,
}

/// A gathering marker.
pub struct MenuMarker {
    pub skill: String,
    pub zone_id: String,
}

/// What was right-clicked, with what the menu needs to know of it; `None`
/// where the thing could not be found in the game state.
pub enum MenuTarget {
    EquipmentSlot,
    Gold,
    InventorySlot { item: Option<MenuItem> },
    Player { name: Option<String> },
    Npc { npc: Option<MenuNpc> },
    Tree { kind_name: Option<String> },
    Rock { ore_name: Option<String> },
    GatheringSpot { marker: Option<MenuMarker> },
    GroundItem { ground: Option<MenuGroundItem> },
    FarmingPatch { patch_state: Option<String> },
    Tile,
    HotkeySlot,
    Spell { name: Option<String> },
}

/// One option of the menu; `id` is the option's element number.
pub struct MenuOption {
    pub label: String,
    pub id: usize,
}

/// The menu to show.
pub struct MenuPlan {
    pub title: String,
    pub options: Vec<MenuOption>,
    /// The "Hotkey:" row for assigning the target to a quick slot.
    pub hotkey_assign: bool,
}

/// The options offered for an NPC.
pub open spec fn npc_labels(n: MenuNpc) -> Seq<Seq<char>> {
    if n.attackable {
        seq!["Attack"@, "Target"@, "Examine"@]
    } else if n.is_altar {
        seq!["Pray"@, "Offer Bones"@, "Examine"@]
    } else if n.has_station {
        seq!["Use"@, "Examine"@]
    } else if n.is_merchant {
        seq!["Talk-to"@, "Trade"@, "Examine"@]
    } else if n.is_banker {
        seq!["Bank"@, "Examine"@]
    } else if n.is_slayer_master {
        seq!["Get Task"@, "Examine"@]
    } else {
        seq!["Talk-to"@, "Examine"@]
    }
}

/// The options offered for a target, in menu order.
pub open spec fn menu_labels(t: MenuTarget) -> Seq<Seq<char>> {
    match t {
        MenuTarget::EquipmentSlot => seq!["Unequip"@],
        MenuTarget::Gold => seq!["Drop"@],
        MenuTarget::InventorySlot { item } => match item {
            Some(it) => (if it.is_equipment { seq!["Equip"@] } else { Seq::empty() })
                + (if has_substring(it.item_id@, "bones"@) { seq!["Bury"@] } else { Seq::empty() })
                + seq!["Drop"@],
            None => seq!["Drop"@],
        },
        MenuTarget::Player { .. } => seq!["Attack"@, "Follow"@, "Add Friend"@, "Examine"@],
        MenuTarget::Npc { npc } => match npc {
            Some(n) => npc_labels(n),
            None => seq!["Examine"@],
        },
        MenuTarget::Tree { .. } => seq!["Chop"@, "Examine"@],
        MenuTarget::Rock { .. } => seq!["Mine"@, "Examine"@],
        MenuTarget::GatheringSpot { marker } => match marker {
            Some(m) => seq![if m.skill@ == "fishing"@ { "Fish"@ } else { "Gather"@ }, "Examine"@],
            None => seq!["Examine"@],
        },
        MenuTarget::GroundItem { .. } => seq!["Pick up"@, "Examine"@],
        MenuTarget::FarmingPatch { patch_state } => match patch_state {
            Some(st) => (if st@ == "harvestable"@ {
                seq!["Harvest"@]
            } else if st@ == "empty"@ {
                seq!["Plant"@]
            } else {
                Seq::empty()
            }) + seq!["Examine"@],
            None => seq!["Examine"@],
        },
        MenuTarget::Tile => seq!["Walk here"@],
        MenuTarget::HotkeySlot => seq!["Clear Slot"@],
        MenuTarget::Spell { .. } => Seq::empty(),
    }
}

/// The title of the menu for a target.
pub open spec fn menu_title(t: MenuTarget) -> Seq<char> {
    match t {
        MenuTarget::EquipmentSlot => "Equipment"@,
        MenuTarget::Gold => "Gold"@,
        MenuTarget::InventorySlot { .. } => "Item"@,
        MenuTarget::Player { name } => match name {
            Some(n) => n@,
            None => "Player"@,
        },
        MenuTarget::Npc { npc } => match npc {
            Some(n) => n.name@,
            None => "NPC"@,
        },
        MenuTarget::Tree { kind_name } => match kind_name {
            Some(k) => k@ + " Tree"@,
            None => "Tree"@,
        },
        MenuTarget::Rock { ore_name } => match ore_name {
            Some(k) => k@ + " Rock"@,
            None => "Rock"@,
        },
        MenuTarget::GatheringSpot { marker } => match marker {
            Some(m) => m.zone_id@,
            None => "Gathering Spot"@,
        },
        MenuTarget::GroundItem { ground } => match ground {
            Some(g) => if g.quantity > 1 {
                g.display_name@ + " ("@ + int_text(g.quantity as int) + ")"@
            } else {
                g.display_name@
            },
            None => "Item"@,
        },
        MenuTarget::FarmingPatch { .. } => "Farming Patch"@,
        MenuTarget::Tile => "Tile"@,
        MenuTarget::HotkeySlot => "Hotkey Slot"@,
        MenuTarget::Spell { name } => match name {
            Some(n) => n@,
            None => "Spell"@,
        },
    }
}

/// Inventory items and spells can be bound to a quick slot from the menu.
pub open spec fn hotkey_assignable(t: MenuTarget) -> bool {
    t is InventorySlot || t is Spell
}

/// `options` carries `labels` in order, each numbered by its position.
pub open spec fn numbered(options: Seq<MenuOption>, labels: Seq<Seq<char>>) -> bool {
    &&& options.len() == labels.len()
    &&& forall|k: int| 0 <= k < options.len() ==> (#[trigger] options[k]).label@ == labels[k] && options[k].id == k
}

/// Appends an option whose element number is its position in the menu.
pub fn push_option(options: &mut Vec<MenuOption>, label: &str)
    ensures
        final(options).len() == old(options).len() + 1,
        forall|k: int| 0 <= k < old(options).len() ==> final(options)@[k] == old(options)@[k],
        final(options)@[old(options).len() as int].label@ == label@,
        final(options)@[old(options).len() as int].id == old(options).len(),
{
    let id = options.len();
    let mut l = String::new();
    push_str(&mut l, label);
    options.push(MenuOption { label: l, id });
}

/// Pushes every label of `labels`, in order.
fn push_all(options: &mut Vec<MenuOption>, labels: &[&str])
    ensures
        final(options).len() == old(options).len() + labels.len(),
        forall|k: int| 0 <= k < old(options).len() ==> final(options)@[k] == old(options)@[k],
        forall|k: int| 0 <= k < labels.len() ==> (#[trigger] final(options)@[old(options).len() + k]).label@ == labels@[k]@
            && final(options)@[old(options).len() + k].id == old(options).len() + k,
{
    let ghost start = options@;
    let mut i: usize = 0;
    while i < labels.len()
        invariant
            i <= labels.len(),
            options.len() == start.len() + i,
            forall|k: int| 0 <= k < start.len() ==> options@[k] == start[k],
            forall|k: int| 0 <= k < i ==> (#[trigger] options@[start.len() + k]).label@ == labels@[k]@
                && options@[start.len() + k].id == start.len() + k,
        decreases labels.len() - i,
    {
        push_option(options, labels[i]);
        i = i + 1;
    }
}

/// The labels of an NPC's options.
fn npc_options(n: &MenuNpc) -> (v: Vec<&'static str>)
    ensures
        v@.len() == npc_labels(*n).len(),
        forall|k: int| 0 <= k < v.len() ==> (#[trigger] v@[k])@ == npc_labels(*n)[k],
{
    if n.attackable {
        vec!["Attack", "Target", "Examine"]
    } else if n.is_altar {
        vec!["Pray", "Offer Bones", "Examine"]
    } else if n.has_station {
        vec!["Use", "Examine"]
    } else if n.is_merchant {
        vec!["Talk-to", "Trade", "Examine"]
    } else if n.is_banker {
        vec!["Bank", "Examine"]
    } else if n.is_slayer_master {
        vec!["Get Task", "Examine"]
    } else {
        vec!["Talk-to", "Examine"]
    }
}

/// The labels of the options for a target, in menu order.
fn option_labels(t: &MenuTarget) -> (v: Vec<&'static str>)
    ensures
        v@.len() == menu_labels(*t).len(),
        forall|k: int| 0 <= k < v.len() ==> (#[trigger] v@[k])@ == menu_labels(*t)[k],
{
    match t {
        MenuTarget::EquipmentSlot => vec!["Unequip"],
        MenuTarget::Gold => vec!["Drop"],
        MenuTarget::InventorySlot { item } => match item {
            Some(it) => {
                let mut v: Vec<&'static str> = Vec::new();
                if it.is_equipment {
                    v.push("Equip");
                }
                if text_contains(it.item_id.as_str(), "bones") {
                    v.push("Bury");
                }
                v.push("Drop");
                proof {
                    let l = menu_labels(*t);
                    let e: Seq<Seq<char>> = if it.is_equipment { seq!["Equip"@] } else { Seq::empty() };
                    let b: Seq<Seq<char>> = if has_substring(it.item_id@, "bones"@) { seq!["Bury"@] } else { Seq::empty() };
                    assert(l == e + b + seq!["Drop"@]);
                    assert forall|k: int| 0 <= k < v.len() implies (#[trigger] v@[k])@ == l[k] by {
                        if it.is_equipment && k == 0 {
                            assert(v@[0]@ == "Equip"@);
                        }
                    }
                }
                v
            },
            None => vec!["Drop"],
        },
        MenuTarget::Player { .. } => vec!["Attack", "Follow", "Add Friend", "Examine"],
        MenuTarget::Npc { npc } => match npc {
            Some(n) => npc_options(n),
            None => vec!["Examine"],
        },
        MenuTarget::Tree { .. } => vec!["Chop", "Examine"],
        MenuTarget::Rock { .. } => vec!["Mine", "Examine"],
        MenuTarget::GatheringSpot { marker } => match marker {
            Some(m) => {
                if same_text(m.skill.as_str(), "fishing") {
                    vec!["Fish", "Examine"]
                } else {
                    vec!["Gather", "Examine"]
                }
            },
            None => vec!["Examine"],
        },
        MenuTarget::GroundItem { .. } => vec!["Pick up", "Examine"],
        MenuTarget::FarmingPatch { patch_state } => match patch_state {
            Some(st) => {
                if same_text(st.as_str(), "harvestable") {
                    vec!["Harvest", "Examine"]
                } else if same_text(st.as_str(), "empty") {
                    vec!["Plant", "Examine"]
                } else {
                    vec!["Examine"]
                }
            },
            None => vec!["Examine"],
        },
        MenuTarget::Tile => vec!["Walk here"],
        MenuTarget::HotkeySlot => vec!["Clear Slot"],
        MenuTarget::Spell { .. } => Vec::new(),
    }
}

/// `s` followed by `suffix`.
fn joined(s: &String, suffix: &str) -> (r: String)
    ensures
        r@ == s@ + suffix@,
{
    let mut r = String::new();
    push_str(&mut r, s.as_str());
    push_str(&mut r, suffix);
    r
}

/// The title of the menu for a target.
fn title_of(t: &MenuTarget) -> (r: String)
    ensures
        r@ == menu_title(*t),
{
    let mut r = String::new();
    match t {
        MenuTarget::EquipmentSlot => push_str(&mut r, "Equipment"),
        MenuTarget::Gold => push_str(&mut r, "Gold"),
        MenuTarget::InventorySlot { .. } => push_str(&mut r, "Item"),
        MenuTarget::Player { name } => match name {
            Some(n) => push_str(&mut r, n.as_str()),
            None => push_str(&mut r, "Player"),
        },
        MenuTarget::Npc { npc } => match npc {
            Some(n) => push_str(&mut r, n.name.as_str()),
            None => push_str(&mut r, "NPC"),
        },
        MenuTarget::Tree { kind_name } => match kind_name {
            Some(k) => return joined(k, " Tree"),
            None => push_str(&mut r, "Tree"),
        },
        MenuTarget::Rock { ore_name } => match ore_name {
            Some(k) => return joined(k, " Rock"),
            None => push_str(&mut r, "Rock"),
        },
        MenuTarget::GatheringSpot { marker } => match marker {
            Some(m) => push_str(&mut r, m.zone_id.as_str()),
            None => push_str(&mut r, "Gathering Spot"),
        },
        MenuTarget::GroundItem { ground } => match ground {
            Some(g) => {
                push_str(&mut r, g.display_name.as_str());
                if g.quantity > 1 {
                    push_str(&mut r, " (");
                    push_i64(&mut r, g.quantity as i64);
                    push_char(&mut r, ')');
                    proof {
                        reveal_strlit(")");
                    }
                    assert(r@ =~= g.display_name@ + " ("@ + int_text(g.quantity as int) + ")"@);
                }
            },
            None => push_str(&mut r, "Item"),
        },
        MenuTarget::FarmingPatch { .. } => push_str(&mut r, "Farming Patch"),
        MenuTarget::Tile => push_str(&mut r, "Tile"),
        MenuTarget::HotkeySlot => push_str(&mut r, "Hotkey Slot"),
        MenuTarget::Spell { name } => match name {
            Some(n) => push_str(&mut r, n.as_str()),
            None => push_str(&mut r, "Spell"),
        },
    }
    assert(r@ =~= menu_title(*t));
    r
}

/// Whether a target can be bound to a quick slot from its menu.
pub fn shows_hotkey_row(t: &MenuTarget) -> (b: bool)
    ensures
        b == hotkey_assignable(*t),
{
    match t {
        MenuTarget::InventorySlot { .. } => true,
        MenuTarget::Spell { .. } => true,
        _ => false,
    }
}

/// The context menu for a target: its title, its options numbered from 0
/// in menu order, and whether it has the hotkey row; `None` when it would
/// have neither options nor that row (no menu is shown).
pub fn plan_context_menu(t: &MenuTarget) -> (r: Option<MenuPlan>)
    ensures
        r is None <==> (menu_labels(*t).len() == 0 && !hotkey_assignable(*t)),
        r matches Some(p) ==> p.title@ == menu_title(*t) && numbered(p.options@, menu_labels(*t))
            && p.hotkey_assign == hotkey_assignable(*t),
{
    let labels = option_labels(t);
    let hotkey = shows_hotkey_row(t);
    if labels.len() == 0 && !hotkey {
        return None;
    }
    let mut options: Vec<MenuOption> = Vec::new();
    push_all(&mut options, labels.as_slice());
    assert forall|k: int| 0 <= k < options.len() implies (#[trigger] options@[k]).label@ == menu_labels(*t)[k]
        && options@[k].id == k by {
        assert(options@[0 + k] == options@[k]);
        assert(labels@[k]@ == menu_labels(*t)[k]);
    }
    let title = title_of(t);
    Some(MenuPlan { title, options, hotkey_assign: hotkey })
}

/// The options of the menu, target by target: an equipment slot offers
/// Unequip; gold and an empty inventory slot Drop; an item Equip (for
/// equipment), Bury (for bones) and then Drop; a player Attack, Follow, Add
/// Friend, Examine; a tree Chop then Examine; a rock Mine then Examine; a
/// fishing spot Fish, another gathering spot Gather, then Examine; a ground
/// item Pick up then Examine; a farming patch Harvest when harvestable or
/// Plant when empty, then Examine; a tile Walk here; a hotkey slot Clear
/// Slot; a spell nothing. A tree or rock is titled by its kind.
pub proof fn lemma_menu_options(t: MenuTarget)
    ensures
        t is EquipmentSlot ==> menu_labels(t) == seq!["Unequip"@],
        t is Gold ==> menu_labels(t) == seq!["Drop"@],
        t matches MenuTarget::InventorySlot { item: None } ==> menu_labels(t) == seq!["Drop"@],
        t matches MenuTarget::InventorySlot { item: Some(it) } ==> {
            let l = menu_labels(t);
            &&& l.last() == "Drop"@
            &&& l.len() == 1 + (if it.is_equipment { 1int } else { 0 }) + (if has_substring(it.item_id@, "bones"@) { 1int } else { 0 })
            &&& it.is_equipment ==> l[0] == "Equip"@
            &&& has_substring(it.item_id@, "bones"@) ==> l[l.len() - 2] == "Bury"@
        },
        t is Player ==> menu_labels(t) == seq!["Attack"@, "Follow"@, "Add Friend"@, "Examine"@],
        t matches MenuTarget::Npc { npc: None } ==> menu_labels(t) == seq!["Examine"@],
        t matches MenuTarget::Npc { npc: Some(n) } ==> menu_labels(t) == (if n.attackable {
            seq!["Attack"@, "Target"@, "Examine"@]
        } else if n.is_altar {
            seq!["Pray"@, "Offer Bones"@, "Examine"@]
        } else if n.has_station {
            seq!["Use"@, "Examine"@]
        } else if n.is_merchant {
            seq!["Talk-to"@, "Trade"@, "Examine"@]
        } else if n.is_banker {
            seq!["Bank"@, "Examine"@]
        } else if n.is_slayer_master {
            seq!["Get Task"@, "Examine"@]
        } else {
            seq!["Talk-to"@, "Examine"@]
        }),
        t is Tree ==> menu_labels(t) == seq!["Chop"@, "Examine"@],
        t matches MenuTarget::Tree { kind_name: Some(k) } ==> menu_title(t) == k@ + " Tree"@,
        t matches MenuTarget::Tree { kind_name: None } ==> menu_title(t) == "Tree"@,
        t is Rock ==> menu_labels(t) == seq!["Mine"@, "Examine"@],
        t matches MenuTarget::Rock { ore_name: Some(k) } ==> menu_title(t) == k@ + " Rock"@,
        t matches MenuTarget::Rock { ore_name: None } ==> menu_title(t) == "Rock"@,
        t matches MenuTarget::GatheringSpot { marker: Some(m) } ==> menu_labels(t) == (if m.skill@ == "fishing"@ {
            seq!["Fish"@, "Examine"@]
        } else {
            seq!["Gather"@, "Examine"@]
        }),
        t matches MenuTarget::GatheringSpot { marker: None } ==> menu_labels(t) == seq!["Examine"@],
        t is GroundItem ==> menu_labels(t) == seq!["Pick up"@, "Examine"@],
        t matches MenuTarget::FarmingPatch { patch_state: Some(st) } ==> menu_labels(t) == (if st@ == "harvestable"@ {
            seq!["Harvest"@, "Examine"@]
        } else if st@ == "empty"@ {
            seq!["Plant"@, "Examine"@]
        } else {
            seq!["Examine"@]
        }),
        t matches MenuTarget::FarmingPatch { patch_state: None } ==> menu_labels(t) == seq!["Examine"@],
        t is Tile ==> menu_labels(t) == seq!["Walk here"@],
        t is HotkeySlot ==> menu_labels(t) == seq!["Clear Slot"@],
        t is Spell ==> menu_labels(t).len() == 0,
{
    match t {
        MenuTarget::InventorySlot { item: Some(it) } => {
            let e: Seq<Seq<char>> = if it.is_equipment { seq!["Equip"@] } else { Seq::empty() };
            let b: Seq<Seq<char>> = if has_substring(it.item_id@, "bones"@) { seq!["Bury"@] } else { Seq::empty() };
            let l = menu_labels(t);
            assert(l == e + b + seq!["Drop"@]);
            if it.is_equipment {
                assert(l[0] == e[0]);
            }
            if has_substring(it.item_id@, "bones"@) {
                assert(l[l.len() - 2] == b[0]);
            }
        },
        MenuTarget::FarmingPatch { patch_state: Some(st) } => {
            reveal_strlit("harvestable");
            reveal_strlit("empty");
        },
        _ => {},
    }
}

/// The title of the menu, target by target, and whether the "Hotkey:" row
/// shows: only an inventory item or a spell can be put on a quick slot; a
/// spell's menu, which has no option, still opens for that row, and every
/// other target with no option would open no menu.
pub proof fn lemma_menu_titles(t: MenuTarget)
    ensures
        t is EquipmentSlot ==> menu_title(t) == "Equipment"@,
        t is Gold ==> menu_title(t) == "Gold"@,
        t is InventorySlot ==> menu_title(t) == "Item"@,
        t matches MenuTarget::Player { name: Some(n) } ==> menu_title(t) == n@,
        t matches MenuTarget::Player { name: None } ==> menu_title(t) == "Player"@,
        t matches MenuTarget::Npc { npc: Some(n) } ==> menu_title(t) == n.name@,
        t matches MenuTarget::Npc { npc: None } ==> menu_title(t) == "NPC"@,
        t matches MenuTarget::GatheringSpot { marker: Some(m) } ==> menu_title(t) == m.zone_id@,
        t matches MenuTarget::GatheringSpot { marker: None } ==> menu_title(t) == "Gathering Spot"@,
        t matches MenuTarget::GroundItem { ground: Some(g) } ==> menu_title(t) == (if g.quantity > 1 {
            g.display_name@ + " ("@ + int_text(g.quantity as int) + ")"@
        } else {
            g.display_name@
        }),
        t matches MenuTarget::GroundItem { ground: None } ==> menu_title(t) == "Item"@,
        t is FarmingPatch ==> menu_title(t) == "Farming Patch"@,
        t is Tile ==> menu_title(t) == "Tile"@,
        t is HotkeySlot ==> menu_title(t) == "Hotkey Slot"@,
        t matches MenuTarget::Spell { name: Some(n) } ==> menu_title(t) == n@,
        t matches MenuTarget::Spell { name: None } ==> menu_title(t) == "Spell"@,
        hotkey_assignable(t) <==> (t is InventorySlot || t is Spell),
        !(t is Spell) ==> menu_labels(t).len() > 0,
{
    lemma_menu_options(t);
}

} // verus!
