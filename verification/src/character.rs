//! The character panel: the equipment grid, the stat bonus column, the
//! combat style buttons and their tooltips, and the shop button.

use vstd::prelude::*;
use crate::text::{push_str, same_text};
use crate::common::{Emphasis, emphasis_of};

verus! {

/// A combat style: its id, button label, title, description and the skills
/// it trains.
pub struct CombatStyle {
    pub id: &'static str,
    pub short_label: &'static str,
    pub title: &'static str,
    pub description: &'static str,
    pub trains: &'static str,
}

/// The styles of a weapon, as (id, label, title, description, trains).
pub open spec fn styles_of(ranged: bool) -> Seq<(Seq<char>, Seq<char>, Seq<char>, Seq<char>, Seq<char>)> {
    if ranged {
        seq![
            ("accurate"@, "Acc"@, "Accurate"@, "Boosts ranged accuracy"@, "Ranged"@),
            ("rapid"@, "Rapid"@, "Rapid"@, "Faster attack speed"@, "Ranged"@),
            ("longrange"@, "Long"@, "Long range"@, "Adds range and defence"@, "Ranged/Defence"@),
        ]
    } else {
        seq![
            ("accurate"@, "Acc"@, "Accurate"@, "Boosts attack accuracy"@, "Attack"@),
            ("aggressive"@, "Agg"@, "Aggressive"@, "Boosts damage dealt"@, "Strength"@),
            ("defensive"@, "Def"@, "Defensive"@, "Boosts your defence"@, "Defence"@),
            ("controlled"@, "Ctrl"@, "Controlled"@, "Trains all combat evenly"@, "Att/Str/Def"@),
        ]
    }
}

/// A style as the spec table writes it.
pub open spec fn style_view(s: CombatStyle) -> (Seq<char>, Seq<char>, Seq<char>, Seq<char>, Seq<char>) {
    (s.id@, s.short_label@, s.title@, s.description@, s.trains@)
}

/// The weapon is a ranged one.
pub open spec fn is_ranged(weapon_type: Option<Seq<char>>) -> bool {
    weapon_type == Some("ranged"@)
}

/// A style of the table.
fn style(id: &'static str, short_label: &'static str, title: &'static str, description: &'static str, trains: &'static str) -> (s: CombatStyle)
    ensures
        style_view(s) == (id@, short_label@, title@, description@, trains@),
{
    CombatStyle { id, short_label, title, description, trains }
}

/// The combat styles offered for the equipped weapon: the three ranged
/// styles for a ranged weapon, the four melee styles otherwise (also with
/// no weapon, or one of unknown type).
pub fn get_combat_styles_for_weapon(weapon_type: Option<&str>) -> (v: Vec<CombatStyle>)
    ensures
        v.len() == styles_of(is_ranged(match weapon_type { Some(w) => Some(w@), None => None })).len(),
        forall|k: int| 0 <= k < v.len() ==> style_view(#[trigger] v@[k])
            == styles_of(is_ranged(match weapon_type { Some(w) => Some(w@), None => None }))[k],
{
    let ranged = match weapon_type {
        Some(w) => same_text(w, "ranged"),
        None => false,
    };
    if ranged {
        vec![
            style("accurate", "Acc", "Accurate", "Boosts ranged accuracy", "Ranged"),
            style("rapid", "Rapid", "Rapid", "Faster attack speed", "Ranged"),
            style("longrange", "Long", "Long range", "Adds range and defence", "Ranged/Defence"),
        ]
    } else {
        vec![
            style("accurate", "Acc", "Accurate", "Boosts attack accuracy", "Attack"),
            style("aggressive", "Agg", "Aggressive", "Boosts damage dealt", "Strength"),
            style("defensive", "Def", "Defensive", "Boosts your defence", "Defence"),
            style("controlled", "Ctrl", "Controlled", "Trains all combat evenly", "Att/Str/Def"),
        ]
    }
}

/// The style button that is lit: the player's style, "accurate" when no
/// player is known.
pub fn style_is_active(style_id: &str, player_style: Option<&str>) -> (b: bool)
    ensures
        b == (match player_style { Some(p) => p@ == style_id@, None => style_id@ == "accurate"@ }),
{
    match player_style {
        Some(p) => same_text(p, style_id),
        None => same_text("accurate", style_id),
    }
}

/// The title line of a style's tooltip: "{title} ({trains})".
pub fn style_tooltip_title(s: &CombatStyle) -> (t: String)
    ensures
        t@ == s.title@ + " ("@ + s.trains@ + ")"@,
{
    let mut t = String::new();
    push_str(&mut t, s.title);
    push_str(&mut t, " (");
    push_str(&mut t, s.trains);
    push_str(&mut t, ")");
    t
}

/// How a stat bonus value is coloured.
#[derive(Clone, Copy, PartialEq, Eq, Structural, Debug)]
pub enum StatTone {
    Negative,
    Zero,
    /// A positive bonus takes the stat's own colour.
    Identity,
}

/// The tone of a stat bonus value.
pub fn stat_value_color(v: i32) -> (t: StatTone)
    ensures
        t == (if v < 0 { StatTone::Negative } else if v == 0 { StatTone::Zero } else { StatTone::Identity }),
{
    if v < 0 {
        StatTone::Negative
    } else if v == 0 {
        StatTone::Zero
    } else {
        StatTone::Identity
    }
}

/// The stat column: its labels in order.
pub fn stat_labels() -> (v: Vec<&'static str>)
    ensures
        v.len() == 5,
        v@[0]@ == "ATK"@ && v@[1]@ == "STR"@ && v@[2]@ == "DEF"@ && v@[3]@ == "MAG"@ && v@[4]@ == "RNG"@,
{
    vec!["ATK", "STR", "DEF", "MAG", "RNG"]
}

/// The equipment grid: each slot type with its column and row.
pub open spec fn equipment_layout() -> Seq<(Seq<char>, int, int)> {
    seq![
        ("head"@, 1int, 0int),
        ("back"@, 0int, 1int),
        ("body"@, 1int, 1int),
        ("weapon"@, 2int, 1int),
        ("gloves"@, 0int, 2int),
        ("ring"@, 2int, 2int),
        ("necklace"@, 0int, 3int),
        ("feet"@, 1int, 3int),
        ("belt"@, 2int, 3int),
    ]
}

/// The equipment slots of the character panel with their grid cells.
pub fn equipment_slots() -> (v: Vec<(&'static str, u8, u8)>)
    ensures
        v.len() == equipment_layout().len(),
        forall|k: int| 0 <= k < v.len() ==> ((#[trigger] v@[k]).0@, v@[k].1 as int, v@[k].2 as int) == equipment_layout()[k],
{
    let v = vec![
        ("head", 1u8, 0u8),
        ("back", 0u8, 1u8),
        ("body", 1u8, 1u8),
        ("weapon", 2u8, 1u8),
        ("gloves", 0u8, 2u8),
        ("ring", 2u8, 2u8),
        ("necklace", 0u8, 3u8),
        ("feet", 1u8, 3u8),
        ("belt", 2u8, 3u8),
    ];
    v
}

/// No two equipment slots share a cell, and the grid is three columns by
/// four rows.
pub proof fn lemma_equipment_cells_distinct()
    ensures
        forall|a: int, b: int| 0 <= a < b < 9 ==> (#[trigger] equipment_layout()[a]).1 != (#[trigger] equipment_layout()[b]).1
            || equipment_layout()[a].2 != equipment_layout()[b].2,
        forall|a: int| 0 <= a < 9 ==> 0 <= (#[trigger] equipment_layout()[a]).1 < 3 && 0 <= equipment_layout()[a].2 < 4,
{
    let l = equipment_layout();
    assert(l.len() == 9);
}

/// The auto-retaliate toggle: its state word and border emphasis.
pub fn retaliate_toggle(enabled: bool, hovered: bool) -> (r: (&'static str, Emphasis))
    ensures
        r.0@ == (if enabled { "ON"@ } else { "OFF"@ }),
        r.1 == emphasis_of(enabled, hovered),
{
    let word = if enabled { "ON" } else { "OFF" };
    let e = if enabled { Emphasis::Selected } else if hovered { Emphasis::Hovered } else { Emphasis::Normal };
    (word, e)
}

/// The label of the shop button: "Close Shop" while the stall is being set
/// up or is open, "Open Shop" otherwise.
pub fn shop_button_label(stall_setup_open: bool, stall_active: bool) -> (s: &'static str)
    ensures
        s@ == (if stall_setup_open || stall_active { "Close Shop"@ } else { "Open Shop"@ }),
{
    if stall_setup_open || stall_active { "Close Shop" } else { "Open Shop" }
}

} // verus!
