//! Heads-up texts: the experience bar, the skills panel and its tooltip,
//! prayer and spell tooltips, the boss bar and the King of the Hill panels.

use vstd::prelude::*;
use crate::text::{int_text, nat_text, grouped_number, push_str, push_i64, push_u64, format_number, same_text};

verus! {

/// "Combat Lv: {combat}  |  Total Lv: {total}", the experience bar's text;
/// a new character's levels (3 and 23) are shown when no player is known.
pub fn exp_bar_text(levels: Option<(i32, i32)>) -> (s: String)
    ensures
        s@ == (match levels {
            Some((c, t)) => "Combat Lv: "@ + int_text(c as int) + "  |  Total Lv: "@ + int_text(t as int),
            None => "Combat Lv: "@ + int_text(3) + "  |  Total Lv: "@ + int_text(23),
        }),
{
    let (c, t) = match levels {
        Some(p) => p,
        None => (3, 23),
    };
    let mut s = String::new();
    push_str(&mut s, "Combat Lv: ");
    push_i64(&mut s, c as i64);
    push_str(&mut s, "  |  Total Lv: ");
    push_i64(&mut s, t as i64);
    assert(s@ =~= "Combat Lv: "@ + int_text(c as int) + "  |  Total Lv: "@ + int_text(t as int));
    s
}

/// "Skills (Cmb: {level})", the skills panel header; level 3 when no
/// player is known.
pub fn skills_header(combat_level: Option<i32>) -> (s: String)
    ensures
        s@ == "Skills (Cmb: "@ + int_text(match combat_level { Some(c) => c as int, None => 3 }) + ")"@,
{
    let c = match combat_level {
        Some(c) => c,
        None => 3,
    };
    let mut s = String::new();
    push_str(&mut s, "Skills (Cmb: ");
    push_i64(&mut s, c as i64);
    push_str(&mut s, ")");
    s
}

/// The lines of a skill's tooltip below its name: "Level: {level}",
/// "XP: {xp} / {next}" and "To next: {left} XP", numbers with thousands
/// separators.
pub fn skill_tooltip_lines(level: i32, xp: i64, next_level_xp: i64, xp_to_next: i64) -> (v: Vec<String>)
    ensures
        v.len() == 3,
        v@[0]@ == "Level: "@ + int_text(level as int),
        v@[1]@ == "XP: "@ + grouped_number(xp as int) + " / "@ + grouped_number(next_level_xp as int),
        v@[2]@ == "To next: "@ + grouped_number(xp_to_next as int) + " XP"@,
{
    let mut a = String::new();
    push_str(&mut a, "Level: ");
    push_i64(&mut a, level as i64);
    let mut b = String::new();
    push_str(&mut b, "XP: ");
    push_str(&mut b, format_number(xp).as_str());
    push_str(&mut b, " / ");
    push_str(&mut b, format_number(next_level_xp).as_str());
    let mut c = String::new();
    push_str(&mut c, "To next: ");
    push_str(&mut c, format_number(xp_to_next).as_str());
    push_str(&mut c, " XP");
    assert(b@ =~= "XP: "@ + grouped_number(xp as int) + " / "@ + grouped_number(next_level_xp as int));
    assert(c@ =~= "To next: "@ + grouped_number(xp_to_next as int) + " XP"@);
    vec![a, b, c]
}

/// A skill of the skills panel.
#[derive(Clone, Copy, PartialEq, Eq, Structural, Debug)]
pub enum SkillType {
    Hitpoints,
    Combat,
    Fishing,
    Farming,
    Mining,
    Smithing,
    Prayer,
    Magic,
    Woodcutting,
    Alchemy,
    Slayer,
    Survivalist,
}

/// Columns of the skills grid.
pub const SKILL_GRID_COLS: usize = 3;

/// Slots of the skills grid: four rows of three.
pub const TOTAL_SKILL_SLOTS: usize = 12;

/// The eleven active skills of the panel in display order; the twelfth
/// slot of the grid is a locked placeholder.
pub open spec fn active_skills() -> Seq<SkillType> {
    seq![
        SkillType::Hitpoints,
        SkillType::Combat,
        SkillType::Fishing,
        SkillType::Woodcutting,
        SkillType::Farming,
        SkillType::Mining,
        SkillType::Smithing,
        SkillType::Prayer,
        SkillType::Magic,
        SkillType::Alchemy,
        SkillType::Slayer,
    ]
}

/// The skill in display position `i`, when there is one.
pub open spec fn skill_at(i: int) -> Option<SkillType> {
    if 0 <= i < active_skills().len() {
        Some(active_skills()[i])
    } else {
        None
    }
}

/// The skill shown in slot `slot_index` of the skills grid; `None` for the
/// locked placeholder slot past the active skills. The tooltip shows for a
/// hovered slot exactly when this is a skill.
pub fn skill_in_slot(slot_index: usize) -> (r: Option<SkillType>)
    ensures
        r == skill_at(slot_index as int),
        slot_index == 0 ==> r == Some(SkillType::Hitpoints),
        slot_index == 1 ==> r == Some(SkillType::Combat),
        slot_index == 2 ==> r == Some(SkillType::Fishing),
        slot_index == 3 ==> r == Some(SkillType::Woodcutting),
        slot_index == 4 ==> r == Some(SkillType::Farming),
        slot_index == 5 ==> r == Some(SkillType::Mining),
        slot_index == 6 ==> r == Some(SkillType::Smithing),
        slot_index == 7 ==> r == Some(SkillType::Prayer),
        slot_index == 8 ==> r == Some(SkillType::Magic),
        slot_index == 9 ==> r == Some(SkillType::Alchemy),
        slot_index == 10 ==> r == Some(SkillType::Slayer),
        slot_index >= 11 ==> r is None,
{
    let order: [SkillType; 11] = [
        SkillType::Hitpoints,
        SkillType::Combat,
        SkillType::Fishing,
        SkillType::Woodcutting,
        SkillType::Farming,
        SkillType::Mining,
        SkillType::Smithing,
        SkillType::Prayer,
        SkillType::Magic,
        SkillType::Alchemy,
        SkillType::Slayer,
    ];
    assert(order@ =~= active_skills());
    if slot_index < 11 {
        Some(order[slot_index])
    } else {
        None
    }
}

/// The skills grid, slot by slot: Hitpoints, Combat, Fishing, Woodcutting,
/// Farming, Mining, Smithing, Prayer, Magic, Alchemy and Slayer in slots 0
/// to 10, each skill once; the last slot is locked.
pub proof fn lemma_skill_grid_counts()
    ensures
        active_skills().len() == 11,
        skill_at(0) == Some(SkillType::Hitpoints),
        skill_at(1) == Some(SkillType::Combat),
        skill_at(2) == Some(SkillType::Fishing),
        skill_at(3) == Some(SkillType::Woodcutting),
        skill_at(4) == Some(SkillType::Farming),
        skill_at(5) == Some(SkillType::Mining),
        skill_at(6) == Some(SkillType::Smithing),
        skill_at(7) == Some(SkillType::Prayer),
        skill_at(8) == Some(SkillType::Magic),
        skill_at(9) == Some(SkillType::Alchemy),
        skill_at(10) == Some(SkillType::Slayer),
        forall|i: int| 0 <= i < 11 ==> #[trigger] skill_at(i) is Some,
        forall|i: int, j: int| 0 <= i < j < 11 ==> #[trigger] skill_at(i) != #[trigger] skill_at(j),
        skill_at(TOTAL_SKILL_SLOTS as int - 1) is None,
{
}

/// One slot of the skills grid: its row and column, and the skill it shows
/// (`None` for a locked placeholder).
pub struct SkillGridSlot {
    pub row: usize,
    pub col: usize,
    pub skill: Option<SkillType>,
}

/// The slots of the skills grid in order, filled row by row,
/// `SKILL_GRID_COLS` to a row: slot `i` sits at row `i / 3`, column `i % 3`,
/// and shows the `i`-th active skill, or the locked placeholder past them.
pub fn skill_grid() -> (v: Vec<SkillGridSlot>)
    ensures
        v.len() == TOTAL_SKILL_SLOTS,
        forall|i: int|
            0 <= i < v.len() ==> {
                &&& (#[trigger] v@[i]).row == i / SKILL_GRID_COLS as int
                &&& v@[i].col == i % SKILL_GRID_COLS as int
                &&& v@[i].skill == skill_at(i)
            },
{
    let mut v: Vec<SkillGridSlot> = Vec::new();
    let mut i: usize = 0;
    while i < TOTAL_SKILL_SLOTS
        invariant
            i <= TOTAL_SKILL_SLOTS,
            v.len() == i,
            forall|k: int|
                0 <= k < v.len() ==> {
                    &&& (#[trigger] v@[k]).row == k / SKILL_GRID_COLS as int
                    &&& v@[k].col == k % SKILL_GRID_COLS as int
                    &&& v@[k].skill == skill_at(k)
                },
        decreases TOTAL_SKILL_SLOTS - i,
    {
        v.push(SkillGridSlot { row: i / SKILL_GRID_COLS, col: i % SKILL_GRID_COLS, skill: skill_in_slot(i) });
        i = i + 1;
    }
    v
}

/// The letters drawn for a skill when its icon is missing.
pub fn skill_letter(k: SkillType) -> (s: &'static str)
    ensures
        s@ == (match k {
            SkillType::Hitpoints => "H"@,
            SkillType::Combat => "C"@,
            SkillType::Fishing => "F"@,
            SkillType::Farming => "Fm"@,
            SkillType::Mining => "Mi"@,
            SkillType::Smithing => "Sm"@,
            SkillType::Prayer => "Pr"@,
            SkillType::Magic => "Mg"@,
            SkillType::Woodcutting => "Wc"@,
            SkillType::Alchemy => "Al"@,
            SkillType::Slayer => "Sl"@,
            SkillType::Survivalist => "Sv"@,
        }),
{
    match k {
        SkillType::Hitpoints => "H",
        SkillType::Combat => "C",
        SkillType::Fishing => "F",
        SkillType::Farming => "Fm",
        SkillType::Mining => "Mi",
        SkillType::Smithing => "Sm",
        SkillType::Prayer => "Pr",
        SkillType::Magic => "Mg",
        SkillType::Woodcutting => "Wc",
        SkillType::Alchemy => "Al",
        SkillType::Slayer => "Sl",
        SkillType::Survivalist => "Sv",
    }
}

/// How a prayer slot is drawn.
#[derive(Clone, Copy, PartialEq, Eq, Structural, Debug)]
pub enum PrayerLook {
    Locked,
    Active,
    Hovered,
    Normal,
}

/// The look of a prayer slot: locked when the player's prayer level is
/// below the prayer's, then active, then hovered (only while the player
/// has prayer points left).
pub fn prayer_slot_look(prayer_level: i32, level_req: i32, active: bool, hovered: bool, has_points: bool) -> (l: PrayerLook)
    ensures
        l == (if prayer_level < level_req {
            PrayerLook::Locked
        } else if active {
            PrayerLook::Active
        } else if hovered && has_points {
            PrayerLook::Hovered
        } else {
            PrayerLook::Normal
        }),
{
    if prayer_level < level_req {
        PrayerLook::Locked
    } else if active {
        PrayerLook::Active
    } else if hovered && has_points {
        PrayerLook::Hovered
    } else {
        PrayerLook::Normal
    }
}

/// The status line of a prayer's tooltip.
pub fn prayer_status_text(prayer_level: i32, level_req: i32, active: bool) -> (s: String)
    ensures
        s@ == (if prayer_level < level_req {
            "Requires level "@ + int_text(level_req as int)
        } else if active {
            "Active"@
        } else {
            "Click to activate"@
        }),
{
    let mut s = String::new();
    if prayer_level < level_req {
        push_str(&mut s, "Requires level ");
        push_i64(&mut s, level_req as i64);
    } else if active {
        push_str(&mut s, "Active");
    } else {
        push_str(&mut s, "Click to activate");
    }
    s
}

/// "{current}/{max}", the prayer point or mana readout.
pub fn points_text(current: i32, max: i32) -> (s: String)
    ensures
        s@ == int_text(current as int) + "/"@ + int_text(max as int),
{
    let mut s = String::new();
    push_i64(&mut s, current as i64);
    push_str(&mut s, "/");
    push_i64(&mut s, max as i64);
    assert(s@ =~= int_text(current as int) + "/"@ + int_text(max as int));
    s
}

/// The name shown above a boss's bar.
pub fn boss_name(boss_id: &str) -> (s: &'static str)
    ensures
        s@ == (if boss_id@ == "reaper"@ {
            "The Reaper"@
        } else if boss_id@ == "cursed_pharaoh"@ {
            "Cursed Pharaoh"@
        } else {
            "Desert Wurm"@
        }),
{
    if same_text(boss_id, "reaper") {
        "The Reaper"
    } else if same_text(boss_id, "cursed_pharaoh") {
        "Cursed Pharaoh"
    } else {
        "Desert Wurm"
    }
}

/// The colour of the boss's bar by fight phase.
#[derive(Clone, Copy, PartialEq, Eq, Structural, Debug)]
pub enum BossBar {
    Hunt,
    Storm,
    Frenzy,
    Other,
}

/// The bar colour for a boss phase.
pub fn boss_bar(phase: &str) -> (b: BossBar)
    ensures
        b == (if phase@ == "hunt"@ {
            BossBar::Hunt
        } else if phase@ == "storm"@ {
            BossBar::Storm
        } else if phase@ == "frenzy"@ {
            BossBar::Frenzy
        } else {
            BossBar::Other
        }),
{
    if same_text(phase, "hunt") {
        BossBar::Hunt
    } else if same_text(phase, "storm") {
        BossBar::Storm
    } else if same_text(phase, "frenzy") {
        BossBar::Frenzy
    } else {
        BossBar::Other
    }
}

/// "{hp} / {max}", the boss's health.
pub fn boss_hp_text(hp: i32, max_hp: i32) -> (s: String)
    ensures
        s@ == int_text(hp as int) + " / "@ + int_text(max_hp as int),
{
    let mut s = String::new();
    push_i64(&mut s, hp as i64);
    push_str(&mut s, " / ");
    push_i64(&mut s, max_hp as i64);
    assert(s@ =~= int_text(hp as int) + " / "@ + int_text(max_hp as int));
    s
}

/// The phase of a King of the Hill round.
#[derive(Clone, Copy, PartialEq, Eq, Structural, Debug)]
pub enum KothPhase {
    Countdown,
    Active,
    WaveComplete,
    Checkpoint,
    /// Any other phase shows nothing.
    Other,
}

/// The round phase named by the server.
pub fn koth_phase(phase: &str) -> (p: KothPhase)
    ensures
        p == (if phase@ == "countdown"@ {
            KothPhase::Countdown
        } else if phase@ == "active"@ {
            KothPhase::Active
        } else if phase@ == "wave_complete"@ {
            KothPhase::WaveComplete
        } else if phase@ == "checkpoint"@ {
            KothPhase::Checkpoint
        } else {
            KothPhase::Other
        }),
{
    if same_text(phase, "countdown") {
        KothPhase::Countdown
    } else if same_text(phase, "active") {
        KothPhase::Active
    } else if same_text(phase, "wave_complete") {
        KothPhase::WaveComplete
    } else if same_text(phase, "checkpoint") {
        KothPhase::Checkpoint
    } else {
        KothPhase::Other
    }
}

/// "Enemies: {defeated}/{total}", counting the enemies no longer alive.
pub fn enemies_text(alive: u32, total: u32) -> (s: String)
    requires
        alive <= total,
    ensures
        s@ == "Enemies: "@ + nat_text((total - alive) as nat) + "/"@ + nat_text(total as nat),
{
    let mut s = String::new();
    push_str(&mut s, "Enemies: ");
    push_u64(&mut s, (total - alive) as u64);
    push_str(&mut s, "/");
    push_u64(&mut s, total as u64);
    assert(s@ =~= "Enemies: "@ + nat_text((total - alive) as nat) + "/"@ + nat_text(total as nat));
    s
}

/// A label followed by a number: "Wave 3", "Points: 120", "Waves: 5".
pub fn labelled_number(label: &str, n: i64) -> (s: String)
    ensures
        s@ == label@ + int_text(n as int),
{
    let mut s = String::new();
    push_str(&mut s, label);
    push_i64(&mut s, n);
    s
}

/// "{name} x{quantity}", a reward line.
pub fn reward_line(name: &str, quantity: i64) -> (s: String)
    ensures
        s@ == name@ + " x"@ + int_text(quantity as int),
{
    let mut s = String::new();
    push_str(&mut s, name);
    push_str(&mut s, " x");
    push_i64(&mut s, quantity);
    s
}

/// The title of the game-over panel.
pub fn game_over_title(victory: bool) -> (s: &'static str)
    ensures
        s@ == (if victory { "Victory!"@ } else { "Defeated!"@ }),
{
    if victory { "Victory!" } else { "Defeated!" }
}

} // verus!
