//! The Adventurer Guide dialogue: its tiers, which tiers are open, and the
//! progress shown for a tier's objectives.

use vstd::prelude::*;
use crate::text::{int_text, nat_text, push_str, push_i64, push_u64, same_text, chars_of};
use crate::quest::{ActiveQuest, quest_active, find_active, objective_text, objective_line};
use crate::order::{listed, text_listed};
use crate::common::{first_where, lemma_first_where_found, lemma_first_where_none, clamped_index, clamp_index};
use crate::board::{unicode_upper, upper_case};

verus! {

/// ASCII lower case of one character; other characters are unchanged.
pub open spec fn ascii_lower(c: char) -> char {
    if 'A' <= c && c <= 'Z' {
        ((c as u32) + 32) as char
    } else {
        c
    }
}

/// The texts are equal when ASCII letters are compared without case
/// (`str::eq_ignore_ascii_case`).
pub open spec fn eq_ignore_ascii_case(a: Seq<char>, b: Seq<char>) -> bool {
    a.len() == b.len() && forall|i: int| 0 <= i < a.len() ==> #[trigger] ascii_lower(a[i]) == ascii_lower(b[i])
}

/// ASCII lower case of one character.
fn to_ascii_lower(c: char) -> (r: char)
    ensures
        r == ascii_lower(c),
{
    if 'A' <= c && c <= 'Z' {
        (((c as u32) + 32) as u8) as char
    } else {
        c
    }
}

/// The dialogue is the Adventurer Guide's, whatever the case of the
/// speaker's name.
pub fn is_adventurer_guide_dialogue(speaker: &str) -> (b: bool)
    ensures
        b == eq_ignore_ascii_case(speaker@, "Adventurer Guide"@),
{
    let a = chars_of(speaker);
    let g = chars_of("Adventurer Guide");
    if a.len() != g.len() {
        return false;
    }
    let mut i: usize = 0;
    while i < a.len()
        invariant
            a.len() == g.len(),
            a@ == speaker@,
            g@ == "Adventurer Guide"@,
            i <= a.len(),
            forall|k: int| 0 <= k < i ==> #[trigger] ascii_lower(a@[k]) == ascii_lower(g@[k]),
        decreases a.len() - i,
    {
        if to_ascii_lower(a[i]) != to_ascii_lower(g[i]) {
            return false;
        }
        i = i + 1;
    }
    true
}

/// An objective of a guide tier.
pub struct GuideObjective {
    pub id: &'static str,
    pub label: &'static str,
    pub target: i32,
}

/// A tier of the Adventurer Guide.
pub struct GuideTier {
    pub id: &'static str,
    pub title: &'static str,
    pub subtitle: &'static str,
    pub description: &'static str,
    pub reward_exp: i32,
    pub reward_gold: i32,
    pub reward_items: Vec<&'static str>,
    pub objectives: Vec<GuideObjective>,
}

/// The quest ids of the tiers, in order.
pub open spec fn tier_ids() -> Seq<Seq<char>> {
    seq!["adventurer_tier_1"@, "adventurer_tier_2"@, "adventurer_tier_3"@]
}

/// An objective of the table.
fn objective(id: &'static str, label: &'static str, target: i32) -> (o: GuideObjective)
    ensures
        o.id@ == id@ && o.label@ == label@ && o.target == target,
{
    GuideObjective { id, label, target }
}

/// The three tiers of the guide, in order.
pub fn guide_tiers() -> (v: Vec<GuideTier>)
    ensures
        v.len() == 3,
        forall|k: int| 0 <= k < 3 ==> (#[trigger] v@[k]).id@ == tier_ids()[k],
        forall|k: int| 0 <= k < 3 ==> (#[trigger] v@[k]).objectives.len() == 3,
        v@[0].reward_exp == 300 && v@[0].reward_gold == 120,
        v@[1].reward_exp == 450 && v@[1].reward_gold == 220,
        v@[2].reward_exp == 700 && v@[2].reward_gold == 400,
{
    let t1 = GuideTier {
        id: "adventurer_tier_1",
        title: "Getting a Grip on It",
        subtitle: "Tier I",
        description: "Build your baseline with combat, monster clears, and early money control.",
        reward_exp: 300,
        reward_gold: 120,
        reward_items: vec!["3x Weak Health Potion"],
        objectives: vec![
            objective("kill_crows", "Defeat crows", 8),
            objective("reach_combat_8", "Reach Combat level", 8),
            objective("gather_gold_150", "Accumulate gold", 150),
        ],
    };
    let t2 = GuideTier {
        id: "adventurer_tier_2",
        title: "Building Consistency",
        subtitle: "Tier II",
        description: "Balance combat and gathering while keeping momentum across objectives.",
        reward_exp: 450,
        reward_gold: 220,
        reward_items: vec!["2x Health Potion", "2x Weak Mana Potion"],
        objectives: vec![
            objective("kill_blue_slimes", "Defeat blue slimes", 12),
            objective("reach_woodcutting_5", "Reach Woodcutting level", 5),
            objective("gather_gold_400", "Accumulate gold", 400),
        ],
    };
    let t3 = GuideTier {
        id: "adventurer_tier_3",
        title: "Early Mastery",
        subtitle: "Tier III",
        description: "Prove discipline across combat, farming growth, and wealth management.",
        reward_exp: 700,
        reward_gold: 400,
        reward_items: vec!["2x Strong Health Potion", "2x Prayer Potion"],
        objectives: vec![
            objective("kill_pigs", "Defeat pigs", 15),
            objective("reach_farming_8", "Reach Farming level", 8),
            objective("gather_gold_900", "Accumulate gold", 900),
        ],
    };
    vec![t1, t2, t3]
}

/// Where the player stands with a tier.
#[derive(Clone, Copy, PartialEq, Eq, Structural, Debug)]
pub enum TierStatus {
    Completed,
    Active,
    Available,
    Locked,
}

/// Tier `idx` is open: the first tier always is, a later one once the tier
/// before it is completed, and any tier that is active or completed.
pub open spec fn tier_unlocked(ids: Seq<Seq<char>>, idx: int, completed: Seq<String>, active: Seq<ActiveQuest>) -> bool {
    idx == 0 || listed(completed, ids[idx - 1]) || quest_active(active, ids[idx]) || listed(completed, ids[idx])
}

/// The status shown for tier `idx`.
pub open spec fn tier_status_of(ids: Seq<Seq<char>>, idx: int, completed: Seq<String>, active: Seq<ActiveQuest>) -> TierStatus {
    if listed(completed, ids[idx]) {
        TierStatus::Completed
    } else if quest_active(active, ids[idx]) {
        TierStatus::Active
    } else if tier_unlocked(ids, idx, completed, active) {
        TierStatus::Available
    } else {
        TierStatus::Locked
    }
}

/// The status of each tier, given the tiers' quest ids in order.
pub fn tier_statuses(ids: &[&str], completed_ids: &[String], active: &[ActiveQuest]) -> (v: Vec<TierStatus>)
    ensures
        v.len() == ids.len(),
        forall|k: int| 0 <= k < v.len() ==> #[trigger] v@[k]
            == tier_status_of(Seq::new(ids@.len(), |i: int| ids@[i]@), k, completed_ids@, active@),
{
    let ghost idv = Seq::new(ids@.len(), |i: int| ids@[i]@);
    let mut v: Vec<TierStatus> = Vec::new();
    let mut k: usize = 0;
    while k < ids.len()
        invariant
            k <= ids.len(),
            idv == Seq::new(ids@.len(), |i: int| ids@[i]@),
            v.len() == k,
            forall|m: int| 0 <= m < k ==> #[trigger] v@[m] == tier_status_of(idv, m, completed_ids@, active@),
        decreases ids.len() - k,
    {
        let done = text_listed(completed_ids, ids[k]);
        let is_active = find_active(active, ids[k]).is_some();
        let unlocked = k == 0 || text_listed(completed_ids, ids[k - 1]) || is_active || done;
        let st = if done {
            TierStatus::Completed
        } else if is_active {
            TierStatus::Active
        } else if unlocked {
            TierStatus::Available
        } else {
            TierStatus::Locked
        };
        v.push(st);
        k = k + 1;
    }
    v
}

/// The status word of a tier.
pub fn tier_status_text(s: TierStatus) -> (t: &'static str)
    ensures
        t@ == (match s {
            TierStatus::Completed => "COMPLETED"@,
            TierStatus::Active => "ACTIVE"@,
            TierStatus::Available => "AVAILABLE"@,
            TierStatus::Locked => "LOCKED"@,
        }),
{
    match s {
        TierStatus::Completed => "COMPLETED",
        TierStatus::Active => "ACTIVE",
        TierStatus::Available => "AVAILABLE",
        TierStatus::Locked => "LOCKED",
    }
}

/// Completing a tier opens the next one, and only the first tier is open
/// from the start.
pub proof fn lemma_tier_chain(ids: Seq<Seq<char>>, idx: int, completed: Seq<String>, active: Seq<ActiveQuest>)
    requires
        0 < idx < ids.len(),
    ensures
        listed(completed, ids[idx - 1]) ==> tier_status_of(ids, idx, completed, active) != TierStatus::Locked,
        completed.len() == 0 && active.len() == 0 ==> tier_status_of(ids, idx, completed, active) == TierStatus::Locked,
        tier_status_of(ids, 0, completed, active) != TierStatus::Locked,
{
}

/// The progress shown for a tier objective: full marks when the tier is
/// completed, otherwise the live objective with the same id of the tier's
/// active quest, otherwise nothing done.
pub open spec fn tier_progress_of(o: GuideObjective, tier_completed: bool, quest: Option<ActiveQuest>) -> (int, int, bool) {
    if tier_completed {
        (o.target as int, o.target as int, true)
    } else {
        match quest {
            Some(q) => match first_where(q.objectives@.len() as int, |j: int| q.objectives@[j].id@ == o.id@) {
                Some(j) => (q.objectives@[j].current as int, q.objectives@[j].target as int, q.objectives@[j].completed),
                None => (0, o.target as int, false),
            },
            None => (0, o.target as int, false),
        }
    }
}

/// The progress of a tier objective.
pub fn tier_objective_progress(o: &GuideObjective, tier_completed: bool, quest: Option<&ActiveQuest>) -> (r: (i32, i32, bool))
    ensures
        (r.0 as int, r.1 as int, r.2) == tier_progress_of(*o, tier_completed, match quest { Some(q) => Some(*q), None => None }),
{
    if tier_completed {
        return (o.target, o.target, true);
    }
    match quest {
        Some(q) => {
            let ghost p = |j: int| q.objectives@[j].id@ == o.id@;
            let mut j: usize = 0;
            while j < q.objectives.len()
                invariant
                    j <= q.objectives.len(),
                    quest == Some(q),
                    !tier_completed,
                    p == (|j: int| q.objectives@[j].id@ == o.id@),
                    forall|m: int| 0 <= m < j ==> !#[trigger] p(m),
                decreases q.objectives.len() - j,
            {
                if same_text(q.objectives[j].id.as_str(), o.id) {
                    proof {
                        lemma_first_where_found(q.objectives@.len() as int, p, j as int);
                    }
                    let ob = &q.objectives[j];
                    return (ob.current, ob.target, ob.completed);
                }
                j = j + 1;
            }
            proof {
                lemma_first_where_none(q.objectives@.len() as int, p);
            }
            (0, o.target, false)
        },
        None => (0, o.target, false),
    }
}

/// "[+] {label} ({current}/{target})" or with "[ ]" when not done.
pub fn tier_objective_line(o: &GuideObjective, progress: (i32, i32, bool)) -> (s: String)
    ensures
        s@ == objective_text(if progress.2 { "[+]"@ } else { "[ ]"@ }, o.label@, progress.0 as int, progress.1 as int),
{
    objective_line(if progress.2 { "[+]" } else { "[ ]" }, o.label, progress.0, progress.1)
}

/// "Progress: {done}/{count}".
pub fn tier_progress_text(done: usize, count: usize) -> (s: String)
    ensures
        s@ == "Progress: "@ + nat_text(done as nat) + "/"@ + nat_text(count as nat),
{
    let mut s = String::new();
    push_str(&mut s, "Progress: ");
    push_u64(&mut s, done as u64);
    push_str(&mut s, "/");
    push_u64(&mut s, count as u64);
    assert(s@ =~= "Progress: "@ + nat_text(done as nat) + "/"@ + nat_text(count as nat));
    s
}

/// "EXP: {exp}   Gold: {gold}".
pub fn tier_reward_text(exp: i32, gold: i32) -> (s: String)
    ensures
        s@ == "EXP: "@ + int_text(exp as int) + "   Gold: "@ + int_text(gold as int),
{
    let mut s = String::new();
    push_str(&mut s, "EXP: ");
    push_i64(&mut s, exp as i64);
    push_str(&mut s, "   Gold: ");
    push_i64(&mut s, gold as i64);
    assert(s@ =~= "EXP: "@ + int_text(exp as int) + "   Gold: "@ + int_text(gold as int));
    s
}

/// An element of the guide dialogue that takes clicks.
#[derive(Clone, Copy, PartialEq, Eq, Structural, Debug)]
pub enum GuideElement {
    Close,
    Tier(usize),
    Continue,
    Choice(usize),
}

/// The clickable elements of the guide in layout order: the close button
/// and a row per tier; then, only when the open dialogue is the quest of the
/// selected tier (the remembered selection, moved onto the last tier when
/// past it), its "Continue" button when it offers no choices, or a button
/// per choice.
pub open spec fn guide_elements_of(selected: nat, dialogue_quest_id: Seq<char>, choice_count: nat) -> Seq<GuideElement> {
    let rows = seq![GuideElement::Close, GuideElement::Tier(0), GuideElement::Tier(1), GuideElement::Tier(2)];
    if dialogue_quest_id == tier_ids()[clamped_index(selected, 3) as int] {
        if choice_count == 0 {
            rows.push(GuideElement::Continue)
        } else {
            rows + Seq::new(choice_count, |i: int| GuideElement::Choice(i as usize))
        }
    } else {
        rows
    }
}

/// The clickable elements of the guide dialogue (see `guide_elements_of`).
pub fn guide_elements(selected: usize, dialogue_quest_id: &str, choice_count: usize) -> (v: Vec<GuideElement>)
    ensures
        v@ == guide_elements_of(selected as nat, dialogue_quest_id@, choice_count as nat),
{
    let tiers = guide_tiers();
    let mut v: Vec<GuideElement> = Vec::new();
    v.push(GuideElement::Close);
    v.push(GuideElement::Tier(0));
    v.push(GuideElement::Tier(1));
    v.push(GuideElement::Tier(2));
    let ghost rows = v@;
    let k = clamp_index(selected, 3);
    assert(tiers@[k as int].id@ == tier_ids()[k as int]);
    if same_text(dialogue_quest_id, tiers[k].id) {
        if choice_count == 0 {
            v.push(GuideElement::Continue);
        } else {
            let mut i: usize = 0;
            while i < choice_count
                invariant
                    i <= choice_count,
                    v@ == rows + Seq::new(i as nat, |j: int| GuideElement::Choice(j as usize)),
                decreases choice_count - i,
            {
                v.push(GuideElement::Choice(i));
                i = i + 1;
                assert(v@ =~= rows + Seq::new(i as nat, |j: int| GuideElement::Choice(j as usize)));
            }
        }
    }
    assert(v@ =~= guide_elements_of(selected as nat, dialogue_quest_id@, choice_count as nat));
    v
}

/// The speaker's name on the dialogue tab, in upper case.
pub fn speaker_title(speaker: &str) -> (s: String)
    ensures
        s@ == unicode_upper(speaker@),
{
    upper_case(speaker)
}

} // verus!
