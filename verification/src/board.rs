//! The contract board: the lane list, the difficulty rows of the selected
//! lane and the panel of the contract in progress.

use vstd::prelude::*;
use crate::text::{nat_text, push_str, push_u64, same_text};
use crate::common::{Emphasis, emphasis_of, clamped_index, clamp_index};

verus! {

/// The accent colour of a contract lane.
#[derive(Clone, Copy, PartialEq, Eq, Structural, Debug)]
pub enum KindAccent {
    Farming,
    Mining,
    Woodcutting,
    Fishing,
    Smithing,
    /// Any other lane takes the frame accent.
    Frame,
}

/// The accent of lane `kind_id`.
pub open spec fn accent_of(kind_id: Seq<char>) -> KindAccent {
    if kind_id == "farming"@ {
        KindAccent::Farming
    } else if kind_id == "mining"@ {
        KindAccent::Mining
    } else if kind_id == "woodcutting"@ {
        KindAccent::Woodcutting
    } else if kind_id == "fishing"@ {
        KindAccent::Fishing
    } else if kind_id == "smithing"@ {
        KindAccent::Smithing
    } else {
        KindAccent::Frame
    }
}

/// The accent colour of a contract lane.
pub fn kind_accent(kind_id: &str) -> (a: KindAccent)
    ensures
        a == accent_of(kind_id@),
{
    if same_text(kind_id, "farming") {
        KindAccent::Farming
    } else if same_text(kind_id, "mining") {
        KindAccent::Mining
    } else if same_text(kind_id, "woodcutting") {
        KindAccent::Woodcutting
    } else if same_text(kind_id, "fishing") {
        KindAccent::Fishing
    } else if same_text(kind_id, "smithing") {
        KindAccent::Smithing
    } else {
        KindAccent::Frame
    }
}

/// Upper case of a text, character by character as Unicode defines it.
pub uninterp spec fn unicode_upper(s: Seq<char>) -> Seq<char>;

/// `str::to_uppercase`: the Unicode upper case of `s`. What each character
/// maps to is Unicode's table, which is not restated here: the result is
/// only tied to its argument.
#[verifier::external_body]
pub(crate) fn upper_case(s: &str) -> (r: String)
    ensures
        r@ == unicode_upper(s@),
{
    s.to_uppercase()
}

/// The title of a lane in the list: its name in upper case.
pub fn lane_title(kind_name: &str) -> (s: String)
    ensures
        s@ == unicode_upper(kind_name@),
{
    upper_case(kind_name)
}

/// The header of the selected lane: "{NAME} CONTRACTS".
pub fn lane_header(kind_name: &str) -> (s: String)
    ensures
        s@ == unicode_upper(kind_name@) + " CONTRACTS"@,
{
    let mut s = upper_case(kind_name);
    push_str(&mut s, " CONTRACTS");
    s
}

/// "Skill {level}", the badge of a lane.
pub fn skill_badge(level: u32) -> (s: String)
    ensures
        s@ == "Skill "@ + nat_text(level as nat),
{
    let mut s = String::new();
    push_str(&mut s, "Skill ");
    push_u64(&mut s, level as u64);
    s
}

/// "{xp} XP  {gold} gp", the rewards of a difficulty.
pub fn rewards_text(xp: u32, gold: u32) -> (s: String)
    ensures
        s@ == nat_text(xp as nat) + " XP  "@ + nat_text(gold as nat) + " gp"@,
{
    let mut s = String::new();
    push_u64(&mut s, xp as u64);
    push_str(&mut s, " XP  ");
    push_u64(&mut s, gold as u64);
    push_str(&mut s, " gp");
    assert(s@ =~= nat_text(xp as nat) + " XP  "@ + nat_text(gold as nat) + " gp"@);
    s
}

/// The colour of a difficulty's status line.
#[derive(Clone, Copy, PartialEq, Eq, Structural, Debug)]
pub enum StatusTone {
    /// Another contract is running.
    Busy,
    /// The contract can be taken.
    Open,
    /// The player's level is too low.
    Locked,
}

/// What a difficulty row shows.
pub struct DifficultyRow {
    /// The row can be clicked: unlocked, and no contract is running.
    pub available: bool,
    pub status: String,
    pub tone: StatusTone,
}

/// The status line of a difficulty.
pub open spec fn difficulty_status(has_active: bool, unlocked: bool, level_required: u32) -> (Seq<char>, StatusTone) {
    if has_active {
        ("Active job in progress"@, StatusTone::Busy)
    } else if unlocked {
        ("Take contract"@, StatusTone::Open)
    } else {
        ("Requires "@ + nat_text(level_required as nat), StatusTone::Locked)
    }
}

/// The state of one difficulty row: only one contract may run at a time,
/// so every row is closed while one is active.
pub fn difficulty_row(has_active: bool, unlocked: bool, level_required: u32) -> (r: DifficultyRow)
    ensures
        r.available == (unlocked && !has_active),
        (r.status@, r.tone) == difficulty_status(has_active, unlocked, level_required),
{
    let mut status = String::new();
    let tone = if has_active {
        push_str(&mut status, "Active job in progress");
        StatusTone::Busy
    } else if unlocked {
        push_str(&mut status, "Take contract");
        StatusTone::Open
    } else {
        push_str(&mut status, "Requires ");
        push_u64(&mut status, level_required as u64);
        StatusTone::Locked
    };
    assert(status@ =~= difficulty_status(has_active, unlocked, level_required).0);
    DifficultyRow { available: unlocked && !has_active, status, tone }
}

/// "{difficulty} {lane}", the title of the running contract.
pub fn contract_title(difficulty_name: &str, kind_name: &str) -> (s: String)
    ensures
        s@ == difficulty_name@ + " "@ + kind_name@,
{
    let mut s = String::new();
    push_str(&mut s, difficulty_name);
    push_str(&mut s, " ");
    push_str(&mut s, kind_name);
    s
}

/// "Turn in: {giver}".
pub fn turn_in_text(giver_name: &str) -> (s: String)
    ensures
        s@ == "Turn in: "@ + giver_name@,
{
    let mut s = String::new();
    push_str(&mut s, "Turn in: ");
    push_str(&mut s, giver_name);
    s
}

/// "{done}/{required} {label}", the text on the progress bar.
pub fn progress_text(done: u32, required: u32, label: &str) -> (s: String)
    ensures
        s@ == nat_text(done as nat) + "/"@ + nat_text(required as nat) + " "@ + label@,
{
    let mut s = String::new();
    push_u64(&mut s, done as u64);
    push_str(&mut s, "/");
    push_u64(&mut s, required as u64);
    push_str(&mut s, " ");
    push_str(&mut s, label);
    assert(s@ =~= nat_text(done as nat) + "/"@ + nat_text(required as nat) + " "@ + label@);
    s
}

/// The filled part of the progress bar as a fraction `(part, whole)`: the
/// done amount out of the required one, at most full; an empty bar when
/// nothing is required.
pub fn progress_fraction(done: u32, required: u32) -> (r: (u32, u32))
    ensures
        r.1 == (if required > 0 { required } else { 1 }),
        r.0 == (if required == 0 { 0 } else if done < required { done } else { required }),
        r.0 <= r.1,
{
    if required == 0 {
        (0, 1)
    } else if done < required {
        (done, required)
    } else {
        (required, required)
    }
}

/// The reward lines of the running contract: "Reward: {xp} XP",
/// "Reward: {gold} gp" and, when there is a bonus, "Bonus: {bonus}".
pub fn reward_lines(xp: u32, gold: u32, bonus: &str) -> (v: Vec<String>)
    ensures
        v.len() == (if bonus@.len() > 0 { 3int } else { 2int }),
        v@[0]@ == "Reward: "@ + nat_text(xp as nat) + " XP"@,
        v@[1]@ == "Reward: "@ + nat_text(gold as nat) + " gp"@,
        bonus@.len() > 0 ==> v@[2]@ == "Bonus: "@ + bonus@,
{
    let mut a = String::new();
    push_str(&mut a, "Reward: ");
    push_u64(&mut a, xp as u64);
    push_str(&mut a, " XP");
    let mut b = String::new();
    push_str(&mut b, "Reward: ");
    push_u64(&mut b, gold as u64);
    push_str(&mut b, " gp");
    let mut v: Vec<String> = Vec::new();
    v.push(a);
    v.push(b);
    if !bonus.is_empty() {
        let mut c = String::new();
        push_str(&mut c, "Bonus: ");
        push_str(&mut c, bonus);
        v.push(c);
    }
    v
}

/// The claim button: its label and emphasis. It only reacts when the
/// contract can be claimed.
pub struct ClaimButton {
    pub label: String,
    pub enabled: bool,
    pub emphasis: Emphasis,
}

/// The claim button of the running contract.
pub fn claim_button(can_claim: bool, hovered: bool) -> (b: ClaimButton)
    ensures
        b.enabled == can_claim,
        b.label@ == (if can_claim { "Claim Rewards"@ } else { "Finish Contract"@ }),
        b.emphasis == emphasis_of(false, can_claim && hovered),
{
    let mut label = String::new();
    if can_claim {
        push_str(&mut label, "Claim Rewards");
    } else {
        push_str(&mut label, "Finish Contract");
    }
    let emphasis = if can_claim && hovered { Emphasis::Hovered } else { Emphasis::Normal };
    ClaimButton { label, enabled: can_claim, emphasis }
}

/// The three stat cards: completed contracts, total XP and total gold.
pub fn stat_cards(completed: u64, total_xp: u64, total_gold: u64) -> (v: Vec<(String, String)>)
    ensures
        v.len() == 3,
        v@[0].0@ == "Completed"@ && v@[0].1@ == nat_text(completed as nat),
        v@[1].0@ == "Total XP"@ && v@[1].1@ == nat_text(total_xp as nat),
        v@[2].0@ == "Total Gold"@ && v@[2].1@ == nat_text(total_gold as nat),
{
    let mut v: Vec<(String, String)> = Vec::new();
    let cards: [(&str, u64); 3] = [("Completed", completed), ("Total XP", total_xp), ("Total Gold", total_gold)];
    let mut i: usize = 0;
    while i < 3
        invariant
            i <= 3,
            v.len() == i,
            cards@ == seq![("Completed", completed), ("Total XP", total_xp), ("Total Gold", total_gold)],
            forall|k: int| 0 <= k < i ==> (#[trigger] v@[k]).0@ == cards@[k].0@ && v@[k].1@ == nat_text(cards@[k].1 as nat),
        decreases 3 - i,
    {
        let mut label = String::new();
        push_str(&mut label, cards[i].0);
        let mut value = String::new();
        push_u64(&mut value, cards[i].1);
        assert(value@ =~= nat_text(cards@[i as int].1 as nat));
        v.push((label, value));
        i = i + 1;
    }
    v
}

/// An element of the contract board that takes clicks.
#[derive(Clone, Copy, PartialEq, Eq, Structural, Debug)]
pub enum BoardElement {
    Close,
    Offer(usize),
    Difficulty(usize),
    Claim,
    Abandon,
}

/// The elements `f(start)` up to `f(end - 1)`, in order.
pub open spec fn element_run(f: spec_fn(usize) -> BoardElement, start: nat, end: nat) -> Seq<BoardElement>
    decreases end - start,
{
    if start >= end {
        Seq::empty()
    } else {
        seq![f(start as usize)] + element_run(f, start + 1, end)
    }
}

/// The clickable elements of the board in the order they are laid out: the
/// close button; a row per lane; a row per difficulty of the selected lane
/// (the remembered selection, moved onto the last lane when the list got
/// shorter), when there is a lane; and the claim and abandon buttons only
/// while a contract is in progress.
pub open spec fn board_elements_of(difficulty_counts: Seq<usize>, selected: nat, has_active: bool) -> Seq<BoardElement> {
    let n = difficulty_counts.len();
    seq![BoardElement::Close] + element_run(|i: usize| BoardElement::Offer(i), 0, n) + (if n > 0 {
        element_run(|i: usize| BoardElement::Difficulty(i), 0, difficulty_counts[clamped_index(selected, n) as int] as nat)
    } else {
        Seq::empty()
    }) + (if has_active { seq![BoardElement::Claim, BoardElement::Abandon] } else { Seq::empty() })
}

proof fn lemma_element_run_push(f: spec_fn(usize) -> BoardElement, start: nat, end: nat)
    requires
        start <= end,
    ensures
        element_run(f, start, end + 1) == element_run(f, start, end).push(f(end as usize)),
    decreases end - start,
{
    if start < end {
        lemma_element_run_push(f, start + 1, end);
        assert(element_run(f, start, end + 1) =~= seq![f(start as usize)] + element_run(f, start + 1, end + 1));
    } else {
        assert(element_run(f, end + 1, end + 1) =~= Seq::<BoardElement>::empty());
    }
}

/// Appends rows `0..count`: difficulty rows, or lane rows.
fn push_rows(v: &mut Vec<BoardElement>, difficulty_rows: bool, count: usize)
    ensures
        final(v)@ == old(v)@ + element_run(row_element(difficulty_rows), 0, count as nat),
{
    let ghost start = v@;
    let mut i: usize = 0;
    while i < count
        invariant
            i <= count,
            v@ == start + element_run(row_element(difficulty_rows), 0, i as nat),
        decreases count - i,
    {
        proof {
            lemma_element_run_push(row_element(difficulty_rows), 0, i as nat);
        }
        if difficulty_rows {
            v.push(BoardElement::Difficulty(i));
        } else {
            v.push(BoardElement::Offer(i));
        }
        i = i + 1;
    }
}

/// The row element of a difficulty row, or of a lane row.
pub open spec fn row_element(difficulty_rows: bool) -> spec_fn(usize) -> BoardElement {
    if difficulty_rows {
        |i: usize| BoardElement::Difficulty(i)
    } else {
        |i: usize| BoardElement::Offer(i)
    }
}

/// The clickable elements of the board, in layout order (see
/// `board_elements_of`). `difficulty_counts` holds, per lane, how many
/// difficulties it offers.
pub fn board_elements(difficulty_counts: &[usize], selected: usize, has_active: bool) -> (v: Vec<BoardElement>)
    ensures
        v@ == board_elements_of(difficulty_counts@, selected as nat, has_active),
{
    let mut v: Vec<BoardElement> = Vec::new();
    v.push(BoardElement::Close);
    let n = difficulty_counts.len();
    push_rows(&mut v, false, n);
    let ghost after_offers = v@;
    if n > 0 {
        let k = clamp_index(selected, n);
        push_rows(&mut v, true, difficulty_counts[k]);
    }
    let ghost after_rows = v@;
    if has_active {
        v.push(BoardElement::Claim);
        v.push(BoardElement::Abandon);
    }
    proof {
        assert(row_element(false) == (|i: usize| BoardElement::Offer(i)));
        assert(row_element(true) == (|i: usize| BoardElement::Difficulty(i)));
    }
    assert(v@ =~= board_elements_of(difficulty_counts@, selected as nat, has_active));
    v
}

/// The contract tracker under its "CONTRACT" header.
pub struct ContractTracker {
    /// "{task} ({difficulty})".
    pub title: String,
    /// "[x] {done}/{required} {label}" once complete, "[ ] ..." before.
    pub progress: String,
    /// The done amount has reached the required one.
    pub complete: bool,
    /// "[ ] Return to {giver}", only once complete.
    pub return_line: Option<String>,
}

/// The texts of the contract tracker: the title, the progress line with its
/// check box, and, once the done amount reaches the required one, the line
/// that sends the player back to the giver.
pub fn contract_tracker(task: &str, difficulty: &str, done: u32, required: u32, label: &str, giver: &str) -> (t: ContractTracker)
    ensures
        t.title@ == task@ + " ("@ + difficulty@ + ")"@,
        t.complete == (done >= required),
        t.progress@ == (if done >= required { "[x] "@ } else { "[ ] "@ }) + nat_text(done as nat) + "/"@ + nat_text(
            required as nat) + " "@ + label@,
        t.return_line is Some == (done >= required),
        t.return_line matches Some(r) ==> r@ == "[ ] Return to "@ + giver@,
{
    let mut title = String::new();
    push_str(&mut title, task);
    push_str(&mut title, " (");
    push_str(&mut title, difficulty);
    push_str(&mut title, ")");
    let complete = done >= required;
    let mut progress = String::new();
    if complete {
        push_str(&mut progress, "[x] ");
    } else {
        push_str(&mut progress, "[ ] ");
    }
    push_u64(&mut progress, done as u64);
    push_str(&mut progress, "/");
    push_u64(&mut progress, required as u64);
    push_str(&mut progress, " ");
    push_str(&mut progress, label);
    assert(progress@ =~= (if done >= required { "[x] "@ } else { "[ ] "@ }) + nat_text(done as nat) + "/"@ + nat_text(
        required as nat) + " "@ + label@);
    let return_line = if complete {
        let mut r = String::new();
        push_str(&mut r, "[ ] Return to ");
        push_str(&mut r, giver);
        Some(r)
    } else {
        None
    };
    ContractTracker { title, progress, complete, return_line }
}

} // verus!
