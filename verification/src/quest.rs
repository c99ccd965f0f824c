//! The quest log, the quest detail view and the on-screen quest tracker:
//! which status a quest shows, the order of the log, the progress shown
//! for each objective and the lines of the tracker.

use vstd::prelude::*;
use crate::text::{nat_text, int_text, push_str, push_char, push_u64, push_i64, same_text};
use crate::order::{RankKey, ranks_of, lemma_ranks_of_push, is_stable_order, stable_order, listed, text_listed};
use crate::common::{first_where, lemma_first_where_found, lemma_first_where_none};

verus! {

/// An objective of a quest the player is doing.
pub struct QuestObjective {
    pub id: String,
    pub description: String,
    pub current: i32,
    pub target: i32,
    pub completed: bool,
}

/// A quest the player is doing.
pub struct ActiveQuest {
    pub id: String,
    pub name: String,
    pub objectives: Vec<QuestObjective>,
}

/// An objective as the quest catalog describes it.
pub struct CatalogObjective {
    pub id: String,
    pub description: String,
    pub target: i32,
}

/// An entry of the quest catalog.
pub struct QuestEntry {
    pub quest_id: String,
    pub name: String,
    pub objectives: Vec<CatalogObjective>,
}

/// Where the player stands with a quest.
#[derive(Clone, Copy, PartialEq, Eq, Structural, Debug)]
pub enum QuestStatus {
    InProgress,
    NotStarted,
    Completed,
}

/// Log order of a status: in progress first, then not started, then completed.
pub open spec fn status_rank(s: QuestStatus) -> nat {
    match s {
        QuestStatus::InProgress => 0,
        QuestStatus::NotStarted => 1,
        QuestStatus::Completed => 2,
    }
}

/// The log lists quests in progress first, then those not started, then
/// completed ones; a completed quest counts as completed even while it is
/// still among the active ones.
pub proof fn lemma_status_order(id: Seq<char>, completed: Seq<String>, active: Seq<ActiveQuest>)
    ensures
        status_rank(QuestStatus::InProgress) == 0,
        status_rank(QuestStatus::NotStarted) == 1,
        status_rank(QuestStatus::Completed) == 2,
        listed(completed, id) ==> status_of(id, completed, active) == QuestStatus::Completed,
        !listed(completed, id) && quest_active(active, id) ==> status_of(id, completed, active) == QuestStatus::InProgress,
        !listed(completed, id) && !quest_active(active, id) ==> status_of(id, completed, active) == QuestStatus::NotStarted,
{
}

/// Some active quest has the id `id`.
pub open spec fn quest_active(active: Seq<ActiveQuest>, id: Seq<char>) -> bool {
    exists|k: int| 0 <= k < active.len() && #[trigger] active[k].id@ == id
}

/// The status of quest `id`: completed wins over active.
pub open spec fn status_of(id: Seq<char>, completed: Seq<String>, active: Seq<ActiveQuest>) -> QuestStatus {
    if listed(completed, id) {
        QuestStatus::Completed
    } else if quest_active(active, id) {
        QuestStatus::InProgress
    } else {
        QuestStatus::NotStarted
    }
}

/// The position of the active quest with id `id`, the first if several.
pub fn find_active(active: &[ActiveQuest], id: &str) -> (r: Option<usize>)
    ensures
        r matches Some(i) ==> i < active.len(),
        r == (match first_where(active.len() as int, |i: int| active@[i].id@ == id@) {
            Some(i) => Some(i as usize),
            None => None::<usize>,
        }),
        r is Some == quest_active(active@, id@),
{
    let ghost p = |i: int| active@[i].id@ == id@;
    let mut k: usize = 0;
    while k < active.len()
        invariant
            k <= active.len(),
            p == (|i: int| active@[i].id@ == id@),
            forall|m: int| 0 <= m < k ==> !#[trigger] p(m),
        decreases active.len() - k,
    {
        if same_text(active[k].id.as_str(), id) {
            proof {
                lemma_first_where_found(active.len() as int, p, k as int);
            }
            return Some(k);
        }
        k = k + 1;
    }
    proof {
        lemma_first_where_none(active.len() as int, p);
        assert forall|m: int| 0 <= m < active.len() implies #[trigger] active@[m].id@ != id@ by {
            assert(!p(m));
        }
    }
    None
}

/// What the quest detail view shows.
#[derive(Clone, Copy, PartialEq, Eq, Structural, Debug)]
pub enum QuestDetail {
    /// No quest is selected: the view stops after its frame.
    NoSelection,
    /// The selected quest is not in the catalog: "Quest not found", and no
    /// back button.
    NotFound,
    /// The selected quest's catalog entry, at this position: the detail
    /// with its "< Back" button.
    Entry(usize),
}

/// Finds the selected quest in the catalog for the detail view: nothing
/// without a selection; otherwise the first catalog entry with the selected
/// id, or `NotFound` when no entry has it.
pub fn quest_detail(catalog: &[QuestEntry], selected_id: Option<&str>) -> (d: QuestDetail)
    ensures
        selected_id is None ==> d == QuestDetail::NoSelection,
        selected_id matches Some(id) ==> d == (match first_where(catalog.len() as int, |i: int| catalog@[i].quest_id@ == id@) {
            Some(i) => QuestDetail::Entry(i as usize),
            None => QuestDetail::NotFound,
        }),
        selected_id matches Some(id) ==> (d matches QuestDetail::Entry(i) ==> i < catalog.len() && catalog@[i as int].quest_id@ == id@),
{
    let id = match selected_id {
        Some(id) => id,
        None => {
            return QuestDetail::NoSelection;
        },
    };
    let ghost p = |i: int| catalog@[i].quest_id@ == id@;
    let mut k: usize = 0;
    while k < catalog.len()
        invariant
            k <= catalog.len(),
            selected_id == Some(id),
            p == (|i: int| catalog@[i].quest_id@ == id@),
            forall|m: int| 0 <= m < k ==> !#[trigger] p(m),
        decreases catalog.len() - k,
    {
        if same_text(catalog[k].quest_id.as_str(), id) {
            proof {
                lemma_first_where_found(catalog.len() as int, p, k as int);
            }
            return QuestDetail::Entry(k);
        }
        k = k + 1;
    }
    proof {
        lemma_first_where_none(catalog.len() as int, p);
    }
    QuestDetail::NotFound
}

/// The notice the detail view prints instead of a quest, if any.
pub fn quest_detail_notice(d: QuestDetail) -> (s: Option<&'static str>)
    ensures
        s is Some == (d == QuestDetail::NotFound),
        s matches Some(t) ==> t@ == "Quest not found"@,
{
    match d {
        QuestDetail::NotFound => Some("Quest not found"),
        _ => None,
    }
}

/// The "< Back" button is offered only with a quest to show.
pub fn quest_detail_has_back(d: QuestDetail) -> (b: bool)
    ensures
        b == (d is Entry),
{
    match d {
        QuestDetail::Entry(_) => true,
        _ => false,
    }
}

/// The status a quest shows in the log.
pub fn quest_status(quest_id: &str, completed_ids: &[String], active: &[ActiveQuest]) -> (s: QuestStatus)
    ensures
        s == status_of(quest_id@, completed_ids@, active@),
{
    if text_listed(completed_ids, quest_id) {
        QuestStatus::Completed
    } else if find_active(active, quest_id).is_some() {
        QuestStatus::InProgress
    } else {
        QuestStatus::NotStarted
    }
}

/// The ranking of catalog entry `i` in the log: status, then name.
pub open spec fn log_rank(catalog: Seq<QuestEntry>, completed: Seq<String>, active: Seq<ActiveQuest>, i: int) -> (int, int, Seq<char>) {
    (status_rank(status_of(catalog[i].quest_id@, completed, active)) as int, 0, catalog[i].name@)
}

/// Rankings of the whole catalog.
pub open spec fn log_ranks(catalog: Seq<QuestEntry>, completed: Seq<String>, active: Seq<ActiveQuest>) -> Seq<(int, int, Seq<char>)> {
    Seq::new(catalog.len(), |i: int| log_rank(catalog, completed, active, i))
}

/// A row of the quest log.
pub struct QuestLogRow {
    /// Position of the entry in the catalog.
    pub catalog_index: usize,
    pub status: QuestStatus,
}

/// The quest log: every catalog entry once, in progress first, not started
/// second, completed last, by name within a group (equal names keep catalog
/// order), each with its status.
pub fn quest_log_rows(catalog: &[QuestEntry], completed_ids: &[String], active: &[ActiveQuest]) -> (rows: Vec<QuestLogRow>)
    ensures
        rows.len() == catalog.len(),
        is_stable_order(
            log_ranks(catalog@, completed_ids@, active@),
            Seq::new(rows.len() as nat, |k: int| rows@[k].catalog_index),
        ),
        forall|k: int| 0 <= k < rows.len() ==> (#[trigger] rows@[k]).status
            == status_of(catalog@[rows@[k].catalog_index as int].quest_id@, completed_ids@, active@),
{
    let mut keys: Vec<RankKey> = Vec::new();
    let mut statuses: Vec<QuestStatus> = Vec::new();
    let mut i: usize = 0;
    while i < catalog.len()
        invariant
            i <= catalog.len(),
            ranks_of(keys@) == log_ranks(catalog@, completed_ids@, active@).take(i as int),
            statuses.len() == i,
            forall|m: int| 0 <= m < i ==> #[trigger] statuses@[m] == status_of(catalog@[m].quest_id@, completed_ids@, active@),
        decreases catalog.len() - i,
    {
        let st = quest_status(catalog[i].quest_id.as_str(), completed_ids, active);
        let rank: u64 = match st {
            QuestStatus::InProgress => 0,
            QuestStatus::NotStarted => 1,
            QuestStatus::Completed => 2,
        };
        let key = RankKey { major: rank, minor: 0, name: catalog[i].name.clone() };
        let ghost before = keys@;
        keys.push(key);
        proof {
            lemma_ranks_of_push(before, key);
        }
        statuses.push(st);
        assert(ranks_of(keys@) =~= log_ranks(catalog@, completed_ids@, active@).take(i + 1));
        i = i + 1;
    }
    assert(ranks_of(keys@) =~= log_ranks(catalog@, completed_ids@, active@));
    let order = stable_order(&keys);
    let mut rows: Vec<QuestLogRow> = Vec::new();
    let mut k: usize = 0;
    while k < order.len()
        invariant
            k <= order.len(),
            order.len() == catalog.len() == statuses.len(),
            is_stable_order(ranks_of(keys@), order@),
            ranks_of(keys@) == log_ranks(catalog@, completed_ids@, active@),
            forall|m: int| 0 <= m < catalog.len() ==> #[trigger] statuses@[m] == status_of(catalog@[m].quest_id@, completed_ids@, active@),
            rows.len() == k,
            forall|m: int| 0 <= m < k ==> (#[trigger] rows@[m]).catalog_index == order@[m],
            forall|m: int| 0 <= m < k ==> (#[trigger] rows@[m]).status
                == status_of(catalog@[rows@[m].catalog_index as int].quest_id@, completed_ids@, active@),
        decreases order.len() - k,
    {
        let c = order[k];
        assert(c < keys.len());
        rows.push(QuestLogRow { catalog_index: c, status: statuses[c] });
        k = k + 1;
    }
    assert(Seq::new(rows.len() as nat, |m: int| rows@[m].catalog_index) =~= order@);
    rows
}

/// "{completed} / {total} Complete", the footer of the quest log.
pub fn quest_count_text(completed: usize, total: usize) -> (s: String)
    ensures
        s@ == nat_text(completed as nat) + " / "@ + nat_text(total as nat) + " Complete"@,
{
    let mut s = String::new();
    push_u64(&mut s, completed as u64);
    push_str(&mut s, " / ");
    push_u64(&mut s, total as u64);
    push_str(&mut s, " Complete");
    assert(s@ =~= nat_text(completed as nat) + " / "@ + nat_text(total as nat) + " Complete"@);
    s
}

/// "{check} {description} ({current}/{target})", one objective line.
pub open spec fn objective_text(check: Seq<char>, description: Seq<char>, current: int, target: int) -> Seq<char> {
    check + " "@ + description + " ("@ + int_text(current) + "/"@ + int_text(target) + ")"@
}

/// Builds one objective line.
pub fn objective_line(check: &str, description: &str, current: i32, target: i32) -> (s: String)
    ensures
        s@ == objective_text(check@, description@, current as int, target as int),
{
    let mut s = String::new();
    push_str(&mut s, check);
    push_str(&mut s, " ");
    push_str(&mut s, description);
    push_str(&mut s, " (");
    push_i64(&mut s, current as i64);
    push_char(&mut s, '/');
    push_i64(&mut s, target as i64);
    push_char(&mut s, ')');
    proof {
        reveal_strlit("/");
        reveal_strlit(")");
    }
    assert(s@ =~= objective_text(check@, description@, current as int, target as int));
    s
}

/// What the detail view shows of a catalog objective.
pub struct ObjectiveProgress {
    pub current: i32,
    pub target: i32,
    pub completed: bool,
}

/// The progress shown for a catalog objective: the live objective with the
/// same id when the quest is active (zero of the catalog target if it has
/// none), full marks when the quest is completed, zero otherwise.
pub open spec fn progress_of(o: CatalogObjective, active: Option<ActiveQuest>, quest_completed: bool) -> ObjectiveProgress {
    match active {
        Some(aq) => match first_where(aq.objectives@.len() as int, |j: int| aq.objectives@[j].id@ == o.id@) {
            Some(j) => ObjectiveProgress {
                current: aq.objectives@[j].current,
                target: aq.objectives@[j].target,
                completed: aq.objectives@[j].completed,
            },
            None => ObjectiveProgress { current: 0, target: o.target, completed: false },
        },
        None => if quest_completed {
            ObjectiveProgress { current: o.target, target: o.target, completed: true }
        } else {
            ObjectiveProgress { current: 0, target: o.target, completed: false }
        },
    }
}

/// The progress shown for a catalog objective in the detail view.
pub fn objective_progress(o: &CatalogObjective, active: Option<&ActiveQuest>, quest_completed: bool) -> (p: ObjectiveProgress)
    ensures
        p == progress_of(*o, match active { Some(a) => Some(*a), None => None }, quest_completed),
{
    match active {
        Some(aq) => {
            let ghost pr = |j: int| aq.objectives@[j].id@ == o.id@;
            let mut j: usize = 0;
            while j < aq.objectives.len()
                invariant
                    j <= aq.objectives.len(),
                    active == Some(aq),
                    pr == (|j: int| aq.objectives@[j].id@ == o.id@),
                    forall|m: int| 0 <= m < j ==> !#[trigger] pr(m),
                decreases aq.objectives.len() - j,
            {
                if same_text(aq.objectives[j].id.as_str(), o.id.as_str()) {
                    proof {
                        lemma_first_where_found(aq.objectives@.len() as int, pr, j as int);
                    }
                    let ob = &aq.objectives[j];
                    return ObjectiveProgress { current: ob.current, target: ob.target, completed: ob.completed };
                }
                j = j + 1;
            }
            proof {
                lemma_first_where_none(aq.objectives@.len() as int, pr);
            }
            ObjectiveProgress { current: 0, target: o.target, completed: false }
        },
        None => {
            if quest_completed {
                ObjectiveProgress { current: o.target, target: o.target, completed: true }
            } else {
                ObjectiveProgress { current: 0, target: o.target, completed: false }
            }
        },
    }
}

/// What a line of the quest tracker is, which decides how it is drawn.
#[derive(Clone, Copy, PartialEq, Eq, Structural, Debug)]
pub enum TrackerKind {
    Header,
    QuestName,
    ObjectiveDone,
    ObjectivePending,
    Spacer,
    More,
}

/// A line of the quest tracker.
pub struct TrackerLine {
    pub text: String,
    pub kind: TrackerKind,
}

/// A tracker line as text and kind.
pub open spec fn line_view(v: Seq<TrackerLine>) -> Seq<(Seq<char>, TrackerKind)> {
    Seq::new(v.len(), |i: int| (v[i].text@, v[i].kind))
}

/// The tracker line of an objective: "[x]" when done, "[ ]" otherwise.
pub open spec fn tracked_objective(o: QuestObjective) -> (Seq<char>, TrackerKind) {
    if o.completed {
        (objective_text("[x]"@, o.description@, o.current as int, o.target as int), TrackerKind::ObjectiveDone)
    } else {
        (objective_text("[ ]"@, o.description@, o.current as int, o.target as int), TrackerKind::ObjectivePending)
    }
}

/// Tracker lines of the objectives.
pub open spec fn objective_lines(os: Seq<QuestObjective>) -> Seq<(Seq<char>, TrackerKind)>
    decreases os.len(),
{
    if os.len() == 0 {
        Seq::empty()
    } else {
        objective_lines(os.drop_last()).push(tracked_objective(os.last()))
    }
}

/// Tracker lines of one quest: its name, its objectives, then a spacer.
pub open spec fn quest_block(q: ActiveQuest) -> Seq<(Seq<char>, TrackerKind)> {
    seq![(q.name@, TrackerKind::QuestName)] + objective_lines(q.objectives@) + seq![(Seq::<char>::empty(), TrackerKind::Spacer)]
}

/// Tracker lines of a run of quests.
pub open spec fn quest_blocks(qs: Seq<ActiveQuest>) -> Seq<(Seq<char>, TrackerKind)>
    decreases qs.len(),
{
    if qs.len() == 0 {
        Seq::empty()
    } else {
        quest_blocks(qs.drop_last()) + quest_block(qs.last())
    }
}

/// Number of quests the tracker details.
pub open spec fn tracked_count(n: nat) -> nat {
    if n < 2 { n } else { 2 }
}

/// The quest tracker: "Quests", then the first two active quests (name,
/// objectives, spacer) without the last spacer, then "...and N more (Q to
/// view)" when more quests are active.
pub open spec fn tracker_spec(qs: Seq<ActiveQuest>) -> Seq<(Seq<char>, TrackerKind)> {
    let body = seq![("Quests"@, TrackerKind::Header)] + quest_blocks(qs.take(tracked_count(qs.len()) as int));
    let trimmed = body.drop_last();
    if qs.len() > 2 {
        trimmed.push(("...and "@ + nat_text((qs.len() - 2) as nat) + " more (Q to view)"@, TrackerKind::More))
    } else {
        trimmed
    }
}

/// Pushes a line.
fn push_line(lines: &mut Vec<TrackerLine>, text: String, kind: TrackerKind)
    ensures
        line_view(final(lines)@) == line_view(old(lines)@).push((text@, kind)),
{
    let ghost t = text@;
    lines.push(TrackerLine { text, kind });
    assert(line_view(lines@) =~= line_view(old(lines)@).push((t, kind)));
}

/// The text of a line of its own.
fn owned(t: &str) -> (s: String)
    ensures
        s@ == t@,
{
    let mut s = String::new();
    push_str(&mut s, t);
    s
}

/// The lines of the quest tracker; `None` when no quest is active (the
/// tracker is not drawn).
pub fn tracker_lines(quests: &[ActiveQuest]) -> (r: Option<Vec<TrackerLine>>)
    ensures
        r is None <==> quests.len() == 0,
        r matches Some(v) ==> line_view(v@) == tracker_spec(quests@),
{
    if quests.len() == 0 {
        return None;
    }
    let mut lines: Vec<TrackerLine> = Vec::new();
    push_line(&mut lines, owned("Quests"), TrackerKind::Header);
    let shown: usize = if quests.len() < 2 { quests.len() } else { 2 };
    let mut q: usize = 0;
    while q < shown
        invariant
            shown == tracked_count(quests.len() as nat),
            shown <= quests.len(),
            q <= shown,
            line_view(lines@) == seq![("Quests"@, TrackerKind::Header)] + quest_blocks(quests@.take(q as int)),
        decreases shown - q,
    {
        let quest = &quests[q];
        let ghost before = line_view(lines@);
        push_line(&mut lines, quest.name.clone(), TrackerKind::QuestName);
        let mut j: usize = 0;
        while j < quest.objectives.len()
            invariant
                j <= quest.objectives.len(),
                line_view(lines@) == before + seq![(quest.name@, TrackerKind::QuestName)]
                    + objective_lines(quest.objectives@.take(j as int)),
            decreases quest.objectives.len() - j,
        {
            let o = &quest.objectives[j];
            if o.completed {
                push_line(&mut lines, objective_line("[x]", o.description.as_str(), o.current, o.target), TrackerKind::ObjectiveDone);
            } else {
                push_line(&mut lines, objective_line("[ ]", o.description.as_str(), o.current, o.target), TrackerKind::ObjectivePending);
            }
            proof {
                let os = quest.objectives@.take(j + 1);
                assert(os.drop_last() =~= quest.objectives@.take(j as int));
                assert(os.last() == quest.objectives@[j as int]);
            }
            j = j + 1;
        }
        push_line(&mut lines, owned(""), TrackerKind::Spacer);
        proof {
            assert(quest.objectives@.take(quest.objectives.len() as int) =~= quest.objectives@);
            let qs = quests@.take(q + 1);
            assert(qs.drop_last() =~= quests@.take(q as int));
            assert(qs.last() == quests@[q as int]);
            reveal_strlit("");
            assert(""@ =~= Seq::<char>::empty());
            assert(line_view(lines@) =~= seq![("Quests"@, TrackerKind::Header)] + quest_blocks(quests@.take(q + 1)));
        }
        q = q + 1;
    }
    lines.pop();
    proof {
        let body = seq![("Quests"@, TrackerKind::Header)] + quest_blocks(quests@.take(tracked_count(quests.len() as nat) as int));
        assert(line_view(lines@) =~= body.drop_last());
    }
    if quests.len() > 2 {
        let mut more = String::new();
        push_str(&mut more, "...and ");
        push_u64(&mut more, (quests.len() - 2) as u64);
        push_str(&mut more, " more (Q to view)");
        push_line(&mut lines, more, TrackerKind::More);
    }
    Some(lines)
}

/// The tracker never ends on a blank spacer line and details at most two
/// quests: its length is the header, the lines of the tracked quests less
/// the dropped spacer, and one "more" line when quests are left out.
pub proof fn lemma_tracker_shape(qs: Seq<ActiveQuest>)
    requires
        qs.len() > 0,
    ensures
        tracker_spec(qs).len() == quest_blocks(qs.take(tracked_count(qs.len()) as int)).len()
            + (if qs.len() > 2 { 1int } else { 0int }),
        tracker_spec(qs).last().1 != TrackerKind::Spacer,
{
    let shown = qs.take(tracked_count(qs.len()) as int);
    let blocks = quest_blocks(shown);
    let body = seq![("Quests"@, TrackerKind::Header)] + blocks;
    assert(shown.len() > 0);
    assert(shown.drop_last().len() < shown.len());
    let prev = quest_blocks(shown.drop_last());
    let blk = quest_block(shown.last());
    assert(blocks == prev + blk);
    lemma_objective_lines_len(shown.last().objectives@);
    if qs.len() <= 2 {
        // The last kept line is the last objective of the last quest, or its name.
        let os = shown.last().objectives@;
        assert(body.drop_last() =~= seq![("Quests"@, TrackerKind::Header)] + prev + seq![(shown.last().name@, TrackerKind::QuestName)] + objective_lines(os));
        if os.len() > 0 {
            assert(objective_lines(os).last() == tracked_objective(os.last()));
        }
    }
}

/// One line per objective.
pub proof fn lemma_objective_lines_len(os: Seq<QuestObjective>)
    ensures
        objective_lines(os).len() == os.len(),
    decreases os.len(),
{
    if os.len() > 0 {
        lemma_objective_lines_len(os.drop_last());
    }
}

/// Text of a completed quest's rewards: "+{exp} EXP  +{gold} Gold".
pub fn quest_reward_text(exp: u32, gold: u32) -> (s: String)
    ensures
        s@ == "+"@ + nat_text(exp as nat) + " EXP  +"@ + nat_text(gold as nat) + " Gold"@,
{
    let mut s = String::new();
    push_char(&mut s, '+');
    push_u64(&mut s, exp as u64);
    push_str(&mut s, " EXP  +");
    push_u64(&mut s, gold as u64);
    push_str(&mut s, " Gold");
    proof {
        reveal_strlit("+");
    }
    assert(s@ =~= "+"@ + nat_text(exp as nat) + " EXP  +"@ + nat_text(gold as nat) + " Gold"@);
    s
}

/// How the required quest of an entry is coloured.
#[derive(Clone, Copy, PartialEq, Eq, Structural, Debug)]
pub enum RequirementTone {
    Met,
    Unmet,
    Plain,
}

/// The tone of the "Requires:" line: met when the required quest (by id) is
/// completed, unmet when it is not, plain when the entry names no id.
pub fn required_quest_tone(required_id: Option<&str>, completed_ids: &[String]) -> (t: RequirementTone)
    ensures
        t == (match required_id {
            Some(id) => if listed(completed_ids@, id@) { RequirementTone::Met } else { RequirementTone::Unmet },
            None => RequirementTone::Plain,
        }),
{
    match required_id {
        Some(id) => if text_listed(completed_ids, id) { RequirementTone::Met } else { RequirementTone::Unmet },
        None => RequirementTone::Plain,
    }
}

/// The "Level: N" requirement line, shown only for a positive level.
pub fn level_requirement_text(level: u32) -> (r: Option<String>)
    ensures
        r is None <==> level == 0,
        r matches Some(s) ==> s@ == "Level: "@ + nat_text(level as nat),
{
    if level == 0 {
        return None;
    }
    let mut s = String::new();
    push_str(&mut s, "Level: ");
    push_u64(&mut s, level as u64);
    Some(s)
}

} // verus!
