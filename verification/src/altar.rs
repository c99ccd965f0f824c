//! The altar panel: which inventory items can be offered, merged into one
//! row per kind of bones, and the texts of each row.

use vstd::prelude::*;
use crate::text::{has_substring, int_text, text_contains, push_str, push_i64, same_text};
use crate::common::{first_where, lemma_first_where_found, lemma_first_where_none};

verus! {

/// An occupied inventory slot as the altar sees it. `xp_per_bone` is what
/// offering one of its bones gives.
pub struct BoneSlot {
    pub item_id: String,
    pub display_name: String,
    pub quantity: i32,
    pub prayer_xp: i32,
    pub xp_per_bone: i32,
}

/// One row of the altar panel: a kind of bones and how many the player has.
pub struct BoneRow {
    pub item_id: String,
    pub display_name: String,
    pub quantity: i32,
    pub xp_per_bone: i32,
}

/// A row as (id, name, quantity, experience per bone).
pub open spec fn row_view(r: BoneRow) -> (Seq<char>, Seq<char>, int, int) {
    (r.item_id@, r.display_name@, r.quantity as int, r.xp_per_bone as int)
}

/// The rows as (id, name, quantity, experience per bone).
pub open spec fn rows_view(rows: Seq<BoneRow>) -> Seq<(Seq<char>, Seq<char>, int, int)> {
    Seq::new(rows.len(), |k: int| row_view(rows[k]))
}

/// The slot holds something to offer: an item whose id contains "bones"
/// and that gives prayer experience.
pub open spec fn is_offerable(s: BoneSlot) -> bool {
    has_substring(s.item_id@, "bones"@) && s.prayer_xp > 0
}

/// The rows built from the first `n` slots: one row per kind of bones, in
/// the order each kind first appears, named and valued as its first slot,
/// with the quantities of all its slots added up.
pub open spec fn bone_rows_of(slots: Seq<BoneSlot>, n: int) -> Seq<(Seq<char>, Seq<char>, int, int)>
    decreases n,
{
    if n <= 0 {
        Seq::empty()
    } else {
        let rows = bone_rows_of(slots, n - 1);
        let s = slots[n - 1];
        if !is_offerable(s) {
            rows
        } else {
            match first_where(rows.len() as int, |k: int| rows[k].0 == s.item_id@) {
                Some(k) => rows.update(k, (rows[k].0, rows[k].1, rows[k].2 + s.quantity, rows[k].3)),
                None => rows.push((s.item_id@, s.display_name@, s.quantity as int, s.xp_per_bone as int)),
            }
        }
    }
}

/// Every running total stays within `i32` while the rows are built.
pub open spec fn totals_fit(slots: Seq<BoneSlot>) -> bool {
    forall|n: int, k: int| 0 <= n <= slots.len() && 0 <= k < bone_rows_of(slots, n).len()
        ==> i32::MIN <= (#[trigger] bone_rows_of(slots, n)[k]).2 <= i32::MAX
}

/// The rows of the altar panel.
pub fn bone_rows(slots: &[BoneSlot]) -> (rows: Vec<BoneRow>)
    requires
        totals_fit(slots@),
    ensures
        rows_view(rows@) == bone_rows_of(slots@, slots.len() as int),
{
    let mut rows: Vec<BoneRow> = Vec::new();
    let mut i: usize = 0;
    while i < slots.len()
        invariant
            i <= slots.len(),
            totals_fit(slots@),
            rows_view(rows@) == bone_rows_of(slots@, i as int),
        decreases slots.len() - i,
    {
        let s = &slots[i];
        if text_contains(s.item_id.as_str(), "bones") && s.prayer_xp > 0 {
            let ghost rv = rows_view(rows@);
            let ghost p = |k: int| rv[k].0 == s.item_id@;
            let mut k: usize = 0;
            while k < rows.len() && !same_text(rows[k].item_id.as_str(), s.item_id.as_str())
                invariant
                    k <= rows.len(),
                    rv == rows_view(rows@),
                    p == (|k: int| rv[k].0 == s.item_id@),
                    forall|m: int| 0 <= m < k ==> !#[trigger] p(m),
                decreases rows.len() - k,
            {
                k = k + 1;
            }
            let found: Option<usize> = if k < rows.len() { Some(k) } else { None };
            assert(found matches Some(f) ==> f == k && k < rows.len() && p(k as int));
            match found {
                Some(f) => {
                    proof {
                        lemma_first_where_found(rv.len() as int, p, f as int);
                        let next = bone_rows_of(slots@, i + 1);
                        assert(next == rv.update(f as int, (rv[f as int].0, rv[f as int].1, rv[f as int].2 + s.quantity, rv[f as int].3)));
                        assert(next[f as int].2 == rv[f as int].2 + s.quantity);
                        assert(i32::MIN <= next[f as int].2 <= i32::MAX);
                    }
                    let row = BoneRow {
                        item_id: rows[f].item_id.clone(),
                        display_name: rows[f].display_name.clone(),
                        quantity: rows[f].quantity + s.quantity,
                        xp_per_bone: rows[f].xp_per_bone,
                    };
                    rows.set(f, row);
                    assert(rows_view(rows@) =~= bone_rows_of(slots@, i + 1));
                },
                None => {
                    proof {
                        lemma_first_where_none(rv.len() as int, p);
                    }
                    rows.push(BoneRow {
                        item_id: s.item_id.clone(),
                        display_name: s.display_name.clone(),
                        quantity: s.quantity,
                        xp_per_bone: s.xp_per_bone,
                    });
                    assert(rows_view(rows@) =~= bone_rows_of(slots@, i + 1));
                },
            }
        }
        i = i + 1;
    }
    rows
}

/// The experience the altar gives for one of the known kinds of bones;
/// `None` for any other item (its value follows from its prayer experience).
pub fn known_bone_xp(item_id: &str) -> (r: Option<i32>)
    ensures
        r == (if item_id@ == "regular_bones"@ {
            Some(12i32)
        } else if item_id@ == "big_bones"@ {
            Some(37i32)
        } else if item_id@ == "dragon_bones"@ {
            Some(180i32)
        } else {
            None
        }),
{
    if same_text(item_id, "regular_bones") {
        Some(12)
    } else if same_text(item_id, "big_bones") {
        Some(37)
    } else if same_text(item_id, "dragon_bones") {
        Some(180)
    } else {
        None
    }
}

/// "{name} x{quantity}", the name column of a row.
pub fn bone_name_text(name: &str, quantity: i32) -> (s: String)
    ensures
        s@ == name@ + " x"@ + int_text(quantity as int),
{
    let mut s = String::new();
    push_str(&mut s, name);
    push_str(&mut s, " x");
    push_i64(&mut s, quantity as i64);
    s
}

/// "{each}xp ea / {total}xp total": a row's experience, `total` being the
/// experience per bone times the quantity.
pub fn bone_xp_text(xp_per_bone: i32, quantity: i32) -> (s: String)
    requires
        i32::MIN <= xp_per_bone * quantity <= i32::MAX,
    ensures
        s@ == int_text(xp_per_bone as int) + "xp ea / "@ + int_text(xp_per_bone * quantity) + "xp total"@,
{
    let total = xp_per_bone * quantity;
    let mut s = String::new();
    push_i64(&mut s, xp_per_bone as i64);
    push_str(&mut s, "xp ea / ");
    push_i64(&mut s, total as i64);
    push_str(&mut s, "xp total");
    assert(s@ =~= int_text(xp_per_bone as int) + "xp ea / "@ + int_text(xp_per_bone * quantity) + "xp total"@);
    s
}

/// No two rows are for the same kind of bones, and every row is for a
/// kind that some offerable slot holds.
pub proof fn lemma_bone_rows_distinct(slots: Seq<BoneSlot>, n: int)
    requires
        0 <= n <= slots.len(),
    ensures
        forall|a: int, b: int| 0 <= a < b < bone_rows_of(slots, n).len()
            ==> (#[trigger] bone_rows_of(slots, n)[a]).0 != (#[trigger] bone_rows_of(slots, n)[b]).0,
        forall|a: int| 0 <= a < bone_rows_of(slots, n).len() ==> #[trigger] row_from_slot(slots, n, bone_rows_of(slots, n)[a].0),
    decreases n,
{
    if n > 0 {
        lemma_bone_rows_distinct(slots, n - 1);
        let rows = bone_rows_of(slots, n - 1);
        let s = slots[n - 1];
        let cur = bone_rows_of(slots, n);
        assert forall|a: int| 0 <= a < rows.len() implies #[trigger] row_from_slot(slots, n, rows[a].0) by {
            assert(row_from_slot(slots, n - 1, rows[a].0));
            let j = choose|j: int| 0 <= j < n - 1 && is_offerable(#[trigger] slots[j]) && slots[j].item_id@ == rows[a].0;
            assert(0 <= j < n && is_offerable(slots[j]) && slots[j].item_id@ == rows[a].0);
        }
        if is_offerable(s) {
            let p = |k: int| rows[k].0 == s.item_id@;
            match first_where(rows.len() as int, p) {
                Some(k) => {
                    assert(cur == rows.update(k, (rows[k].0, rows[k].1, rows[k].2 + s.quantity, rows[k].3)));
                    assert forall|a: int, b: int| 0 <= a < b < cur.len() implies (#[trigger] cur[a]).0 != (#[trigger] cur[b]).0 by {
                        assert(cur[a].0 == rows[a].0 && cur[b].0 == rows[b].0);
                    }
                    assert forall|a: int| 0 <= a < cur.len() implies #[trigger] row_from_slot(slots, n, cur[a].0) by {
                        assert(cur[a].0 == rows[a].0);
                    }
                },
                None => {
                    assert(cur == rows.push((s.item_id@, s.display_name@, s.quantity as int, s.xp_per_bone as int)));
                    lemma_first_where_none_inv(rows.len() as int, p);
                    assert forall|a: int, b: int| 0 <= a < b < cur.len() implies (#[trigger] cur[a]).0 != (#[trigger] cur[b]).0 by {
                        if b == rows.len() {
                            assert(!p(a));
                        }
                    }
                    assert forall|a: int| 0 <= a < cur.len() implies #[trigger] row_from_slot(slots, n, cur[a].0) by {
                        if a == rows.len() {
                            assert(is_offerable(slots[n - 1]) && slots[n - 1].item_id@ == cur[a].0);
                        } else {
                            assert(cur[a] == rows[a]);
                        }
                    }
                },
            }
        } else {
            assert(cur == rows);
        }
    }
}

/// Some offerable slot among the first `n` holds the item `id`.
pub open spec fn row_from_slot(slots: Seq<BoneSlot>, n: int, id: Seq<char>) -> bool {
    exists|j: int| 0 <= j < n && is_offerable(#[trigger] slots[j]) && slots[j].item_id@ == id
}

/// Where there is no first position, the condition holds nowhere.
proof fn lemma_first_where_none_inv(n: int, p: spec_fn(int) -> bool)
    requires
        first_where(n, p) is None,
    ensures
        forall|j: int| 0 <= j < n ==> !#[trigger] p(j),
{
    if exists|j: int| 0 <= j < n && #[trigger] p(j) {
        let j = choose|j: int| 0 <= j < n && #[trigger] p(j);
        lemma_least_exists(n, p, j);
    }
}

/// Below a position where `p` holds there is a first one.
proof fn lemma_least_exists(n: int, p: spec_fn(int) -> bool, j: int)
    requires
        0 <= j < n,
        p(j),
    ensures
        first_where(n, p) is Some,
    decreases j,
{
    if exists|i: int| 0 <= i < j && #[trigger] p(i) {
        let i = choose|i: int| 0 <= i < j && #[trigger] p(i);
        lemma_least_exists(n, p, i);
    } else {
        lemma_first_where_found(n, p, j);
    }
}

} // verus!
