//! The collection log: how many items of each category and subcategory the
//! player has obtained, the sorted subcategory list, and the item grid.

use vstd::prelude::*;
use crate::text::{nat_text, push_str, push_char, push_u64, same_text, chars_of};
use crate::order::{RankKey, ranks_of, lemma_ranks_of_push, is_stable_order, stable_order, strictly_sorted, listed,
    insert_sorted_unique};
use crate::common::{count_where, first_where, lemma_first_where_found, lemma_first_where_none};

verus! {

/// An item the collection log tracks: which item, from which source
/// category, under which subcategory.
pub struct CollectionDef {
    pub item_id: String,
    pub source: String,
    pub detail: String,
}

/// An obtained (item, source) pair.
pub struct ObtainedKey {
    pub item_id: String,
    pub source: String,
}

/// The player has obtained `item` from `source`.
pub open spec fn obtained_has(obtained: Seq<ObtainedKey>, item: Seq<char>, source: Seq<char>) -> bool {
    exists|k: int| 0 <= k < obtained.len() && (#[trigger] obtained[k]).item_id@ == item && obtained[k].source@ == source
}

/// Whether `item` from `source` was obtained.
pub fn is_obtained(obtained: &[ObtainedKey], item: &str, source: &str) -> (b: bool)
    ensures
        b == obtained_has(obtained@, item@, source@),
{
    let mut k: usize = 0;
    while k < obtained.len()
        invariant
            k <= obtained.len(),
            forall|m: int| 0 <= m < k ==> !((#[trigger] obtained@[m]).item_id@ == item@ && obtained@[m].source@ == source@),
        decreases obtained.len() - k,
    {
        if same_text(obtained[k].item_id.as_str(), item) && same_text(obtained[k].source.as_str(), source) {
            return true;
        }
        k = k + 1;
    }
    false
}

/// Definition `i` belongs to category `key`.
pub open spec fn def_in(defs: Seq<CollectionDef>, key: Seq<char>, i: int) -> bool {
    defs[i].source@ == key
}

/// Definition `i` belongs to category `key` and was obtained.
pub open spec fn def_got(defs: Seq<CollectionDef>, key: Seq<char>, obtained: Seq<ObtainedKey>, i: int) -> bool {
    defs[i].source@ == key && obtained_has(obtained, defs[i].item_id@, defs[i].source@)
}

/// The number of items of category `key`, and how many were obtained.
pub fn category_counts(defs: &[CollectionDef], key: &str, obtained: &[ObtainedKey]) -> (r: (usize, usize))
    ensures
        r.0 == count_where(defs.len() as int, |i: int| def_in(defs@, key@, i)),
        r.1 == count_where(defs.len() as int, |i: int| def_got(defs@, key@, obtained@, i)),
{
    let ghost p = |i: int| def_in(defs@, key@, i);
    let ghost q = |i: int| def_got(defs@, key@, obtained@, i);
    let mut total: usize = 0;
    let mut got: usize = 0;
    let mut i: usize = 0;
    while i < defs.len()
        invariant
            i <= defs.len(),
            p == (|i: int| def_in(defs@, key@, i)),
            q == (|i: int| def_got(defs@, key@, obtained@, i)),
            total == count_where(i as int, p),
            got == count_where(i as int, q),
            got <= total <= i,
        decreases defs.len() - i,
    {
        if same_text(defs[i].source.as_str(), key) {
            total = total + 1;
            if is_obtained(obtained, defs[i].item_id.as_str(), defs[i].source.as_str()) {
                got = got + 1;
            }
        }
        i = i + 1;
    }
    (total, got)
}

/// Definition `i` belongs to subcategory `detail` of category `key`.
pub open spec fn def_in_sub(defs: Seq<CollectionDef>, key: Seq<char>, detail: Seq<char>, i: int) -> bool {
    defs[i].source@ == key && defs[i].detail@ == detail
}

/// Definition `i` belongs to that subcategory and was obtained.
pub open spec fn def_got_sub(defs: Seq<CollectionDef>, key: Seq<char>, detail: Seq<char>, obtained: Seq<ObtainedKey>, i: int) -> bool {
    def_in_sub(defs, key, detail, i) && obtained_has(obtained, defs[i].item_id@, defs[i].source@)
}

/// The number of items of a subcategory, and how many were obtained.
pub fn subcategory_counts(defs: &[CollectionDef], key: &str, detail: &str, obtained: &[ObtainedKey]) -> (r: (usize, usize))
    ensures
        r.0 == count_where(defs.len() as int, |i: int| def_in_sub(defs@, key@, detail@, i)),
        r.1 == count_where(defs.len() as int, |i: int| def_got_sub(defs@, key@, detail@, obtained@, i)),
{
    let ghost p = |i: int| def_in_sub(defs@, key@, detail@, i);
    let ghost q = |i: int| def_got_sub(defs@, key@, detail@, obtained@, i);
    let mut total: usize = 0;
    let mut got: usize = 0;
    let mut i: usize = 0;
    while i < defs.len()
        invariant
            i <= defs.len(),
            p == (|i: int| def_in_sub(defs@, key@, detail@, i)),
            q == (|i: int| def_got_sub(defs@, key@, detail@, obtained@, i)),
            total == count_where(i as int, p),
            got == count_where(i as int, q),
            got <= total <= i,
        decreases defs.len() - i,
    {
        if same_text(defs[i].source.as_str(), key) && same_text(defs[i].detail.as_str(), detail) {
            total = total + 1;
            if is_obtained(obtained, defs[i].item_id.as_str(), defs[i].source.as_str()) {
                got = got + 1;
            }
        }
        i = i + 1;
    }
    (total, got)
}

/// A subcategory row of the sidebar.
pub struct SubcatRow {
    pub name: String,
    pub total: usize,
    pub got: usize,
}

/// The names of the rows.
pub open spec fn row_names(rows: Seq<SubcatRow>) -> Seq<String> {
    Seq::new(rows.len(), |k: int| rows[k].name)
}

/// Some item of category `key` is in subcategory `t`.
pub open spec fn has_detail(defs: Seq<CollectionDef>, key: Seq<char>, t: Seq<char>) -> bool {
    exists|i: int| 0 <= i < defs.len() && #[trigger] def_in_sub(defs, key, t, i)
}

/// The subcategories of an expanded category: each subcategory its items
/// name once, sorted by name, with its item count and obtained count.
pub fn subcategory_rows(defs: &[CollectionDef], key: &str, obtained: &[ObtainedKey]) -> (rows: Vec<SubcatRow>)
    ensures
        strictly_sorted(row_names(rows@)),
        forall|t: Seq<char>| #[trigger] listed(row_names(rows@), t) <==> has_detail(defs@, key@, t),
        forall|k: int| 0 <= k < rows.len() ==> (#[trigger] rows@[k]).total
            == count_where(defs.len() as int, |i: int| def_in_sub(defs@, key@, rows@[k].name@, i))
            && rows@[k].got == count_where(defs.len() as int, |i: int| def_got_sub(defs@, key@, rows@[k].name@, obtained@, i)),
{
    let mut names: Vec<String> = Vec::new();
    let mut i: usize = 0;
    while i < defs.len()
        invariant
            i <= defs.len(),
            strictly_sorted(names@),
            forall|t: Seq<char>| #[trigger] listed(names@, t) <==> exists|m: int| 0 <= m < i && #[trigger] def_in_sub(defs@, key@, t, m),
        decreases defs.len() - i,
    {
        if same_text(defs[i].source.as_str(), key) {
            let ghost old_names = names@;
            let ghost d = defs@[i as int].detail@;
            insert_sorted_unique(&mut names, defs[i].detail.clone());
            proof {
                assert forall|t: Seq<char>| #[trigger] listed(names@, t) <==> exists|m: int| 0 <= m < i + 1 && #[trigger] def_in_sub(defs@, key@, t, m) by {
                    if listed(names@, t) {
                        if t == d {
                            assert(def_in_sub(defs@, key@, t, i as int));
                        } else {
                            assert(listed(old_names, t));
                            let m = choose|m: int| 0 <= m < i && #[trigger] def_in_sub(defs@, key@, t, m);
                            assert(0 <= m < i + 1 && def_in_sub(defs@, key@, t, m));
                        }
                    }
                    if exists|m: int| 0 <= m < i + 1 && #[trigger] def_in_sub(defs@, key@, t, m) {
                        let m = choose|m: int| 0 <= m < i + 1 && #[trigger] def_in_sub(defs@, key@, t, m);
                        if m < i {
                            assert(listed(old_names, t));
                        }
                    }
                }
            }
        } else {
            proof {
                assert forall|t: Seq<char>| #[trigger] listed(names@, t) <==> exists|m: int| 0 <= m < i + 1 && #[trigger] def_in_sub(defs@, key@, t, m) by {
                    if exists|m: int| 0 <= m < i + 1 && #[trigger] def_in_sub(defs@, key@, t, m) {
                        let m = choose|m: int| 0 <= m < i + 1 && #[trigger] def_in_sub(defs@, key@, t, m);
                        assert(m != i);
                    }
                }
            }
        }
        i = i + 1;
    }
    let mut rows: Vec<SubcatRow> = Vec::new();
    let mut k: usize = 0;
    while k < names.len()
        invariant
            k <= names.len(),
            rows.len() == k,
            forall|m: int| 0 <= m < k ==> (#[trigger] rows@[m]).name@ == names@[m]@,
            forall|m: int| 0 <= m < k ==> (#[trigger] rows@[m]).total
                == count_where(defs.len() as int, |i: int| def_in_sub(defs@, key@, rows@[m].name@, i))
                && rows@[m].got == count_where(defs.len() as int, |i: int| def_got_sub(defs@, key@, rows@[m].name@, obtained@, i)),
        decreases names.len() - k,
    {
        let (total, got) = subcategory_counts(defs, key, names[k].as_str(), obtained);
        rows.push(SubcatRow { name: names[k].clone(), total, got });
        k = k + 1;
    }
    proof {
        assert forall|a: int| 0 <= a < rows.len() implies (#[trigger] row_names(rows@)[a])@ == names@[a]@ by {}
        assert forall|a: int, b: int| 0 <= a < b < rows.len() implies
            crate::text::lex_lt(#[trigger] row_names(rows@)[a]@, #[trigger] row_names(rows@)[b]@) by {
            assert(crate::text::lex_lt(names@[a]@, names@[b]@));
        }
        assert forall|t: Seq<char>| #[trigger] listed(row_names(rows@), t) <==> has_detail(defs@, key@, t) by {
            if listed(row_names(rows@), t) {
                let a = choose|a: int| 0 <= a < row_names(rows@).len() && #[trigger] row_names(rows@)[a]@ == t;
                assert(names@[a]@ == t);
                assert(listed(names@, t));
            }
            if has_detail(defs@, key@, t) {
                let m = choose|m: int| 0 <= m < defs.len() && #[trigger] def_in_sub(defs@, key@, t, m);
                assert(listed(names@, t));
                let a = choose|a: int| 0 <= a < names.len() && #[trigger] names@[a]@ == t;
                assert(row_names(rows@)[a]@ == t);
            }
        }
    }
    rows
}

/// A subcategory's shown name: its display name when one is known (the
/// first entry for it), otherwise its id with '_' written as ' '.
pub open spec fn shown_subcat_name(name: Seq<char>, display_names: Seq<(String, String)>) -> Seq<char> {
    match first_where(display_names.len() as int, |k: int| display_names[k].0@ == name) {
        Some(k) => display_names[k].1@,
        None => name.map_values(|c: char| if c == '_' { ' ' } else { c }),
    }
}

/// The shown name of a subcategory.
pub fn subcategory_display_name(name: &str, display_names: &[(String, String)]) -> (s: String)
    ensures
        s@ == shown_subcat_name(name@, display_names@),
{
    let ghost p = |k: int| display_names@[k].0@ == name@;
    let mut k: usize = 0;
    while k < display_names.len()
        invariant
            k <= display_names.len(),
            p == (|k: int| display_names@[k].0@ == name@),
            forall|m: int| 0 <= m < k ==> !#[trigger] p(m),
        decreases display_names.len() - k,
    {
        if same_text(display_names[k].0.as_str(), name) {
            proof {
                lemma_first_where_found(display_names.len() as int, p, k as int);
            }
            return display_names[k].1.clone();
        }
        k = k + 1;
    }
    proof {
        lemma_first_where_none(display_names.len() as int, p);
    }
    let v = chars_of(name);
    let mut s = String::new();
    let mut j: usize = 0;
    while j < v.len()
        invariant
            j <= v.len(),
            v@ == name@,
            s@ == name@.map_values(|c: char| if c == '_' { ' ' } else { c }).take(j as int),
        decreases v.len() - j,
    {
        let c = v[j];
        push_char(&mut s, if c == '_' { ' ' } else { c });
        assert(s@ =~= name@.map_values(|c: char| if c == '_' { ' ' } else { c }).take(j + 1));
        j = j + 1;
    }
    assert(name@.map_values(|c: char| if c == '_' { ' ' } else { c }).take(v.len() as int)
        =~= name@.map_values(|c: char| if c == '_' { ' ' } else { c }));
    s
}

/// The four categories of the sidebar: key and label.
pub fn collection_categories() -> (v: Vec<(&'static str, &'static str)>)
    ensures
        v.len() == 4,
        v@[0].0@ == "monster_drops"@ && v@[0].1@ == "Monster Drops"@,
        v@[1].0@ == "boss_rewards"@ && v@[1].1@ == "Boss Rewards"@,
        v@[2].0@ == "skilling"@ && v@[2].1@ == "Skilling"@,
        v@[3].0@ == "quest_rewards"@ && v@[3].1@ == "Quest Rewards"@,
{
    vec![
        ("monster_drops", "Monster Drops"),
        ("boss_rewards", "Boss Rewards"),
        ("skilling", "Skilling"),
        ("quest_rewards", "Quest Rewards"),
    ]
}

/// "{arrow} {label} ({got}/{total})", a category header; the arrow points
/// down when the category is expanded.
pub fn category_header(expanded: bool, label: &str, got: usize, total: usize) -> (s: String)
    ensures
        s@ == (if expanded { "v"@ } else { ">"@ }) + " "@ + label@ + " ("@ + nat_text(got as nat) + "/"@
            + nat_text(total as nat) + ")"@,
{
    let mut s = String::new();
    if expanded {
        push_str(&mut s, "v");
    } else {
        push_str(&mut s, ">");
    }
    push_str(&mut s, " ");
    push_str(&mut s, label);
    push_str(&mut s, " (");
    push_u64(&mut s, got as u64);
    push_str(&mut s, "/");
    push_u64(&mut s, total as u64);
    push_str(&mut s, ")");
    assert(s@ =~= (if expanded { "v"@ } else { ">"@ }) + " "@ + label@ + " ("@ + nat_text(got as nat) + "/"@
        + nat_text(total as nat) + ")"@);
    s
}

/// "{name} ({got}/{total})", a subcategory row or the grid title.
pub fn count_label(name: &str, got: usize, total: usize) -> (s: String)
    ensures
        s@ == name@ + " ("@ + nat_text(got as nat) + "/"@ + nat_text(total as nat) + ")"@,
{
    let mut s = String::new();
    push_str(&mut s, name);
    push_str(&mut s, " (");
    push_u64(&mut s, got as u64);
    push_str(&mut s, "/");
    push_u64(&mut s, total as u64);
    push_str(&mut s, ")");
    assert(s@ =~= name@ + " ("@ + nat_text(got as nat) + "/"@ + nat_text(total as nat) + ")"@);
    s
}

/// "{got} / {total} Collected", the footer.
pub fn collected_footer(got: usize, total: usize) -> (s: String)
    ensures
        s@ == nat_text(got as nat) + " / "@ + nat_text(total as nat) + " Collected"@,
{
    let mut s = String::new();
    push_u64(&mut s, got as u64);
    push_str(&mut s, " / ");
    push_u64(&mut s, total as u64);
    push_str(&mut s, " Collected");
    assert(s@ =~= nat_text(got as nat) + " / "@ + nat_text(total as nat) + " Collected"@);
    s
}

/// A category or subcategory is complete when every one of its items,
/// of which there is at least one, was obtained.
pub fn all_collected(got: usize, total: usize) -> (b: bool)
    ensures
        b == (got == total && total > 0),
{
    got == total && total > 0
}

/// Positions, in order, of the first `n` definitions in subcategory
/// `detail` of `key`.
pub open spec fn sub_positions(defs: Seq<CollectionDef>, key: Seq<char>, detail: Seq<char>, n: int) -> Seq<usize>
    decreases n,
{
    if n <= 0 {
        Seq::empty()
    } else {
        let p = sub_positions(defs, key, detail, n - 1);
        if def_in_sub(defs, key, detail, n - 1) { p.push((n - 1) as usize) } else { p }
    }
}

/// The item ids of the grid ranked by id alone.
pub open spec fn id_ranks(defs: Seq<CollectionDef>, rows: Seq<usize>) -> Seq<(int, int, Seq<char>)> {
    Seq::new(rows.len(), |k: int| (0int, 0int, defs[rows[k] as int].item_id@))
}

/// The ids of the definitions at the positions `rows`, arranged by `order`.
pub open spec fn arranged_ids(defs: Seq<CollectionDef>, rows: Seq<usize>, order: Seq<usize>) -> Seq<Seq<char>> {
    Seq::new(order.len(), |k: int| defs[rows[order[k] as int] as int].item_id@)
}

/// The ids as texts.
pub open spec fn id_texts(items: Seq<String>) -> Seq<Seq<char>> {
    Seq::new(items.len(), |k: int| items[k]@)
}

/// The grid of a subcategory: the ids of its items, sorted (equal ids keep
/// list order).
pub fn grid_items(defs: &[CollectionDef], key: &str, detail: &str) -> (r: Vec<String>)
    ensures
        exists|order: Seq<usize>|
            is_stable_order(id_ranks(defs@, sub_positions(defs@, key@, detail@, defs.len() as int)), order)
            && #[trigger] arranged_ids(defs@, sub_positions(defs@, key@, detail@, defs.len() as int), order) == id_texts(r@),
{
    let mut cands: Vec<usize> = Vec::new();
    let mut i: usize = 0;
    while i < defs.len()
        invariant
            i <= defs.len(),
            cands@ == sub_positions(defs@, key@, detail@, i as int),
            forall|m: int| 0 <= m < cands.len() ==> #[trigger] cands@[m] < i,
        decreases defs.len() - i,
    {
        if same_text(defs[i].source.as_str(), key) && same_text(defs[i].detail.as_str(), detail) {
            cands.push(i);
        }
        i = i + 1;
    }
    let mut keys: Vec<RankKey> = Vec::new();
    let mut k: usize = 0;
    while k < cands.len()
        invariant
            k <= cands.len(),
            forall|m: int| 0 <= m < cands.len() ==> #[trigger] cands@[m] < defs.len(),
            ranks_of(keys@) == id_ranks(defs@, cands@).take(k as int),
        decreases cands.len() - k,
    {
        let key_k = RankKey { major: 0, minor: 0, name: defs[cands[k]].item_id.clone() };
        let ghost before = keys@;
        keys.push(key_k);
        proof {
            lemma_ranks_of_push(before, key_k);
        }
        assert(ranks_of(keys@) =~= id_ranks(defs@, cands@).take(k + 1));
        k = k + 1;
    }
    assert(ranks_of(keys@) =~= id_ranks(defs@, cands@));
    let order = stable_order(&keys);
    let mut items: Vec<String> = Vec::new();
    let mut m: usize = 0;
    while m < order.len()
        invariant
            m <= order.len(),
            order.len() == cands.len(),
            forall|q: int| 0 <= q < order.len() ==> #[trigger] order@[q] < cands.len(),
            forall|q: int| 0 <= q < cands.len() ==> #[trigger] cands@[q] < defs.len(),
            items.len() == m,
            forall|q: int| 0 <= q < m ==> (#[trigger] items@[q])@ == defs@[cands@[order@[q] as int] as int].item_id@,
        decreases order.len() - m,
    {
        items.push(defs[cands[order[m]]].item_id.clone());
        m = m + 1;
    }
    assert(arranged_ids(defs@, cands@, order@) =~= id_texts(items@));
    items
}

} // verus!
