//! Crafting, anvil and furnace panels: which recipes a panel lists, in which
//! order, under which section headers, and whether one can be made.

use vstd::prelude::*;
use crate::text::{same_text, lex_lt, lemma_lex_compare_basics};
use crate::common::{clamped_index, clamp_index};
use crate::order::{RankKey, ranks_of, lemma_ranks_of_push, is_stable_order, stable_order, strictly_sorted, listed, insert_sorted_unique, text_listed,
    lemma_sorted_lists_agree};

verus! {

/// One ingredient of a recipe.
pub struct Ingredient {
    pub item_id: String,
    pub count: i32,
}

/// What the panels read of a recipe definition.
pub struct Recipe {
    pub id: String,
    pub display_name: String,
    pub category: String,
    pub section: Option<String>,
    pub station: Option<String>,
    pub level_required: i32,
    pub requires_discovery: bool,
    pub ingredients: Vec<Ingredient>,
}

// ---------------------------------------------------------------------------
// Sections
// ---------------------------------------------------------------------------

/// Sort key of a section within its category (values overlap across
/// categories, whose sections never share a list); 99 for any other section.
pub open spec fn section_rank(s: Seq<char>) -> nat {
    if s == "materials"@ {
        0
    } else if s == "equipment"@ {
        1
    } else if s == "accessories"@ {
        2
    } else if s == "ammunition"@ {
        3
    } else if s == "restoration"@ {
        0
    } else if s == "stat_buffs"@ {
        1
    } else if s == "utility"@ {
        2
    } else if s == "scrolls"@ {
        3
    } else if s == "cooking"@ {
        0
    } else {
        99
    }
}

/// Sort key for section ordering within a category.
pub fn section_sort_key(section: &str) -> (k: usize)
    ensures
        k == section_rank(section@),
        section@ == "materials"@ || section@ == "restoration"@ || section@ == "cooking"@ ==> k == 0,
        section@ == "equipment"@ || section@ == "stat_buffs"@ ==> k == 1,
        section@ == "accessories"@ || section@ == "utility"@ ==> k == 2,
        section@ == "ammunition"@ || section@ == "scrolls"@ ==> k == 3,
{
    proof {
        lemma_section_keys(section@);
    }
    if same_text(section, "materials") {
        0
    } else if same_text(section, "equipment") {
        1
    } else if same_text(section, "accessories") {
        2
    } else if same_text(section, "ammunition") {
        3
    } else if same_text(section, "restoration") {
        0
    } else if same_text(section, "stat_buffs") {
        1
    } else if same_text(section, "utility") {
        2
    } else if same_text(section, "scrolls") {
        3
    } else if same_text(section, "cooking") {
        0
    } else {
        99
    }
}

/// The known section names tell apart by length or first letter.
proof fn lemma_section_names_differ()
    ensures
        "materials"@.len() == 9 && "materials"@[0] == 'm',
        "equipment"@.len() == 9 && "equipment"@[0] == 'e',
        "accessories"@.len() == 11 && "accessories"@[0] == 'a',
        "ammunition"@.len() == 10 && "ammunition"@[0] == 'a',
        "restoration"@.len() == 11 && "restoration"@[0] == 'r',
        "stat_buffs"@.len() == 10 && "stat_buffs"@[0] == 's',
        "utility"@.len() == 7 && "utility"@[0] == 'u',
        "scrolls"@.len() == 7 && "scrolls"@[0] == 's',
        "cooking"@.len() == 7 && "cooking"@[0] == 'c',
{
    reveal_strlit("materials");
    reveal_strlit("equipment");
    reveal_strlit("accessories");
    reveal_strlit("ammunition");
    reveal_strlit("restoration");
    reveal_strlit("stat_buffs");
    reveal_strlit("utility");
    reveal_strlit("scrolls");
    reveal_strlit("cooking");
}

/// The section keys: smithing lists materials (0), equipment (1),
/// accessories (2) then ammunition (3); alchemy lists restoration (0), stat
/// buffs (1), utility (2) then scrolls (3); cooking takes 0; every other
/// section sorts last, at 99.
pub proof fn lemma_section_keys(s: Seq<char>)
    ensures
        s == "materials"@ ==> section_rank(s) == 0,
        s == "equipment"@ ==> section_rank(s) == 1,
        s == "accessories"@ ==> section_rank(s) == 2,
        s == "ammunition"@ ==> section_rank(s) == 3,
        s == "restoration"@ ==> section_rank(s) == 0,
        s == "stat_buffs"@ ==> section_rank(s) == 1,
        s == "utility"@ ==> section_rank(s) == 2,
        s == "scrolls"@ ==> section_rank(s) == 3,
        s == "cooking"@ ==> section_rank(s) == 0,
        s != "materials"@ && s != "equipment"@ && s != "accessories"@ && s != "ammunition"@ && s != "restoration"@
            && s != "stat_buffs"@ && s != "utility"@ && s != "scrolls"@ && s != "cooking"@ ==> section_rank(s) == 99,
{
    lemma_section_names_differ();
}

/// The section titles: "Materials", "Equipment", "Accessories",
/// "Ammunition", "Restoration", "Stat Buffs", "Utility", "Scrolls",
/// "Cooking"; any other section shows its own name.
pub proof fn lemma_section_titles(s: Seq<char>)
    ensures
        s == "materials"@ ==> section_title(s) == "Materials"@,
        s == "equipment"@ ==> section_title(s) == "Equipment"@,
        s == "accessories"@ ==> section_title(s) == "Accessories"@,
        s == "ammunition"@ ==> section_title(s) == "Ammunition"@,
        s == "restoration"@ ==> section_title(s) == "Restoration"@,
        s == "stat_buffs"@ ==> section_title(s) == "Stat Buffs"@,
        s == "utility"@ ==> section_title(s) == "Utility"@,
        s == "scrolls"@ ==> section_title(s) == "Scrolls"@,
        s == "cooking"@ ==> section_title(s) == "Cooking"@,
        s != "materials"@ && s != "equipment"@ && s != "accessories"@ && s != "ammunition"@ && s != "restoration"@
            && s != "stat_buffs"@ && s != "utility"@ && s != "scrolls"@ && s != "cooking"@ ==> section_title(s) == s,
{
    lemma_section_names_differ();
}

/// Header title of a section; an unknown section shows as itself.
pub open spec fn section_title(s: Seq<char>) -> Seq<char> {
    if s == "materials"@ {
        "Materials"@
    } else if s == "equipment"@ {
        "Equipment"@
    } else if s == "accessories"@ {
        "Accessories"@
    } else if s == "ammunition"@ {
        "Ammunition"@
    } else if s == "restoration"@ {
        "Restoration"@
    } else if s == "stat_buffs"@ {
        "Stat Buffs"@
    } else if s == "utility"@ {
        "Utility"@
    } else if s == "scrolls"@ {
        "Scrolls"@
    } else if s == "cooking"@ {
        "Cooking"@
    } else {
        s
    }
}

/// Display name for a section.
pub fn section_display_name(section: &str) -> (r: &str)
    ensures
        r@ == section_title(section@),
{
    if same_text(section, "materials") {
        "Materials"
    } else if same_text(section, "equipment") {
        "Equipment"
    } else if same_text(section, "accessories") {
        "Accessories"
    } else if same_text(section, "ammunition") {
        "Ammunition"
    } else if same_text(section, "restoration") {
        "Restoration"
    } else if same_text(section, "stat_buffs") {
        "Stat Buffs"
    } else if same_text(section, "utility") {
        "Utility"
    } else if same_text(section, "scrolls") {
        "Scrolls"
    } else if same_text(section, "cooking") {
        "Cooking"
    } else {
        section
    }
}

// ---------------------------------------------------------------------------
// Categories
// ---------------------------------------------------------------------------

/// The tab a recipe category falls under: materials and consumables are
/// grouped as "supplies".
pub open spec fn category_group(c: Seq<char>) -> Seq<char> {
    if c == "materials"@ || c == "consumables"@ {
        "supplies"@
    } else {
        c
    }
}

/// Some recipe among the first `n` falls under tab `c`.
pub open spec fn has_group(recipes: Seq<Recipe>, n: int, c: Seq<char>) -> bool {
    exists|i: int| 0 <= i < n && #[trigger] category_group(recipes[i].category@) == c
}

/// `cats` is the tab list of `recipes`: sorted without repeats, each tab the
/// group of some recipe, and every recipe's group among the tabs.
pub open spec fn category_tabs(recipes: Seq<Recipe>, cats: Seq<String>) -> bool {
    &&& strictly_sorted(cats)
    &&& forall|k: int| 0 <= k < cats.len() ==> has_group(recipes, recipes.len() as int, #[trigger] cats[k]@)
    &&& forall|i: int| 0 <= i < recipes.len() ==> listed(cats, category_group(#[trigger] recipes[i].category@))
}

/// The tab of one recipe category.
fn group_of(category: &String) -> (g: String)
    ensures
        g@ == category_group(category@),
{
    if same_text(category.as_str(), "materials") || same_text(category.as_str(), "consumables") {
        "supplies".to_owned()
    } else {
        category.clone()
    }
}

/// The category tabs of a recipe list: each recipe's category, with
/// materials and consumables grouped into "supplies", sorted and without
/// repeats.
pub fn build_categories(recipes: &[Recipe]) -> (cats: Vec<String>)
    ensures
        category_tabs(recipes@, cats@),
{
    let mut cats: Vec<String> = Vec::new();
    let n = recipes.len();
    let mut i: usize = 0;
    while i < n
        invariant
            n == recipes.len(),
            i <= n,
            strictly_sorted(cats@),
            forall|k: int| 0 <= k < cats.len() ==> has_group(recipes@, i as int, #[trigger] cats@[k]@),
            forall|m: int| 0 <= m < i ==> listed(cats@, category_group(#[trigger] recipes@[m].category@)),
        decreases n - i,
    {
        let g = group_of(&recipes[i].category);
        let ghost old_cats = cats@;
        let ghost gv = g@;
        insert_sorted_unique(&mut cats, g);
        proof {
            assert forall|k: int| 0 <= k < cats.len() implies has_group(recipes@, i + 1, #[trigger] cats@[k]@) by {
                assert(listed(cats@, cats@[k]@));
                if cats@[k]@ == gv {
                    assert(category_group(recipes@[i as int].category@) == cats@[k]@);
                } else {
                    assert(listed(old_cats, cats@[k]@));
                    let k0 = choose|k0: int| 0 <= k0 < old_cats.len() && #[trigger] old_cats[k0]@ == cats@[k]@;
                    let w = choose|w: int| 0 <= w < i && #[trigger] category_group(recipes@[w].category@) == old_cats[k0]@;
                    assert(0 <= w < i + 1 && category_group(recipes@[w].category@) == cats@[k]@);
                }
            }
            assert forall|m: int| 0 <= m < i + 1 implies listed(cats@, category_group(#[trigger] recipes@[m].category@)) by {
                if m < i {
                    assert(listed(old_cats, category_group(recipes@[m].category@)));
                }
            }
        }
        i = i + 1;
    }
    cats
}

/// A recipe of category `rc` belongs on tab `tab` (the "supplies" tab takes
/// consumables and materials).
pub open spec fn in_category(rc: Seq<char>, tab: Seq<char>) -> bool {
    if tab == "supplies"@ {
        rc == "consumables"@ || rc == "materials"@
    } else {
        rc == tab
    }
}

/// Positions, in order, of the first `n` recipes that belong on tab `tab`.
pub open spec fn category_positions(recipes: Seq<Recipe>, tab: Seq<char>, n: int) -> Seq<usize>
    decreases n,
{
    if n <= 0 {
        Seq::empty()
    } else {
        let p = category_positions(recipes, tab, n - 1);
        if in_category(recipes[n - 1].category@, tab) {
            p.push((n - 1) as usize)
        } else {
            p
        }
    }
}

/// The recipes for a given category tab (matching the supplies grouping),
/// as their positions in `recipes`, in order.
pub fn recipes_for_category(recipes: &[Recipe], category: &str) -> (r: Vec<usize>)
    ensures
        r@ == category_positions(recipes@, category@, recipes.len() as int),
{
    let mut r: Vec<usize> = Vec::new();
    let supplies = same_text(category, "supplies");
    let mut i: usize = 0;
    while i < recipes.len()
        invariant
            i <= recipes.len(),
            supplies == (category@ == "supplies"@),
            r@ == category_positions(recipes@, category@, i as int),
        decreases recipes.len() - i,
    {
        let c = recipes[i].category.as_str();
        let keep = if supplies {
            same_text(c, "consumables") || same_text(c, "materials")
        } else {
            same_text(c, category)
        };
        if keep {
            r.push(i);
        }
        i = i + 1;
    }
    r
}

/// Recipe `i` is among the positions kept for tab `tab` exactly when it
/// belongs on that tab.
pub proof fn lemma_category_positions_members(recipes: Seq<Recipe>, tab: Seq<char>, n: int, i: int)
    requires
        0 <= i < n <= recipes.len(),
        recipes.len() <= usize::MAX,
    ensures
        category_positions(recipes, tab, n).contains(i as usize) <==> in_category(recipes[i].category@, tab),
    decreases n,
{
    let p = category_positions(recipes, tab, n - 1);
    lemma_category_positions_below(recipes, tab, n - 1);
    if i < n - 1 {
        lemma_category_positions_members(recipes, tab, n - 1, i);
        if in_category(recipes[n - 1].category@, tab) {
            let q = p.push((n - 1) as usize);
            if q.contains(i as usize) {
                let k = choose|k: int| 0 <= k < q.len() && q[k] == i as usize;
                if k < p.len() {
                    assert(p[k] == i as usize);
                }
            }
            if p.contains(i as usize) {
                let k = choose|k: int| 0 <= k < p.len() && p[k] == i as usize;
                assert(q[k] == i as usize);
            }
        }
    } else {
        if in_category(recipes[n - 1].category@, tab) {
            let q = p.push((n - 1) as usize);
            assert(q[p.len() as int] == i as usize);
        } else {
            if p.contains(i as usize) {
                let k = choose|k: int| 0 <= k < p.len() && p[k] == i as usize;
                assert(p[k] < n - 1);
            }
        }
    }
}

/// Kept positions lie below `n`.
pub proof fn lemma_category_positions_below(recipes: Seq<Recipe>, tab: Seq<char>, n: int)
    requires
        n <= usize::MAX,
    ensures
        forall|k: int| 0 <= k < category_positions(recipes, tab, n).len() ==> #[trigger] category_positions(recipes, tab, n)[k] < n,
    decreases n,
{
    if n > 0 {
        lemma_category_positions_below(recipes, tab, n - 1);
        let p = category_positions(recipes, tab, n - 1);
        let c = category_positions(recipes, tab, n);
        assert forall|k: int| 0 <= k < c.len() implies #[trigger] c[k] < n by {
            if k < p.len() {
                assert(c[k] == p[k]);
            }
        }
    }
}

/// Every recipe shows on exactly one tab, the tab of its group: for a tab
/// that the category list offers, a recipe is listed under it exactly when
/// its category groups into it. (A recipe whose category is literally
/// "supplies" is left out: its tab is offered but lists only consumables
/// and materials.)
pub proof fn lemma_recipe_on_its_tab(recipes: Seq<Recipe>, tab: Seq<char>, i: int)
    requires
        0 <= i < recipes.len() <= usize::MAX,
        has_group(recipes, recipes.len() as int, tab),
        recipes[i].category@ != "supplies"@,
    ensures
        category_positions(recipes, tab, recipes.len() as int).contains(i as usize)
            <==> category_group(recipes[i].category@) == tab,
{
    lemma_category_positions_members(recipes, tab, recipes.len() as int, i);
    let w = choose|w: int| 0 <= w < recipes.len() && #[trigger] category_group(recipes[w].category@) == tab;
    reveal_strlit("materials");
    reveal_strlit("consumables");
    reveal_strlit("supplies");
    assert("supplies"@[0] != "materials"@[0] && "supplies"@[0] != "consumables"@[0]);
    assert(tab != "materials"@ && tab != "consumables"@);
}

/// The tabs depend only on which groups the recipes fall into: two recipe
/// lists where every recipe of each falls into a group that some recipe of
/// the other falls into (one list a reordering of the other, or the same
/// recipes with some repeated) get the same tabs in the same order.
pub proof fn lemma_categories_depend_on_groups(r1: Seq<Recipe>, r2: Seq<Recipe>, c1: Seq<String>, c2: Seq<String>)
    requires
        category_tabs(r1, c1),
        category_tabs(r2, c2),
        forall|i: int| 0 <= i < r1.len() ==> has_group(r2, r2.len() as int, category_group(#[trigger] r1[i].category@)),
        forall|i: int| 0 <= i < r2.len() ==> has_group(r1, r1.len() as int, category_group(#[trigger] r2[i].category@)),
    ensures
        c1.len() == c2.len(),
        forall|k: int| 0 <= k < c1.len() ==> #[trigger] c1[k]@ == c2[k]@,
{
    assert forall|t: Seq<char>| #![trigger listed(c1, t)] #![trigger listed(c2, t)] listed(c1, t) <==> listed(c2, t) by {
        if listed(c1, t) {
            let k = choose|k: int| 0 <= k < c1.len() && #[trigger] c1[k]@ == t;
            assert(has_group(r1, r1.len() as int, c1[k]@));
            let i = choose|i: int| 0 <= i < r1.len() && #[trigger] category_group(r1[i].category@) == t;
            assert(has_group(r2, r2.len() as int, category_group(r1[i].category@)));
            let j = choose|j: int| 0 <= j < r2.len() && #[trigger] category_group(r2[j].category@) == t;
            assert(listed(c2, category_group(r2[j].category@)));
        }
        if listed(c2, t) {
            let k = choose|k: int| 0 <= k < c2.len() && #[trigger] c2[k]@ == t;
            assert(has_group(r2, r2.len() as int, c2[k]@));
            let i = choose|i: int| 0 <= i < r2.len() && #[trigger] category_group(r2[i].category@) == t;
            assert(has_group(r1, r1.len() as int, category_group(r2[i].category@)));
            let j = choose|j: int| 0 <= j < r1.len() && #[trigger] category_group(r1[j].category@) == t;
            assert(listed(c1, category_group(r1[j].category@)));
        }
    }
    lemma_sorted_lists_agree(c1, c2);
}

/// No group reads "materials" or "consumables".
proof fn lemma_group_never_merged(c: Seq<char>)
    ensures
        category_group(c) != "materials"@,
        category_group(c) != "consumables"@,
{
    reveal_strlit("materials");
    reveal_strlit("consumables");
    reveal_strlit("supplies");
    assert("supplies"@[0] != "materials"@[0] && "supplies"@[0] != "consumables"@[0]);
}

/// No tab reads "materials" or "consumables" (those recipes show under
/// "supplies"), and there are tabs exactly when there are recipes.
pub proof fn lemma_category_tabs_basics(recipes: Seq<Recipe>, cats: Seq<String>)
    requires
        category_tabs(recipes, cats),
    ensures
        !listed(cats, "materials"@),
        !listed(cats, "consumables"@),
        (cats.len() == 0) == (recipes.len() == 0),
{
    if listed(cats, "materials"@) {
        let k = choose|k: int| 0 <= k < cats.len() && #[trigger] cats[k]@ == "materials"@;
        assert(has_group(recipes, recipes.len() as int, cats[k]@));
        let i = choose|i: int| 0 <= i < recipes.len() && #[trigger] category_group(recipes[i].category@) == cats[k]@;
        lemma_group_never_merged(recipes[i].category@);
    }
    if listed(cats, "consumables"@) {
        let k = choose|k: int| 0 <= k < cats.len() && #[trigger] cats[k]@ == "consumables"@;
        assert(has_group(recipes, recipes.len() as int, cats[k]@));
        let i = choose|i: int| 0 <= i < recipes.len() && #[trigger] category_group(recipes[i].category@) == cats[k]@;
        lemma_group_never_merged(recipes[i].category@);
    }
    if recipes.len() > 0 {
        assert(listed(cats, category_group(recipes[0].category@)));
    }
    if cats.len() > 0 {
        assert(has_group(recipes, recipes.len() as int, cats[0]@));
    }
}

/// How many of the first `n` recipes the first `m` tabs list, added up tab by tab.
pub open spec fn tab_sizes(recipes: Seq<Recipe>, cats: Seq<String>, n: int, m: int) -> nat
    decreases m,
{
    if m <= 0 {
        0
    } else {
        tab_sizes(recipes, cats, n, m - 1) + category_positions(recipes, cats[m - 1]@, n).len()
    }
}

/// On how many of the first `m` tabs a recipe of category `rc` belongs.
pub open spec fn tab_hits(rc: Seq<char>, cats: Seq<String>, m: int) -> nat
    decreases m,
{
    if m <= 0 {
        0
    } else {
        tab_hits(rc, cats, m - 1) + (if in_category(rc, cats[m - 1]@) { 1nat } else { 0nat })
    }
}

proof fn lemma_tab_sizes_none(recipes: Seq<Recipe>, cats: Seq<String>, m: int)
    ensures
        tab_sizes(recipes, cats, 0, m) == 0,
    decreases m,
{
    if m > 0 {
        lemma_tab_sizes_none(recipes, cats, m - 1);
    }
}

proof fn lemma_tab_sizes_step(recipes: Seq<Recipe>, cats: Seq<String>, n: int, m: int)
    requires
        n >= 1,
    ensures
        tab_sizes(recipes, cats, n, m) == tab_sizes(recipes, cats, n - 1, m) + tab_hits(recipes[n - 1].category@, cats, m),
    decreases m,
{
    if m > 0 {
        lemma_tab_sizes_step(recipes, cats, n, m - 1);
    }
}

proof fn lemma_tab_hits_one(rc: Seq<char>, cats: Seq<String>, g: Seq<char>, m: int)
    requires
        strictly_sorted(cats),
        0 <= m <= cats.len(),
        forall|k: int| 0 <= k < cats.len() ==> in_category(rc, #[trigger] cats[k]@) == (cats[k]@ == g),
    ensures
        tab_hits(rc, cats, m) == (if exists|k: int| 0 <= k < m && #[trigger] cats[k]@ == g { 1nat } else { 0nat }),
    decreases m,
{
    if m > 0 {
        lemma_tab_hits_one(rc, cats, g, m - 1);
        assert(in_category(rc, cats[m - 1]@) == (cats[m - 1]@ == g));
        if cats[m - 1]@ == g {
            assert forall|k: int| 0 <= k < m - 1 implies #[trigger] cats[k]@ != g by {
                assert(lex_lt(cats[k]@, cats[m - 1]@));
                lemma_lex_compare_basics(cats[k]@, g);
            }
        } else {
            if exists|k: int| 0 <= k < m && #[trigger] cats[k]@ == g {
                let k = choose|k: int| 0 <= k < m && #[trigger] cats[k]@ == g;
                assert(0 <= k < m - 1);
            }
        }
    }
}

/// When no recipe has the literal category "supplies", every tab of the
/// list lists at least one recipe, and the tabs together list each recipe
/// exactly once: their lengths add up to the number of recipes.
pub proof fn lemma_tabs_cover_recipes(recipes: Seq<Recipe>, cats: Seq<String>)
    requires
        category_tabs(recipes, cats),
        recipes.len() <= usize::MAX,
        forall|i: int| 0 <= i < recipes.len() ==> #[trigger] recipes[i].category@ != "supplies"@,
    ensures
        forall|k: int| 0 <= k < cats.len() ==> #[trigger] category_positions(recipes, cats[k]@, recipes.len() as int).len() > 0,
        tab_sizes(recipes, cats, recipes.len() as int, cats.len() as int) == recipes.len(),
{
    lemma_category_tabs_basics(recipes, cats);
    let n = recipes.len() as int;
    assert forall|k: int| 0 <= k < cats.len() implies #[trigger] category_positions(recipes, cats[k]@, n).len() > 0 by {
        assert(has_group(recipes, n, cats[k]@));
        let w = choose|w: int| 0 <= w < n && #[trigger] category_group(recipes[w].category@) == cats[k]@;
        assert(recipes[w].category@ != "supplies"@);
        lemma_recipe_on_its_tab(recipes, cats[k]@, w);
    }
    lemma_tabs_total(recipes, cats, n);
}

/// The first `j` recipes add `j` to the tab lengths.
proof fn lemma_tabs_total(recipes: Seq<Recipe>, cats: Seq<String>, j: int)
    requires
        0 <= j <= recipes.len(),
        category_tabs(recipes, cats),
        !listed(cats, "materials"@),
        !listed(cats, "consumables"@),
        forall|i: int| 0 <= i < recipes.len() ==> #[trigger] recipes[i].category@ != "supplies"@,
    ensures
        tab_sizes(recipes, cats, j, cats.len() as int) == j,
    decreases j,
{
    if j == 0 {
        lemma_tab_sizes_none(recipes, cats, cats.len() as int);
    } else {
        lemma_tabs_total(recipes, cats, j - 1);
        let rc = recipes[j - 1].category@;
        let g = category_group(rc);
        assert(rc != "supplies"@);
        assert(listed(cats, category_group(recipes[j - 1].category@)));
        assert forall|k: int| 0 <= k < cats.len() implies in_category(rc, #[trigger] cats[k]@) == (cats[k]@ == g) by {
            if cats[k]@ == "materials"@ {
                assert(listed(cats, "materials"@));
            }
            if cats[k]@ == "consumables"@ {
                assert(listed(cats, "consumables"@));
            }
        }
        lemma_tab_hits_one(rc, cats, g, cats.len() as int);
        lemma_tab_sizes_step(recipes, cats, j, cats.len() as int);
    }
}

// ---------------------------------------------------------------------------
// The crafting list
// ---------------------------------------------------------------------------

/// The section of a recipe, empty when it has none.
pub open spec fn section_of(r: Recipe) -> Seq<char> {
    match r.section {
        Some(s) => s@,
        None => Seq::empty(),
    }
}

/// The crafting list ranks recipes by section key, then level, then name.
pub open spec fn recipe_rank(r: Recipe) -> (int, int, Seq<char>) {
    (section_rank(section_of(r)) as int, r.level_required as int, r.display_name@)
}

/// Ranks of the listed rows.
pub open spec fn row_ranks(recipes: Seq<Recipe>, rows: Seq<usize>) -> Seq<(int, int, Seq<char>)> {
    Seq::new(rows.len(), |k: int| recipe_rank(recipes[rows[k] as int]))
}

/// The order in which the crafting tab lists `rows` (positions in
/// `recipes`): by section key, level and name, ties keeping their order.
/// The result holds indices into `rows`.
pub fn order_recipe_rows(recipes: &[Recipe], rows: &Vec<usize>) -> (order: Vec<usize>)
    requires
        forall|k: int| 0 <= k < rows.len() ==> #[trigger] rows@[k] < recipes.len(),
    ensures
        is_stable_order(row_ranks(recipes@, rows@), order@),
{
    let mut keys: Vec<RankKey> = Vec::new();
    let mut k: usize = 0;
    while k < rows.len()
        invariant
            k <= rows.len(),
            forall|m: int| 0 <= m < rows.len() ==> #[trigger] rows@[m] < recipes.len(),
            ranks_of(keys@) == row_ranks(recipes@, rows@).take(k as int),
        decreases rows.len() - k,
    {
        let r = &recipes[rows[k]];
        let section_key = match &r.section {
            Some(s) => section_sort_key(s.as_str()),
            None => section_sort_key(""),
        };
        proof {
            assert(""@ =~= Seq::<char>::empty()) by {
                reveal_strlit("");
            }
        }
        let key = RankKey { major: section_key as u64, minor: r.level_required as i64, name: r.display_name.clone() };
        let ghost before = keys@;
        keys.push(key);
        proof {
            lemma_ranks_of_push(before, key);
        }
        assert(ranks_of(keys@) =~= row_ranks(recipes@, rows@).take(k + 1));
        k = k + 1;
    }
    assert(ranks_of(keys@) =~= row_ranks(recipes@, rows@));
    stable_order(&keys)
}

/// The recipe is known to the player: it needs no discovery, or its id is
/// among the discovered ones.
pub open spec fn discovered_in(r: Recipe, discovered: Seq<String>) -> bool {
    !r.requires_discovery || listed(discovered, r.id@)
}

/// Whether the player knows the recipe.
pub fn recipe_discovered(recipe: &Recipe, discovered: &[String]) -> (b: bool)
    ensures
        b == discovered_in(*recipe, discovered@),
{
    !recipe.requires_discovery || text_listed(discovered, recipe.id.as_str())
}

/// What one row of the crafting list shows besides the recipe itself.
pub struct RecipeRow {
    /// A section header goes above this row.
    pub header: bool,
    /// The row's selection index, for a discovered recipe.
    pub selectable: Option<usize>,
}

/// The last non-empty section among the first `k` rows.
pub open spec fn last_section(sections: Seq<String>, k: int) -> Option<Seq<char>>
    decreases k,
{
    if k <= 0 {
        None
    } else if sections[k - 1]@.len() > 0 {
        Some(sections[k - 1]@)
    } else {
        last_section(sections, k - 1)
    }
}

/// Number of discovered rows among the first `k`.
pub open spec fn count_discovered(known: Seq<bool>, k: int) -> nat
    decreases k,
{
    if k <= 0 {
        0
    } else {
        count_discovered(known, k - 1) + if known[k - 1] { 1nat } else { 0nat }
    }
}

/// Some discovered row among the first `n` carries the number `j`.
pub open spec fn row_numbered(known: Seq<bool>, n: int, j: int) -> bool {
    exists|k: int| 0 <= k < n && known[k] && #[trigger] count_discovered(known, k) == j
}

/// More rows never count fewer discovered ones.
pub proof fn lemma_count_discovered_monotone(known: Seq<bool>, a: int, b: int)
    requires
        0 <= a <= b,
    ensures
        count_discovered(known, a) <= count_discovered(known, b),
    decreases b - a,
{
    if a < b {
        lemma_count_discovered_monotone(known, a, b - 1);
    }
}

/// The selection numbers of the recipe list: discovered rows are numbered
/// in list order, each with its own number, from 0 up to the number of
/// discovered rows with no gap, so the detail panel's n-th discovered
/// recipe is the row numbered n.
pub proof fn lemma_selection_numbers(known: Seq<bool>)
    ensures
        forall|k1: int, k2: int| 0 <= k1 < k2 < known.len() && known[k1] && known[k2]
            ==> #[trigger] count_discovered(known, k1) < #[trigger] count_discovered(known, k2),
        forall|j: int| 0 <= j < count_discovered(known, known.len() as int) ==> #[trigger] row_numbered(known, known.len() as int, j),
{
    assert forall|k1: int, k2: int| 0 <= k1 < k2 < known.len() && known[k1] && known[k2]
        implies #[trigger] count_discovered(known, k1) < #[trigger] count_discovered(known, k2) by {
        lemma_count_discovered_monotone(known, k1 + 1, k2);
    }
    lemma_selection_onto(known, known.len() as int);
}

/// Every number below the count of discovered rows among the first `n`
/// belongs to one of those rows.
proof fn lemma_selection_onto(known: Seq<bool>, n: int)
    requires
        0 <= n <= known.len(),
    ensures
        forall|j: int| 0 <= j < count_discovered(known, n) ==> #[trigger] row_numbered(known, n, j),
    decreases n,
{
    if n > 0 {
        lemma_selection_onto(known, n - 1);
        assert forall|j: int| 0 <= j < count_discovered(known, n) implies #[trigger] row_numbered(known, n, j) by {
            if j < count_discovered(known, n - 1) {
                assert(row_numbered(known, n - 1, j));
                let k = choose|k: int| 0 <= k < n - 1 && known[k] && #[trigger] count_discovered(known, k) == j;
                assert(0 <= k < n && known[k] && count_discovered(known, k) == j);
            } else {
                assert(known[n - 1] && count_discovered(known, n - 1) == j);
            }
        }
    }
}

/// The layout of the ordered crafting list: a row opens a section header
/// when its section is not empty and differs from the last non-empty section
/// above it; discovered rows are numbered in order for selection, unknown
/// ones ("????") are not.
pub fn plan_recipe_rows(sections: &Vec<String>, known: &Vec<bool>) -> (rows: Vec<RecipeRow>)
    requires
        sections.len() == known.len(),
    ensures
        rows.len() == sections.len(),
        forall|k: int| 0 <= k < rows.len() ==> (#[trigger] rows@[k]).header == (sections@[k]@.len() > 0
            && last_section(sections@, k) != Some(sections@[k]@)),
        forall|k: int| 0 <= k < rows.len() ==> (#[trigger] rows@[k]).selectable == (if known@[k] {
            Some(count_discovered(known@, k) as usize)
        } else {
            None
        }),
{
    let mut rows: Vec<RecipeRow> = Vec::new();
    let mut current: Option<&String> = None;
    let mut count: usize = 0;
    let mut k: usize = 0;
    while k < sections.len()
        invariant
            k <= sections.len() == known.len(),
            rows.len() == k,
            count == count_discovered(known@, k as int),
            count <= k,
            match current {
                Some(c) => last_section(sections@, k as int) == Some(c@),
                None => last_section(sections@, k as int) is None,
            },
            forall|m: int| 0 <= m < k ==> (#[trigger] rows@[m]).header == (sections@[m]@.len() > 0
                && last_section(sections@, m) != Some(sections@[m]@)),
            forall|m: int| 0 <= m < k ==> (#[trigger] rows@[m]).selectable == (if known@[m] {
                Some(count_discovered(known@, m) as usize)
            } else {
                None
            }),
        decreases sections.len() - k,
    {
        let s = &sections[k];
        let nonempty = !s.as_str().is_empty();
        let differs = match current {
            Some(c) => !same_text(c.as_str(), s.as_str()),
            None => true,
        };
        let header = nonempty && differs;
        if nonempty {
            current = Some(s);
        }
        let selectable = if known[k] {
            let c = count;
            count = count + 1;
            Some(c)
        } else {
            None
        };
        rows.push(RecipeRow { header, selectable });
        k = k + 1;
    }
    rows
}

/// The tab whose recipes are shown: the remembered tab, moved onto the last
/// one when fewer tabs exist; "supplies" when there are none.
pub fn selected_category(cats: &Vec<String>, selected: usize) -> (c: String)
    ensures
        c@ == (if cats.len() == 0 { "supplies"@ } else { cats@[clamped_index(selected as nat, cats.len() as nat) as int]@ }),
{
    if cats.len() == 0 {
        return "supplies".to_owned();
    }
    let k = clamp_index(selected, cats.len());
    cats[k].clone()
}

/// The distinct non-empty sections among the listed rows; each one adds a
/// header to the list's height.
pub fn distinct_sections(sections: &Vec<String>) -> (v: Vec<String>)
    ensures
        strictly_sorted(v@),
        forall|t: Seq<char>| #[trigger] listed(v@, t) <==> (t.len() > 0 && listed(sections@, t)),
{
    let mut v: Vec<String> = Vec::new();
    let mut i: usize = 0;
    while i < sections.len()
        invariant
            i <= sections.len(),
            strictly_sorted(v@),
            forall|t: Seq<char>| #[trigger] listed(v@, t) <==> (t.len() > 0 && listed(sections@.take(i as int), t)),
        decreases sections.len() - i,
    {
        let ghost before = v@;
        let ghost si = sections@[i as int]@;
        if !sections[i].as_str().is_empty() {
            insert_sorted_unique(&mut v, sections[i].clone());
        }
        proof {
            let pre = sections@.take(i as int);
            let post = sections@.take(i + 1);
            assert(post == pre.push(sections@[i as int]));
            assert forall|t: Seq<char>| #[trigger] listed(v@, t) <==> (t.len() > 0 && listed(post, t)) by {
                if listed(post, t) {
                    let k = choose|k: int| 0 <= k < post.len() && #[trigger] post[k]@ == t;
                    if k < pre.len() {
                        assert(pre[k]@ == t);
                        assert(listed(pre, t));
                    }
                }
                if listed(pre, t) {
                    let k = choose|k: int| 0 <= k < pre.len() && #[trigger] pre[k]@ == t;
                    assert(post[k]@ == t);
                }
                if t == si {
                    assert(post[i as int]@ == t);
                }
            }
        }
        i = i + 1;
    }
    assert(sections@.take(sections.len() as int) =~= sections@);
    v
}

} // verus!
