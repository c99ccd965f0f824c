//! Crafting stations: which recipes the anvil and the furnace list, whether
//! a recipe can be made, why a craft is refused, and the texts of the
//! station panels.

use vstd::prelude::*;
use crate::text::{nat_text, int_text, push_str, push_char, push_i64, push_u64, same_text};
use crate::order::{RankKey, ranks_of, lemma_ranks_of_push, is_stable_order, stable_order};
use crate::crafting::{Recipe, discovered_in, recipe_discovered};

verus! {

// ---------------------------------------------------------------------------
// Which recipes a station lists
// ---------------------------------------------------------------------------

/// `o` holds the text `t`.
pub open spec fn holds_text(o: Option<String>, t: Seq<char>) -> bool {
    match o {
        Some(s) => s@ == t,
        None => false,
    }
}

/// The section the anvil shows on a tab: materials on the first, equipment
/// on any other.
pub open spec fn anvil_section(tab: nat) -> Seq<char> {
    if tab == 0 { "materials"@ } else { "equipment"@ }
}

/// Recipe `r` is listed by the anvil on `tab`.
pub open spec fn anvil_lists(r: Recipe, tab: nat, discovered: Seq<String>) -> bool {
    holds_text(r.station, "anvil"@) && holds_text(r.section, anvil_section(tab)) && discovered_in(r, discovered)
}

/// Recipe `r` is listed by the furnace.
pub open spec fn furnace_lists(r: Recipe, discovered: Seq<String>) -> bool {
    holds_text(r.station, "furnace"@) && discovered_in(r, discovered)
}

/// Whether an optional text holds `t`.
fn option_is(o: &Option<String>, t: &str) -> (b: bool)
    ensures
        b == holds_text(*o, t@),
{
    match o {
        Some(s) => same_text(s.as_str(), t),
        None => false,
    }
}

/// Positions, in order, of the first `n` recipes the anvil lists on `tab`.
pub open spec fn anvil_candidates(recipes: Seq<Recipe>, tab: nat, discovered: Seq<String>, n: int) -> Seq<usize>
    decreases n,
{
    if n <= 0 {
        Seq::empty()
    } else {
        let p = anvil_candidates(recipes, tab, discovered, n - 1);
        if anvil_lists(recipes[n - 1], tab, discovered) { p.push((n - 1) as usize) } else { p }
    }
}

/// The anvil ranks its recipes by level alone; equal levels keep list order.
pub open spec fn level_ranks(recipes: Seq<Recipe>, rows: Seq<usize>) -> Seq<(int, int, Seq<char>)> {
    Seq::new(rows.len(), |k: int| (0int, recipes[rows[k] as int].level_required as int, Seq::<char>::empty()))
}

/// `order` (indices into `rows`) as the positions of `recipes` they name.
pub open spec fn arranged(rows: Seq<usize>, order: Seq<usize>) -> Seq<usize> {
    Seq::new(order.len(), |k: int| rows[order[k] as int])
}

/// The anvil's recipe grid on `tab`: the anvil recipes of that tab's section
/// that the player knows, by level required, recipes of equal level in
/// list order (`sort_by_key` is stable). The result holds positions in
/// `recipes`.
pub fn anvil_recipes(recipes: &[Recipe], tab: usize, discovered: &[String]) -> (r: Vec<usize>)
    ensures
        exists|order: Seq<usize>|
            is_stable_order(level_ranks(recipes@, anvil_candidates(recipes@, tab as nat, discovered@, recipes.len() as int)), order)
            && #[trigger] arranged(anvil_candidates(recipes@, tab as nat, discovered@, recipes.len() as int), order) == r@,
{
    let section = if tab == 0 { "materials" } else { "equipment" };
    let mut cands: Vec<usize> = Vec::new();
    let mut i: usize = 0;
    while i < recipes.len()
        invariant
            i <= recipes.len(),
            section@ == anvil_section(tab as nat),
            cands@ == anvil_candidates(recipes@, tab as nat, discovered@, i as int),
        decreases recipes.len() - i,
    {
        let rc = &recipes[i];
        if option_is(&rc.station, "anvil") && option_is(&rc.section, section) && recipe_discovered(rc, discovered) {
            cands.push(i);
        }
        i = i + 1;
    }
    proof {
        lemma_candidates_in_range(recipes@, tab as nat, discovered@, recipes.len() as int);
    }
    let mut keys: Vec<RankKey> = Vec::new();
    let mut k: usize = 0;
    while k < cands.len()
        invariant
            k <= cands.len(),
            cands@ == anvil_candidates(recipes@, tab as nat, discovered@, recipes.len() as int),
            forall|m: int| 0 <= m < cands.len() ==> #[trigger] cands@[m] < recipes.len(),
            ranks_of(keys@) == level_ranks(recipes@, cands@).take(k as int),
        decreases cands.len() - k,
    {
        let key = RankKey { major: 0, minor: recipes[cands[k]].level_required as i64, name: String::new() };
        let ghost before = keys@;
        keys.push(key);
        proof {
            lemma_ranks_of_push(before, key);
        }
        assert(ranks_of(keys@) =~= level_ranks(recipes@, cands@).take(k + 1));
        k = k + 1;
    }
    assert(ranks_of(keys@) =~= level_ranks(recipes@, cands@));
    let order = stable_order(&keys);
    let mut out: Vec<usize> = Vec::new();
    let mut m: usize = 0;
    while m < order.len()
        invariant
            m <= order.len(),
            order.len() == cands.len(),
            forall|q: int| 0 <= q < order.len() ==> #[trigger] order@[q] < cands.len(),
            out@ == arranged(cands@, order@).take(m as int),
        decreases order.len() - m,
    {
        out.push(cands[order[m]]);
        assert(out@ =~= arranged(cands@, order@).take(m + 1));
        m = m + 1;
    }
    assert(out@ =~= arranged(cands@, order@));
    assert(is_stable_order(level_ranks(recipes@, cands@), order@) && arranged(cands@, order@) == out@);
    out
}

/// Candidate positions are positions of the list.
pub proof fn lemma_candidates_in_range(recipes: Seq<Recipe>, tab: nat, discovered: Seq<String>, n: int)
    requires
        n <= recipes.len(),
    ensures
        forall|m: int| 0 <= m < anvil_candidates(recipes, tab, discovered, n).len()
            ==> #[trigger] anvil_candidates(recipes, tab, discovered, n)[m] < n,
    decreases n,
{
    if n > 0 {
        lemma_candidates_in_range(recipes, tab, discovered, n - 1);
        let p = anvil_candidates(recipes, tab, discovered, n - 1);
        let c = anvil_candidates(recipes, tab, discovered, n);
        assert forall|m: int| 0 <= m < c.len() implies #[trigger] c[m] < n by {
            if m < p.len() {
                assert(c[m] == p[m]);
            }
        }
    }
}

/// Positions, in order, of the first `n` recipes the furnace lists.
pub open spec fn furnace_candidates(recipes: Seq<Recipe>, discovered: Seq<String>, n: int) -> Seq<usize>
    decreases n,
{
    if n <= 0 {
        Seq::empty()
    } else {
        let p = furnace_candidates(recipes, discovered, n - 1);
        if furnace_lists(recipes[n - 1], discovered) { p.push((n - 1) as usize) } else { p }
    }
}

/// The furnace's recipe list: the furnace recipes the player knows, in list
/// order, as positions in `recipes`.
pub fn furnace_recipes(recipes: &[Recipe], discovered: &[String]) -> (r: Vec<usize>)
    ensures
        r@ == furnace_candidates(recipes@, discovered@, recipes.len() as int),
        forall|k: int| 0 <= k < r.len() ==> {
            let x = #[trigger] r@[k] as int;
            &&& x < recipes.len()
            &&& holds_text(recipes@[x].station, "furnace"@)
            &&& discovered_in(recipes@[x], discovered@)
        },
        forall|i: int| 0 <= i < recipes.len() && holds_text(recipes@[i].station, "furnace"@) && discovered_in(#[trigger] recipes@[i], discovered@)
            ==> r@.contains(i as usize),
        forall|a: int, b: int| 0 <= a < b < r.len() ==> #[trigger] r@[a] < #[trigger] r@[b],
{
    proof {
        lemma_furnace_list_members(recipes@, discovered@, recipes.len() as int);
    }
    let mut out: Vec<usize> = Vec::new();
    let mut i: usize = 0;
    while i < recipes.len()
        invariant
            i <= recipes.len(),
            out@ == furnace_candidates(recipes@, discovered@, i as int),
        decreases recipes.len() - i,
    {
        if option_is(&recipes[i].station, "furnace") && recipe_discovered(&recipes[i], discovered) {
            out.push(i);
        }
        i = i + 1;
    }
    out
}

/// The furnace lists exactly its own recipes that the player knows: every
/// listed position names a recipe of station "furnace" that needs no
/// discovery or whose id was discovered, and every such recipe is listed.
pub proof fn lemma_furnace_list_members(recipes: Seq<Recipe>, discovered: Seq<String>, n: int)
    requires
        0 <= n <= recipes.len(),
        recipes.len() <= usize::MAX,
    ensures
        forall|k: int| 0 <= k < furnace_candidates(recipes, discovered, n).len() ==> {
            let x = #[trigger] furnace_candidates(recipes, discovered, n)[k] as int;
            &&& x < n
            &&& holds_text(recipes[x].station, "furnace"@)
            &&& discovered_in(recipes[x], discovered)
        },
        forall|i: int| 0 <= i < n && holds_text(recipes[i].station, "furnace"@) && discovered_in(#[trigger] recipes[i], discovered)
            ==> furnace_candidates(recipes, discovered, n).contains(i as usize),
        forall|a: int, b: int|
            0 <= a < b < furnace_candidates(recipes, discovered, n).len() ==> #[trigger] furnace_candidates(recipes, discovered, n)[a]
                < #[trigger] furnace_candidates(recipes, discovered, n)[b],
    decreases n,
{
    if n > 0 {
        lemma_furnace_list_members(recipes, discovered, n - 1);
        let p = furnace_candidates(recipes, discovered, n - 1);
        let c = furnace_candidates(recipes, discovered, n);
        assert forall|k: int| 0 <= k < c.len() implies {
            let x = #[trigger] c[k] as int;
            &&& x < n
            &&& holds_text(recipes[x].station, "furnace"@)
            &&& discovered_in(recipes[x], discovered)
        } by {
            if k < p.len() {
                assert(c[k] == p[k]);
            }
        }
        assert forall|i: int| 0 <= i < n && holds_text(recipes[i].station, "furnace"@) && discovered_in(#[trigger] recipes[i], discovered)
            implies c.contains(i as usize) by {
            if i < n - 1 {
                assert(p.contains(i as usize));
                let k = choose|k: int| 0 <= k < p.len() && p[k] == i as usize;
                assert(c[k] == i as usize);
            } else {
                assert(c[p.len() as int] == i as usize);
            }
        }
        assert forall|a: int, b: int| 0 <= a < b < c.len() implies #[trigger] c[a] < #[trigger] c[b] by {
            assert(c[a] == p[a]);
            if b < p.len() {
                assert(c[b] == p[b]);
            }
        }
    }
}

/// The anvil lists on a tab exactly its own recipes of that tab's section
/// (materials on the first tab, equipment on any other) that the player
/// knows: every listed position names such a recipe, and every such recipe
/// is listed.
pub proof fn lemma_anvil_list_members(recipes: Seq<Recipe>, tab: nat, discovered: Seq<String>, n: int)
    requires
        0 <= n <= recipes.len(),
        recipes.len() <= usize::MAX,
    ensures
        forall|k: int| 0 <= k < anvil_candidates(recipes, tab, discovered, n).len() ==> {
            let x = #[trigger] anvil_candidates(recipes, tab, discovered, n)[k] as int;
            &&& x < n
            &&& holds_text(recipes[x].station, "anvil"@)
            &&& holds_text(recipes[x].section, if tab == 0 { "materials"@ } else { "equipment"@ })
            &&& discovered_in(recipes[x], discovered)
        },
        forall|i: int|
            0 <= i < n && holds_text(recipes[i].station, "anvil"@) && holds_text(recipes[i].section, if tab == 0 {
                "materials"@
            } else {
                "equipment"@
            }) && discovered_in(#[trigger] recipes[i], discovered) ==> anvil_candidates(recipes, tab, discovered, n).contains(
                i as usize),
    decreases n,
{
    if n > 0 {
        lemma_anvil_list_members(recipes, tab, discovered, n - 1);
        let p = anvil_candidates(recipes, tab, discovered, n - 1);
        let c = anvil_candidates(recipes, tab, discovered, n);
        let sec = if tab == 0 { "materials"@ } else { "equipment"@ };
        assert forall|k: int| 0 <= k < c.len() implies {
            let x = #[trigger] c[k] as int;
            &&& x < n
            &&& holds_text(recipes[x].station, "anvil"@)
            &&& holds_text(recipes[x].section, sec)
            &&& discovered_in(recipes[x], discovered)
        } by {
            if k < p.len() {
                assert(c[k] == p[k]);
            }
        }
        assert forall|i: int|
            0 <= i < n && holds_text(recipes[i].station, "anvil"@) && holds_text(recipes[i].section, sec) && discovered_in(
                #[trigger] recipes[i],
                discovered,
            ) implies c.contains(i as usize) by {
            if i < n - 1 {
                assert(p.contains(i as usize));
                let k = choose|k: int| 0 <= k < p.len() && p[k] == i as usize;
                assert(c[k] == i as usize);
            } else {
                assert(c[p.len() as int] == i as usize);
            }
        }
    }
}

/// The message of an empty anvil tab.
pub fn anvil_empty_message(tab: usize) -> (s: &'static str)
    ensures
        s@ == (if tab == 0 { "No material recipes available"@ } else { "No equipment recipes available"@ }),
{
    if tab == 0 { "No material recipes available" } else { "No equipment recipes available" }
}

// ---------------------------------------------------------------------------
// Whether a recipe can be made
// ---------------------------------------------------------------------------

/// An ingredient with what the player has of it.
pub struct IngredientStock {
    pub count: i32,
    pub have: i32,
}

/// The player has enough of every ingredient.
pub open spec fn all_in_stock(ings: Seq<IngredientStock>) -> bool {
    forall|k: int| 0 <= k < ings.len() ==> #[trigger] ings[k].have >= ings[k].count
}

/// Whether the player has enough of every ingredient.
pub fn ingredients_in_stock(ings: &[IngredientStock]) -> (b: bool)
    ensures
        b == all_in_stock(ings@),
{
    let mut k: usize = 0;
    while k < ings.len()
        invariant
            k <= ings.len(),
            forall|m: int| 0 <= m < k ==> #[trigger] ings@[m].have >= ings@[m].count,
        decreases ings.len() - k,
    {
        if ings[k].have < ings[k].count {
            return false;
        }
        k = k + 1;
    }
    true
}

/// The level check of a station: a requirement above 1 fails when the
/// player's level is known and lower. An unknown player passes.
pub open spec fn level_blocks(level_required: i32, player_level: Option<i32>) -> bool {
    level_required > 1 && match player_level {
        Some(l) => l < level_required,
        None => false,
    }
}

/// Whether the anvil or the furnace can make a recipe: every ingredient in
/// stock and the smithing level high enough.
pub fn station_can_craft(ings: &[IngredientStock], level_required: i32, smithing_level: Option<i32>) -> (b: bool)
    ensures
        b == (all_in_stock(ings@) && !level_blocks(level_required, smithing_level)),
{
    let stock = ingredients_in_stock(ings);
    let blocked = level_required > 1 && match smithing_level {
        Some(l) => l < level_required,
        None => false,
    };
    stock && !blocked
}

/// "{count}x {name}" for each ingredient, joined by `sep` (", " on the
/// anvil, " + " at the furnace).
pub open spec fn ingredient_text(parts: Seq<(i32, String)>, sep: Seq<char>) -> Seq<char>
    decreases parts.len(),
{
    if parts.len() == 0 {
        Seq::empty()
    } else if parts.len() == 1 {
        int_text(parts[0].0 as int) + "x "@ + parts[0].1@
    } else {
        ingredient_text(parts.drop_last(), sep) + sep + int_text(parts.last().0 as int) + "x "@ + parts.last().1@
    }
}

/// The ingredient summary of a station recipe.
pub fn ingredient_summary(parts: &Vec<(i32, String)>, sep: &str) -> (s: String)
    ensures
        s@ == ingredient_text(parts@, sep@),
{
    let mut s = String::new();
    let mut k: usize = 0;
    while k < parts.len()
        invariant
            k <= parts.len(),
            s@ == ingredient_text(parts@.take(k as int), sep@),
        decreases parts.len() - k,
    {
        let ghost before = s@;
        if k > 0 {
            push_str(&mut s, sep);
        }
        push_i64(&mut s, parts[k].0 as i64);
        push_str(&mut s, "x ");
        push_str(&mut s, parts[k].1.as_str());
        proof {
            let p = parts@.take(k + 1);
            assert(p.drop_last() =~= parts@.take(k as int));
            assert(p.last() == parts@[k as int]);
            if k == 0 {
                assert(p.len() == 1);
                assert(s@ =~= ingredient_text(p, sep@));
            } else {
                assert(s@ =~= ingredient_text(p, sep@));
            }
        }
        k = k + 1;
    }
    assert(parts@.take(parts.len() as int) =~= parts@);
    s
}

/// The furnace's info line: "Lv{n}" when the level required is above 1,
/// "{xp}xp" when the recipe gives experience, and the craft time text when
/// there is one, joined by " · ".
pub open spec fn furnace_info_parts(level_required: i32, xp: i32, time: Option<Seq<char>>) -> Seq<Seq<char>> {
    (if level_required > 1 { seq!["Lv"@ + int_text(level_required as int)] } else { Seq::empty() })
        + (if xp > 0 { seq![int_text(xp as int) + "xp"@] } else { Seq::empty() })
        + (match time { Some(t) => seq![t], None => Seq::empty() })
}

/// `parts` joined by `sep`.
pub open spec fn joined_by(parts: Seq<Seq<char>>, sep: Seq<char>) -> Seq<char>
    decreases parts.len(),
{
    if parts.len() == 0 {
        Seq::empty()
    } else if parts.len() == 1 {
        parts[0]
    } else {
        joined_by(parts.drop_last(), sep) + sep + parts.last()
    }
}

/// Appends `part`, after `sep` unless it is the first part.
fn push_part(s: &mut String, first: bool, sep: &str, part: &str)
    ensures
        final(s)@ == (if first { old(s)@ + part@ } else { old(s)@ + sep@ + part@ }),
{
    if !first {
        push_str(s, sep);
    }
    push_str(s, part);
}

/// The info line under a furnace recipe; the craft time is written by the
/// caller (it is a fraction of seconds).
pub fn furnace_info_line(level_required: i32, xp: i32, time: Option<&str>) -> (s: String)
    ensures
        s@ == joined_by(furnace_info_parts(level_required, xp, match time { Some(t) => Some(t@), None => None }), " · "@),
{
    let ghost tv: Option<Seq<char>> = match time { Some(t) => Some(t@), None => None };
    let mut parts: Vec<String> = Vec::new();
    if level_required > 1 {
        let mut p = String::new();
        push_str(&mut p, "Lv");
        push_i64(&mut p, level_required as i64);
        parts.push(p);
    }
    if xp > 0 {
        let mut p = String::new();
        push_i64(&mut p, xp as i64);
        push_str(&mut p, "xp");
        parts.push(p);
    }
    match time {
        Some(t) => {
            let mut p = String::new();
            push_str(&mut p, t);
            parts.push(p);
        },
        None => {},
    }
    let ghost want = furnace_info_parts(level_required, xp, tv);
    assert(parts@.len() == want.len());
    assert forall|k: int| 0 <= k < parts.len() implies (#[trigger] parts@[k])@ == want[k] by {}
    let mut s = String::new();
    let mut k: usize = 0;
    while k < parts.len()
        invariant
            k <= parts.len(),
            parts@.len() == want.len(),
            forall|q: int| 0 <= q < parts.len() ==> (#[trigger] parts@[q])@ == want[q],
            s@ == joined_by(want.take(k as int), " · "@),
        decreases parts.len() - k,
    {
        push_part(&mut s, k == 0, " · ", parts[k].as_str());
        proof {
            let w = want.take(k + 1);
            assert(w.drop_last() =~= want.take(k as int));
            assert(w.last() == want[k as int]);
            if k == 0 {
                assert(s@ =~= joined_by(w, " · "@));
            } else {
                assert(s@ =~= joined_by(w, " · "@));
            }
        }
        k = k + 1;
    }
    assert(want.take(parts.len() as int) =~= want);
    s
}

// ---------------------------------------------------------------------------
// Batch quantity
// ---------------------------------------------------------------------------

/// Which of the quantity buttons [1] [X] [All] is lit.
#[derive(Clone, Copy, PartialEq, Eq, Structural, Debug)]
pub enum QuantityMode {
    One,
    Custom,
    All,
}

/// The lit quantity button: 1 is "1", the largest quantity means "All",
/// anything else is a custom amount.
pub open spec fn quantity_mode_of(q: u32) -> QuantityMode {
    if q == 1 {
        QuantityMode::One
    } else if q == u32::MAX {
        QuantityMode::All
    } else {
        QuantityMode::Custom
    }
}

/// The lit quantity button.
pub fn quantity_mode(q: u32) -> (m: QuantityMode)
    ensures
        m == quantity_mode_of(q),
{
    if q == 1 {
        QuantityMode::One
    } else if q == u32::MAX {
        QuantityMode::All
    } else {
        QuantityMode::Custom
    }
}

/// The quantity shown beside the buttons: "All" or "x{q}".
pub fn quantity_label(q: u32) -> (s: String)
    ensures
        s@ == (if q == u32::MAX { "All"@ } else { "x"@ + nat_text(q as nat) }),
{
    let mut s = String::new();
    if q == u32::MAX {
        push_str(&mut s, "All");
    } else {
        push_char(&mut s, 'x');
        push_u64(&mut s, q as u64);
        proof {
            reveal_strlit("x");
        }
        assert(s@ =~= "x"@ + nat_text(q as nat));
    }
    s
}

/// "{done}/{total}" while a batch of more than one runs.
pub fn batch_text(done: u32, total: u32) -> (r: Option<String>)
    ensures
        r is None <==> total <= 1,
        r matches Some(s) ==> s@ == nat_text(done as nat) + "/"@ + nat_text(total as nat),
{
    if total <= 1 {
        return None;
    }
    let mut s = String::new();
    push_u64(&mut s, done as u64);
    push_char(&mut s, '/');
    push_u64(&mut s, total as u64);
    proof {
        reveal_strlit("/");
    }
    assert(s@ =~= nat_text(done as nat) + "/"@ + nat_text(total as nat));
    Some(s)
}

/// The remainder of `p` by 4 as Rust's `%` computes it (it takes the sign
/// of `p`).
pub open spec fn rem4(p: int) -> int {
    if p >= 0 { p % 4 } else { -((-p) % 4) }
}

/// The pulsing work label: the word followed by no dot, one, two or three
/// dots as the phase (half-seconds elapsed) goes round; a negative phase
/// shows three dots unless it is a multiple of 4.
pub fn pulsing_label(word: &str, phase: i32) -> (s: String)
    ensures
        s@ == word@ + (if rem4(phase as int) == 0 { ""@ } else if rem4(phase as int) == 1 { "."@ } else if rem4(
            phase as int,
        ) == 2 { ".."@ } else { "..."@ }),
{
    let mut s = String::new();
    push_str(&mut s, word);
    let r: i64 = if phase >= 0 { (phase % 4) as i64 } else { -((-(phase as i64)) % 4) };
    proof {
        reveal_strlit("");
    }
    if r == 1 {
        push_str(&mut s, ".");
    } else if r == 2 {
        push_str(&mut s, "..");
    } else if r != 0 {
        push_str(&mut s, "...");
    } else {
        assert(s@ =~= word@ + ""@);
    }
    s
}

// ---------------------------------------------------------------------------
// The crafting detail panel
// ---------------------------------------------------------------------------

/// The skill a recipe category trains and is gated by.
#[derive(Clone, Copy, PartialEq, Eq, Structural, Debug)]
pub enum CraftSkill {
    Smithing,
    Alchemy,
    Survivalist,
    /// Any other category goes by the combat level.
    Combat,
}

/// The skill of a recipe category.
pub open spec fn skill_of(category: Seq<char>) -> CraftSkill {
    if category == "smithing"@ {
        CraftSkill::Smithing
    } else if category == "alchemy"@ {
        CraftSkill::Alchemy
    } else if category == "cooking"@ || category == "fletching"@ || category == "leatherworking"@ {
        CraftSkill::Survivalist
    } else {
        CraftSkill::Combat
    }
}

/// The skill of a recipe category.
pub fn craft_skill(category: &str) -> (k: CraftSkill)
    ensures
        k == skill_of(category@),
        category@ == "smithing"@ ==> k == CraftSkill::Smithing,
        category@ == "alchemy"@ ==> k == CraftSkill::Alchemy,
        category@ == "cooking"@ || category@ == "fletching"@ || category@ == "leatherworking"@ ==> k
            == CraftSkill::Survivalist,
        category@ != "smithing"@ && category@ != "alchemy"@ && category@ != "cooking"@ && category@ != "fletching"@
            && category@ != "leatherworking"@ ==> k == CraftSkill::Combat,
{
    proof {
        lemma_category_skills(category@);
    }
    if same_text(category, "smithing") {
        CraftSkill::Smithing
    } else if same_text(category, "alchemy") {
        CraftSkill::Alchemy
    } else if same_text(category, "cooking") || same_text(category, "fletching") || same_text(category, "leatherworking") {
        CraftSkill::Survivalist
    } else {
        CraftSkill::Combat
    }
}

/// The category names that pick a skill tell apart by length or first letter.
proof fn lemma_category_names_differ()
    ensures
        "smithing"@.len() == 8 && "smithing"@[0] == 's',
        "alchemy"@.len() == 7 && "alchemy"@[0] == 'a',
        "cooking"@.len() == 7 && "cooking"@[0] == 'c',
        "fletching"@.len() == 9 && "fletching"@[0] == 'f',
        "leatherworking"@.len() == 14 && "leatherworking"@[0] == 'l',
{
    reveal_strlit("smithing");
    reveal_strlit("alchemy");
    reveal_strlit("cooking");
    reveal_strlit("fletching");
    reveal_strlit("leatherworking");
}

/// The skill that gates a recipe category, and the name its requirement line
/// writes: Smithing for "smithing", Alchemy for "alchemy", Survivalist for
/// "cooking", "fletching" and "leatherworking", and Combat for any other
/// category.
pub proof fn lemma_category_skills(c: Seq<char>)
    ensures
        c == "smithing"@ ==> skill_of(c) == CraftSkill::Smithing && skill_name_of(skill_of(c)) == "Smithing"@,
        c == "alchemy"@ ==> skill_of(c) == CraftSkill::Alchemy && skill_name_of(skill_of(c)) == "Alchemy"@,
        c == "cooking"@ || c == "fletching"@ || c == "leatherworking"@ ==> skill_of(c) == CraftSkill::Survivalist
            && skill_name_of(skill_of(c)) == "Survivalist"@,
        c != "smithing"@ && c != "alchemy"@ && c != "cooking"@ && c != "fletching"@ && c != "leatherworking"@ ==> skill_of(c)
            == CraftSkill::Combat && skill_name_of(skill_of(c)) == "Combat"@,
{
    lemma_category_names_differ();
}

/// The name of a skill as the requirement line writes it.
pub open spec fn skill_name_of(k: CraftSkill) -> Seq<char> {
    match k {
        CraftSkill::Smithing => "Smithing"@,
        CraftSkill::Alchemy => "Alchemy"@,
        CraftSkill::Survivalist => "Survivalist"@,
        CraftSkill::Combat => "Combat"@,
    }
}

/// The name of a skill.
pub fn skill_name(k: CraftSkill) -> (s: &'static str)
    ensures
        s@ == skill_name_of(k),
{
    match k {
        CraftSkill::Smithing => "Smithing",
        CraftSkill::Alchemy => "Alchemy",
        CraftSkill::Survivalist => "Survivalist",
        CraftSkill::Combat => "Combat",
    }
}

/// Whether a requirement is met, failed, or cannot be told.
#[derive(Clone, Copy, PartialEq, Eq, Structural, Debug)]
pub enum Check {
    Met,
    Failed,
    Unknown,
}

/// The marker written before a requirement line.
pub open spec fn check_marker(c: Check) -> Seq<char> {
    match c {
        Check::Met => "[OK]"@,
        Check::Failed => "[!!]"@,
        Check::Unknown => "[??]"@,
    }
}

/// The level check of the detail panel.
pub open spec fn level_check_of(level_required: i32, player_level: Option<i32>) -> Check {
    match player_level {
        Some(l) => if l >= level_required { Check::Met } else { Check::Failed },
        None => Check::Unknown,
    }
}

/// The level check and its marker: a known player at or above the level
/// is "[OK]", a known player below it "[!!]", and an unknown player "[??]".
pub proof fn lemma_level_check(level_required: i32, player_level: Option<i32>)
    ensures
        player_level matches Some(l) && l >= level_required ==> level_check_of(level_required, player_level) == Check::Met
            && check_marker(Check::Met) == "[OK]"@,
        player_level matches Some(l) && l < level_required ==> level_check_of(level_required, player_level)
            == Check::Failed && check_marker(Check::Failed) == "[!!]"@,
        player_level is None ==> level_check_of(level_required, player_level) == Check::Unknown && check_marker(
            Check::Unknown,
        ) == "[??]"@,
{
}

/// "{marker} Requires {skill} Level {n}", shown when the level required is
/// above 1, with the check it reports.
pub fn level_requirement_line(category: &str, level_required: i32, player_level: Option<i32>) -> (r: Option<(String, Check)>)
    ensures
        r is None <==> level_required <= 1,
        r matches Some(p) ==> p.1 == level_check_of(level_required, player_level)
            && p.0@ == check_marker(p.1) + " Requires "@ + skill_name_of(skill_of(category@)) + " Level "@
                + int_text(level_required as int),
{
    if level_required <= 1 {
        return None;
    }
    let check = match player_level {
        Some(l) => if l >= level_required { Check::Met } else { Check::Failed },
        None => Check::Unknown,
    };
    let mut s = String::new();
    match check {
        Check::Met => push_str(&mut s, "[OK]"),
        Check::Failed => push_str(&mut s, "[!!]"),
        Check::Unknown => push_str(&mut s, "[??]"),
    }
    push_str(&mut s, " Requires ");
    push_str(&mut s, skill_name(craft_skill(category)));
    push_str(&mut s, " Level ");
    push_i64(&mut s, level_required as i64);
    Some((s, check))
}

/// How a required tool is named: "knife" is written "Knife", any other
/// tool by its id.
pub fn tool_display(tool: &str) -> (s: &str)
    ensures
        s@ == (if tool@ == "knife"@ { "Knife"@ } else { tool@ }),
{
    if same_text(tool, "knife") { "Knife" } else { tool }
}

/// "{marker} Requires: {tool}", the tool line, "[OK]" when the tool is in
/// the inventory and "[!!]" when it is not.
pub fn tool_requirement_line(tool: &str, has_tool: bool) -> (s: String)
    ensures
        s@ == (if has_tool { "[OK]"@ } else { "[!!]"@ }) + " Requires: "@
            + (if tool@ == "knife"@ { "Knife"@ } else { tool@ }),
{
    let mut s = String::new();
    if has_tool {
        push_str(&mut s, "[OK]");
    } else {
        push_str(&mut s, "[!!]");
    }
    push_str(&mut s, " Requires: ");
    push_str(&mut s, tool_display(tool));
    s
}

/// "{marker} {name} ({have}/{need})", an ingredient line: "[+]" when there
/// is enough, "[-]" when not.
pub fn ingredient_line(name: &str, have: i32, need: i32) -> (s: String)
    ensures
        s@ == (if have >= need { "[+]"@ } else { "[-]"@ }) + " "@ + name@ + " ("@ + int_text(have as int) + "/"@
            + int_text(need as int) + ")"@,
{
    let mut s = String::new();
    if have >= need {
        push_str(&mut s, "[+]");
    } else {
        push_str(&mut s, "[-]");
    }
    push_str(&mut s, " ");
    push_str(&mut s, name);
    push_str(&mut s, " (");
    push_i64(&mut s, have as i64);
    push_str(&mut s, "/");
    push_i64(&mut s, need as i64);
    push_str(&mut s, ")");
    assert(s@ =~= (if have >= need { "[+]"@ } else { "[-]"@ }) + " "@ + name@ + " ("@ + int_text(have as int) + "/"@
        + int_text(need as int) + ")"@);
    s
}

/// Why the craft button is disabled.
#[derive(Clone, Copy, PartialEq, Eq, Structural, Debug)]
pub enum CraftBlock {
    RequirementsNotMet,
    MissingTool,
    InventoryFull,
    MissingMaterials,
}

/// What the crafting detail panel checks before it offers the craft button.
pub struct CraftCheck {
    pub level_required: i32,
    /// The player's level in the recipe's skill, when a player is known.
    pub player_level: Option<i32>,
    pub needs_tool: bool,
    pub has_tool: bool,
    pub free_slots: usize,
    pub ingredients: Vec<IngredientStock>,
}

/// The first reason, in this order, that refuses the craft: the level (only
/// checked for a known player and a requirement above 1), a missing tool, a
/// full inventory, missing ingredients.
pub open spec fn block_of(c: CraftCheck) -> Option<CraftBlock> {
    if level_blocks(c.level_required, c.player_level) {
        Some(CraftBlock::RequirementsNotMet)
    } else if c.needs_tool && !c.has_tool {
        Some(CraftBlock::MissingTool)
    } else if c.free_slots == 0 {
        Some(CraftBlock::InventoryFull)
    } else if !all_in_stock(c.ingredients@) {
        Some(CraftBlock::MissingMaterials)
    } else {
        None
    }
}

/// Why a craft is refused, or `None` when the craft button is offered.
pub fn craft_block(c: &CraftCheck) -> (r: Option<CraftBlock>)
    ensures
        r == block_of(*c),
{
    let level_fail = c.level_required > 1 && match c.player_level {
        Some(l) => l < c.level_required,
        None => false,
    };
    if level_fail {
        Some(CraftBlock::RequirementsNotMet)
    } else if c.needs_tool && !c.has_tool {
        Some(CraftBlock::MissingTool)
    } else if c.free_slots == 0 {
        Some(CraftBlock::InventoryFull)
    } else if !ingredients_in_stock(c.ingredients.as_slice()) {
        Some(CraftBlock::MissingMaterials)
    } else {
        None
    }
}

/// The craft button takes clicks exactly when nothing refuses the craft.
pub fn craft_button_offered(c: &CraftCheck) -> (b: bool)
    ensures
        b == (block_of(*c) is None),
{
    match craft_block(c) {
        Some(_) => false,
        None => true,
    }
}

/// The text of the disabled craft button.
pub fn block_text(b: CraftBlock) -> (s: &'static str)
    ensures
        s@ == (match b {
            CraftBlock::RequirementsNotMet => "Requirements Not Met"@,
            CraftBlock::MissingTool => "Missing Required Tool"@,
            CraftBlock::InventoryFull => "Inventory Full"@,
            CraftBlock::MissingMaterials => "Missing Materials"@,
        }),
{
    match b {
        CraftBlock::RequirementsNotMet => "Requirements Not Met",
        CraftBlock::MissingTool => "Missing Required Tool",
        CraftBlock::InventoryFull => "Inventory Full",
        CraftBlock::MissingMaterials => "Missing Materials",
    }
}

/// A recipe of level 1 or less, with its tool at hand, room in the
/// inventory and every ingredient in stock can always be crafted, whatever
/// the player's level; and any single failing check refuses it.
pub proof fn lemma_craft_block_laws(c: CraftCheck)
    ensures
        (c.level_required <= 1 && (!c.needs_tool || c.has_tool) && c.free_slots > 0 && all_in_stock(c.ingredients@))
            ==> block_of(c) is None,
        block_of(c) is None ==> all_in_stock(c.ingredients@) && c.free_slots > 0 && (!c.needs_tool || c.has_tool)
            && !level_blocks(c.level_required, c.player_level),
{
}

// ---------------------------------------------------------------------------
// The crafting panel's footer and tabs
// ---------------------------------------------------------------------------

/// The crafting tab is offered unless the open shop turns it off.
pub fn crafting_tab_visible(shop_show_crafting: Option<bool>) -> (b: bool)
    ensures
        b == (match shop_show_crafting { Some(v) => v, None => true }),
{
    match shop_show_crafting {
        Some(v) => v,
        None => true,
    }
}

/// The category tabs are drawn only when there is more than one category.
pub fn category_tabs_shown(category_count: usize) -> (b: bool)
    ensures
        b == (category_count > 1),
{
    category_count > 1
}

/// The key hints in the footer of the crafting panel.
pub open spec fn footer_hints_of(main_tab: nat, in_progress: bool, category_count: nat) -> Seq<Seq<char>> {
    if main_tab == 0 {
        if in_progress {
            seq!["[Esc] Cancel"@]
        } else if category_count > 1 {
            seq!["[Q] Tab"@, "[A/D] Category"@, "[W/S] Select"@, "[C] Craft"@]
        } else {
            seq!["[Q] Tab"@, "[W/S] Select"@, "[C] Craft"@]
        }
    } else {
        seq!["[Q] Tab"@, "[Tab] Buy/Sell"@, "[W/S] Select"@, "[+/-] Qty"@]
    }
}

/// The key hints in the footer of the crafting panel, left to right.
pub fn footer_hints(main_tab: usize, in_progress: bool, category_count: usize) -> (v: Vec<&'static str>)
    ensures
        v.len() == footer_hints_of(main_tab as nat, in_progress, category_count as nat).len(),
        forall|k: int| 0 <= k < v.len() ==> (#[trigger] v@[k])@ == footer_hints_of(main_tab as nat, in_progress, category_count as nat)[k],
{
    if main_tab == 0 {
        if in_progress {
            vec!["[Esc] Cancel"]
        } else if category_count > 1 {
            vec!["[Q] Tab", "[A/D] Category", "[W/S] Select", "[C] Craft"]
        } else {
            vec!["[Q] Tab", "[W/S] Select", "[C] Craft"]
        }
    } else {
        vec!["[Q] Tab", "[Tab] Buy/Sell", "[W/S] Select", "[+/-] Qty"]
    }
}

} // verus!
