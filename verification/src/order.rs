//! Stable ordering of list rows by a ranking key: a major number, a minor
//! number, then a name in lexicographic order; rows with equal keys keep
//! their order in the list (what `slice::sort_by` does).

use vstd::prelude::*;
use crate::text::{lex_compare, lex_lt, lemma_lex_compare_basics, lemma_lex_lt_transitive, compare_text, same_text};

verus! {

/// The ranking of one row.
pub struct RankKey {
    pub major: u64,
    pub minor: i64,
    pub name: String,
}

/// What a ranking key ranks by: the major number, the minor number, the name.
pub open spec fn rank_of(k: RankKey) -> (int, int, Seq<char>) {
    (k.major as int, k.minor as int, k.name@)
}

/// The ranks of a list of keys.
pub open spec fn ranks_of(keys: Seq<RankKey>) -> Seq<(int, int, Seq<char>)> {
    Seq::new(keys.len(), |i: int| rank_of(keys[i]))
}

/// Three-way comparison of two ranks: major, then minor, then name.
pub open spec fn rank_compare(a: (int, int, Seq<char>), b: (int, int, Seq<char>)) -> int {
    if a.0 < b.0 {
        -1
    } else if a.0 > b.0 {
        1
    } else if a.1 < b.1 {
        -1
    } else if a.1 > b.1 {
        1
    } else {
        lex_compare(a.2, b.2)
    }
}

/// Row `i` comes before row `j`: a smaller rank, or an equal rank and a
/// smaller position in the list.
pub open spec fn ranks_before(keys: Seq<(int, int, Seq<char>)>, i: int, j: int) -> bool {
    rank_compare(keys[i], keys[j]) < 0 || (rank_compare(keys[i], keys[j]) == 0 && i < j)
}

/// `order` lists the positions of `keys` in a stable sorted order: one entry
/// per row, each in range, each before the next. (Strictly before, so no
/// position repeats: `order` is a permutation of `0..keys.len()`.)
pub open spec fn is_stable_order(keys: Seq<(int, int, Seq<char>)>, order: Seq<usize>) -> bool {
    &&& order.len() == keys.len()
    &&& forall|k: int| 0 <= k < order.len() ==> #[trigger] order[k] < keys.len()
    &&& forall|k1: int, k2: int|
        0 <= k1 < k2 < order.len() ==> ranks_before(keys, #[trigger] order[k1] as int, #[trigger] order[k2] as int)
}

/// Ranking one more key appends its rank.
pub proof fn lemma_ranks_of_push(keys: Seq<RankKey>, k: RankKey)
    ensures
        ranks_of(keys.push(k)) == ranks_of(keys).push(rank_of(k)),
{
    assert(ranks_of(keys.push(k)) =~= ranks_of(keys).push(rank_of(k)));
}

/// Swapping the arguments flips the sign of the comparison.
pub proof fn lemma_rank_compare_flip(a: (int, int, Seq<char>), b: (int, int, Seq<char>))
    ensures
        rank_compare(a, b) == -rank_compare(b, a),
        -1 <= rank_compare(a, b) <= 1,
{
    lemma_lex_compare_basics(a.2, b.2);
}

/// Comparison is transitive: `a <= b <= c` gives `a <= c`, strictly when
/// either step is strict.
pub proof fn lemma_rank_compare_transitive(a: (int, int, Seq<char>), b: (int, int, Seq<char>), c: (int, int, Seq<char>))
    requires
        rank_compare(a, b) <= 0,
        rank_compare(b, c) <= 0,
    ensures
        rank_compare(a, c) <= 0,
        (rank_compare(a, b) < 0 || rank_compare(b, c) < 0) ==> rank_compare(a, c) < 0,
{
    lemma_lex_compare_basics(a.2, b.2);
    lemma_lex_compare_basics(b.2, c.2);
    lemma_lex_compare_basics(a.2, c.2);
    if a.0 == b.0 && b.0 == c.0 && a.1 == b.1 && b.1 == c.1 {
        if lex_compare(a.2, b.2) < 0 && lex_compare(b.2, c.2) < 0 {
            lemma_lex_lt_transitive(a.2, b.2, c.2);
        }
    }
}

/// Three-way comparison of two ranking keys.
pub fn compare_rank(a: &RankKey, b: &RankKey) -> (r: i8)
    ensures
        r as int == rank_compare(rank_of(*a), rank_of(*b)),
{
    if a.major < b.major {
        -1
    } else if a.major > b.major {
        1
    } else if a.minor < b.minor {
        -1
    } else if a.minor > b.minor {
        1
    } else {
        compare_text(a.name.as_str(), b.name.as_str())
    }
}

/// The positions of `keys` in stable sorted order (insertion sort).
pub fn stable_order(keys: &Vec<RankKey>) -> (order: Vec<usize>)
    ensures
        is_stable_order(ranks_of(keys@), order@),
{
    let ghost rs = ranks_of(keys@);
    let n = keys.len();
    let mut order: Vec<usize> = Vec::new();
    let mut i: usize = 0;
    while i < n
        invariant
            n == keys.len(),
            rs == ranks_of(keys@),
            i <= n,
            order.len() == i,
            forall|k: int| 0 <= k < order.len() ==> #[trigger] order@[k] < i,
            forall|k1: int, k2: int|
                0 <= k1 < k2 < order.len() ==> ranks_before(rs, #[trigger] order@[k1] as int, #[trigger] order@[k2] as int),
        decreases n - i,
    {
        let mut j: usize = 0;
        while j < order.len() && compare_rank(&keys[i], &keys[order[j]]) >= 0
            invariant
                n == keys.len(),
                rs == ranks_of(keys@),
                i < n,
                j <= order.len(),
                forall|k: int| 0 <= k < order.len() ==> #[trigger] order@[k] < i,
                forall|k: int| 0 <= k < j ==> rank_compare(rs[i as int], rs[#[trigger] order@[k] as int]) >= 0,
            decreases order.len() - j,
        {
            j = j + 1;
        }
        let ghost old_order = order@;
        proof {
            assert forall|k: int| 0 <= k < j implies ranks_before(rs, #[trigger] old_order[k] as int, i as int) by {
                lemma_rank_compare_flip(rs[i as int], rs[old_order[k] as int]);
            }
            if j < old_order.len() {
                assert(rank_compare(rs[i as int], rs[old_order[j as int] as int]) < 0);
                assert forall|k: int| j <= k < old_order.len() implies ranks_before(rs, i as int, #[trigger] old_order[k] as int) by {
                    if k > j {
                        assert(ranks_before(rs, old_order[j as int] as int, old_order[k] as int));
                        lemma_rank_compare_transitive(rs[i as int], rs[old_order[j as int] as int], rs[old_order[k] as int]);
                    }
                }
            }
        }
        order.insert(j, i);
        proof {
            assert forall|k1: int, k2: int|
                0 <= k1 < k2 < order.len() implies ranks_before(rs, #[trigger] order@[k1] as int, #[trigger] order@[k2] as int) by {
                if k1 < j && k2 < j {
                    assert(order@[k1] == old_order[k1] && order@[k2] == old_order[k2]);
                } else if k1 < j && k2 == j {
                    assert(order@[k2] == i);
                } else if k1 < j {
                    assert(order@[k1] == old_order[k1] && order@[k2] == old_order[k2 - 1]);
                } else if k1 == j {
                    assert(order@[k1] == i && order@[k2] == old_order[k2 - 1]);
                } else {
                    assert(order@[k1] == old_order[k1 - 1] && order@[k2] == old_order[k2 - 1]);
                }
            }
            assert forall|k: int| 0 <= k < order.len() implies #[trigger] order@[k] < i + 1 by {
                if k < j {
                    assert(order@[k] == old_order[k]);
                } else if k > j {
                    assert(order@[k] == old_order[k - 1]);
                }
            }
        }
        i = i + 1;
    }
    order
}

/// `v` is in strictly increasing lexicographic order (so no text repeats).
pub open spec fn strictly_sorted(v: Seq<String>) -> bool {
    forall|a: int, b: int| 0 <= a < b < v.len() ==> lex_lt(#[trigger] v[a]@, #[trigger] v[b]@)
}

/// Some entry of `v` reads `t`.
pub open spec fn listed(v: Seq<String>, t: Seq<char>) -> bool {
    exists|k: int| 0 <= k < v.len() && #[trigger] v[k]@ == t
}

/// Whether some entry of `ids` reads `id`.
pub fn text_listed(ids: &[String], id: &str) -> (b: bool)
    ensures
        b == listed(ids@, id@),
{
    let mut k: usize = 0;
    while k < ids.len()
        invariant
            k <= ids.len(),
            forall|m: int| 0 <= m < k ==> #[trigger] ids@[m]@ != id@,
        decreases ids.len() - k,
    {
        if same_text(ids[k].as_str(), id) {
            return true;
        }
        k = k + 1;
    }
    false
}

/// Adds `g` to a sorted list of distinct texts, keeping it sorted and
/// distinct (nothing changes when `g` is already there). Returns the
/// position of `g`.
pub fn insert_sorted_unique(v: &mut Vec<String>, g: String) -> (pos: usize)
    requires
        strictly_sorted(old(v)@),
    ensures
        strictly_sorted(final(v)@),
        pos < final(v).len(),
        final(v)@[pos as int]@ == g@,
        forall|t: Seq<char>| #[trigger] listed(final(v)@, t) <==> (listed(old(v)@, t) || t == g@),
        final(v).len() <= old(v).len() + 1,
{
    let mut j: usize = 0;
    while j < v.len() && compare_text(v[j].as_str(), g.as_str()) < 0
        invariant
            j <= v.len(),
            forall|k: int| 0 <= k < j ==> lex_lt(#[trigger] v@[k]@, g@),
        decreases v.len() - j,
    {
        j = j + 1;
    }
    let ghost old_v = v@;
    if j < v.len() && same_text(v[j].as_str(), g.as_str()) {
        assert forall|t: Seq<char>| #[trigger] listed(v@, t) <==> (listed(old_v, t) || t == g@) by {
            if t == g@ {
                assert(v@[j as int]@ == t);
            }
        }
        return j;
    }
    proof {
        if j < old_v.len() {
            lemma_lex_compare_basics(old_v[j as int]@, g@);
            assert(lex_lt(g@, old_v[j as int]@));
        }
    }
    let ghost gv = g@;
    v.insert(j, g);
    proof {
        assert forall|a: int, b: int| 0 <= a < b < v.len() implies lex_lt(#[trigger] v@[a]@, #[trigger] v@[b]@) by {
            if a < j && b < j {
                assert(v@[a] == old_v[a] && v@[b] == old_v[b]);
            } else if a < j && b == j {
                assert(v@[a] == old_v[a]);
            } else if a < j {
                assert(v@[a] == old_v[a] && v@[b] == old_v[b - 1]);
                assert(lex_lt(old_v[a]@, old_v[j as int]@));
                if j < b - 1 {
                    lemma_lex_lt_transitive(old_v[a]@, old_v[j as int]@, old_v[b - 1]@);
                }
            } else if a == j {
                assert(v@[b] == old_v[b - 1]);
                if b - 1 > j {
                    lemma_lex_lt_transitive(gv, old_v[j as int]@, old_v[b - 1]@);
                }
            } else {
                assert(v@[a] == old_v[a - 1] && v@[b] == old_v[b - 1]);
            }
        }
        assert forall|t: Seq<char>| #[trigger] listed(v@, t) <==> (listed(old_v, t) || t == gv) by {
            if listed(v@, t) {
                let k = choose|k: int| 0 <= k < v.len() && #[trigger] v@[k]@ == t;
                if k < j {
                    assert(old_v[k] == v@[k]);
                } else if k > j {
                    assert(old_v[k - 1] == v@[k]);
                }
            }
            if listed(old_v, t) {
                let k = choose|k: int| 0 <= k < old_v.len() && #[trigger] old_v[k]@ == t;
                if k < j {
                    assert(v@[k] == old_v[k]);
                } else {
                    assert(v@[k + 1] == old_v[k]);
                }
            }
            if t == gv {
                assert(v@[j as int]@ == t);
            }
        }
    }
    j
}

/// Some entry of `order` is `p`.
pub open spec fn names_row(order: Seq<usize>, p: int) -> bool {
    exists|k: int| 0 <= k < order.len() && order[k] == p
}

/// A stable order is a permutation: it names every row exactly once, so
/// sorting neither drops nor repeats a row.
pub proof fn lemma_stable_order_permutation(keys: Seq<(int, int, Seq<char>)>, order: Seq<usize>)
    requires
        is_stable_order(keys, order),
    ensures
        forall|k1: int, k2: int| 0 <= k1 < k2 < order.len() ==> #[trigger] order[k1] != #[trigger] order[k2],
        forall|p: int| 0 <= p < keys.len() ==> #[trigger] names_row(order, p),
{
    assert forall|k1: int, k2: int| 0 <= k1 < k2 < order.len() implies #[trigger] order[k1] != #[trigger] order[k2] by {
        assert(ranks_before(keys, order[k1] as int, order[k2] as int));
        if order[k1] == order[k2] {
            let x = keys[order[k1] as int];
            lemma_lex_compare_basics(x.2, x.2);
            assert(rank_compare(x, x) == 0);
        }
    }
    let n = order.len() as int;
    let s = order.map_values(|v: usize| v as int);
    assert(s.no_duplicates()) by {
        assert forall|i: int, j: int| 0 <= i < s.len() && 0 <= j < s.len() && i != j implies #[trigger] s[i] != #[trigger] s[j] by {
            if i < j {
                assert(order[i] != order[j]);
            } else {
                assert(order[j] != order[i]);
            }
        }
    }
    s.unique_seq_to_set();
    vstd::set_lib::lemma_int_range(0, n);
    let r = vstd::set_lib::set_int_range(0, n);
    assert(s.to_set().subset_of(r)) by {
        assert forall|x: int| s.to_set().contains(x) implies r.contains(x) by {
            assert(s.contains(x));
            let k = choose|k: int| 0 <= k < s.len() && s[k] == x;
            assert(order[k] < keys.len());
        }
    }
    vstd::seq_lib::seq_to_set_is_finite(s);
    vstd::set_lib::lemma_subset_equality(s.to_set(), r);
    assert forall|p: int| 0 <= p < keys.len() implies #[trigger] names_row(order, p) by {
        assert(r.contains(p));
        assert(s.to_set().contains(p));
        assert(s.contains(p));
        let k = choose|k: int| 0 <= k < s.len() && s[k] == p;
        assert(order[k] == p);
    }
}

/// A sorted list without repeats is fixed by what it lists: two such lists
/// that list the same texts hold them at the same positions.
pub proof fn lemma_sorted_lists_agree(a: Seq<String>, b: Seq<String>)
    requires
        strictly_sorted(a),
        strictly_sorted(b),
        forall|t: Seq<char>| #![trigger listed(a, t)] #![trigger listed(b, t)] listed(a, t) <==> listed(b, t),
    ensures
        a.len() == b.len(),
        forall|k: int| 0 <= k < a.len() ==> #[trigger] a[k]@ == b[k]@,
    decreases a.len(),
{
    if a.len() == 0 {
        if b.len() > 0 {
            assert(listed(b, b[0]@));
        }
    } else {
        assert(listed(a, a[0]@));
        let kb = choose|k: int| 0 <= k < b.len() && #[trigger] b[k]@ == a[0]@;
        assert(listed(b, b[0]@));
        let ka = choose|k: int| 0 <= k < a.len() && #[trigger] a[k]@ == b[0]@;
        lemma_lex_compare_basics(b[0]@, b[0]@);
        if kb > 0 {
            assert(lex_lt(b[0]@, a[0]@));
            if ka > 0 {
                assert(lex_lt(a[0]@, b[0]@));
                lemma_lex_lt_transitive(b[0]@, a[0]@, b[0]@);
            }
        }
        assert(a[0]@ == b[0]@);
        let a2 = a.drop_first();
        let b2 = b.drop_first();
        assert(strictly_sorted(a2)) by {
            assert forall|x: int, y: int| 0 <= x < y < a2.len() implies lex_lt(#[trigger] a2[x]@, #[trigger] a2[y]@) by {
                assert(a2[x] == a[x + 1] && a2[y] == a[y + 1]);
            }
        }
        assert(strictly_sorted(b2)) by {
            assert forall|x: int, y: int| 0 <= x < y < b2.len() implies lex_lt(#[trigger] b2[x]@, #[trigger] b2[y]@) by {
                assert(b2[x] == b[x + 1] && b2[y] == b[y + 1]);
            }
        }
        assert forall|t: Seq<char>| #![trigger listed(a2, t)] #![trigger listed(b2, t)] listed(a2, t) <==> listed(b2, t) by {
            if listed(a2, t) {
                let j = choose|j: int| 0 <= j < a2.len() && #[trigger] a2[j]@ == t;
                assert(a[j + 1]@ == t);
                assert(lex_lt(a[0]@, a[j + 1]@));
                lemma_lex_compare_basics(a[0]@, t);
                assert(listed(a, t));
                let k = choose|k: int| 0 <= k < b.len() && #[trigger] b[k]@ == t;
                assert(k != 0);
                assert(b2[k - 1]@ == t);
            }
            if listed(b2, t) {
                let j = choose|j: int| 0 <= j < b2.len() && #[trigger] b2[j]@ == t;
                assert(b[j + 1]@ == t);
                assert(lex_lt(b[0]@, b[j + 1]@));
                lemma_lex_compare_basics(b[0]@, t);
                assert(listed(b, t));
                let k = choose|k: int| 0 <= k < a.len() && #[trigger] a[k]@ == t;
                assert(k != 0);
                assert(a2[k - 1]@ == t);
            }
        }
        lemma_sorted_lists_agree(a2, b2);
        assert forall|k: int| 0 <= k < a.len() implies #[trigger] a[k]@ == b[k]@ by {
            if k > 0 {
                assert(a2[k - 1]@ == b2[k - 1]@);
            }
        }
    }
}

} // verus!
