//! Text building blocks: decimal rendering of integers, digit grouping,
//! ASCII capitalisation and the lexicographic order of strings, each stated
//! over `Seq<char>`.

use vstd::prelude::*;
use vstd::std_specs::iter::IteratorSpec;

verus! {

/// The character of a decimal digit.
pub open spec fn digit_char(d: nat) -> char {
    (d + 48) as char
}

/// Decimal digits of a natural number, most significant first, no leading zeros.
pub open spec fn nat_text(n: nat) -> Seq<char>
    decreases n,
{
    if n < 10 {
        seq![digit_char(n)]
    } else {
        nat_text(n / 10).push(digit_char(n % 10))
    }
}

/// Decimal text of an integer, with a leading '-' when negative (as `to_string` writes it).
pub open spec fn int_text(i: int) -> Seq<char> {
    if i < 0 {
        seq!['-'] + nat_text((-i) as nat)
    } else {
        nat_text(i as nat)
    }
}

/// `t` with a ',' inserted after every third character counted from the right,
/// wherever more characters remain on the left.
pub open spec fn group_thousands(t: Seq<char>) -> Seq<char>
    decreases t.len(),
{
    if t.len() <= 3 {
        t
    } else {
        group_thousands(t.take(t.len() - 3)) + seq![','] + t.skip(t.len() - 3)
    }
}

/// The digits of `|n|` grouped by thousands, after a '-' when `n` is negative.
pub open spec fn grouped_number(n: int) -> Seq<char> {
    if n < 0 {
        seq!['-'] + group_thousands(nat_text((-n) as nat))
    } else {
        group_thousands(nat_text(n as nat))
    }
}

/// `t` with every ',' taken out.
pub open spec fn without_commas(t: Seq<char>) -> Seq<char>
    decreases t.len(),
{
    if t.len() == 0 {
        t
    } else if t.last() == ',' {
        without_commas(t.drop_last())
    } else {
        without_commas(t.drop_last()).push(t.last())
    }
}

/// How many times ',' occurs in `t`.
pub open spec fn comma_count(t: Seq<char>) -> nat
    decreases t.len(),
{
    if t.len() == 0 {
        0
    } else {
        comma_count(t.drop_last()) + (if t.last() == ',' { 1nat } else { 0nat })
    }
}

/// A stat bonus with its sign: '+' in front of a positive bonus.
pub open spec fn stat_bonus_text(v: int) -> Seq<char> {
    if v > 0 {
        seq!['+'] + int_text(v)
    } else {
        int_text(v)
    }
}

/// ASCII upper case of one character; other characters are unchanged.
pub open spec fn ascii_upper(c: char) -> char {
    if 'a' <= c && c <= 'z' {
        ((c as u32) - 32) as char
    } else {
        c
    }
}

/// `t` with its first character in ASCII upper case.
pub open spec fn capitalized(t: Seq<char>) -> Seq<char> {
    if t.len() == 0 {
        t
    } else {
        seq![ascii_upper(t[0])] + t.drop_first()
    }
}

/// Three-way lexicographic comparison by code point, as `str`'s `Ord` orders
/// strings: -1, 0 or 1.
pub open spec fn lex_compare(a: Seq<char>, b: Seq<char>) -> int
    decreases a.len(),
{
    if a.len() == 0 {
        if b.len() == 0 { 0 } else { -1 }
    } else if b.len() == 0 {
        1
    } else if a[0] < b[0] {
        -1
    } else if a[0] > b[0] {
        1
    } else {
        lex_compare(a.drop_first(), b.drop_first())
    }
}

/// `a` comes strictly before `b` in the lexicographic order.
pub open spec fn lex_lt(a: Seq<char>, b: Seq<char>) -> bool {
    lex_compare(a, b) < 0
}

/// The comparison is zero exactly on equal strings, and flips sign when the
/// arguments swap.
pub proof fn lemma_lex_compare_basics(a: Seq<char>, b: Seq<char>)
    ensures
        (lex_compare(a, b) == 0) == (a == b),
        lex_compare(a, b) == -lex_compare(b, a),
        -1 <= lex_compare(a, b) <= 1,
    decreases a.len(),
{
    if a.len() == 0 || b.len() == 0 {
        if a.len() == 0 && b.len() == 0 {
            assert(a =~= b);
        }
    } else if a[0] == b[0] {
        lemma_lex_compare_basics(a.drop_first(), b.drop_first());
        assert(a =~= seq![a[0]] + a.drop_first());
        assert(b =~= seq![b[0]] + b.drop_first());
        if a == b {
            assert(a.drop_first() =~= b.drop_first());
        }
    } else {
        assert(a != b);
    }
}

/// The lexicographic order is transitive.
pub proof fn lemma_lex_lt_transitive(a: Seq<char>, b: Seq<char>, c: Seq<char>)
    requires
        lex_lt(a, b),
        lex_lt(b, c),
    ensures
        lex_lt(a, c),
    decreases a.len(),
{
    if a.len() > 0 && b.len() > 0 && c.len() > 0 {
        if a[0] == b[0] && b[0] == c[0] {
            lemma_lex_lt_transitive(a.drop_first(), b.drop_first(), c.drop_first());
        }
    }
}

/// Appends one character to a `String` (`String::push`).
#[verifier::external_body]
pub(crate) fn push_char(s: &mut String, c: char)
    ensures
        final(s)@ == old(s)@.push(c),
{
    s.push(c);
}

/// The character of the digit `d`.
pub fn digit(d: u64) -> (c: char)
    requires
        d < 10,
    ensures
        c == digit_char(d as nat),
{
    ((d as u8) + 48u8) as char
}

/// Appends every character of `t`.
pub fn push_str(s: &mut String, t: &str)
    ensures
        final(s)@ == old(s)@ + t@,
{
    let ghost start = s@;
    for c in it: t.chars()
        invariant
            it.seq() == t@,
            s@ == start + t@.take(it.index() as int),
    {
        push_char(s, c);
        assert(t@.take(it.index() + 1) =~= t@.take(it.index() as int).push(c));
    }
    assert(t@.take(t@.len() as int) =~= t@);
}

/// The characters of `t`.
pub fn chars_of(t: &str) -> (v: Vec<char>)
    ensures
        v@ == t@,
{
    let mut v: Vec<char> = Vec::new();
    for c in it: t.chars()
        invariant
            it.seq() == t@,
            v@ == t@.take(it.index() as int),
    {
        v.push(c);
        assert(t@.take(it.index() + 1) =~= t@.take(it.index() as int).push(c));
    }
    assert(t@.take(t@.len() as int) =~= t@);
    v
}

/// A `String` holding the characters of `v` from `lo` up to `hi`.
pub fn string_of_range(v: &Vec<char>, lo: usize, hi: usize) -> (s: String)
    requires
        lo <= hi <= v.len(),
    ensures
        s@ == v@.subrange(lo as int, hi as int),
{
    let mut s = String::new();
    let mut i = lo;
    while i < hi
        invariant
            lo <= i <= hi <= v.len(),
            s@ == v@.subrange(lo as int, i as int),
        decreases hi - i,
    {
        push_char(&mut s, v[i]);
        assert(s@ =~= v@.subrange(lo as int, i + 1));
        i = i + 1;
    }
    s
}

/// Appends the decimal text of `n`.
pub fn push_u64(s: &mut String, n: u64)
    ensures
        final(s)@ == old(s)@ + nat_text(n as nat),
    decreases n,
{
    if n >= 10 {
        push_u64(s, n / 10);
        push_char(s, digit(n % 10));
        assert(old(s)@ + nat_text(n as nat) =~= (old(s)@ + nat_text((n / 10) as nat)).push(
            digit_char((n % 10) as nat),
        ));
    } else {
        push_char(s, digit(n));
        assert(old(s)@ + nat_text(n as nat) =~= old(s)@.push(digit_char(n as nat)));
    }
}

/// Appends the decimal text of `n`, with '-' in front when negative.
pub fn push_i64(s: &mut String, n: i64)
    ensures
        final(s)@ == old(s)@ + int_text(n as int),
{
    if n < 0 {
        push_char(s, '-');
        let m: i128 = -(n as i128);
        push_u64(s, m as u64);
        assert(old(s)@ + int_text(n as int) =~= old(s)@.push('-') + nat_text(m as nat));
    } else {
        push_u64(s, n as u64);
    }
}

/// The decimal text of `n` (`n.to_string()`).
pub fn int_to_string(n: i64) -> (s: String)
    ensures
        s@ == int_text(n as int),
{
    let mut s = String::new();
    push_i64(&mut s, n);
    assert(s@ =~= int_text(n as int));
    s
}

/// Appends `group_thousands` of `t[..end]`.
fn push_grouped(s: &mut String, t: &Vec<char>, end: usize)
    requires
        end <= t.len(),
    ensures
        final(s)@ == old(s)@ + group_thousands(t@.take(end as int)),
    decreases end,
{
    let ghost p = t@.take(end as int);
    if end <= 3 {
        let piece = string_of_range(t, 0, end);
        push_str(s, piece.as_str());
        assert(t@.subrange(0, end as int) =~= p);
    } else {
        push_grouped(s, t, end - 3);
        push_char(s, ',');
        let piece = string_of_range(t, end - 3, end);
        push_str(s, piece.as_str());
        assert(p.take(p.len() - 3) =~= t@.take(end - 3));
        assert(p.skip(p.len() - 3) =~= t@.subrange(end - 3, end as int));
        assert(old(s)@ + group_thousands(p) =~= old(s)@ + group_thousands(t@.take(end - 3)) + seq![','] + t@.subrange(end - 3, end as int));
    }
}

/// A number with ',' between groups of three digits, counted from the right
/// ("1,234,567", "-1,234"); a '-' stands in front of the grouped digits of a
/// negative number.
pub fn format_number(n: i64) -> (s: String)
    ensures
        s@ == grouped_number(n as int),
{
    let mut s = String::new();
    let m: u64 = if n < 0 {
        push_char(&mut s, '-');
        let w: i128 = -(n as i128);
        w as u64
    } else {
        n as u64
    };
    let mut raw = String::new();
    push_u64(&mut raw, m);
    let t = chars_of(raw.as_str());
    push_grouped(&mut s, &t, t.len());
    assert(t@.take(t.len() as int) =~= t@);
    assert(s@ =~= grouped_number(n as int));
    s
}

/// An equipment stat bonus with its sign: "+5", "0", "-22".
pub fn format_stat_bonus(v: i32) -> (s: String)
    ensures
        s@ == stat_bonus_text(v as int),
{
    let mut s = String::new();
    if v > 0 {
        push_char(&mut s, '+');
    }
    push_i64(&mut s, v as i64);
    assert(s@ =~= stat_bonus_text(v as int));
    s
}

/// ASCII upper case of one character.
pub fn to_ascii_upper(c: char) -> (r: char)
    ensures
        r == ascii_upper(c),
{
    if 'a' <= c && c <= 'z' {
        (((c as u32) - 32) as u8) as char
    } else {
        c
    }
}

/// `t` with its first character in ASCII upper case ("supplies" -> "Supplies").
pub fn capitalize(t: &str) -> (s: String)
    ensures
        s@ == capitalized(t@),
{
    let v = chars_of(t);
    let mut s = String::new();
    if v.len() == 0 {
        assert(s@ =~= capitalized(t@));
        return s;
    }
    push_char(&mut s, to_ascii_upper(v[0]));
    let rest = string_of_range(&v, 1, v.len());
    push_str(&mut s, rest.as_str());
    assert(v@.subrange(1, v.len() as int) =~= v@.drop_first());
    assert(s@ =~= capitalized(t@));
    s
}

/// Three-way lexicographic comparison of `a[i..]` and `b[j..]`.
fn lex_compare_from(a: &Vec<char>, b: &Vec<char>, i: usize, j: usize) -> (r: i8)
    requires
        i <= a.len(),
        j <= b.len(),
    ensures
        r as int == lex_compare(a@.skip(i as int), b@.skip(j as int)),
    decreases a.len() - i,
{
    let ghost sa = a@.skip(i as int);
    let ghost sb = b@.skip(j as int);
    if i == a.len() {
        if j == b.len() { 0 } else { -1 }
    } else if j == b.len() {
        1
    } else {
        assert(sa[0] == a@[i as int]);
        assert(sb[0] == b@[j as int]);
        if a[i] < b[j] {
            -1
        } else if a[i] > b[j] {
            1
        } else {
            assert(sa.drop_first() =~= a@.skip(i + 1));
            assert(sb.drop_first() =~= b@.skip(j + 1));
            lex_compare_from(a, b, i + 1, j + 1)
        }
    }
}

/// Three-way lexicographic comparison of two strings (-1, 0 or 1).
pub fn compare_text(a: &str, b: &str) -> (r: i8)
    ensures
        r as int == lex_compare(a@, b@),
{
    let va = chars_of(a);
    let vb = chars_of(b);
    assert(va@.skip(0) =~= va@);
    assert(vb@.skip(0) =~= vb@);
    lex_compare_from(&va, &vb, 0, 0)
}

/// Whether two strings are equal.
pub fn same_text(a: &str, b: &str) -> (r: bool)
    ensures
        r == (a@ == b@),
{
    proof {
        lemma_lex_compare_basics(a@, b@);
    }
    compare_text(a, b) == 0
}

/// `t` occurs in `s` starting at position `i`.
pub open spec fn occurs_at(s: Seq<char>, t: Seq<char>, i: int) -> bool {
    0 <= i && i + t.len() <= s.len() && s.subrange(i, i + t.len()) == t
}

/// `t` occurs somewhere in `s` (`str::contains` with a string pattern).
pub open spec fn has_substring(s: Seq<char>, t: Seq<char>) -> bool {
    exists|i: int| occurs_at(s, t, i)
}

/// Whether `v[i..]` starts with `w`.
fn matches_at(v: &Vec<char>, w: &Vec<char>, i: usize) -> (b: bool)
    requires
        i + w.len() <= v.len(),
    ensures
        b == occurs_at(v@, w@, i as int),
{
    let mut j: usize = 0;
    while j < w.len()
        invariant
            i + w.len() <= v.len(),
            j <= w.len(),
            forall|k: int| 0 <= k < j ==> v@[i + k] == w@[k],
        decreases w.len() - j,
    {
        if v[i + j] != w[j] {
            assert(v@.subrange(i as int, i + w.len())[j as int] != w@[j as int]);
            return false;
        }
        j = j + 1;
    }
    assert(v@.subrange(i as int, i + w.len()) =~= w@);
    true
}

/// Whether `needle` occurs in `hay`.
pub fn text_contains(hay: &str, needle: &str) -> (b: bool)
    ensures
        b == has_substring(hay@, needle@),
{
    let v = chars_of(hay);
    let w = chars_of(needle);
    if w.len() > v.len() {
        assert forall|i: int| !occurs_at(v@, w@, i) by {}
        return false;
    }
    let last = v.len() - w.len();
    let mut i: usize = 0;
    while i <= last
        invariant
            v@ == hay@,
            w@ == needle@,
            last + w.len() == v.len(),
            forall|k: int| 0 <= k < i ==> !occurs_at(v@, w@, k),
        decreases last + 1 - i,
    {
        if matches_at(&v, &w, i) {
            return true;
        }
        if i == last {
            assert forall|k: int| !occurs_at(v@, w@, k) by {}
            return false;
        }
        i = i + 1;
    }
    false
}

/// Decimal text starts with a digit and is never empty.
pub proof fn lemma_nat_text_starts_with_digit(n: nat)
    ensures
        nat_text(n).len() > 0,
        '0' <= nat_text(n)[0] <= '9',
    decreases n,
{
    if n >= 10 {
        lemma_nat_text_starts_with_digit(n / 10);
    }
}

/// A formatted stat bonus carries exactly one sign: '+' in front of a
/// positive bonus, '-' in front of a negative one, none for zero; so it
/// never reads "+-".
pub proof fn lemma_stat_bonus_sign(v: int)
    ensures
        ({
            let t = stat_bonus_text(v);
            &&& (t[0] == '+') == (v > 0)
            &&& (t[0] == '-') == (v < 0)
            &&& t.len() > 1 ==> t[1] != '-' && t[1] != '+'
        }),
{
    if v < 0 {
        lemma_nat_text_starts_with_digit((-v) as nat);
        assert((seq!['-'] + nat_text((-v) as nat))[1] == nat_text((-v) as nat)[0]);
    } else {
        lemma_nat_text_starts_with_digit(v as nat);
        if v > 0 {
            assert((seq!['+'] + nat_text(v as nat))[1] == nat_text(v as nat)[0]);
        }
        if nat_text(v as nat).len() > 1 {
            lemma_nat_text_digits(v as nat);
        }
    }
}

/// Every character of a decimal text is a digit.
pub proof fn lemma_nat_text_digits(n: nat)
    ensures
        forall|i: int| 0 <= i < nat_text(n).len() ==> '0' <= #[trigger] nat_text(n)[i] <= '9',
    decreases n,
{
    if n >= 10 {
        lemma_nat_text_digits(n / 10);
        let t = nat_text(n / 10);
        assert forall|i: int| 0 <= i < nat_text(n).len() implies '0' <= #[trigger] nat_text(n)[i] <= '9' by {
            if i < t.len() {
                assert(nat_text(n)[i] == t[i]);
            }
        }
    }
}

/// No character of `t` is a ','.
pub open spec fn comma_free(t: Seq<char>) -> bool {
    forall|i: int| 0 <= i < t.len() ==> #[trigger] t[i] != ','
}

/// Taking the commas out, and counting them, split over a concatenation.
pub proof fn lemma_commas_concat(a: Seq<char>, b: Seq<char>)
    ensures
        without_commas(a + b) == without_commas(a) + without_commas(b),
        comma_count(a + b) == comma_count(a) + comma_count(b),
    decreases b.len(),
{
    if b.len() == 0 {
        assert(a + b =~= a);
        assert(without_commas(a) + without_commas(b) =~= without_commas(a));
    } else {
        lemma_commas_concat(a, b.drop_last());
        assert((a + b).drop_last() =~= a + b.drop_last());
        assert((a + b).last() == b.last());
        if b.last() != ',' {
            assert(without_commas(a) + without_commas(b) =~= (without_commas(a) + without_commas(
                b.drop_last(),
            )).push(b.last()));
        }
    }
}

/// A comma-free text keeps every character when the commas are taken out.
pub proof fn lemma_comma_free_text(t: Seq<char>)
    requires
        comma_free(t),
    ensures
        without_commas(t) == t,
        comma_count(t) == 0,
    decreases t.len(),
{
    if t.len() > 0 {
        assert(comma_free(t.drop_last())) by {
            assert forall|i: int| 0 <= i < t.drop_last().len() implies #[trigger] t.drop_last()[i] != ',' by {
                assert(t.drop_last()[i] == t[i]);
            }
        }
        lemma_comma_free_text(t.drop_last());
        assert(t[t.len() - 1] != ',');
        assert(t.drop_last().push(t.last()) =~= t);
    }
}

/// The pieces of a comma-free text that `group_thousands` splits off are comma-free.
proof fn lemma_comma_free_split(t: Seq<char>, k: int)
    requires
        comma_free(t),
        0 <= k <= t.len(),
    ensures
        comma_free(t.take(k)),
        comma_free(t.skip(k)),
{
    assert forall|i: int| 0 <= i < t.take(k).len() implies #[trigger] t.take(k)[i] != ',' by {
        assert(t.take(k)[i] == t[i]);
    }
    assert forall|i: int| 0 <= i < t.skip(k).len() implies #[trigger] t.skip(k)[i] != ',' by {
        assert(t.skip(k)[i] == t[i + k]);
    }
}

/// Where the commas of `group_thousands(t)` stand, and how long it is.
proof fn lemma_group_thousands_positions(t: Seq<char>)
    requires
        t.len() >= 1,
        comma_free(t),
    ensures
        group_thousands(t).len() == t.len() + (t.len() - 1) / 3,
        group_thousands(t).len() % 4 != 0,
        forall|i: int|
            0 <= i < group_thousands(t).len() ==> ((#[trigger] group_thousands(t)[i] == ',') == ((
            group_thousands(t).len() - i) % 4 == 0)),
    decreases t.len(),
{
    let g = group_thousands(t);
    if t.len() <= 3 {
        assert forall|i: int| 0 <= i < g.len() implies ((#[trigger] g[i] == ',') == ((g.len() - i) % 4
            == 0)) by {
            assert(t[i] != ',');
        }
    } else {
        let len = t.len();
        let p = t.take(len - 3);
        let q = t.skip(len - 3);
        lemma_comma_free_split(t, len - 3);
        lemma_group_thousands_positions(p);
        let gp = group_thousands(p);
        assert(g == gp + seq![','] + q);
        let r = gp.len();
        assert forall|i: int| 0 <= i < g.len() implies ((#[trigger] g[i] == ',') == ((g.len() - i) % 4
            == 0)) by {
            if i < r {
                assert(g[i] == gp[i]);
                assert(gp[i] == ',' <==> (r - i) % 4 == 0);
                assert((g.len() - i) % 4 == (r - i) % 4);
            } else if i == r {
                assert(g[i] == ',');
            } else {
                assert(g[i] == q[i - r - 1]);
                assert(q[i - r - 1] != ',');
            }
        }
    }
}

/// Taking the commas out of `group_thousands(t)` gives `t` back, and
/// `(len - 1) / 3` of them were there.
proof fn lemma_group_thousands_commas(t: Seq<char>)
    requires
        t.len() >= 1,
        comma_free(t),
    ensures
        without_commas(group_thousands(t)) == t,
        comma_count(group_thousands(t)) == (t.len() - 1) / 3,
    decreases t.len(),
{
    if t.len() <= 3 {
        lemma_comma_free_text(t);
    } else {
        let len = t.len();
        let p = t.take(len - 3);
        let q = t.skip(len - 3);
        lemma_comma_free_split(t, len - 3);
        lemma_group_thousands_commas(p);
        lemma_comma_free_text(q);
        let gp = group_thousands(p);
        let comma: Seq<char> = seq![','];
        assert(group_thousands(t) == gp + comma + q);
        assert(comma.drop_last() =~= Seq::<char>::empty());
        assert(comma.last() == ',');
        assert(without_commas(comma.drop_last()) =~= Seq::<char>::empty());
        assert(comma_count(comma.drop_last()) == 0);
        assert(without_commas(comma) =~= Seq::<char>::empty());
        assert(comma_count(comma) == 1);
        lemma_commas_concat(gp, comma);
        lemma_commas_concat(gp + comma, q);
        assert(p + q =~= t);
        assert(without_commas(gp) + without_commas(comma) =~= p);
    }
}

/// Grouping a non-empty comma-free text by thousands: the commas stand exactly
/// at the positions a multiple of four from the end, so the first group holds
/// one to three characters and every later group three; there are
/// `(len - 1) / 3` commas, and taking them out gives the text back.
pub proof fn lemma_group_thousands_shape(t: Seq<char>)
    requires
        t.len() >= 1,
        comma_free(t),
    ensures
        group_thousands(t).len() == t.len() + (t.len() - 1) / 3,
        group_thousands(t).len() % 4 != 0,
        forall|i: int|
            0 <= i < group_thousands(t).len() ==> ((#[trigger] group_thousands(t)[i] == ',') == ((
            group_thousands(t).len() - i) % 4 == 0)),
        without_commas(group_thousands(t)) == t,
        comma_count(group_thousands(t)) == (t.len() - 1) / 3,
{
    lemma_group_thousands_positions(t);
    lemma_group_thousands_commas(t);
}

/// What `format_number` writes: for a negative number a '-' in front of the
/// grouped digits of its magnitude; for any other number its decimal digits
/// grouped as `lemma_group_thousands_shape` describes, so that taking out the
/// commas reads back `n.to_string()` and `(digits - 1) / 3` commas stand in it.
pub proof fn lemma_grouped_number(n: int)
    ensures
        n < 0 ==> grouped_number(n) == seq!['-'] + grouped_number(-n),
        n >= 0 ==> ({
            let g = grouped_number(n);
            let t = nat_text(n as nat);
            &&& without_commas(g) == t
            &&& comma_count(g) == (t.len() - 1) / 3
            &&& g.len() == t.len() + (t.len() - 1) / 3
            &&& g.len() % 4 != 0
            &&& forall|i: int| 0 <= i < g.len() ==> ((#[trigger] g[i] == ',') == ((g.len() - i) % 4 == 0))
        }),
{
    let m: nat = if n < 0 { (-n) as nat } else { n as nat };
    lemma_nat_text_starts_with_digit(m);
    lemma_nat_text_digits(m);
    let t = nat_text(m);
    assert(comma_free(t)) by {
        assert forall|i: int| 0 <= i < t.len() implies #[trigger] t[i] != ',' by {
            assert('0' <= t[i]);
        }
    }
    lemma_group_thousands_shape(t);
}

} // verus!
