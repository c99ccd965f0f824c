//! SOLST amounts of the Grand Exchange: base units shown as a decimal
//! string, and a typed decimal string read back into base units.

use vstd::prelude::*;
use crate::text::{digit_char, nat_text, int_text, stat_bonus_text, push_char, push_u64, push_i64, chars_of, string_of_range};

verus! {

// ---------------------------------------------------------------------------
// Numbers
// ---------------------------------------------------------------------------

/// Ten to the power `n`.
pub open spec fn pow10(n: nat) -> nat
    decreases n,
{
    if n == 0 {
        1
    } else {
        10 * pow10((n - 1) as nat)
    }
}

/// `n` copies of '0'.
pub open spec fn zeros(n: nat) -> Seq<char> {
    Seq::new(n, |i: int| '0')
}

/// Decimal text of `n`, left-padded with '0' to at least `w` characters.
pub open spec fn zero_pad(n: nat, w: nat) -> Seq<char> {
    let t = nat_text(n);
    if t.len() < w {
        zeros((w - t.len()) as nat) + t
    } else {
        t
    }
}

/// `t` without its trailing '0' characters.
pub open spec fn trim_zeros(t: Seq<char>) -> Seq<char>
    decreases t.len(),
{
    if t.len() > 0 && t.last() == '0' {
        trim_zeros(t.drop_last())
    } else {
        t
    }
}

/// At most the first three characters of `t`.
pub open spec fn first_three(t: Seq<char>) -> Seq<char> {
    if t.len() < 3 {
        t
    } else {
        t.take(3)
    }
}

/// The text `format_solst` gives for `base` units at `decimals` decimals:
/// the whole part, then (when the fraction is not zero) a '.' and at most
/// three fraction digits with trailing zeros removed; '-' in front when negative.
pub open spec fn solst_text(base: int, decimals: nat) -> Seq<char> {
    if decimals == 0 {
        int_text(base)
    } else {
        let d = pow10(decimals);
        let a = if base < 0 { -base } else { base };
        let whole = (a / (d as int)) as nat;
        let frac = (a % (d as int)) as nat;
        let body = if frac == 0 {
            nat_text(whole)
        } else {
            nat_text(whole) + seq!['.'] + first_three(trim_zeros(zero_pad(frac, decimals)))
        };
        if base < 0 {
            seq!['-'] + body
        } else {
            body
        }
    }
}

// ---------------------------------------------------------------------------
// Reading text
// ---------------------------------------------------------------------------

/// `char::is_whitespace`: the Unicode White_Space characters.
pub open spec fn is_space(c: char) -> bool {
    ||| c == ' '
    ||| ('\t' <= c && c <= '\r')
    ||| c == '\u{85}'
    ||| c == '\u{A0}'
    ||| c == '\u{1680}'
    ||| ('\u{2000}' <= c && c <= '\u{200A}')
    ||| c == '\u{2028}'
    ||| c == '\u{2029}'
    ||| c == '\u{202F}'
    ||| c == '\u{205F}'
    ||| c == '\u{3000}'
}

/// `s` without leading white space.
pub open spec fn trim_start(s: Seq<char>) -> Seq<char>
    decreases s.len(),
{
    if s.len() > 0 && is_space(s[0]) {
        trim_start(s.drop_first())
    } else {
        s
    }
}

/// `s` without trailing white space.
pub open spec fn trim_end(s: Seq<char>) -> Seq<char>
    decreases s.len(),
{
    if s.len() > 0 && is_space(s.last()) {
        trim_end(s.drop_last())
    } else {
        s
    }
}

/// `str::trim`: `s` without white space at either end.
pub open spec fn trim(s: Seq<char>) -> Seq<char> {
    trim_end(trim_start(s))
}

/// Index of the first '.' in `s`, or its length when there is none.
pub open spec fn dot_pos(s: Seq<char>) -> nat
    decreases s.len(),
{
    if s.len() == 0 || s[0] == '.' {
        0
    } else {
        1 + dot_pos(s.drop_first())
    }
}

/// The part before the first '.'.
pub open spec fn whole_part(s: Seq<char>) -> Seq<char> {
    s.take(dot_pos(s) as int)
}

/// The part after the first '.' (empty when there is no '.').
pub open spec fn frac_part(s: Seq<char>) -> Seq<char> {
    if dot_pos(s) < s.len() {
        s.skip(dot_pos(s) as int + 1)
    } else {
        Seq::empty()
    }
}

/// An ASCII decimal digit.
pub open spec fn is_digit(c: char) -> bool {
    '0' <= c && c <= '9'
}

/// Every character of `s` is a decimal digit.
pub open spec fn all_digits(s: Seq<char>) -> bool {
    forall|i: int| 0 <= i < s.len() ==> is_digit(#[trigger] s[i])
}

/// The value of a string of decimal digits.
pub open spec fn digits_value(s: Seq<char>) -> int
    decreases s.len(),
{
    if s.len() == 0 {
        0
    } else {
        digits_value(s.drop_last()) * 10 + ((s.last() as int) - 48)
    }
}

/// What `str::parse::<i64>` accepts: an optional '+' or '-', then one or
/// more decimal digits, with a value that fits in `i64`.
pub open spec fn parse_i64(s: Seq<char>) -> Option<int> {
    if s.len() == 0 {
        None
    } else {
        let neg = s[0] == '-';
        let body = if s[0] == '-' || s[0] == '+' { s.drop_first() } else { s };
        if body.len() > 0 && all_digits(body) {
            let v = if neg { -digits_value(body) } else { digits_value(body) };
            if i64::MIN <= v <= i64::MAX {
                Some(v)
            } else {
                None
            }
        } else {
            None
        }
    }
}

/// UTF-8 length of one character.
pub open spec fn utf8_len(c: char) -> nat {
    if (c as u32) < 0x80 {
        1
    } else if (c as u32) < 0x800 {
        2
    } else if (c as u32) < 0x10000 {
        3
    } else {
        4
    }
}

/// UTF-8 length of a string.
pub open spec fn utf8_text_len(s: Seq<char>) -> nat
    decreases s.len(),
{
    if s.len() == 0 {
        0
    } else {
        utf8_text_len(s.drop_last()) + utf8_len(s.last())
    }
}

/// Number of leading characters of `f` whose UTF-8 encoding takes exactly
/// `n` bytes (the characters that `String::truncate(n)` keeps), or -1 when
/// byte `n` falls inside a character. Only meaningful when `f` is longer
/// than `n` bytes.
pub open spec fn cut_index(f: Seq<char>, n: nat) -> int
    decreases f.len(),
{
    if n == 0 || f.len() == 0 {
        0
    } else if utf8_len(f[0]) > n {
        -1
    } else {
        let r = cut_index(f.drop_first(), (n - utf8_len(f[0])) as nat);
        if r < 0 {
            -1
        } else {
            r + 1
        }
    }
}

/// The fraction digits are cut to `decimals` bytes in the middle of a
/// character, where `String::truncate` panics.
pub open spec fn frac_cut_fails(f: Seq<char>, decimals: nat) -> bool {
    f.len() > 0 && utf8_text_len(f) > decimals && cut_index(f, decimals) < 0
}

/// The fraction text, cut to `decimals` bytes or right-padded with '0'.
pub open spec fn frac_digits(f: Seq<char>, decimals: nat) -> Seq<char> {
    if utf8_text_len(f) > decimals {
        f.take(cut_index(f, decimals))
    } else {
        f + zeros((decimals - utf8_text_len(f)) as nat)
    }
}

/// The whole part reads as a number (an empty whole part reads as 0).
pub open spec fn whole_value(t: Seq<char>) -> Option<int> {
    if whole_part(t).len() == 0 {
        Some(0)
    } else {
        parse_i64(whole_part(t))
    }
}

/// Inputs on which `parse_price_to_base` panics: `10^decimals` overflows
/// `i64` once the whole part has been read, or the fraction is cut inside
/// a character.
pub open spec fn price_input_panics(input: Seq<char>, decimals: nat) -> bool {
    let t = trim(input);
    &&& t.len() > 0
    &&& whole_value(t) is Some
    &&& (decimals > 18 || frac_cut_fails(frac_part(t), decimals))
}

/// The text's whole part starts with '-': the price is negative, fraction included.
pub open spec fn negative_price(t: Seq<char>) -> bool {
    whole_part(t).len() > 0 && whole_part(t)[0] == '-'
}

/// The base units that a typed price stands for: the whole part times
/// `10^decimals`, and the fraction digits read at `decimals` places added to
/// it, or taken from it when the text is negative ("-1.5" is minus one and a
/// half); `None` when a part does not read as a number or the result
/// overflows `i64`.
pub open spec fn price_value(input: Seq<char>, decimals: nat) -> Option<int> {
    let t = trim(input);
    if t.len() == 0 {
        None
    } else {
        match whole_value(t) {
            None => None,
            Some(w) => {
                let f = frac_part(t);
                let fv = if f.len() == 0 { Some(0int) } else { parse_i64(frac_digits(f, decimals)) };
                match fv {
                    None => None,
                    Some(fv) => {
                        let m = w * pow10(decimals);
                        let v = if negative_price(t) { m - fv } else { m + fv };
                        if i64::MIN <= m <= i64::MAX && i64::MIN <= v <= i64::MAX {
                            Some(v)
                        } else {
                            None
                        }
                    },
                }
            },
        }
    }
}

// ---------------------------------------------------------------------------
// Lemmas
// ---------------------------------------------------------------------------

proof fn lemma_pow10_positive(n: nat)
    ensures
        pow10(n) >= 1,
    decreases n,
{
    if n > 0 {
        lemma_pow10_positive((n - 1) as nat);
    }
}

proof fn lemma_pow10_monotone(a: nat, b: nat)
    requires
        a <= b,
    ensures
        pow10(a) <= pow10(b),
    decreases b,
{
    if a < b {
        lemma_pow10_monotone(a, (b - 1) as nat);
        lemma_pow10_positive((b - 1) as nat);
    }
}

proof fn lemma_pow10_18()
    ensures
        pow10(18) == 1_000_000_000_000_000_000,
{
    reveal_with_fuel(pow10, 19);
}

proof fn lemma_digit_char_value(d: nat)
    requires
        d < 10,
    ensures
        digit_char(d) as int == d + 48,
        is_digit(digit_char(d)),
{
}

proof fn lemma_nat_text_digits(n: nat)
    ensures
        all_digits(nat_text(n)),
        nat_text(n).len() >= 1,
        digits_value(nat_text(n)) == n,
    decreases n,
{
    if n >= 10 {
        lemma_nat_text_digits(n / 10);
        lemma_digit_char_value(n % 10);
        let t = nat_text(n);
        assert(t.drop_last() == nat_text(n / 10));
        assert(t.last() == digit_char(n % 10));
        assert(digits_value(t) == digits_value(nat_text(n / 10)) * 10 + ((digit_char(n % 10) as int) - 48));
        assert(n == (n / 10) * 10 + n % 10);
        assert forall|i: int| 0 <= i < t.len() implies is_digit(#[trigger] t[i]) by {
            if i < t.len() - 1 {
                assert(t[i] == nat_text(n / 10)[i]);
            }
        }
    } else {
        lemma_digit_char_value(n);
        assert(nat_text(n) =~= seq![digit_char(n)]);
        assert(nat_text(n).drop_last() =~= Seq::<char>::empty());
        assert(digits_value(Seq::<char>::empty()) == 0);
        assert(nat_text(n).last() == digit_char(n));
        assert(digits_value(nat_text(n)) == digits_value(nat_text(n).drop_last()) * 10 + ((digit_char(n) as int) - 48));
    }
}

proof fn lemma_digits_value_push(s: Seq<char>, c: char)
    ensures
        digits_value(s.push(c)) == digits_value(s) * 10 + ((c as int) - 48),
{
    assert(s.push(c).drop_last() =~= s);
}

proof fn lemma_digits_value_nonneg(s: Seq<char>)
    requires
        all_digits(s),
    ensures
        digits_value(s) >= 0,
    decreases s.len(),
{
    if s.len() > 0 {
        assert(all_digits(s.drop_last())) by {
            assert forall|i: int| 0 <= i < s.drop_last().len() implies is_digit(#[trigger] s.drop_last()[i]) by {
                assert(s.drop_last()[i] == s[i]);
            }
        }
        lemma_digits_value_nonneg(s.drop_last());
        assert(is_digit(s[s.len() - 1]));
    }
}

// ---------------------------------------------------------------------------
// Showing amounts
// ---------------------------------------------------------------------------

/// `10^decimals` as an `i64`.
fn pow10_i64(decimals: u8) -> (d: i64)
    requires
        decimals <= 18,
    ensures
        d as int == pow10(decimals as nat),
        1 <= d <= 1_000_000_000_000_000_000,
{
    let mut d: i64 = 1;
    let mut i: u8 = 0;
    proof {
        lemma_pow10_18();
    }
    while i < decimals
        invariant
            i <= decimals <= 18,
            d as int == pow10(i as nat),
            pow10(18) == 1_000_000_000_000_000_000,
        decreases decimals - i,
    {
        proof {
            lemma_pow10_monotone((i + 1) as nat, 18);
            assert(pow10((i + 1) as nat) == 10 * pow10(i as nat));
        }
        d = d * 10;
        i = i + 1;
    }
    proof {
        lemma_pow10_positive(decimals as nat);
        lemma_pow10_monotone(decimals as nat, 18);
    }
    d
}

/// The decimal text of `n` left-padded with '0' to `w` characters.
fn zero_padded(n: u64, w: usize) -> (v: Vec<char>)
    ensures
        v@ == zero_pad(n as nat, w as nat),
{
    let mut raw = String::new();
    push_u64(&mut raw, n);
    assert(raw@ =~= nat_text(n as nat));
    let t = chars_of(raw.as_str());
    let mut v: Vec<char> = Vec::new();
    if t.len() < w {
        let k = w - t.len();
        let mut i: usize = 0;
        while i < k
            invariant
                i <= k,
                v@ == zeros(i as nat),
            decreases k - i,
        {
            v.push('0');
            assert(v@ =~= zeros((i + 1) as nat));
            i = i + 1;
        }
    }
    let mut j: usize = 0;
    let ghost pre = v@;
    while j < t.len()
        invariant
            j <= t.len(),
            v@ == pre + t@.take(j as int),
        decreases t.len() - j,
    {
        v.push(t[j]);
        assert(t@.take(j + 1) =~= t@.take(j as int).push(t@[j as int]));
        j = j + 1;
    }
    assert(t@.take(t.len() as int) =~= t@);
    assert(v@ =~= zero_pad(n as nat, w as nat));
    v
}

/// Length of `v[..end]` once trailing '0' characters are removed.
fn trimmed_len(v: &Vec<char>, end: usize) -> (k: usize)
    requires
        end <= v.len(),
    ensures
        k <= end,
        v@.take(k as int) == trim_zeros(v@.take(end as int)),
    decreases end,
{
    if end > 0 && v[end - 1] == '0' {
        assert(v@.take(end as int).drop_last() =~= v@.take(end - 1));
        trimmed_len(v, end - 1)
    } else {
        end
    }
}

/// Format SOLST base units into a human string (e.g. 1500000 at 6 decimals
/// -> "1.5"): whole part, then up to three fraction digits without trailing
/// zeros.
pub fn format_solst(base: i64, decimals: u8) -> (s: String)
    requires
        decimals <= 18,
        decimals == 0 || base != i64::MIN,
    ensures
        s@ == solst_text(base as int, decimals as nat),
{
    let d = pow10_i64(decimals);
    if d <= 1 {
        let mut s = String::new();
        push_i64(&mut s, base);
        assert(s@ =~= int_text(base as int));
        return s;
    }
    let neg = base < 0;
    let abs = if neg { -base } else { base };
    let whole = abs / d;
    let frac = abs % d;
    let mut s = String::new();
    if neg {
        push_char(&mut s, '-');
    }
    push_u64(&mut s, whole as u64);
    if frac != 0 {
        push_char(&mut s, '.');
        let padded = zero_padded(frac as u64, decimals as usize);
        let k = trimmed_len(&padded, padded.len());
        let shown = if k < 3 { k } else { 3 };
        let piece = string_of_range(&padded, 0, shown);
        let pv = chars_of(piece.as_str());
        let mut j: usize = 0;
        let ghost pre = s@;
        while j < pv.len()
            invariant
                j <= pv.len(),
                s@ == pre + pv@.take(j as int),
            decreases pv.len() - j,
        {
            push_char(&mut s, pv[j]);
            assert(pv@.take(j + 1) =~= pv@.take(j as int).push(pv@[j as int]));
            j = j + 1;
        }
        proof {
            assert(pv@.take(pv.len() as int) =~= pv@);
            assert(padded@.take(padded.len() as int) =~= padded@);
            let tz = trim_zeros(zero_pad(frac as nat, decimals as nat));
            assert(tz =~= padded@.take(k as int));
            assert(first_three(tz) =~= padded@.subrange(0, shown as int));
        }
    }
    assert(s@ =~= solst_text(base as int, decimals as nat));
    s
}

// ---------------------------------------------------------------------------
// Reading amounts
// ---------------------------------------------------------------------------

/// Index just past the leading white space of `v[lo..hi]`.
fn skip_space_front(v: &Vec<char>, lo: usize, hi: usize) -> (k: usize)
    requires
        lo <= hi <= v.len(),
    ensures
        lo <= k <= hi,
        v@.subrange(k as int, hi as int) == trim_start(v@.subrange(lo as int, hi as int)),
    decreases hi - lo,
{
    if lo < hi && is_space_char(v[lo]) {
        assert(v@.subrange(lo as int, hi as int).drop_first() =~= v@.subrange(lo + 1, hi as int));
        skip_space_front(v, lo + 1, hi)
    } else {
        lo
    }
}

/// Index just before the trailing white space of `v[lo..hi]`.
fn skip_space_back(v: &Vec<char>, lo: usize, hi: usize) -> (k: usize)
    requires
        lo <= hi <= v.len(),
    ensures
        lo <= k <= hi,
        v@.subrange(lo as int, k as int) == trim_end(v@.subrange(lo as int, hi as int)),
    decreases hi - lo,
{
    if lo < hi && is_space_char(v[hi - 1]) {
        assert(v@.subrange(lo as int, hi as int).drop_last() =~= v@.subrange(lo as int, hi - 1));
        skip_space_back(v, lo, hi - 1)
    } else {
        hi
    }
}

/// `char::is_whitespace`.
pub fn is_space_char(c: char) -> (b: bool)
    ensures
        b == is_space(c),
{
    c == ' ' || ('\t' <= c && c <= '\r') || c == '\u{85}' || c == '\u{A0}' || c == '\u{1680}' || (
    '\u{2000}' <= c && c <= '\u{200A}') || c == '\u{2028}' || c == '\u{2029}' || c == '\u{202F}'
        || c == '\u{205F}' || c == '\u{3000}'
}

/// Index of the first '.' in `v[lo..hi]`, or `hi`.
fn find_dot(v: &Vec<char>, lo: usize, hi: usize) -> (k: usize)
    requires
        lo <= hi <= v.len(),
    ensures
        lo <= k <= hi,
        k - lo == dot_pos(v@.subrange(lo as int, hi as int)),
    decreases hi - lo,
{
    if lo == hi || v[lo] == '.' {
        lo
    } else {
        assert(v@.subrange(lo as int, hi as int).drop_first() =~= v@.subrange(lo + 1, hi as int));
        find_dot(v, lo + 1, hi)
    }
}

/// `str::parse::<i64>` on the characters `v[lo..hi]`.
pub fn parse_i64_range(v: &Vec<char>, lo: usize, hi: usize) -> (r: Option<i64>)
    requires
        lo <= hi <= v.len(),
    ensures
        match r {
            Some(x) => parse_i64(v@.subrange(lo as int, hi as int)) == Some(x as int),
            None => parse_i64(v@.subrange(lo as int, hi as int)) is None,
        },
{
    let ghost s = v@.subrange(lo as int, hi as int);
    if lo == hi {
        return None;
    }
    let neg = v[lo] == '-';
    let start = if v[lo] == '-' || v[lo] == '+' { lo + 1 } else { lo };
    let ghost body = v@.subrange(start as int, hi as int);
    assert(body == (if s[0] == '-' || s[0] == '+' { s.drop_first() } else { s }));
    if start == hi {
        return None;
    }
    let limit: u64 = 9_223_372_036_854_775_808;
    let mut acc: u64 = 0;
    let mut over = false;
    let mut i = start;
    while i < hi
        invariant
            lo <= start <= i <= hi <= v.len(),
            limit == 9_223_372_036_854_775_808u64,
            body == v@.subrange(start as int, hi as int),
            s == v@.subrange(lo as int, hi as int),
            s.len() > 0,
            body == (if s[0] == '-' || s[0] == '+' { s.drop_first() } else { s }),
            all_digits(v@.subrange(start as int, i as int)),
            !over ==> acc as int == digits_value(v@.subrange(start as int, i as int)),
            !over ==> acc <= limit,
            over ==> digits_value(v@.subrange(start as int, i as int)) > limit,
        decreases hi - i,
    {
        let c = v[i];
        if !('0' <= c && c <= '9') {
            assert(!all_digits(body)) by {
                assert(body[i - start] == c);
            }
            return None;
        }
        let ghost p = v@.subrange(start as int, i as int);
        proof {
            assert(v@.subrange(start as int, i + 1) =~= p.push(c));
            lemma_digits_value_push(p, c);
            lemma_digits_value_nonneg(p);
            assert(all_digits(p.push(c))) by {
                assert forall|j: int| 0 <= j < p.push(c).len() implies is_digit(#[trigger] p.push(c)[j]) by {
                    if j < p.len() {
                        assert(p.push(c)[j] == p[j]);
                    }
                }
            }
        }
        if !over {
            let dg = ((c as u32) - 48) as u64;
            if acc > (limit - dg) / 10 {
                over = true;
            } else {
                acc = acc * 10 + dg;
            }
        }
        i = i + 1;
    }
    assert(v@.subrange(start as int, hi as int) == body);
    if over {
        return None;
    }
    if neg {
        if acc == limit {
            Some(i64::MIN)
        } else {
            Some(-(acc as i64))
        }
    } else {
        if acc == limit {
            None
        } else {
            Some(acc as i64)
        }
    }
}

/// Whether `v[lo..hi]` takes more than `n` bytes in UTF-8.
fn longer_than_bytes(v: &Vec<char>, lo: usize, hi: usize, n: u64) -> (b: bool)
    requires
        lo <= hi <= v.len(),
        n <= 18,
    ensures
        b == (utf8_text_len(v@.subrange(lo as int, hi as int)) > n),
    decreases hi - lo,
{
    if lo == hi {
        false
    } else {
        let l = utf8_len_of(v[hi - 1]);
        assert(v@.subrange(lo as int, hi as int).drop_last() =~= v@.subrange(lo as int, hi - 1));
        if l > n {
            proof {
                lemma_utf8_text_len_nonneg(v@.subrange(lo as int, hi - 1));
            }
            true
        } else {
            longer_than_bytes(v, lo, hi - 1, n - l)
        }
    }
}

proof fn lemma_utf8_text_len_nonneg(s: Seq<char>)
    ensures
        utf8_text_len(s) >= 0,
{
}

/// UTF-8 length of one character (`char::len_utf8`).
fn utf8_len_of(c: char) -> (l: u64)
    ensures
        l == utf8_len(c),
        1 <= l <= 4,
{
    let x = c as u32;
    if x < 0x80 {
        1
    } else if x < 0x800 {
        2
    } else if x < 0x10000 {
        3
    } else {
        4
    }
}

/// `cut_index` of `v[lo..hi]` at `n` bytes.
fn cut_chars(v: &Vec<char>, lo: usize, hi: usize, n: u64) -> (r: Option<usize>)
    requires
        lo <= hi <= v.len(),
    ensures
        match r {
            Some(k) => cut_index(v@.subrange(lo as int, hi as int), n as nat) == k as int && k <= hi - lo,
            None => cut_index(v@.subrange(lo as int, hi as int), n as nat) < 0,
        },
    decreases hi - lo,
{
    let ghost f = v@.subrange(lo as int, hi as int);
    if n == 0 || lo == hi {
        Some(0)
    } else {
        let l = utf8_len_of(v[lo]);
        assert(f[0] == v@[lo as int]);
        if l > n {
            None
        } else {
            assert(f.drop_first() =~= v@.subrange(lo + 1, hi as int));
            match cut_chars(v, lo + 1, hi, n - l) {
                Some(k) => Some(k + 1),
                None => None,
            }
        }
    }
}

/// Parse a decimal SOLST string into base units ("1.5" at 6 decimals ->
/// 1500000, "-1.5" -> -1500000). Surrounding white space is ignored; the
/// whole part may be empty; a leading '-' makes the whole amount negative,
/// its fraction included; fraction digits beyond `decimals` are dropped.
pub fn parse_price_to_base(input: &str, decimals: u8) -> (r: Option<i64>)
    requires
        !price_input_panics(input@, decimals as nat),
    ensures
        match r {
            Some(x) => price_value(input@, decimals as nat) == Some(x as int),
            None => price_value(input@, decimals as nat) is None,
        },
{
    let v = chars_of(input);
    let a = skip_space_front(&v, 0, v.len());
    let b = skip_space_back(&v, a, v.len());
    let ghost t = trim(input@);
    proof {
        assert(v@.subrange(0, v.len() as int) =~= v@);
        assert(v@.subrange(a as int, b as int) == t);
    }
    if a == b {
        return None;
    }
    let dot = find_dot(&v, a, b);
    proof {
        assert(v@.subrange(a as int, dot as int) =~= whole_part(t));
    }
    let whole: i64 = if dot == a {
        0
    } else {
        match parse_i64_range(&v, a, dot) {
            Some(w) => w,
            None => {
                return None;
            },
        }
    };
    assert(whole_value(t) == Some(whole as int));
    let d = pow10_i64(decimals);
    let frac_lo = if dot < b { dot + 1 } else { b };
    proof {
        if dot < b {
            assert(v@.subrange(frac_lo as int, b as int) =~= frac_part(t));
        } else {
            assert(v@.subrange(frac_lo as int, b as int) =~= frac_part(t));
        }
    }
    let ghost f = frac_part(t);
    let mut frac: i64 = 0;
    if frac_lo < b {
        let fs = fraction_text(&v, frac_lo, b, decimals);
        assert(fs@.subrange(0, fs.len() as int) =~= fs@);
        match parse_i64_range(&fs, 0, fs.len()) {
            Some(x) => {
                frac = x;
            },
            None => {
                return None;
            },
        }
    }
    let neg = dot > a && v[a] == '-';
    assert(neg == negative_price(t)) by {
        if dot > a {
            assert(whole_part(t)[0] == v@[a as int]);
        }
    }
    match whole.checked_mul(d) {
        Some(m) => if neg {
            m.checked_sub(frac)
        } else {
            m.checked_add(frac)
        },
        None => None,
    }
}

/// The fraction digits `v[lo..hi]` cut to `decimals` bytes or padded with '0'.
fn fraction_text(v: &Vec<char>, lo: usize, hi: usize, decimals: u8) -> (fs: Vec<char>)
    requires
        lo < hi <= v.len(),
        decimals <= 18,
        !frac_cut_fails(v@.subrange(lo as int, hi as int), decimals as nat),
    ensures
        fs@ == frac_digits(v@.subrange(lo as int, hi as int), decimals as nat),
{
    let ghost f = v@.subrange(lo as int, hi as int);
    let mut fs: Vec<char> = Vec::new();
    if longer_than_bytes(v, lo, hi, decimals as u64) {
        let k = match cut_chars(v, lo, hi, decimals as u64) {
            Some(k) => k,
            None => {
                assert(false);
                0
            },
        };
        let mut j: usize = 0;
        while j < k
            invariant
                j <= k <= hi - lo,
                lo <= hi <= v.len(),
                fs@ == v@.subrange(lo as int, lo + j),
            decreases k - j,
        {
            fs.push(v[lo + j]);
            assert(fs@ =~= v@.subrange(lo as int, lo + j + 1));
            j = j + 1;
        }
        assert(fs@ =~= f.take(k as int));
    } else {
        let mut j: usize = lo;
        while j < hi
            invariant
                lo <= j <= hi <= v.len(),
                fs@ == v@.subrange(lo as int, j as int),
            decreases hi - j,
        {
            fs.push(v[j]);
            assert(fs@ =~= v@.subrange(lo as int, j + 1));
            j = j + 1;
        }
        let used = bytes_of(v, lo, hi);
        let pad = (decimals as u64) - used;
        let mut z: u64 = 0;
        let ghost pre = fs@;
        while z < pad
            invariant
                z <= pad,
                fs@ == pre + zeros(z as nat),
            decreases pad - z,
        {
            fs.push('0');
            assert(fs@ =~= pre + zeros((z + 1) as nat));
            z = z + 1;
        }
        assert(fs@ =~= f + zeros((decimals - utf8_text_len(f)) as nat));
    }
    fs
}

/// UTF-8 length of `v[lo..hi]`, when at most 18.
fn bytes_of(v: &Vec<char>, lo: usize, hi: usize) -> (n: u64)
    requires
        lo <= hi <= v.len(),
        utf8_text_len(v@.subrange(lo as int, hi as int)) <= 18,
    ensures
        n == utf8_text_len(v@.subrange(lo as int, hi as int)),
    decreases hi - lo,
{
    if lo == hi {
        0
    } else {
        assert(v@.subrange(lo as int, hi as int).drop_last() =~= v@.subrange(lo as int, hi - 1));
        let rest = bytes_of(v, lo, hi - 1);
        rest + utf8_len_of(v[hi - 1])
    }
}

} // verus!

verus! {

// ---------------------------------------------------------------------------
// Reading back what was shown
// ---------------------------------------------------------------------------

/// The fraction of `base` at `decimals` decimals, in base units.
pub open spec fn solst_fraction(base: int, decimals: nat) -> nat {
    let a = if base < 0 { -base } else { base };
    (a % (pow10(decimals) as int)) as nat
}

proof fn lemma_trim_zeros_len(x: Seq<char>)
    ensures
        trim_zeros(x).len() <= x.len(),
        trim_zeros(x) + zeros((x.len() - trim_zeros(x).len()) as nat) == x,
    decreases x.len(),
{
    if x.len() > 0 && x.last() == '0' {
        lemma_trim_zeros_len(x.drop_last());
        let t = trim_zeros(x.drop_last());
        let k = (x.drop_last().len() - t.len()) as nat;
        assert(t + zeros(k + 1) =~= (t + zeros(k)).push('0'));
        assert(x =~= x.drop_last().push('0'));
    } else {
        assert(trim_zeros(x) + zeros(0) =~= x);
    }
}

proof fn lemma_trim_zeros_append_zeros(x: Seq<char>, k: nat)
    ensures
        trim_zeros(x + zeros(k)) == trim_zeros(x),
    decreases k,
{
    if k > 0 {
        assert((x + zeros(k)).drop_last() =~= x + zeros((k - 1) as nat));
        assert((x + zeros(k)).last() == '0');
        lemma_trim_zeros_append_zeros(x, (k - 1) as nat);
    } else {
        assert(x + zeros(0) =~= x);
    }
}

proof fn lemma_nat_text_times_pow10(q: nat, k: nat)
    requires
        q >= 1,
    ensures
        nat_text(q * pow10(k)) == nat_text(q) + zeros(k),
    decreases k,
{
    lemma_digit_char_value(0);
    assert(digit_char(0) == '0');
    if k == 0 {
        assert(pow10(0) == 1);
        assert(q * pow10(0) == q) by (nonlinear_arith)
            requires
                pow10(0) == 1,
        ;
        assert(nat_text(q) + zeros(0) =~= nat_text(q));
    } else {
        lemma_nat_text_times_pow10(q, (k - 1) as nat);
        let m = q * pow10((k - 1) as nat);
        lemma_pow10_positive((k - 1) as nat);
        assert(m >= 1) by (nonlinear_arith)
            requires
                q >= 1,
                pow10((k - 1) as nat) >= 1,
                m == q * pow10((k - 1) as nat),
        ;
        assert(q * pow10(k) == m * 10) by (nonlinear_arith)
            requires
                pow10(k) == 10 * pow10((k - 1) as nat),
                m == q * pow10((k - 1) as nat),
        ;
        assert((m * 10) / 10 == m);
        assert((m * 10) % 10 == 0);
        assert(nat_text(m * 10) == nat_text(m).push(digit_char(0)));
        assert(nat_text(q) + zeros(k) =~= (nat_text(q) + zeros((k - 1) as nat)).push('0'));
    }
}

proof fn lemma_nat_text_len_bound(n: nat, w: nat)
    requires
        w >= 1,
        n < pow10(w),
    ensures
        nat_text(n).len() <= w,
    decreases n,
{
    if n >= 10 {
        assert(w >= 2) by {
            if w == 1 {
                assert(pow10(1) == 10) by {
                    reveal_with_fuel(pow10, 2);
                }
            }
        }
        assert(n / 10 < pow10((w - 1) as nat));
        lemma_nat_text_len_bound(n / 10, (w - 1) as nat);
    }
}

proof fn lemma_digits_value_leading_zeros(k: nat, t: Seq<char>)
    ensures
        digits_value(zeros(k) + t) == digits_value(t),
    decreases t.len(), k,
{
    if t.len() == 0 {
        assert(zeros(k) + t =~= zeros(k));
        if k > 0 {
            assert(zeros(k).drop_last() =~= zeros((k - 1) as nat));
            lemma_digits_value_leading_zeros((k - 1) as nat, t);
            assert(zeros((k - 1) as nat) + t =~= zeros((k - 1) as nat));
        }
    } else {
        assert((zeros(k) + t).drop_last() =~= zeros(k) + t.drop_last());
        lemma_digits_value_leading_zeros(k, t.drop_last());
    }
}

proof fn lemma_all_digits_ascii(s: Seq<char>)
    requires
        all_digits(s),
    ensures
        utf8_text_len(s) == s.len(),
    decreases s.len(),
{
    if s.len() > 0 {
        assert(all_digits(s.drop_last())) by {
            assert forall|i: int| 0 <= i < s.drop_last().len() implies is_digit(#[trigger] s.drop_last()[i]) by {
                assert(s.drop_last()[i] == s[i]);
            }
        }
        lemma_all_digits_ascii(s.drop_last());
        assert(is_digit(s[s.len() - 1]));
    }
}

proof fn lemma_dot_pos_after_digits(a: Seq<char>, b: Seq<char>)
    requires
        all_digits(a),
    ensures
        dot_pos(a + b) == a.len() + dot_pos(b),
    decreases a.len(),
{
    if a.len() > 0 {
        assert(is_digit(a[0]));
        assert((a + b)[0] == a[0]);
        assert((a + b).drop_first() =~= a.drop_first() + b);
        assert(all_digits(a.drop_first())) by {
            assert forall|i: int| 0 <= i < a.drop_first().len() implies is_digit(#[trigger] a.drop_first()[i]) by {
                assert(a.drop_first()[i] == a[i + 1]);
            }
        }
        lemma_dot_pos_after_digits(a.drop_first(), b);
    } else {
        assert(a + b =~= b);
    }
}

proof fn lemma_parse_digits(s: Seq<char>)
    requires
        s.len() > 0,
        all_digits(s),
        digits_value(s) <= i64::MAX + 1,
    ensures
        digits_value(s) <= i64::MAX ==> parse_i64(s) == Some(digits_value(s)),
        parse_i64(seq!['-'] + s) == Some(-digits_value(s)),
{
    lemma_digits_value_nonneg(s);
    assert(is_digit(s[0]));
    assert((seq!['-'] + s).drop_first() =~= s);
}

proof fn lemma_zero_pad_digits(n: nat, w: nat)
    ensures
        all_digits(zero_pad(n, w)),
        digits_value(zero_pad(n, w)) == n,
        zero_pad(n, w).len() >= 1,
{
    lemma_nat_text_digits(n);
    let t = nat_text(n);
    if t.len() < w {
        let z = zeros((w - t.len()) as nat);
        lemma_digits_value_leading_zeros((w - t.len()) as nat, t);
        assert forall|i: int| 0 <= i < (z + t).len() implies is_digit(#[trigger] (z + t)[i]) by {
            if i >= z.len() {
                assert((z + t)[i] == t[i - z.len()]);
            }
        }
    }
}

proof fn lemma_trim_plain(s: Seq<char>)
    requires
        s.len() > 0,
        !is_space(s[0]),
        !is_space(s.last()),
    ensures
        trim(s) == s,
{
}

proof fn lemma_roundtrip_integer(base: i64)
    ensures
        !price_input_panics(solst_text(base as int, 0), 0),
        price_value(solst_text(base as int, 0), 0) == Some(base as int),
{
    let t = solst_text(base as int, 0);
    let a: int = if base < 0 { -base } else { base as int };
    lemma_nat_text_digits(a as nat);
    lemma_parse_digits(nat_text(a as nat));
    assert(!is_digit('-'));
    lemma_dot_pos_after_digits(nat_text(a as nat), Seq::<char>::empty());
    assert(nat_text(a as nat) + Seq::<char>::empty() =~= nat_text(a as nat));
    if base < 0 {
        assert(t == seq!['-'] + nat_text(a as nat));
        assert(t[0] == '-');
        assert(t.drop_first() =~= nat_text(a as nat));
        assert(dot_pos(t) == 1 + dot_pos(nat_text(a as nat)));
        assert(t.last() == nat_text(a as nat).last());
        assert(is_digit(nat_text(a as nat)[nat_text(a as nat).len() - 1]));
    } else {
        assert(is_digit(t[0]));
        assert(is_digit(t[t.len() - 1]));
    }
    lemma_trim_plain(t);
    assert(whole_part(t) =~= t);
    assert(frac_part(t) =~= Seq::<char>::empty());
    assert(pow10(0) == 1);
}

proof fn lemma_roundtrip_no_fraction(base: i64, dec: nat)
    requires
        1 <= dec <= 18,
        base != i64::MIN,
        solst_fraction(base as int, dec) == 0,
    ensures
        !price_input_panics(solst_text(base as int, dec), dec),
        price_value(solst_text(base as int, dec), dec) == Some(base as int),
{
    let t = solst_text(base as int, dec);
    let d = pow10(dec);
    lemma_pow10_positive(dec);
    let a: int = if base < 0 { -base } else { base as int };
    let whole = (a / (d as int)) as nat;
    assert(a == whole * d) by (nonlinear_arith)
        requires
            d >= 1,
            a >= 0,
            whole == a / (d as int),
            a % (d as int) == 0,
    ;
    assert(whole <= a) by (nonlinear_arith)
        requires
            d >= 1,
            a >= 0,
            whole == a / (d as int),
    ;
    lemma_nat_text_digits(whole);
    let wt = nat_text(whole);
    lemma_parse_digits(wt);
    assert(is_digit(wt[0]));
    assert(is_digit(wt[wt.len() - 1]));
    lemma_dot_pos_after_digits(wt, Seq::<char>::empty());
    assert(wt + Seq::<char>::empty() =~= wt);
    if base < 0 {
        assert(t == seq!['-'] + wt);
        assert(t.drop_first() =~= wt);
        assert(dot_pos(t) == 1 + dot_pos(wt));
        assert(t.last() == wt.last());
    } else {
        assert(t == wt);
    }
    lemma_trim_plain(t);
    assert(whole_part(t) =~= t);
    assert(frac_part(t) =~= Seq::<char>::empty());
    if base < 0 {
        assert(whole_value(t) == Some(-(whole as int)));
        assert(-(whole as int) * d == -(whole * d)) by (nonlinear_arith);
    } else {
        assert(whole_value(t) == Some(whole as int));
    }
}

proof fn lemma_short_fraction_trimmed(frac: nat, dec: nat)
    requires
        1 <= dec <= 18,
        0 < frac < pow10(dec),
        dec <= 3 || frac % pow10((dec - 3) as nat) == 0,
    ensures
        zero_pad(frac, dec).len() == dec,
        trim_zeros(zero_pad(frac, dec)).len() <= 3,
        trim_zeros(zero_pad(frac, dec)).len() > 0,
{
    let p = zero_pad(frac, dec);
    lemma_zero_pad_digits(frac, dec);
    lemma_nat_text_len_bound(frac, dec);
    lemma_trim_zeros_len(p);
    let tz = trim_zeros(p);
    if dec > 3 {
        let k = (dec - 3) as nat;
        let q = frac / pow10(k);
        lemma_pow10_positive(k);
        assert(frac == q * pow10(k)) by (nonlinear_arith)
            requires
                frac % pow10(k) == 0,
                pow10(k) >= 1,
                q == frac / pow10(k),
        ;
        assert(q >= 1) by (nonlinear_arith)
            requires
                frac == q * pow10(k),
                frac > 0,
                q >= 0,
        ;
        lemma_nat_text_times_pow10(q, k);
        let nt = nat_text(frac);
        if nt.len() < dec {
            let pad = (dec - nt.len()) as nat;
            assert(p =~= (zeros(pad) + nat_text(q)) + zeros(k));
            lemma_trim_zeros_append_zeros(zeros(pad) + nat_text(q), k);
            lemma_trim_zeros_len(zeros(pad) + nat_text(q));
        } else {
            assert(p == nat_text(q) + zeros(k));
            lemma_trim_zeros_append_zeros(nat_text(q), k);
            lemma_trim_zeros_len(nat_text(q));
        }
    }
    if tz.len() == 0 {
        assert(p =~= zeros(dec));
        lemma_digits_value_leading_zeros(dec, Seq::<char>::empty());
        assert(zeros(dec) + Seq::<char>::empty() =~= zeros(dec));
    }
}

proof fn lemma_roundtrip_fraction(base: i64, dec: nat)
    requires
        1 <= dec <= 18,
        base != i64::MIN,
        solst_fraction(base as int, dec) != 0,
        dec <= 3 || solst_fraction(base as int, dec) % pow10((dec - 3) as nat) == 0,
    ensures
        !price_input_panics(solst_text(base as int, dec), dec),
        price_value(solst_text(base as int, dec), dec) == Some(base as int),
{
    let t = solst_text(base as int, dec);
    let d = pow10(dec);
    lemma_pow10_positive(dec);
    lemma_pow10_18();
    lemma_pow10_monotone(dec, 18);
    let a: int = if base < 0 { -base } else { base as int };
    let whole = (a / (d as int)) as nat;
    let frac = (a % (d as int)) as nat;
    assert(a == whole * d + frac) by (nonlinear_arith)
        requires
            d >= 1,
            a >= 0,
            whole == a / (d as int),
            frac == a % (d as int),
    ;
    assert(whole * d <= a) by (nonlinear_arith)
        requires
            d >= 1,
            a >= 0,
            whole == a / (d as int),
    ;
    assert(whole <= whole * d) by (nonlinear_arith)
        requires
            d >= 1,
    ;
    lemma_nat_text_digits(whole);
    let wt = nat_text(whole);
    lemma_parse_digits(wt);
    assert(is_digit(wt[0]));
    let p = zero_pad(frac, dec);
    lemma_zero_pad_digits(frac, dec);
    lemma_short_fraction_trimmed(frac, dec);
    let tz = trim_zeros(p);
    lemma_trim_zeros_len(p);
    assert(first_three(tz) == tz);
    assert(all_digits(tz)) by {
        assert forall|i: int| 0 <= i < tz.len() implies is_digit(#[trigger] tz[i]) by {
            assert(tz[i] == p[i]);
        }
    }
    let body = wt + seq!['.'] + tz;
    lemma_dot_pos_after_digits(wt, seq!['.'] + tz);
    assert(body =~= wt + (seq!['.'] + tz));
    assert(dot_pos(seq!['.'] + tz) == 0);
    assert(dot_pos(body) == wt.len());
    assert(body.last() == tz.last());
    assert(is_digit(tz[tz.len() - 1]));
    assert(body[0] == wt[0]);
    if base < 0 {
        assert(t == seq!['-'] + body);
        assert(t.drop_first() =~= body);
        assert(dot_pos(t) == 1 + dot_pos(body));
        assert(whole_part(t) =~= seq!['-'] + wt);
        assert(frac_part(t) =~= tz);
        assert(t.last() == body.last());
        assert(negative_price(t));
        assert(whole_value(t) == Some(-(whole as int)));
        assert(-(whole as int) * d == -(whole * d)) by (nonlinear_arith);
    } else {
        assert(t == body);
        assert(whole_part(t) =~= wt);
        assert(frac_part(t) =~= tz);
        assert(!negative_price(t));
    }
    lemma_trim_plain(t);
    lemma_all_digits_ascii(tz);
    assert(tz + zeros((dec - tz.len()) as nat) == p);
    assert(frac_digits(tz, dec) =~= p);
    lemma_parse_digits(p);
    assert(frac <= i64::MAX);
}

/// What `format_solst` shows at one decimal place or more: a '-' for a
/// negative amount, the whole units, and, when the fraction is not zero, a
/// '.' and one to three fraction digits, taken from the front of the
/// fraction zero-padded to `decimals` digits with its trailing zeros
/// dropped (cut, never rounded up).
pub proof fn lemma_solst_text_shape(base: int, decimals: nat)
    requires
        decimals >= 1,
    ensures
        ({
            let a = if base < 0 { -base } else { base };
            let d = pow10(decimals) as int;
            let frac = (a % d) as nat;
            let f = first_three(trim_zeros(zero_pad(frac, decimals)));
            &&& solst_text(base, decimals) == (if base < 0 { seq!['-'] } else { Seq::<char>::empty() }) + nat_text(
                (a / d) as nat) + (if frac == 0 { Seq::<char>::empty() } else { seq!['.'] + f })
            &&& frac != 0 ==> 1 <= f.len() <= 3 && all_digits(f) && f.len() <= trim_zeros(zero_pad(frac, decimals)).len()
                && f == trim_zeros(zero_pad(frac, decimals)).take(f.len() as int)
        }),
{
    let a = if base < 0 { -base } else { base };
    lemma_pow10_positive(decimals);
    let d = pow10(decimals) as int;
    let frac = (a % d) as nat;
    let p = zero_pad(frac, decimals);
    let tz = trim_zeros(p);
    let f = first_three(tz);
    let t = solst_text(base, decimals);
    let body = if frac == 0 { nat_text((a / d) as nat) } else { nat_text((a / d) as nat) + seq!['.'] + f };
    if base < 0 {
        assert(t == seq!['-'] + body);
    } else {
        assert(t == body);
    }
    assert(t =~= (if base < 0 { seq!['-'] } else { Seq::<char>::empty() }) + nat_text((a / d) as nat) + (if frac == 0 {
        Seq::<char>::empty()
    } else {
        seq!['.'] + f
    }));
    if frac != 0 {
        lemma_zero_pad_digits(frac, decimals);
        lemma_trim_zeros_len(p);
        if tz.len() == 0 {
            assert(p =~= zeros(p.len()));
            lemma_digits_value_leading_zeros(p.len(), Seq::<char>::empty());
            assert(zeros(p.len()) + Seq::<char>::empty() =~= zeros(p.len()));
            assert(digits_value(Seq::<char>::empty()) == 0);
        }
        assert(all_digits(f)) by {
            assert forall|i: int| 0 <= i < f.len() implies is_digit(#[trigger] f[i]) by {
                assert(f[i] == tz[i]);
                assert(tz[i] == p[i]);
            }
        }
        assert(f =~= tz.take(f.len() as int));
    }
}

/// Reading back: a price that `format_solst` shows reads back, through
/// `parse_price_to_base` at the same decimals, as the same number of base
/// units, negative amounts included, whenever the shown text keeps every
/// digit of it: its fraction needs at most three digits.
pub proof fn lemma_solst_roundtrip(base: i64, decimals: u8)
    requires
        decimals <= 18,
        decimals == 0 || base != i64::MIN,
        decimals <= 3 || solst_fraction(base as int, decimals as nat) % pow10((decimals - 3) as nat) == 0,
    ensures
        !price_input_panics(solst_text(base as int, decimals as nat), decimals as nat),
        price_value(solst_text(base as int, decimals as nat), decimals as nat) == Some(base as int),
{
    let dec = decimals as nat;
    if dec == 0 {
        lemma_roundtrip_integer(base);
    } else if solst_fraction(base as int, dec) == 0 {
        lemma_roundtrip_no_fraction(base, dec);
    } else {
        lemma_roundtrip_fraction(base, dec);
    }
}

/// Reading back a stat bonus: the text that `format_stat_bonus` writes
/// reads, as `str::parse` reads a number (a leading '+' allowed), as the
/// bonus itself.
pub proof fn lemma_stat_bonus_reads_back(v: i32)
    ensures
        parse_i64(stat_bonus_text(v as int)) == Some(v as int),
{
    let a: nat = if v < 0 { (-v) as nat } else { v as nat };
    lemma_nat_text_digits(a);
    lemma_parse_digits(nat_text(a));
    if v > 0 {
        let t = seq!['+'] + nat_text(a);
        assert(t[0] == '+');
        assert(t.drop_first() =~= nat_text(a));
    }
}

} // verus!
