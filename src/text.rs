//! Character-level helpers shared by the collectors' text parsers: substring
//! search, whitespace trimming, and decimal reading and writing.

use vstd::prelude::*;
use vstd::string::*;

verus! {

/// The characters of `s`, in order.
pub fn chars_of(s: &str) -> (r: Vec<char>)
    ensures
        r@ == s@,
{
    let mut v: Vec<char> = Vec::new();
    for c in it: s.chars()
        invariant
            v@ == it.seq().take(it.index() as int),
    {
        v.push(c);
    }
    proof {
        broadcast use vstd::string::axiom_spec_iter;
    }
    assert(v@ =~= s@);
    v
}

/// The characters `s[from..to]` as a new `String`.
pub fn substring(s: &str, from: usize, to: usize) -> (r: String)
    requires
        from <= to <= s@.len(),
    ensures
        r@ == s@.subrange(from as int, to as int),
{
    s.substring_char(from, to).to_owned()
}

// ---------------------------------------------------------------------------
// Search
// ---------------------------------------------------------------------------

/// `pat` occurs in `s` starting at index `i`.
pub open spec fn matches_at(s: Seq<char>, pat: Seq<char>, i: int) -> bool {
    0 <= i && i + pat.len() <= s.len() && s.subrange(i, i + pat.len()) == pat
}

/// The first index at or after `i` where `pat` occurs in `s`.
pub open spec fn find_from(s: Seq<char>, pat: Seq<char>, i: int) -> Option<int>
    decreases s.len() + 1 - i,
{
    if i < 0 || i + pat.len() > s.len() {
        None
    } else if matches_at(s, pat, i) {
        Some(i)
    } else {
        find_from(s, pat, i + 1)
    }
}

/// The first index where `pat` occurs in `s`.
pub open spec fn find(s: Seq<char>, pat: Seq<char>) -> Option<int> {
    find_from(s, pat, 0)
}

/// `pat` occurs somewhere in `s`.
pub open spec fn contains(s: Seq<char>, pat: Seq<char>) -> bool {
    find(s, pat) is Some
}

/// `s` begins with `pat`.
pub open spec fn starts_with(s: Seq<char>, pat: Seq<char>) -> bool {
    pat.len() <= s.len() && s.subrange(0, pat.len() as int) == pat
}

pub proof fn lemma_find_from_bounds(s: Seq<char>, pat: Seq<char>, i: int)
    requires
        0 <= i,
    ensures
        find_from(s, pat, i) matches Some(k) ==> i <= k && matches_at(s, pat, k),
        find_from(s, pat, i) matches Some(k) ==> forall|j: int|
            i <= j < k ==> !matches_at(s, pat, j),
        find_from(s, pat, i) is None ==> forall|j: int| i <= j ==> !matches_at(s, pat, j),
    decreases s.len() + 1 - i,
{
    if i + pat.len() > s.len() {
    } else if matches_at(s, pat, i) {
    } else {
        lemma_find_from_bounds(s, pat, i + 1);
    }
}

/// `s[i..]` begins with `pat`.
fn matches_at_exec(s: &Vec<char>, pat: &Vec<char>, i: usize) -> (r: bool)
    requires
        i + pat@.len() <= s@.len(),
    ensures
        r == matches_at(s@, pat@, i as int),
{
    let n = s.len();
    let mut k: usize = 0;
    while k < pat.len()
        invariant
            n == s@.len(),
            k <= pat@.len(),
            i + pat@.len() <= s@.len(),
            forall|j: int| 0 <= j < k ==> s@[i + j] == pat@[j],
        decreases pat@.len() - k,
    {
        assert(i + k < s@.len());
        if s[i + k] != pat[k] {
            assert(s@.subrange(i as int, i + pat@.len())[k as int] != pat@[k as int]);
            return false;
        }
        k = k + 1;
    }
    assert(s@.subrange(i as int, i + pat@.len()) =~= pat@);
    true
}

/// The first index at or after `from` where `pat` occurs in `s`.
pub fn find_chars(s: &Vec<char>, pat: &Vec<char>, from: usize) -> (r: Option<usize>)
    ensures
        r matches Some(k) ==> find_from(s@, pat@, from as int) == Some(k as int),
        r is None ==> find_from(s@, pat@, from as int) is None,
{
    if pat.len() > s.len() {
        return None;
    }
    let last = s.len() - pat.len();
    let mut i = from;
    while i <= last
        invariant
            last + pat@.len() == s@.len(),
            from <= i,
            find_from(s@, pat@, from as int) == find_from(s@, pat@, i as int),
        decreases last + 1 - i,
    {
        if matches_at_exec(s, pat, i) {
            return Some(i);
        }
        if i == last {
            return None;
        }
        i = i + 1;
    }
    None
}

/// The first index where `pat` occurs in `s`.
pub fn find_str(s: &str, pat: &str) -> (r: Option<usize>)
    ensures
        r matches Some(k) ==> find(s@, pat@) == Some(k as int),
        r is None ==> find(s@, pat@) is None,
{
    let sv = chars_of(s);
    let pv = chars_of(pat);
    find_chars(&sv, &pv, 0)
}

/// `pat` occurs somewhere in `s`.
pub fn contains_str(s: &str, pat: &str) -> (r: bool)
    ensures
        r == contains(s@, pat@),
{
    find_str(s, pat).is_some()
}

/// `a` and `b` hold the same characters.
pub fn str_eq(a: &str, b: &str) -> (r: bool)
    ensures
        r == (a@ == b@),
{
    let av = chars_of(a);
    let bv = chars_of(b);
    if av.len() != bv.len() {
        return false;
    }
    let r = matches_at_exec(&av, &bv, 0);
    assert(av@.subrange(0, 0 + bv@.len() as int) =~= av@);
    r
}

/// `s` begins with `pat`.
pub fn starts_with_str(s: &str, pat: &str) -> (r: bool)
    ensures
        r == starts_with(s@, pat@),
{
    let sv = chars_of(s);
    let pv = chars_of(pat);
    if pv.len() > sv.len() {
        return false;
    }
    let r = matches_at_exec(&sv, &pv, 0);
    assert(sv@.subrange(0, pv@.len() as int) =~= sv@.subrange(0, 0 + pv@.len() as int));
    r
}


/// The last index where `c` occurs among the first `j` characters of `s`.
pub open spec fn rfind_before(s: Seq<char>, c: char, j: int) -> Option<int>
    decreases j,
{
    if j <= 0 || j > s.len() {
        None
    } else if s[j - 1] == c {
        Some(j - 1)
    } else {
        rfind_before(s, c, j - 1)
    }
}

/// The last index where `c` occurs in `s`.
pub open spec fn rfind(s: Seq<char>, c: char) -> Option<int> {
    rfind_before(s, c, s.len() as int)
}

pub proof fn lemma_rfind_bounds(s: Seq<char>, c: char, j: int)
    ensures
        rfind_before(s, c, j) matches Some(k) ==> 0 <= k < j <= s.len() && s[k] == c,
    decreases j,
{
    if j <= 0 || j > s.len() {
    } else if s[j - 1] == c {
    } else {
        lemma_rfind_bounds(s, c, j - 1);
    }
}

/// The last index where `c` occurs in `s`.
pub fn rfind_char(s: &Vec<char>, c: char) -> (r: Option<usize>)
    ensures
        r matches Some(k) ==> rfind(s@, c) == Some(k as int),
        r is None ==> rfind(s@, c) is None,
{
    let mut j = s.len();
    while j > 0
        invariant
            j <= s@.len(),
            rfind(s@, c) == rfind_before(s@, c, j as int),
        decreases j,
    {
        if s[j - 1] == c {
            return Some(j - 1);
        }
        j = j - 1;
    }
    None
}

/// The first index at or after `i` whose character is one of `set`.
pub open spec fn find_any_from(s: Seq<char>, set: Seq<char>, i: int) -> Option<int>
    decreases s.len() - i,
{
    if i < 0 || i >= s.len() {
        None
    } else if set.contains(s[i]) {
        Some(i)
    } else {
        find_any_from(s, set, i + 1)
    }
}

fn vec_contains(set: &Vec<char>, c: char) -> (r: bool)
    ensures
        r == set@.contains(c),
{
    let mut i: usize = 0;
    while i < set.len()
        invariant
            i <= set@.len(),
            forall|j: int| 0 <= j < i ==> set@[j] != c,
        decreases set@.len() - i,
    {
        if set[i] == c {
            assert(set@[i as int] == c);
            return true;
        }
        i = i + 1;
    }
    false
}

/// The first index at or after `from` whose character is one of `set`.
pub fn find_any(s: &Vec<char>, set: &Vec<char>, from: usize) -> (r: Option<usize>)
    ensures
        r matches Some(k) ==> find_any_from(s@, set@, from as int) == Some(k as int),
        r is None ==> find_any_from(s@, set@, from as int) is None,
{
    let mut i = from;
    while i < s.len()
        invariant
            from <= i,
            find_any_from(s@, set@, from as int) == find_any_from(s@, set@, i as int),
        decreases s@.len() - i,
    {
        if vec_contains(set, s[i]) {
            return Some(i);
        }
        i = i + 1;
    }
    None
}

// ---------------------------------------------------------------------------
// Whitespace
// ---------------------------------------------------------------------------

/// The characters with the Unicode `White_Space` property.
pub open spec fn is_white_space(c: char) -> bool {
    let u = c as u32;
    ||| 9 <= u <= 13
    ||| u == 32
    ||| u == 0x85
    ||| u == 0xA0
    ||| u == 0x1680
    ||| 0x2000 <= u <= 0x200A
    ||| u == 0x2028
    ||| u == 0x2029
    ||| u == 0x202F
    ||| u == 0x205F
    ||| u == 0x3000
}

fn is_white_space_exec(c: char) -> (r: bool)
    ensures
        r == is_white_space(c),
{
    let u = c as u32;
    (9 <= u && u <= 13) || u == 32 || u == 0x85 || u == 0xA0 || u == 0x1680 || (0x2000 <= u
        && u <= 0x200A) || u == 0x2028 || u == 0x2029 || u == 0x202F || u == 0x205F || u
        == 0x3000
}

/// The index of the first character at or after `i` that is not white space.
pub open spec fn skip_white(s: Seq<char>, i: int) -> int
    decreases s.len() - i,
{
    if 0 <= i < s.len() && is_white_space(s[i]) {
        skip_white(s, i + 1)
    } else {
        i
    }
}

/// The end of `s[lo..j]` once trailing white space is dropped.
pub open spec fn back_white(s: Seq<char>, lo: int, j: int) -> int
    decreases j - lo,
{
    if lo < j <= s.len() && is_white_space(s[j - 1]) {
        back_white(s, lo, j - 1)
    } else {
        j
    }
}

/// `s` without leading and trailing white space.
pub open spec fn trim(s: Seq<char>) -> Seq<char> {
    let lo = skip_white(s, 0);
    s.subrange(lo, back_white(s, lo, s.len() as int))
}

/// `s` without leading and trailing white space.
pub fn trim_str(s: &str) -> (r: String)
    ensures
        r@ == trim(s@),
{
    let v = chars_of(s);
    let n = v.len();
    let mut lo: usize = 0;
    while lo < n && is_white_space_exec(v[lo])
        invariant
            n == v@.len(),
            lo <= n,
            skip_white(v@, 0) == skip_white(v@, lo as int),
        decreases n - lo,
    {
        lo = lo + 1;
    }
    let mut hi: usize = n;
    while hi > lo && is_white_space_exec(v[hi - 1])
        invariant
            n == v@.len(),
            lo <= hi <= n,
            skip_white(v@, 0) == lo,
            back_white(v@, lo as int, n as int) == back_white(v@, lo as int, hi as int),
        decreases hi,
    {
        hi = hi - 1;
    }
    substring(s, lo, hi)
}

// ---------------------------------------------------------------------------
// Decimal numbers
// ---------------------------------------------------------------------------

pub open spec fn is_digit(c: char) -> bool {
    '0' <= c <= '9'
}

pub open spec fn digit_value(c: char) -> nat {
    (c as u32 - '0' as u32) as nat
}

pub open spec fn all_digits(s: Seq<char>) -> bool {
    forall|i: int| 0 <= i < s.len() ==> is_digit(#[trigger] s[i])
}

/// The number written by the decimal digits `s` (most significant first).
pub open spec fn digits_value(s: Seq<char>) -> nat
    decreases s.len(),
{
    if s.len() == 0 {
        0
    } else {
        digits_value(s.drop_last()) * 10 + digit_value(s.last())
    }
}

/// The number written by the digits `d[..k]`, and whether it exceeds `u64::MAX`.
fn digits_value_prefix(d: &Vec<char>) -> (r: (u64, bool))
    requires
        all_digits(d@),
    ensures
        r.1 == (digits_value(d@) > u64::MAX),
        !r.1 ==> r.0 == digits_value(d@),
{
    let mut acc: u64 = 0;
    let mut over = false;
    let mut i: usize = 0;
    while i < d.len()
        invariant
            i <= d@.len(),
            all_digits(d@),
            over == (digits_value(d@.take(i as int)) > u64::MAX),
            !over ==> acc == digits_value(d@.take(i as int)),
        decreases d@.len() - i,
    {
        let c = d[i];
        assert(is_digit(d@[i as int]));
        let x = (c as u32 - '0' as u32) as u64;
        assert(d@.take(i + 1).drop_last() =~= d@.take(i as int));
        assert(d@.take(i + 1).last() == c);
        let ghost prev = digits_value(d@.take(i as int));
        assert(digits_value(d@.take(i + 1)) == prev * 10 + x);
        if over {
            assert(prev * 10 + x > u64::MAX) by (nonlinear_arith)
                requires
                    prev > u64::MAX,
                    x >= 0,
            ;
        } else if acc > (u64::MAX - x) / 10 {
            assert(prev * 10 + x > u64::MAX) by (nonlinear_arith)
                requires
                    prev == acc,
                    acc > (u64::MAX - x) / 10,
                    0 <= x <= 9,
            ;
            over = true;
        } else {
            assert(acc * 10 + x <= u64::MAX) by (nonlinear_arith)
                requires
                    acc <= (u64::MAX - x) / 10,
                    0 <= x <= 9,
            ;
            acc = acc * 10 + x;
        }
        i = i + 1;
    }
    assert(d@.take(d@.len() as int) =~= d@);
    (acc, over)
}

/// What `u64`'s `FromStr` reads: an optional `+`, then one or more decimal
/// digits whose value fits in a `u64`.
pub open spec fn parse_u64_spec(s: Seq<char>) -> Option<u64> {
    let d = if s.len() > 0 && s[0] == '+' {
        s.drop_first()
    } else {
        s
    };
    if d.len() > 0 && all_digits(d) && digits_value(d) <= u64::MAX {
        Some(digits_value(d) as u64)
    } else {
        None
    }
}

fn all_digits_exec(v: &Vec<char>, from: usize, to: usize) -> (r: bool)
    requires
        from <= to <= v@.len(),
    ensures
        r == all_digits(v@.subrange(from as int, to as int)),
{
    let mut i = from;
    while i < to
        invariant
            from <= i <= to <= v@.len(),
            all_digits(v@.subrange(from as int, i as int)),
        decreases to - i,
    {
        if !('0' <= v[i] && v[i] <= '9') {
            assert(!is_digit(v@.subrange(from as int, to as int)[i - from]));
            return false;
        }
        assert(v@.subrange(from as int, i + 1) =~= v@.subrange(from as int, i as int).push(v@[i as int]));
        i = i + 1;
    }
    true
}

fn copy_range(v: &Vec<char>, from: usize, to: usize) -> (r: Vec<char>)
    requires
        from <= to <= v@.len(),
    ensures
        r@ == v@.subrange(from as int, to as int),
{
    let mut r: Vec<char> = Vec::new();
    let mut i = from;
    while i < to
        invariant
            from <= i <= to <= v@.len(),
            r@ == v@.subrange(from as int, i as int),
        decreases to - i,
    {
        r.push(v[i]);
        assert(r@ =~= v@.subrange(from as int, i + 1));
        i = i + 1;
    }
    r
}

/// Reads an unsigned decimal integer as `u64`'s `FromStr` does.
pub fn parse_u64(s: &str) -> (r: Option<u64>)
    ensures
        r == parse_u64_spec(s@),
{
    let v = chars_of(s);
    let start: usize = if v.len() > 0 && v[0] == '+' { 1 } else { 0 };
    assert(v@.subrange(start as int, v@.len() as int) =~= (if v@.len() > 0 && v@[0] == '+' {
        v@.drop_first()
    } else {
        v@
    }));
    if start >= v.len() || !all_digits_exec(&v, start, v.len()) {
        return None;
    }
    let d = copy_range(&v, start, v.len());
    let (value, over) = digits_value_prefix(&d);
    if over {
        None
    } else {
        Some(value)
    }
}


/// The first `places` fractional digits of `frac`, padded with `0`.
pub open spec fn pad_fraction(frac: Seq<char>, places: nat) -> Seq<char> {
    Seq::new(places, |k: int| if k < frac.len() { frac[k] } else { '0' })
}

/// `s` without a leading sign character.
pub open spec fn unsigned_part(s: Seq<char>) -> Seq<char> {
    if s.len() > 0 && (s[0] == '+' || s[0] == '-') {
        s.drop_first()
    } else {
        s
    }
}

/// The digits before the decimal point of an unsigned decimal.
pub open spec fn integer_digits(u: Seq<char>) -> Seq<char> {
    match find(u, seq!['.']) {
        Some(k) => u.take(k),
        None => u,
    }
}

/// The digits after the decimal point of an unsigned decimal.
pub open spec fn fraction_digits(u: Seq<char>) -> Seq<char> {
    match find(u, seq!['.']) {
        Some(k) => u.skip(k + 1),
        None => seq![],
    }
}

/// A decimal number `[+-]digits[.digits]` (at least one digit) scaled by
/// `10^places` and truncated toward zero, saturating at the bounds of `u64`:
/// negative numbers read as `0`. Exponents and non-finite values are not
/// accepted.
pub open spec fn parse_scaled_spec(s: Seq<char>, places: nat) -> Option<u64> {
    let u = unsigned_part(s);
    let ip = integer_digits(u);
    let fp = fraction_digits(u);
    if all_digits(ip) && all_digits(fp) && ip.len() + fp.len() > 0 {
        if s[0] == '-' {
            Some(0)
        } else {
            let v = digits_value(ip + pad_fraction(fp, places));
            Some(if v > u64::MAX { u64::MAX } else { v as u64 })
        }
    } else {
        None
    }
}

/// Reads a decimal number scaled by `10^places` (see `parse_scaled_spec`).
pub fn parse_scaled(s: &str, places: usize) -> (r: Option<u64>)
    ensures
        r == parse_scaled_spec(s@, places as nat),
{
    let v = chars_of(s);
    let n = v.len();
    let start: usize = if n > 0 && (v[0] == '+' || v[0] == '-') { 1 } else { 0 };
    let negative = n > 0 && v[0] == '-';
    let u = copy_range(&v, start, n);
    assert(u@ =~= unsigned_part(s@));
    let dot_pat = vec!['.'];
    assert(dot_pat@ =~= seq!['.']);
    let dot = find_chars(&u, &dot_pat, 0);
    let (int_end, frac_start) = match dot {
        Some(k) => {
            proof {
                lemma_find_from_bounds(u@, seq!['.'], 0);
            }
            (k, k + 1)
        },
        None => (u.len(), u.len()),
    };
    assert(u@.subrange(0, int_end as int) =~= integer_digits(u@));
    assert(u@.subrange(frac_start as int, u@.len() as int) =~= fraction_digits(u@));
    if !all_digits_exec(&u, 0, int_end) || !all_digits_exec(&u, frac_start, u.len()) {
        return None;
    }
    if int_end + (u.len() - frac_start) == 0 {
        return None;
    }
    if negative {
        return Some(0);
    }
    let mut d = copy_range(&u, 0, int_end);
    let mut k: usize = 0;
    while k < places
        invariant
            k <= places,
            int_end <= frac_start <= u@.len(),
            d@ == u@.subrange(0, int_end as int) + pad_fraction(
                u@.subrange(frac_start as int, u@.len() as int),
                k as nat,
            ),
        decreases places - k,
    {
        let c = if k < u.len() - frac_start {
            u[frac_start + k]
        } else {
            '0'
        };
        d.push(c);
        assert(d@ =~= u@.subrange(0, int_end as int) + pad_fraction(
            u@.subrange(frac_start as int, u@.len() as int),
            (k + 1) as nat,
        ));
        k = k + 1;
    }
    let ghost fp = u@.subrange(frac_start as int, u@.len() as int);
    assert(all_digits(d@)) by {
        assert forall|i: int| 0 <= i < d@.len() implies is_digit(#[trigger] d@[i]) by {
            if i >= int_end {
                let j = i - int_end;
                if j < fp.len() {
                    assert(fp[j] == u@.subrange(frac_start as int, u@.len() as int)[j]);
                }
            } else {
                assert(u@.subrange(0, int_end as int)[i] == d@[i]);
            }
        }
    }
    let (value, over) = digits_value_prefix(&d);
    if over {
        Some(u64::MAX)
    } else {
        Some(value)
    }
}

// ---------------------------------------------------------------------------
// Decimal text
// ---------------------------------------------------------------------------

pub open spec fn digit_char(d: nat) -> char {
    if d == 0 {
        '0'
    } else if d == 1 {
        '1'
    } else if d == 2 {
        '2'
    } else if d == 3 {
        '3'
    } else if d == 4 {
        '4'
    } else if d == 5 {
        '5'
    } else if d == 6 {
        '6'
    } else if d == 7 {
        '7'
    } else if d == 8 {
        '8'
    } else {
        '9'
    }
}

/// The decimal digits of `n`, without leading zeros.
pub open spec fn decimal(n: nat) -> Seq<char>
    decreases n,
{
    if n < 10 {
        seq![digit_char(n)]
    } else {
        decimal(n / 10) + seq![digit_char(n % 10)]
    }
}

/// The decimal digits of `n`, with a leading zero below ten.
pub open spec fn two_digits(n: nat) -> Seq<char> {
    if n < 10 {
        seq!['0'] + decimal(n)
    } else {
        decimal(n)
    }
}

fn digit_str(d: u64) -> (r: &'static str)
    requires
        d < 10,
    ensures
        r@ == seq![digit_char(d as nat)],
{
    proof {
        reveal_strlit("0");
        reveal_strlit("1");
        reveal_strlit("2");
        reveal_strlit("3");
        reveal_strlit("4");
        reveal_strlit("5");
        reveal_strlit("6");
        reveal_strlit("7");
        reveal_strlit("8");
        reveal_strlit("9");
    }
    let r = if d == 0 {
        "0"
    } else if d == 1 {
        "1"
    } else if d == 2 {
        "2"
    } else if d == 3 {
        "3"
    } else if d == 4 {
        "4"
    } else if d == 5 {
        "5"
    } else if d == 6 {
        "6"
    } else if d == 7 {
        "7"
    } else if d == 8 {
        "8"
    } else {
        "9"
    };
    assert(r@ =~= seq![digit_char(d as nat)]);
    r
}

/// Appends the decimal digits of `n` to `out`.
pub fn push_decimal(out: &mut String, n: u64)
    ensures
        final(out)@ == old(out)@ + decimal(n as nat),
    decreases n,
{
    if n < 10 {
        out.append(digit_str(n));
    } else {
        push_decimal(out, n / 10);
        out.append(digit_str(n % 10));
        assert(final(out)@ =~= old(out)@ + decimal(n as nat));
    }
}

/// Appends `n` (below one hundred) as two decimal digits to `out`.
pub fn push_two_digits(out: &mut String, n: u64)
    requires
        n < 100,
    ensures
        final(out)@ == old(out)@ + two_digits(n as nat),
{
    if n < 10 {
        out.append("0");
        proof {
            reveal_strlit("0");
        }
    }
    push_decimal(out, n);
    assert(final(out)@ =~= old(out)@ + two_digits(n as nat));
}


// ---------------------------------------------------------------------------
// Lines and words
// ---------------------------------------------------------------------------

/// `t` without one trailing carriage return.
pub open spec fn drop_cr(t: Seq<char>) -> Seq<char> {
    if t.len() > 0 && t.last() == '\r' {
        t.drop_last()
    } else {
        t
    }
}

/// The lines of `s[start..]`, where the current line began at `start` and
/// `i` is the next character to read: split at `\n`, each ended line without
/// a trailing `\r`, and no empty last line.
pub open spec fn lines_from(s: Seq<char>, start: int, i: int) -> Seq<Seq<char>>
    decreases s.len() - i,
{
    if i < 0 || i >= s.len() {
        if 0 <= start < s.len() {
            seq![s.subrange(start, s.len() as int)]
        } else {
            seq![]
        }
    } else if s[i] == '\n' {
        seq![drop_cr(s.subrange(start, i))] + lines_from(s, i + 1, i + 1)
    } else {
        lines_from(s, start, i + 1)
    }
}

/// The lines of `s`, as `str::lines` gives them.
pub open spec fn lines(s: Seq<char>) -> Seq<Seq<char>> {
    lines_from(s, 0, 0)
}

/// The words of `s[i..]`, where the current word began at `start`: maximal
/// runs of characters that are not white space.
pub open spec fn words_from(s: Seq<char>, start: int, i: int) -> Seq<Seq<char>>
    decreases s.len() - i,
{
    if i < 0 || i >= s.len() {
        if 0 <= start < s.len() {
            seq![s.subrange(start, s.len() as int)]
        } else {
            seq![]
        }
    } else if is_white_space(s[i]) {
        (if start < i {
            seq![s.subrange(start, i)]
        } else {
            seq![]
        }) + words_from(s, i + 1, i + 1)
    } else {
        words_from(s, start, i + 1)
    }
}

/// The words of `s`, as `str::split_whitespace` gives them.
pub open spec fn words(s: Seq<char>) -> Seq<Seq<char>> {
    words_from(s, 0, 0)
}

/// The texts of `v`.
pub open spec fn string_texts(v: Seq<String>) -> Seq<Seq<char>> {
    v.map_values(|x: String| x@)
}

/// The lines of `s`, as `str::lines` gives them.
pub fn lines_of(s: &str) -> (r: Vec<String>)
    ensures
        string_texts(r@) == lines(s@),
{
    let v = chars_of(s);
    let n = v.len();
    let mut r: Vec<String> = Vec::new();
    let mut start: usize = 0;
    let mut i: usize = 0;
    while i < n
        invariant
            n == v@.len() == s@.len(),
            v@ == s@,
            start <= i <= n,
            string_texts(r@) + lines_from(s@, start as int, i as int) == lines(s@),
        decreases n - i,
    {
        if v[i] == '\n' {
            let end = if i > start && v[i - 1] == '\r' {
                i - 1
            } else {
                i
            };
            let line = substring(s, start, end);
            assert(line@ == drop_cr(s@.subrange(start as int, i as int)));
            let ghost before = r@;
            r.push(line);
            assert(string_texts(r@) =~= string_texts(before) + seq![line@]);
            assert(string_texts(r@) + lines_from(s@, i + 1, i + 1) =~= string_texts(before)
                + lines_from(s@, start as int, i as int));
            start = i + 1;
        }
        i = i + 1;
    }
    if start < n {
        let line = substring(s, start, n);
        let ghost before = r@;
        r.push(line);
        assert(string_texts(r@) =~= string_texts(before) + seq![line@]);
    }
    assert(string_texts(r@) =~= lines(s@));
    r
}

/// The words of `s`, as `str::split_whitespace` gives them.
pub fn words_of(s: &str) -> (r: Vec<String>)
    ensures
        string_texts(r@) == words(s@),
{
    let v = chars_of(s);
    let n = v.len();
    let mut r: Vec<String> = Vec::new();
    let mut start: usize = 0;
    let mut i: usize = 0;
    while i < n
        invariant
            n == v@.len() == s@.len(),
            v@ == s@,
            start <= i <= n,
            string_texts(r@) + words_from(s@, start as int, i as int) == words(s@),
        decreases n - i,
    {
        if is_white_space_exec(v[i]) {
            if start < i {
                let word = substring(s, start, i);
                let ghost before = r@;
                r.push(word);
                assert(string_texts(r@) =~= string_texts(before) + seq![word@]);
                assert(string_texts(r@) + words_from(s@, i + 1, i + 1) =~= string_texts(before)
                    + words_from(s@, start as int, i as int));
            } else {
                assert(words_from(s@, start as int, i as int) =~= words_from(s@, i + 1, i + 1));
            }
            start = i + 1;
        }
        i = i + 1;
    }
    if start < n {
        let word = substring(s, start, n);
        let ghost before = r@;
        r.push(word);
        assert(string_texts(r@) =~= string_texts(before) + seq![word@]);
    }
    assert(string_texts(r@) =~= words(s@));
    r
}

} // verus!
