//! Character classes, substring search and numeric text, with exact
//! specifications: the building blocks of the event grammar.

use vstd::prelude::*;
use vstd::string::*;

verus! {

// ---------------------------------------------------------------------------
// Character classes
// ---------------------------------------------------------------------------

/// An ASCII decimal digit.
pub open spec fn is_digit(c: char) -> bool {
    48 <= c as u32 && c as u32 <= 57
}

/// A character allowed inside a decimal coordinate: a digit or a dot.
pub open spec fn is_float_char(c: char) -> bool {
    is_digit(c) || c == '.'
}

/// An ASCII word character: letter, digit or underscore.
pub open spec fn is_word_char(c: char) -> bool {
    is_digit(c) || (97 <= c as u32 && c as u32 <= 122) || (65 <= c as u32 && c as u32 <= 90) || c
        == '_'
}

/// A whitespace character (the Unicode white-space set).
pub open spec fn is_ws(c: char) -> bool {
    let u = c as u32;
    u == 9 || u == 10 || u == 11 || u == 12 || u == 13 || u == 32 || u == 0x85 || u == 0xA0 || u
        == 0x1680 || (0x2000 <= u && u <= 0x200A) || u == 0x2028 || u == 0x2029 || u == 0x202F || u
        == 0x205F || u == 0x3000
}

pub fn is_digit_exec(c: char) -> (b: bool)
    ensures
        b == is_digit(c),
{
    48 <= c as u32 && c as u32 <= 57
}

pub fn is_float_char_exec(c: char) -> (b: bool)
    ensures
        b == is_float_char(c),
{
    is_digit_exec(c) || c == '.'
}

pub fn is_word_char_exec(c: char) -> (b: bool)
    ensures
        b == is_word_char(c),
{
    is_digit_exec(c) || (97 <= c as u32 && c as u32 <= 122) || (65 <= c as u32 && c as u32 <= 90)
        || c == '_'
}

pub fn is_ws_exec(c: char) -> (b: bool)
    ensures
        b == is_ws(c),
{
    let u = c as u32;
    u == 9 || u == 10 || u == 11 || u == 12 || u == 13 || u == 32 || u == 0x85 || u == 0xA0 || u
        == 0x1680 || (0x2000 <= u && u <= 0x200A) || u == 0x2028 || u == 0x2029 || u == 0x202F || u
        == 0x205F || u == 0x3000
}

// ---------------------------------------------------------------------------
// Substring matching and leftmost search
// ---------------------------------------------------------------------------

/// `pat` occurs in `s` starting exactly at index `i`.
pub open spec fn match_at(s: Seq<char>, pat: Seq<char>, i: int) -> bool {
    0 <= i && i + pat.len() <= s.len() && s.subrange(i, i + pat.len()) == pat
}

/// The first index at or after `from` where `pat` occurs in `s`, if any.
pub open spec fn first_match_from(s: Seq<char>, pat: Seq<char>, from: int) -> Option<int>
    decreases s.len() - from,
{
    if pat.len() == 0 || !(0 <= from && from + pat.len() <= s.len()) {
        None
    } else if match_at(s, pat, from) {
        Some(from)
    } else {
        first_match_from(s, pat, from + 1)
    }
}

/// What `first_match_from` returns: the match it names is real and is the
/// first one, and a `None` means there is none at all.
pub proof fn lemma_first_match_from_props(s: Seq<char>, pat: Seq<char>, from: int)
    requires
        0 <= from,
        pat.len() > 0,
    ensures
        match first_match_from(s, pat, from) {
            Some(i) => from <= i && match_at(s, pat, i) && forall|j: int|
                from <= j < i ==> !match_at(s, pat, j),
            None => forall|j: int| j >= from ==> !match_at(s, pat, j),
        },
    decreases s.len() - from,
{
    if !(from + pat.len() <= s.len()) {
        assert(forall|j: int| j >= from ==> !match_at(s, pat, j));
    } else if match_at(s, pat, from) {
    } else {
        lemma_first_match_from_props(s, pat, from + 1);
    }
}

/// Finds the first occurrence of `pat` in `hay` at or after `from`.
pub fn find_from(hay: &Vec<char>, pat: &Vec<char>, from: usize) -> (r: Option<usize>)
    requires
        pat@.len() > 0,
    ensures
        match r {
            Some(i) => first_match_from(hay@, pat@, from as int) == Some(i as int),
            None => first_match_from(hay@, pat@, from as int) is None,
        },
{
    if pat.len() > hay.len() || from > hay.len() - pat.len() {
        return None;
    }
    let mut i: usize = from;
    while i <= hay.len() - pat.len()
        invariant
            from <= i <= hay@.len() - pat@.len() + 1,
            0 < pat@.len() <= hay@.len(),
            first_match_from(hay@, pat@, from as int) == first_match_from(hay@, pat@, i as int),
        decreases hay@.len() - i,
    {
        if match_at_exec(hay, pat, i) {
            return Some(i);
        }
        i = i + 1;
    }
    None
}

/// Whether `pat` occurs in `hay` starting exactly at `i`.
pub fn match_at_exec(hay: &Vec<char>, pat: &Vec<char>, i: usize) -> (b: bool)
    requires
        i + pat@.len() <= hay@.len(),
    ensures
        b == match_at(hay@, pat@, i as int),
{
    let hn = hay.len();
    let mut j: usize = 0;
    while j < pat.len()
        invariant
            j <= pat@.len(),
            i + pat@.len() <= hn == hay@.len(),
            forall|k: int| 0 <= k < j ==> hay@[i + k] == pat@[k],
        decreases pat@.len() - j,
    {
        if hay[i + j] != pat[j] {
            assert(hay@.subrange(i as int, i + pat@.len())[j as int] != pat@[j as int]);
            return false;
        }
        j = j + 1;
    }
    assert(hay@.subrange(i as int, i + pat@.len()) =~= pat@);
    true
}

// ---------------------------------------------------------------------------
// Character runs
// ---------------------------------------------------------------------------

/// The end of the maximal run of digits starting at `i`.
pub open spec fn digit_run_end(s: Seq<char>, i: int) -> int
    decreases s.len() - i,
{
    if 0 <= i < s.len() && is_digit(s[i]) {
        digit_run_end(s, i + 1)
    } else {
        i
    }
}

/// The end of the maximal run of coordinate characters starting at `i`.
pub open spec fn float_run_end(s: Seq<char>, i: int) -> int
    decreases s.len() - i,
{
    if 0 <= i < s.len() && is_float_char(s[i]) {
        float_run_end(s, i + 1)
    } else {
        i
    }
}

/// The end of the maximal run of word characters starting at `i`.
pub open spec fn word_run_end(s: Seq<char>, i: int) -> int
    decreases s.len() - i,
{
    if 0 <= i < s.len() && is_word_char(s[i]) {
        word_run_end(s, i + 1)
    } else {
        i
    }
}

/// A run never moves backwards nor past the end of the text.
pub proof fn lemma_digit_run_end_bounds(s: Seq<char>, i: int)
    requires
        0 <= i <= s.len(),
    ensures
        i <= digit_run_end(s, i) <= s.len(),
    decreases s.len() - i,
{
    if i < s.len() && is_digit(s[i]) {
        lemma_digit_run_end_bounds(s, i + 1);
    }
}

/// Every character inside a digit run is a digit.
pub proof fn lemma_digit_run_all_digits(s: Seq<char>, i: int)
    requires
        0 <= i <= s.len(),
    ensures
        forall|k: int| i <= k < digit_run_end(s, i) ==> is_digit(s[k]),
    decreases s.len() - i,
{
    if i < s.len() && is_digit(s[i]) {
        lemma_digit_run_all_digits(s, i + 1);
    }
}

pub proof fn lemma_float_run_end_bounds(s: Seq<char>, i: int)
    requires
        0 <= i <= s.len(),
    ensures
        i <= float_run_end(s, i) <= s.len(),
    decreases s.len() - i,
{
    if i < s.len() && is_float_char(s[i]) {
        lemma_float_run_end_bounds(s, i + 1);
    }
}

pub proof fn lemma_word_run_end_bounds(s: Seq<char>, i: int)
    requires
        0 <= i <= s.len(),
    ensures
        i <= word_run_end(s, i) <= s.len(),
    decreases s.len() - i,
{
    if i < s.len() && is_word_char(s[i]) {
        lemma_word_run_end_bounds(s, i + 1);
    }
}

pub fn digit_run_end_exec(v: &Vec<char>, i: usize) -> (e: usize)
    requires
        i <= v@.len(),
    ensures
        e as int == digit_run_end(v@, i as int),
        i <= e <= v@.len(),
{
    let mut j: usize = i;
    while j < v.len() && is_digit_exec(v[j])
        invariant
            i <= j <= v@.len(),
            digit_run_end(v@, i as int) == digit_run_end(v@, j as int),
        decreases v@.len() - j,
    {
        j = j + 1;
    }
    proof {
        lemma_digit_run_end_bounds(v@, j as int);
    }
    j
}

pub fn float_run_end_exec(v: &Vec<char>, i: usize) -> (e: usize)
    requires
        i <= v@.len(),
    ensures
        e as int == float_run_end(v@, i as int),
        i <= e <= v@.len(),
{
    let mut j: usize = i;
    while j < v.len() && is_float_char_exec(v[j])
        invariant
            i <= j <= v@.len(),
            float_run_end(v@, i as int) == float_run_end(v@, j as int),
        decreases v@.len() - j,
    {
        j = j + 1;
    }
    proof {
        lemma_float_run_end_bounds(v@, j as int);
    }
    j
}

pub fn word_run_end_exec(v: &Vec<char>, i: usize) -> (e: usize)
    requires
        i <= v@.len(),
    ensures
        e as int == word_run_end(v@, i as int),
        i <= e <= v@.len(),
{
    let mut j: usize = i;
    while j < v.len() && is_word_char_exec(v[j])
        invariant
            i <= j <= v@.len(),
            word_run_end(v@, i as int) == word_run_end(v@, j as int),
        decreases v@.len() - j,
    {
        j = j + 1;
    }
    proof {
        lemma_word_run_end_bounds(v@, j as int);
    }
    j
}

// ---------------------------------------------------------------------------
// Conversions between strings and character vectors
// ---------------------------------------------------------------------------

/// The characters of `s`, in order.
pub fn chars_of(s: &str) -> (v: Vec<char>)
    ensures
        v@ == s@,
{
    let n = s.unicode_len();
    let mut v: Vec<char> = Vec::new();
    let mut i: usize = 0;
    while i < n
        invariant
            i <= n,
            n == s@.len(),
            v@ == s@.subrange(0, i as int),
        decreases n - i,
    {
        v.push(s.get_char(i));
        assert(v@ =~= s@.subrange(0, i + 1));
        i = i + 1;
    }
    assert(v@ =~= s@);
    v
}

/// Relies on `String::push`: appends exactly the given character at the end.
pub assume_specification [String::push] (s: &mut String, c: char)
    ensures
        final (s)@ == old(s)@.push(c),
;

/// A string holding exactly the characters of `v`, in order.
pub fn string_from_chars(v: &Vec<char>) -> (s: String)
    ensures
        s@ == v@,
{
    let mut s = String::new();
    let mut i: usize = 0;
    while i < v.len()
        invariant
            i <= v@.len(),
            s@ == v@.subrange(0, i as int),
        decreases v@.len() - i,
    {
        s.push(v[i]);
        assert(s@ =~= v@.subrange(0, i + 1));
        i = i + 1;
    }
    assert(s@ =~= v@);
    s
}

/// A copy of `v[a .. b]`.
pub fn copy_range(v: &Vec<char>, a: usize, b: usize) -> (out: Vec<char>)
    requires
        a <= b <= v@.len(),
    ensures
        out@ == v@.subrange(a as int, b as int),
{
    let mut out: Vec<char> = Vec::new();
    let mut i: usize = a;
    while i < b
        invariant
            a <= i <= b <= v@.len(),
            out@ == v@.subrange(a as int, i as int),
        decreases b - i,
    {
        out.push(v[i]);
        assert(out@ =~= v@.subrange(a as int, i + 1));
        i = i + 1;
    }
    out
}

/// Whether the two vectors hold the same characters.
pub fn chars_eq(a: &Vec<char>, b: &Vec<char>) -> (r: bool)
    ensures
        r == (a@ == b@),
{
    if a.len() != b.len() {
        assert(a@.len() != b@.len());
        return false;
    }
    let mut i: usize = 0;
    while i < a.len()
        invariant
            i <= a@.len(),
            a@.len() == b@.len(),
            forall|k: int| 0 <= k < i ==> a@[k] == b@[k],
        decreases a@.len() - i,
    {
        if a[i] != b[i] {
            return false;
        }
        i = i + 1;
    }
    assert(a@ =~= b@);
    true
}

// ---------------------------------------------------------------------------
// Decimal digit strings and their values
// ---------------------------------------------------------------------------

/// The numeric value of one digit character.
pub open spec fn digit_val(c: char) -> nat {
    (c as u32 - 48) as nat
}

/// The decimal value of a digit string, most significant digit first.
pub open spec fn digits_val(s: Seq<char>) -> nat
    decreases s.len(),
{
    if s.len() == 0 {
        0
    } else {
        digits_val(s.drop_last()) * 10 + digit_val(s.last())
    }
}

/// A digit string is worth at least as much as any of its prefixes.
pub proof fn lemma_digits_val_prefix_le(s: Seq<char>, i: int)
    requires
        0 <= i <= s.len(),
    ensures
        digits_val(s.subrange(0, i)) <= digits_val(s),
    decreases s.len() - i,
{
    if i == s.len() {
        assert(s.subrange(0, i) =~= s);
    } else {
        let t = s.subrange(0, i + 1);
        assert(t.drop_last() =~= s.subrange(0, i));
        assert(digits_val(t) == digits_val(s.subrange(0, i)) * 10 + digit_val(t.last()));
        lemma_digits_val_prefix_le(s, i + 1);
    }
}

/// Reads `v[a .. b]`, a digit string, as a decimal number, refusing a value
/// above `max`.
pub fn digits_to_u64(v: &Vec<char>, a: usize, b: usize, max: u64) -> (r: Option<u64>)
    requires
        a <= b <= v@.len(),
        forall|k: int| a <= k < b ==> is_digit(v@[k]),
    ensures
        match r {
            Some(x) => digits_val(v@.subrange(a as int, b as int)) == x as nat && x <= max,
            None => digits_val(v@.subrange(a as int, b as int)) > max,
        },
{
    let mut acc: u128 = 0;
    let mut k: usize = a;
    while k < b
        invariant
            a <= k <= b <= v@.len(),
            forall|t: int| a <= t < b ==> is_digit(v@[t]),
            acc as nat == digits_val(v@.subrange(a as int, k as int)),
            acc <= max as u128,
        decreases b - k,
    {
        let c = v[k];
        assert(is_digit(v@[k as int]));
        let d: u128 = (c as u32 - 48) as u128;
        let acc2: u128 = acc * 10 + d;
        proof {
            let t = v@.subrange(a as int, k + 1);
            assert(t.drop_last() =~= v@.subrange(a as int, k as int));
            assert(t.last() == v@[k as int]);
            assert(digit_val(v@[k as int]) == d as nat);
            assert(digits_val(t) == acc as nat * 10 + d as nat);
        }
        if acc2 > max as u128 {
            proof {
                let full = v@.subrange(a as int, b as int);
                assert(full.subrange(0, k + 1 - a) =~= v@.subrange(a as int, k + 1));
                lemma_digits_val_prefix_le(full, k + 1 - a);
            }
            return None;
        }
        acc = acc2;
        k = k + 1;
    }
    assert(v@.subrange(a as int, b as int) =~= v@.subrange(a as int, k as int));
    Some(acc as u64)
}

/// The digit character of one decimal digit.
pub open spec fn dec_digit(d: nat) -> char {
    if d == 0 {
        '0'
    } else if d == 1 {
        '1'
    } else if d == 2 {
        '2'
    } else if d == 3 {
        '3'
    } else if d == 4 {
        '4'
    } else if d == 5 {
        '5'
    } else if d == 6 {
        '6'
    } else if d == 7 {
        '7'
    } else if d == 8 {
        '8'
    } else {
        '9'
    }
}

/// The decimal rendering of a number, without sign or padding.
pub open spec fn dec_str(n: nat) -> Seq<char>
    decreases n,
{
    if n < 10 {
        seq![dec_digit(n)]
    } else {
        dec_str(n / 10).push(dec_digit(n % 10))
    }
}

fn dec_digit_exec(d: u128) -> (c: char)
    requires
        d < 10,
    ensures
        c == dec_digit(d as nat),
{
    if d == 0 {
        '0'
    } else if d == 1 {
        '1'
    } else if d == 2 {
        '2'
    } else if d == 3 {
        '3'
    } else if d == 4 {
        '4'
    } else if d == 5 {
        '5'
    } else if d == 6 {
        '6'
    } else if d == 7 {
        '7'
    } else if d == 8 {
        '8'
    } else {
        '9'
    }
}

/// Renders `n` in decimal.
pub fn u128_to_dec(n: u128) -> (out: Vec<char>)
    ensures
        out@ == dec_str(n as nat),
{
    let mut out: Vec<char> = Vec::new();
    let d0 = dec_digit_exec(n % 10);
    out.insert(0, d0);
    let mut m: u128 = n / 10;
    proof {
        assert(out@ =~= seq![dec_digit(n as nat % 10)]);
        if n < 10 {
            assert(out@ =~= dec_str(n as nat));
        } else {
            assert(dec_str(n as nat) == dec_str(n as nat / 10).push(dec_digit(n as nat % 10)));
            assert(dec_str(n as nat / 10).push(dec_digit(n as nat % 10)) =~= dec_str(
                n as nat / 10,
            ) + out@);
        }
    }
    while m > 0
        invariant
            m == 0 ==> out@ == dec_str(n as nat),
            m > 0 ==> dec_str(n as nat) == dec_str(m as nat) + out@,
        decreases m,
    {
        let ghost prev = out@;
        let d = dec_digit_exec(m % 10);
        out.insert(0, d);
        proof {
            assert(out@ =~= seq![dec_digit(m as nat % 10)] + prev);
        }
        let m2: u128 = m / 10;
        proof {
            if m < 10 {
                assert(dec_str(m as nat) =~= seq![dec_digit(m as nat % 10)]);
            } else {
                assert(dec_str(m as nat) == dec_str(m as nat / 10).push(dec_digit(m as nat % 10)));
                assert(dec_str(m as nat / 10).push(dec_digit(m as nat % 10)) =~= dec_str(
                    m as nat / 10,
                ) + seq![dec_digit(m as nat % 10)]);
            }
        }
        m = m2;
    }
    out
}

// ---------------------------------------------------------------------------
// Trimming whitespace and stripping quotes
// ---------------------------------------------------------------------------

/// The end of the maximal run of whitespace starting at `i`.
pub open spec fn ws_run_end(s: Seq<char>, i: int) -> int
    decreases s.len() - i,
{
    if 0 <= i < s.len() && is_ws(s[i]) {
        ws_run_end(s, i + 1)
    } else {
        i
    }
}

/// The start of the maximal run of whitespace ending just before `j`.
pub open spec fn ws_run_start(s: Seq<char>, j: int) -> int
    decreases j,
{
    if 0 < j <= s.len() && is_ws(s[j - 1]) {
        ws_run_start(s, j - 1)
    } else {
        j
    }
}

/// `s` with leading and trailing whitespace removed.
pub open spec fn trim_of(s: Seq<char>) -> Seq<char> {
    let lo = ws_run_end(s, 0);
    if lo == s.len() {
        Seq::empty()
    } else {
        s.subrange(lo, ws_run_start(s, s.len() as int))
    }
}

/// The end of the maximal run of double quotes starting at `i`.
pub open spec fn quote_run_end(s: Seq<char>, i: int) -> int
    decreases s.len() - i,
{
    if 0 <= i < s.len() && s[i] == '"' {
        quote_run_end(s, i + 1)
    } else {
        i
    }
}

/// The start of the maximal run of double quotes ending just before `j`.
pub open spec fn quote_run_start(s: Seq<char>, j: int) -> int
    decreases j,
{
    if 0 < j <= s.len() && s[j - 1] == '"' {
        quote_run_start(s, j - 1)
    } else {
        j
    }
}

/// `s` with every leading and trailing double quote removed.
pub open spec fn strip_quotes_of(s: Seq<char>) -> Seq<char> {
    let lo = quote_run_end(s, 0);
    if lo == s.len() {
        Seq::empty()
    } else {
        s.subrange(lo, quote_run_start(s, s.len() as int))
    }
}

proof fn lemma_ws_run_start_lb(s: Seq<char>, j: int, lo: int)
    requires
        0 <= lo < j <= s.len(),
        !is_ws(s[lo]),
    ensures
        lo + 1 <= ws_run_start(s, j) <= j,
    decreases j,
{
    if is_ws(s[j - 1]) {
        lemma_ws_run_start_lb(s, j - 1, lo);
    }
}

proof fn lemma_quote_run_start_lb(s: Seq<char>, j: int, lo: int)
    requires
        0 <= lo < j <= s.len(),
        s[lo] != '"',
    ensures
        lo + 1 <= quote_run_start(s, j) <= j,
    decreases j,
{
    if s[j - 1] == '"' {
        lemma_quote_run_start_lb(s, j - 1, lo);
    }
}

/// `v` with leading and trailing whitespace removed.
pub fn trim_exec(v: &Vec<char>) -> (out: Vec<char>)
    ensures
        out@ == trim_of(v@),
{
    let n = v.len();
    let mut lo: usize = 0;
    while lo < n && is_ws_exec(v[lo])
        invariant
            lo <= n == v@.len(),
            ws_run_end(v@, 0) == ws_run_end(v@, lo as int),
        decreases n - lo,
    {
        lo = lo + 1;
    }
    assert(ws_run_end(v@, 0) == lo as int);
    if lo == n {
        let out: Vec<char> = Vec::new();
        assert(out@ =~= trim_of(v@));
        return out;
    }
    let mut hi: usize = n;
    while hi > 0 && is_ws_exec(v[hi - 1])
        invariant
            hi <= n == v@.len(),
            ws_run_start(v@, n as int) == ws_run_start(v@, hi as int),
        decreases hi,
    {
        hi = hi - 1;
    }
    assert(ws_run_start(v@, n as int) == hi as int);
    proof {
        lemma_ws_run_start_lb(v@, n as int, lo as int);
    }
    copy_range(v, lo, hi)
}

/// `v` with every leading and trailing double quote removed.
pub fn strip_quotes_exec(v: &Vec<char>) -> (out: Vec<char>)
    ensures
        out@ == strip_quotes_of(v@),
{
    let n = v.len();
    let mut lo: usize = 0;
    while lo < n && v[lo] == '"'
        invariant
            lo <= n == v@.len(),
            quote_run_end(v@, 0) == quote_run_end(v@, lo as int),
        decreases n - lo,
    {
        lo = lo + 1;
    }
    assert(quote_run_end(v@, 0) == lo as int);
    if lo == n {
        let out: Vec<char> = Vec::new();
        assert(out@ =~= strip_quotes_of(v@));
        return out;
    }
    let mut hi: usize = n;
    while hi > 0 && v[hi - 1] == '"'
        invariant
            hi <= n == v@.len(),
            quote_run_start(v@, n as int) == quote_run_start(v@, hi as int),
        decreases hi,
    {
        hi = hi - 1;
    }
    assert(quote_run_start(v@, n as int) == hi as int);
    proof {
        lemma_quote_run_start_lb(v@, n as int, lo as int);
    }
    copy_range(v, lo, hi)
}

// ---------------------------------------------------------------------------
// Coordinate text
// ---------------------------------------------------------------------------

/// How many dots a text holds.
pub open spec fn dot_count(s: Seq<char>) -> nat
    decreases s.len(),
{
    if s.len() == 0 {
        0
    } else {
        dot_count(s.drop_last()) + (if s.last() == '.' {
            1nat
        } else {
            0nat
        })
    }
}

/// Whether the text holds at least one digit.
pub open spec fn has_digit(s: Seq<char>) -> bool {
    exists|i: int| 0 <= i < s.len() && is_digit(s[i])
}

/// A well-formed decimal coordinate among runs of digits and dots: not
/// empty, at most one dot, at least one digit.
pub open spec fn is_float_text(s: Seq<char>) -> bool {
    s.len() > 0 && dot_count(s) <= 1 && has_digit(s)
}

/// Whether `v` is a well-formed decimal coordinate text.
pub fn is_float_text_exec(v: &Vec<char>) -> (b: bool)
    ensures
        b == is_float_text(v@),
{
    let n = v.len();
    let mut dots: usize = 0;
    let mut dg: bool = false;
    let mut i: usize = 0;
    while i < n
        invariant
            i <= n == v@.len(),
            dots <= i,
            dots as nat == dot_count(v@.subrange(0, i as int)),
            dg == has_digit(v@.subrange(0, i as int)),
        decreases n - i,
    {
        proof {
            let t = v@.subrange(0, i + 1);
            assert(t.drop_last() =~= v@.subrange(0, i as int));
            assert(t.last() == v@[i as int]);
            if is_digit(v@[i as int]) {
                assert(t[i as int] == v@[i as int]);
                assert(has_digit(t));
            } else {
                assert(has_digit(t) == has_digit(v@.subrange(0, i as int))) by {
                    if has_digit(t) {
                        let w = choose|w: int| 0 <= w < t.len() && is_digit(t[w]);
                        assert(w < i);
                        assert(v@.subrange(0, i as int)[w] == t[w]);
                    }
                    if has_digit(v@.subrange(0, i as int)) {
                        let w = choose|w: int|
                            0 <= w < i && is_digit(v@.subrange(0, i as int)[w]);
                        assert(t[w] == v@.subrange(0, i as int)[w]);
                    }
                }
            }
        }
        if v[i] == '.' {
            dots = dots + 1;
        } else if is_digit_exec(v[i]) {
            dg = true;
        }
        i = i + 1;
    }
    assert(v@.subrange(0, n as int) =~= v@);
    n > 0 && dots <= 1 && dg
}

} // verus!
