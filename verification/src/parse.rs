//! The capture grammar: how one observed event's textual rendering is
//! decoded into a canonical event.
//!
//! The text is scanned for three segments: a timestamp (`tv_sec: <digits>,
//! tv_nsec: <digits>`), a name (`name: <value>, event_type`, the value
//! running to the nearest terminator on the same line), and one of five
//! event kinds, tried in a fixed order. Each segment is found at the
//! leftmost position where its whole shape matches; a missing segment makes
//! the whole decode yield nothing.

use vstd::prelude::*;

use crate::event::CanonicalEvent;
use crate::event::CanonicalEventView;
use crate::event::EventData;
use crate::event::EventDataView;
use crate::text::chars_eq;
use crate::text::chars_of;
use crate::text::copy_range;
use crate::text::digit_run_end;
use crate::text::digit_run_end_exec;
use crate::text::digits_to_u64;
use crate::text::digits_val;
use crate::text::find_from;
use crate::text::first_match_from;
use crate::text::float_run_end;
use crate::text::float_run_end_exec;
use crate::text::is_digit;
use crate::text::is_float_text;
use crate::text::is_float_text_exec;
use crate::text::lemma_digit_run_all_digits;
use crate::text::lemma_first_match_from_props;
use crate::text::match_at;
use crate::text::match_at_exec;
use crate::text::string_from_chars;
use crate::text::strip_quotes_exec;
use crate::text::strip_quotes_of;
use crate::text::trim_exec;
use crate::text::trim_of;
use crate::text::word_run_end;
use crate::text::word_run_end_exec;

verus! {

// ---------------------------------------------------------------------------
// The literal parts of the grammar
// ---------------------------------------------------------------------------

pub open spec fn lit_time_head() -> Seq<char> {
    "tv_sec: "@
}

pub open spec fn lit_time_mid() -> Seq<char> {
    ", tv_nsec: "@
}

pub open spec fn lit_name_head() -> Seq<char> {
    "name: "@
}

pub open spec fn lit_name_tail() -> Seq<char> {
    ", event_type"@
}

pub open spec fn lit_mouse_head() -> Seq<char> {
    "MouseMove { x: "@
}

pub open spec fn lit_mouse_mid() -> Seq<char> {
    ", y: "@
}

pub open spec fn lit_mouse_tail() -> Seq<char> {
    " }"@
}

pub open spec fn lit_key_press() -> Seq<char> {
    "KeyPress("@
}

pub open spec fn lit_key_release() -> Seq<char> {
    "KeyRelease("@
}

pub open spec fn lit_button_press() -> Seq<char> {
    "ButtonPress("@
}

pub open spec fn lit_button_release() -> Seq<char> {
    "ButtonRelease("@
}

pub open spec fn lit_rparen() -> Seq<char> {
    ")"@
}

pub open spec fn lit_none_word() -> Seq<char> {
    "None"@
}

// ---------------------------------------------------------------------------
// The timestamp segment
// ---------------------------------------------------------------------------

/// The timestamp segment anchored exactly at `p`: the head literal, a
/// nonempty maximal digit run (the seconds), the middle literal, and a
/// nonempty maximal digit run (the nanoseconds). Yields the two digit runs.
pub open spec fn time_seg_at(s: Seq<char>, p: int) -> Option<(Seq<char>, Seq<char>)> {
    if match_at(s, lit_time_head(), p) {
        let a1 = p + lit_time_head().len();
        let e1 = digit_run_end(s, a1);
        if e1 > a1 && match_at(s, lit_time_mid(), e1) {
            let a2 = e1 + lit_time_mid().len();
            let e2 = digit_run_end(s, a2);
            if e2 > a2 {
                Some((s.subrange(a1, e1), s.subrange(a2, e2)))
            } else {
                None
            }
        } else {
            None
        }
    } else {
        None
    }
}

/// The timestamp segment at the leftmost position at or after `from` where
/// it matches.
pub open spec fn time_scan(s: Seq<char>, from: int) -> Option<(Seq<char>, Seq<char>)>
    decreases s.len() - from,
{
    if from < 0 || from > s.len() {
        None
    } else if time_seg_at(s, from) is Some {
        time_seg_at(s, from)
    } else if from == s.len() {
        None
    } else {
        time_scan(s, from + 1)
    }
}

/// The timestamp segment of the whole text.
pub open spec fn time_capture(s: Seq<char>) -> Option<(Seq<char>, Seq<char>)> {
    time_scan(s, 0)
}

proof fn lemma_time_scan_skip(s: Seq<char>, from: int, to: int)
    requires
        0 <= from <= to <= s.len(),
        forall|j: int| from <= j < to ==> time_seg_at(s, j) is None,
    ensures
        time_scan(s, from) == time_scan(s, to),
    decreases to - from,
{
    if from < to {
        lemma_time_scan_skip(s, from + 1, to);
    }
}

proof fn lemma_time_scan_none(s: Seq<char>, from: int)
    requires
        0 <= from <= s.len(),
        forall|j: int| from <= j <= s.len() ==> time_seg_at(s, j) is None,
    ensures
        time_scan(s, from) is None,
    decreases s.len() - from,
{
    if from < s.len() {
        lemma_time_scan_none(s, from + 1);
    }
}

/// Finds the timestamp segment. A returned pair holds the seconds and
/// nanoseconds digit runs.
pub fn time_capture_exec(v: &Vec<char>) -> (r: Option<(Vec<char>, Vec<char>)>)
    ensures
        match r {
            Some(c) => {
                &&& time_capture(v@) == Some((c.0@, c.1@))
                &&& forall|k: int| 0 <= k < c.0@.len() ==> is_digit(c.0@[k])
                &&& forall|k: int| 0 <= k < c.1@.len() ==> is_digit(c.1@[k])
            },
            None => time_capture(v@) is None,
        },
{
    let head = chars_of("tv_sec: ");
    let mid = chars_of(", tv_nsec: ");
    proof {
        reveal_strlit("tv_sec: ");
        reveal_strlit(", tv_nsec: ");
    }
    let n = v.len();
    let mut pos: usize = 0;
    loop
        invariant
            pos <= n == v@.len(),
            head@ == lit_time_head() && head@.len() == 8,
            mid@ == lit_time_mid() && mid@.len() == 11,
            time_scan(v@, 0) == time_scan(v@, pos as int),
        decreases n - pos,
    {
        match find_from(v, &head, pos) {
            None => {
                proof {
                    lemma_first_match_from_props(v@, head@, pos as int);
                    assert forall|j: int| pos <= j <= v@.len() implies time_seg_at(
                        v@,
                        j,
                    ) is None by {
                        assert(!match_at(v@, lit_time_head(), j));
                    }
                    lemma_time_scan_none(v@, pos as int);
                }
                return None;
            },
            Some(p) => {
                proof {
                    lemma_first_match_from_props(v@, head@, pos as int);
                    assert forall|j: int| pos <= j < p implies time_seg_at(v@, j) is None by {
                        assert(!match_at(v@, lit_time_head(), j));
                    }
                    lemma_time_scan_skip(v@, pos as int, p as int);
                    assert(match_at(v@, lit_time_head(), p as int));
                }
                let a1 = p + head.len();
                let e1 = digit_run_end_exec(v, a1);
                let mut matched = false;
                let mut a2: usize = 0;
                let mut e2: usize = 0;
                if e1 > a1 && mid.len() <= n - e1 && match_at_exec(v, &mid, e1) {
                    a2 = e1 + mid.len();
                    e2 = digit_run_end_exec(v, a2);
                    if e2 > a2 {
                        matched = true;
                    }
                }
                if matched {
                    proof {
                        assert(time_seg_at(v@, p as int) == Some(
                            (v@.subrange(a1 as int, e1 as int), v@.subrange(a2 as int, e2 as int)),
                        ));
                        lemma_digit_run_all_digits(v@, a1 as int);
                        lemma_digit_run_all_digits(v@, a2 as int);
                    }
                    let c1 = copy_range(v, a1, e1);
                    let c2 = copy_range(v, a2, e2);
                    return Some((c1, c2));
                }
                proof {
                    assert(time_seg_at(v@, p as int) is None);
                    assert(p < n);
                    assert(time_scan(v@, p as int) == time_scan(v@, p + 1));
                }
                pos = p + 1;
            },
        }
    }
}

// ---------------------------------------------------------------------------
// The name segment
// ---------------------------------------------------------------------------

/// The first position at or after `i` where the name terminator occurs,
/// scanning only within the current line: a line break before the
/// terminator means there is no name value here.
pub open spec fn name_end_from(s: Seq<char>, i: int) -> Option<int>
    decreases s.len() - i,
{
    if i < 0 || i > s.len() {
        None
    } else if match_at(s, lit_name_tail(), i) {
        Some(i)
    } else if i < s.len() && s[i] != '\n' {
        name_end_from(s, i + 1)
    } else {
        None
    }
}

proof fn lemma_name_end_from_bounds(s: Seq<char>, i: int)
    requires
        0 <= i <= s.len(),
    ensures
        match name_end_from(s, i) {
            Some(q) => i <= q && q + lit_name_tail().len() <= s.len(),
            None => true,
        },
    decreases s.len() - i,
{
    if i < s.len() && !match_at(s, lit_name_tail(), i) && s[i] != '\n' {
        lemma_name_end_from_bounds(s, i + 1);
    }
}

/// The name segment anchored exactly at `p`: the head literal, then the
/// raw value running to the nearest terminator on the same line.
pub open spec fn name_seg_at(s: Seq<char>, p: int) -> Option<Seq<char>> {
    if match_at(s, lit_name_head(), p) {
        let a = p + lit_name_head().len();
        match name_end_from(s, a) {
            Some(q) => Some(s.subrange(a, q)),
            None => None,
        }
    } else {
        None
    }
}

/// The name segment at the leftmost position at or after `from` where it
/// matches.
pub open spec fn name_scan(s: Seq<char>, from: int) -> Option<Seq<char>>
    decreases s.len() - from,
{
    if from < 0 || from > s.len() {
        None
    } else if name_seg_at(s, from) is Some {
        name_seg_at(s, from)
    } else if from == s.len() {
        None
    } else {
        name_scan(s, from + 1)
    }
}

/// The raw name value of the whole text.
pub open spec fn name_capture(s: Seq<char>) -> Option<Seq<char>> {
    name_scan(s, 0)
}

proof fn lemma_name_scan_skip(s: Seq<char>, from: int, to: int)
    requires
        0 <= from <= to <= s.len(),
        forall|j: int| from <= j < to ==> name_seg_at(s, j) is None,
    ensures
        name_scan(s, from) == name_scan(s, to),
    decreases to - from,
{
    if from < to {
        lemma_name_scan_skip(s, from + 1, to);
    }
}

proof fn lemma_name_scan_none(s: Seq<char>, from: int)
    requires
        0 <= from <= s.len(),
        forall|j: int| from <= j <= s.len() ==> name_seg_at(s, j) is None,
    ensures
        name_scan(s, from) is None,
    decreases s.len() - from,
{
    if from < s.len() {
        lemma_name_scan_none(s, from + 1);
    }
}

/// Finds the name terminator for a value starting at `start`.
fn name_end_exec(v: &Vec<char>, start: usize) -> (r: Option<usize>)
    requires
        start <= v@.len(),
    ensures
        match r {
            Some(q) => name_end_from(v@, start as int) == Some(q as int) && start <= q && q
                <= v@.len(),
            None => name_end_from(v@, start as int) is None,
        },
{
    let tail = chars_of(", event_type");
    proof {
        reveal_strlit(", event_type");
    }
    let n = v.len();
    let mut cur: usize = start;
    loop
        invariant
            start <= cur <= n == v@.len(),
            tail@ == lit_name_tail() && tail@.len() == 12,
            name_end_from(v@, start as int) == name_end_from(v@, cur as int),
        decreases n - cur,
    {
        if tail.len() <= n - cur && match_at_exec(v, &tail, cur) {
            return Some(cur);
        }
        proof {
            assert(!match_at(v@, lit_name_tail(), cur as int));
        }
        if cur < n && v[cur] != '\n' {
            cur = cur + 1;
        } else {
            return None;
        }
    }
}

/// Finds the name segment and returns the raw value between the head
/// literal and the terminator.
pub fn name_capture_exec(v: &Vec<char>) -> (r: Option<Vec<char>>)
    ensures
        match r {
            Some(c) => name_capture(v@) == Some(c@),
            None => name_capture(v@) is None,
        },
{
    let head = chars_of("name: ");
    proof {
        reveal_strlit("name: ");
    }
    let n = v.len();
    let mut pos: usize = 0;
    loop
        invariant
            pos <= n == v@.len(),
            head@ == lit_name_head() && head@.len() == 6,
            name_scan(v@, 0) == name_scan(v@, pos as int),
        decreases n - pos,
    {
        match find_from(v, &head, pos) {
            None => {
                proof {
                    lemma_first_match_from_props(v@, head@, pos as int);
                    assert forall|j: int| pos <= j <= v@.len() implies name_seg_at(
                        v@,
                        j,
                    ) is None by {
                        assert(!match_at(v@, lit_name_head(), j));
                    }
                    lemma_name_scan_none(v@, pos as int);
                }
                return None;
            },
            Some(p) => {
                proof {
                    lemma_first_match_from_props(v@, head@, pos as int);
                    assert forall|j: int| pos <= j < p implies name_seg_at(v@, j) is None by {
                        assert(!match_at(v@, lit_name_head(), j));
                    }
                    lemma_name_scan_skip(v@, pos as int, p as int);
                    assert(match_at(v@, lit_name_head(), p as int));
                }
                let a = p + head.len();
                match name_end_exec(v, a) {
                    Some(q) => {
                        proof {
                            assert(name_seg_at(v@, p as int) == Some(v@.subrange(a as int, q as int)));
                        }
                        return Some(copy_range(v, a, q));
                    },
                    None => {
                        proof {
                            assert(name_seg_at(v@, p as int) is None);
                            assert(p < n);
                            assert(name_scan(v@, p as int) == name_scan(v@, p + 1));
                        }
                        pos = p + 1;
                    },
                }
            },
        }
    }
}

// ---------------------------------------------------------------------------
// The mouse-move segment
// ---------------------------------------------------------------------------

/// The mouse-move segment anchored exactly at `p`: the head literal, a
/// nonempty maximal coordinate run, the middle literal, a second nonempty
/// maximal coordinate run, and the closing literal.
pub open spec fn mouse_seg_at(s: Seq<char>, p: int) -> Option<(Seq<char>, Seq<char>)> {
    if match_at(s, lit_mouse_head(), p) {
        let a1 = p + lit_mouse_head().len();
        let e1 = float_run_end(s, a1);
        if e1 > a1 && match_at(s, lit_mouse_mid(), e1) {
            let a2 = e1 + lit_mouse_mid().len();
            let e2 = float_run_end(s, a2);
            if e2 > a2 && match_at(s, lit_mouse_tail(), e2) {
                Some((s.subrange(a1, e1), s.subrange(a2, e2)))
            } else {
                None
            }
        } else {
            None
        }
    } else {
        None
    }
}

/// The mouse-move segment at the leftmost position at or after `from`
/// where it matches.
pub open spec fn mouse_scan(s: Seq<char>, from: int) -> Option<(Seq<char>, Seq<char>)>
    decreases s.len() - from,
{
    if from < 0 || from > s.len() {
        None
    } else if mouse_seg_at(s, from) is Some {
        mouse_seg_at(s, from)
    } else if from == s.len() {
        None
    } else {
        mouse_scan(s, from + 1)
    }
}

/// The mouse-move segment of the whole text.
pub open spec fn mouse_capture(s: Seq<char>) -> Option<(Seq<char>, Seq<char>)> {
    mouse_scan(s, 0)
}

proof fn lemma_mouse_scan_skip(s: Seq<char>, from: int, to: int)
    requires
        0 <= from <= to <= s.len(),
        forall|j: int| from <= j < to ==> mouse_seg_at(s, j) is None,
    ensures
        mouse_scan(s, from) == mouse_scan(s, to),
    decreases to - from,
{
    if from < to {
        lemma_mouse_scan_skip(s, from + 1, to);
    }
}

proof fn lemma_mouse_scan_none(s: Seq<char>, from: int)
    requires
        0 <= from <= s.len(),
        forall|j: int| from <= j <= s.len() ==> mouse_seg_at(s, j) is None,
    ensures
        mouse_scan(s, from) is None,
    decreases s.len() - from,
{
    if from < s.len() {
        lemma_mouse_scan_none(s, from + 1);
    }
}

/// Finds the mouse-move segment. A returned pair holds the two coordinate
/// texts.
pub fn mouse_capture_exec(v: &Vec<char>) -> (r: Option<(Vec<char>, Vec<char>)>)
    ensures
        match r {
            Some(c) => mouse_capture(v@) == Some((c.0@, c.1@)),
            None => mouse_capture(v@) is None,
        },
{
    let head = chars_of("MouseMove { x: ");
    let mid = chars_of(", y: ");
    let tail = chars_of(" }");
    proof {
        reveal_strlit("MouseMove { x: ");
        reveal_strlit(", y: ");
        reveal_strlit(" }");
    }
    let n = v.len();
    let mut pos: usize = 0;
    loop
        invariant
            pos <= n == v@.len(),
            head@ == lit_mouse_head() && head@.len() == 15,
            mid@ == lit_mouse_mid() && mid@.len() == 5,
            tail@ == lit_mouse_tail() && tail@.len() == 2,
            mouse_scan(v@, 0) == mouse_scan(v@, pos as int),
        decreases n - pos,
    {
        match find_from(v, &head, pos) {
            None => {
                proof {
                    lemma_first_match_from_props(v@, head@, pos as int);
                    assert forall|j: int| pos <= j <= v@.len() implies mouse_seg_at(
                        v@,
                        j,
                    ) is None by {
                        assert(!match_at(v@, lit_mouse_head(), j));
                    }
                    lemma_mouse_scan_none(v@, pos as int);
                }
                return None;
            },
            Some(p) => {
                proof {
                    lemma_first_match_from_props(v@, head@, pos as int);
                    assert forall|j: int| pos <= j < p implies mouse_seg_at(v@, j) is None by {
                        assert(!match_at(v@, lit_mouse_head(), j));
                    }
                    lemma_mouse_scan_skip(v@, pos as int, p as int);
                    assert(match_at(v@, lit_mouse_head(), p as int));
                }
                let a1 = p + head.len();
                let e1 = float_run_end_exec(v, a1);
                let mut matched = false;
                let mut a2: usize = 0;
                let mut e2: usize = 0;
                if e1 > a1 && mid.len() <= n - e1 && match_at_exec(v, &mid, e1) {
                    a2 = e1 + mid.len();
                    e2 = float_run_end_exec(v, a2);
                    if e2 > a2 && tail.len() <= n - e2 && match_at_exec(v, &tail, e2) {
                        matched = true;
                    }
                }
                if matched {
                    proof {
                        assert(mouse_seg_at(v@, p as int) == Some(
                            (v@.subrange(a1 as int, e1 as int), v@.subrange(a2 as int, e2 as int)),
                        ));
                    }
                    let c1 = copy_range(v, a1, e1);
                    let c2 = copy_range(v, a2, e2);
                    return Some((c1, c2));
                }
                proof {
                    assert(mouse_seg_at(v@, p as int) is None);
                    assert(p < n);
                    assert(mouse_scan(v@, p as int) == mouse_scan(v@, p + 1));
                }
                pos = p + 1;
            },
        }
    }
}

// ---------------------------------------------------------------------------
// The word segments: key and button events
// ---------------------------------------------------------------------------

/// A word segment anchored exactly at `p`: the given head literal, a
/// nonempty maximal word run, and a closing parenthesis.
pub open spec fn word_seg_at(s: Seq<char>, head: Seq<char>, p: int) -> Option<Seq<char>> {
    if match_at(s, head, p) {
        let a = p + head.len();
        let e = word_run_end(s, a);
        if e > a && match_at(s, lit_rparen(), e) {
            Some(s.subrange(a, e))
        } else {
            None
        }
    } else {
        None
    }
}

/// The word segment with the given head at the leftmost position at or
/// after `from` where it matches.
pub open spec fn word_scan(s: Seq<char>, head: Seq<char>, from: int) -> Option<Seq<char>>
    decreases s.len() - from,
{
    if from < 0 || from > s.len() {
        None
    } else if word_seg_at(s, head, from) is Some {
        word_seg_at(s, head, from)
    } else if from == s.len() {
        None
    } else {
        word_scan(s, head, from + 1)
    }
}

/// The word segment with the given head, of the whole text.
pub open spec fn word_capture(s: Seq<char>, head: Seq<char>) -> Option<Seq<char>> {
    word_scan(s, head, 0)
}

proof fn lemma_word_scan_skip(s: Seq<char>, head: Seq<char>, from: int, to: int)
    requires
        0 <= from <= to <= s.len(),
        forall|j: int| from <= j < to ==> word_seg_at(s, head, j) is None,
    ensures
        word_scan(s, head, from) == word_scan(s, head, to),
    decreases to - from,
{
    if from < to {
        lemma_word_scan_skip(s, head, from + 1, to);
    }
}

proof fn lemma_word_scan_none(s: Seq<char>, head: Seq<char>, from: int)
    requires
        0 <= from <= s.len(),
        forall|j: int| from <= j <= s.len() ==> word_seg_at(s, head, j) is None,
    ensures
        word_scan(s, head, from) is None,
    decreases s.len() - from,
{
    if from < s.len() {
        lemma_word_scan_none(s, head, from + 1);
    }
}

/// Finds the word segment opened by `head` and returns the word.
pub fn word_capture_exec(v: &Vec<char>, head: &Vec<char>) -> (r: Option<Vec<char>>)
    requires
        head@.len() > 0,
    ensures
        match r {
            Some(c) => word_capture(v@, head@) == Some(c@),
            None => word_capture(v@, head@) is None,
        },
{
    let rp = chars_of(")");
    proof {
        reveal_strlit(")");
    }
    let n = v.len();
    let mut pos: usize = 0;
    loop
        invariant
            pos <= n == v@.len(),
            head@.len() > 0,
            rp@ == lit_rparen() && rp@.len() == 1,
            word_scan(v@, head@, 0) == word_scan(v@, head@, pos as int),
        decreases n - pos,
    {
        match find_from(v, head, pos) {
            None => {
                proof {
                    lemma_first_match_from_props(v@, head@, pos as int);
                    assert forall|j: int| pos <= j <= v@.len() implies word_seg_at(
                        v@,
                        head@,
                        j,
                    ) is None by {
                        assert(!match_at(v@, head@, j));
                    }
                    lemma_word_scan_none(v@, head@, pos as int);
                }
                return None;
            },
            Some(p) => {
                proof {
                    lemma_first_match_from_props(v@, head@, pos as int);
                    assert forall|j: int| pos <= j < p implies word_seg_at(
                        v@,
                        head@,
                        j,
                    ) is None by {
                        assert(!match_at(v@, head@, j));
                    }
                    lemma_word_scan_skip(v@, head@, pos as int, p as int);
                    assert(match_at(v@, head@, p as int));
                }
                let a = p + head.len();
                let e = word_run_end_exec(v, a);
                let mut matched = false;
                if e > a && rp.len() <= n - e && match_at_exec(v, &rp, e) {
                    matched = true;
                }
                if matched {
                    proof {
                        assert(word_seg_at(v@, head@, p as int) == Some(
                            v@.subrange(a as int, e as int),
                        ));
                    }
                    return Some(copy_range(v, a, e));
                }
                proof {
                    assert(word_seg_at(v@, head@, p as int) is None);
                    assert(p < n);
                    assert(word_scan(v@, head@, p as int) == word_scan(v@, head@, p + 1));
                }
                pos = p + 1;
            },
        }
    }
}

// ---------------------------------------------------------------------------
// The name value
// ---------------------------------------------------------------------------

/// What a raw name value denotes: nothing when, after trimming, it is the
/// bare word `None`; otherwise the value with surrounding quotes stripped
/// and whitespace trimmed.
pub open spec fn name_value_of(raw: Seq<char>) -> Option<Seq<char>> {
    let t = trim_of(raw);
    if t == lit_none_word() {
        None
    } else {
        Some(trim_of(strip_quotes_of(t)))
    }
}

/// Interprets a raw name value.
pub fn name_value_exec(raw: &Vec<char>) -> (r: Option<Vec<char>>)
    ensures
        match r {
            Some(c) => name_value_of(raw@) == Some(c@),
            None => name_value_of(raw@) is None,
        },
{
    let t = trim_exec(raw);
    let none_word = chars_of("None");
    if chars_eq(&t, &none_word) {
        return None;
    }
    let stripped = strip_quotes_exec(&t);
    Some(trim_exec(&stripped))
}

// ---------------------------------------------------------------------------
// The event kind
// ---------------------------------------------------------------------------

/// The event kind of the text: the five kind grammars are tried in a fixed
/// order and the first that matches anywhere decides. A mouse-move match
/// whose coordinate texts are not well-formed numbers spoils the whole
/// decode rather than falling through to the next kind.
pub open spec fn kind_capture(s: Seq<char>) -> Option<EventDataView> {
    match mouse_capture(s) {
        Some(c) => if is_float_text(c.0) && is_float_text(c.1) {
            Some(EventDataView::MouseMove { x_text: c.0, y_text: c.1 })
        } else {
            None
        },
        None => match word_capture(s, lit_key_press()) {
            Some(k) => Some(EventDataView::KeyPress { key: k }),
            None => match word_capture(s, lit_key_release()) {
                Some(k) => Some(EventDataView::KeyRelease { key: k }),
                None => match word_capture(s, lit_button_press()) {
                    Some(b) => Some(EventDataView::ButtonPress { button: b }),
                    None => match word_capture(s, lit_button_release()) {
                        Some(b) => Some(EventDataView::ButtonRelease { button: b }),
                        None => None,
                    },
                },
            },
        },
    }
}

/// Decodes the event kind of the text.
pub fn kind_capture_exec(v: &Vec<char>) -> (r: Option<EventData>)
    ensures
        match r {
            Some(d) => kind_capture(v@) == Some(d@),
            None => kind_capture(v@) is None,
        },
{
    match mouse_capture_exec(v) {
        Some(c) => {
            if is_float_text_exec(&c.0) && is_float_text_exec(&c.1) {
                let x_text = string_from_chars(&c.0);
                let y_text = string_from_chars(&c.1);
                Some(EventData::MouseMove { x_text, y_text })
            } else {
                None
            }
        },
        None => {
            proof {
                reveal_strlit("KeyPress(");
                reveal_strlit("KeyRelease(");
                reveal_strlit("ButtonPress(");
                reveal_strlit("ButtonRelease(");
            }
            let kp = chars_of("KeyPress(");
            match word_capture_exec(v, &kp) {
                Some(k) => {
                    return Some(EventData::KeyPress { key: string_from_chars(&k) });
                },
                None => {},
            }
            let kr = chars_of("KeyRelease(");
            match word_capture_exec(v, &kr) {
                Some(k) => {
                    return Some(EventData::KeyRelease { key: string_from_chars(&k) });
                },
                None => {},
            }
            let bp = chars_of("ButtonPress(");
            match word_capture_exec(v, &bp) {
                Some(b) => {
                    return Some(EventData::ButtonPress { button: string_from_chars(&b) });
                },
                None => {},
            }
            let br = chars_of("ButtonRelease(");
            match word_capture_exec(v, &br) {
                Some(b) => {
                    return Some(EventData::ButtonRelease { button: string_from_chars(&b) });
                },
                None => {},
            }
            None
        },
    }
}

// ---------------------------------------------------------------------------
// The whole decode
// ---------------------------------------------------------------------------

/// The milliseconds since the epoch named by the two timestamp digit runs.
pub open spec fn time_ms_of(sec: nat, nsec: nat) -> nat {
    sec * 1000 + nsec / 1000000
}

/// The structured result of decoding one capture text, if every segment is
/// present and well-formed: the timestamp segment read as seconds (fitting
/// an unsigned 64-bit count) and nanoseconds (fitting an unsigned 32-bit
/// count) and converted to milliseconds, the name segment's value, and the
/// event kind.
pub open spec fn parse_event_spec(s: Seq<char>) -> Option<CanonicalEventView> {
    match time_capture(s) {
        None => None,
        Some(t) => if digits_val(t.0) > u64::MAX as nat || digits_val(t.1) > u32::MAX as nat {
            None
        } else {
            match name_capture(s) {
                None => None,
                Some(raw) => match kind_capture(s) {
                    None => None,
                    Some(d) => Some(
                        CanonicalEventView {
                            time_ms: time_ms_of(digits_val(t.0), digits_val(t.1)),
                            name: name_value_of(raw),
                            data: d,
                        },
                    ),
                },
            }
        },
    }
}

/// Decodes one capture text into a canonical event, or nothing when a
/// segment is missing or malformed.
pub fn parse_event(input: &str) -> (r: Option<CanonicalEvent>)
    ensures
        match r {
            Some(e) => parse_event_spec(input@) == Some(e@),
            None => parse_event_spec(input@) is None,
        },
{
    let v = chars_of(input);
    let t = match time_capture_exec(&v) {
        Some(t) => t,
        None => {
            return None;
        },
    };
    assert(t.0@ =~= t.0@.subrange(0, t.0@.len() as int));
    assert(t.1@ =~= t.1@.subrange(0, t.1@.len() as int));
    let sec = match digits_to_u64(&t.0, 0, t.0.len(), u64::MAX) {
        Some(x) => x,
        None => {
            return None;
        },
    };
    let nsec = match digits_to_u64(&t.1, 0, t.1.len(), u32::MAX as u64) {
        Some(x) => x,
        None => {
            return None;
        },
    };
    let raw = match name_capture_exec(&v) {
        Some(raw) => raw,
        None => {
            return None;
        },
    };
    let data = match kind_capture_exec(&v) {
        Some(d) => d,
        None => {
            return None;
        },
    };
    let time_ms: u128 = sec as u128 * 1000 + (nsec as u128) / 1000000;
    let name: Option<String> = match name_value_exec(&raw) {
        Some(c) => Some(string_from_chars(&c)),
        None => None,
    };
    Some(CanonicalEvent { time_ms, name, data })
}

/// A text missing any segment decodes to nothing: no timestamp segment, no
/// name segment, or no event-kind segment means no event, never a partial
/// one.
pub proof fn lemma_missing_segment_means_no_event(s: Seq<char>)
    requires
        time_capture(s) is None || name_capture(s) is None || kind_capture(s) is None,
    ensures
        parse_event_spec(s) is None,
{
}

} // verus!
