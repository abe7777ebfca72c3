//! The wire encoding: one canonical event as one compact JSON object, the
//! message shape the host consumes.

use vstd::prelude::*;

use crate::event::CanonicalEvent;
use crate::event::CanonicalEventView;
use crate::event::EventData;
use crate::event::EventDataView;
use crate::parse::parse_event;
use crate::parse::parse_event_spec;
use crate::text::chars_of;
use crate::text::dec_str;
use crate::text::string_from_chars;
use crate::text::u128_to_dec;

verus! {

// ---------------------------------------------------------------------------
// JSON string escaping
// ---------------------------------------------------------------------------

/// The lowercase hexadecimal digit of one value below sixteen.
pub open spec fn hex_digit(d: u32) -> char {
    if d == 0 {
        '0'
    } else if d == 1 {
        '1'
    } else if d == 2 {
        '2'
    } else if d == 3 {
        '3'
    } else if d == 4 {
        '4'
    } else if d == 5 {
        '5'
    } else if d == 6 {
        '6'
    } else if d == 7 {
        '7'
    } else if d == 8 {
        '8'
    } else if d == 9 {
        '9'
    } else if d == 10 {
        'a'
    } else if d == 11 {
        'b'
    } else if d == 12 {
        'c'
    } else if d == 13 {
        'd'
    } else if d == 14 {
        'e'
    } else {
        'f'
    }
}

/// How one character appears inside a JSON string: quote and backslash get
/// a backslash escape, the five control characters with short names get
/// theirs, every other control character a universal escape, and everything
/// else stands as itself.
pub open spec fn escape_char(c: char) -> Seq<char> {
    if c == '"' {
        seq!['\\', '"']
    } else if c == '\\' {
        seq!['\\', '\\']
    } else if c == '\u{8}' {
        seq!['\\', 'b']
    } else if c == '\t' {
        seq!['\\', 't']
    } else if c == '\n' {
        seq!['\\', 'n']
    } else if c == '\u{c}' {
        seq!['\\', 'f']
    } else if c == '\r' {
        seq!['\\', 'r']
    } else if (c as u32) < 32 {
        seq!['\\', 'u', '0', '0', hex_digit((c as u32) >> 4), hex_digit((c as u32) & 15)]
    } else {
        seq![c]
    }
}

/// The body of a JSON string: each character escaped in turn.
pub open spec fn escape_str(s: Seq<char>) -> Seq<char>
    decreases s.len(),
{
    if s.len() == 0 {
        Seq::empty()
    } else {
        escape_str(s.drop_last()) + escape_char(s.last())
    }
}

/// A JSON string: the escaped body between double quotes.
pub open spec fn json_string_of(s: Seq<char>) -> Seq<char> {
    seq!['"'] + escape_str(s) + seq!['"']
}

fn hex_digit_exec(d: u32) -> (c: char)
    requires
        d < 16,
    ensures
        c == hex_digit(d),
{
    if d == 0 {
        '0'
    } else if d == 1 {
        '1'
    } else if d == 2 {
        '2'
    } else if d == 3 {
        '3'
    } else if d == 4 {
        '4'
    } else if d == 5 {
        '5'
    } else if d == 6 {
        '6'
    } else if d == 7 {
        '7'
    } else if d == 8 {
        '8'
    } else if d == 9 {
        '9'
    } else if d == 10 {
        'a'
    } else if d == 11 {
        'b'
    } else if d == 12 {
        'c'
    } else if d == 13 {
        'd'
    } else if d == 14 {
        'e'
    } else {
        'f'
    }
}

fn escape_push(out: &mut Vec<char>, c: char)
    ensures
        final (out)@ == old(out)@ + escape_char(c),
{
    let ghost base = old(out)@;
    if c == '"' {
        out.push('\\');
        out.push('"');
        assert(out@ =~= base + escape_char(c));
    } else if c == '\\' {
        out.push('\\');
        out.push('\\');
        assert(out@ =~= base + escape_char(c));
    } else if c == '\u{8}' {
        out.push('\\');
        out.push('b');
        assert(out@ =~= base + escape_char(c));
    } else if c == '\t' {
        out.push('\\');
        out.push('t');
        assert(out@ =~= base + escape_char(c));
    } else if c == '\n' {
        out.push('\\');
        out.push('n');
        assert(out@ =~= base + escape_char(c));
    } else if c == '\u{c}' {
        out.push('\\');
        out.push('f');
        assert(out@ =~= base + escape_char(c));
    } else if c == '\r' {
        out.push('\\');
        out.push('r');
        assert(out@ =~= base + escape_char(c));
    } else if (c as u32) < 32 {
        let u: u32 = c as u32;
        proof {
            assert(u >> 4 < 16) by (bit_vector)
                requires
                    u < 32,
            ;
            assert(u & 15 < 16) by (bit_vector);
        }
        out.push('\\');
        out.push('u');
        out.push('0');
        out.push('0');
        out.push(hex_digit_exec(u >> 4));
        out.push(hex_digit_exec(u & 15));
        assert(out@ =~= base + escape_char(c));
    } else {
        out.push(c);
        assert(out@ =~= base + escape_char(c));
    }
}

/// Appends the characters of `lit` to `out`.
fn push_lit(out: &mut Vec<char>, lit: &str)
    ensures
        final (out)@ == old(out)@ + lit@,
{
    let mut c = chars_of(lit);
    out.append(&mut c);
}

/// Appends the JSON string for `s` to `out`.
fn push_json_string(out: &mut Vec<char>, s: &String)
    ensures
        final (out)@ == old(out)@ + json_string_of(s@),
{
    let ghost base = old(out)@;
    out.push('"');
    let cs = chars_of(s.as_str());
    let mut i: usize = 0;
    while i < cs.len()
        invariant
            i <= cs@.len(),
            cs@ == s@,
            out@ == base + seq!['"'] + escape_str(s@.subrange(0, i as int)),
        decreases cs@.len() - i,
    {
        proof {
            let t = s@.subrange(0, i + 1);
            assert(t.drop_last() =~= s@.subrange(0, i as int));
            assert(t.last() == s@[i as int]);
        }
        escape_push(out, cs[i]);
        i = i + 1;
    }
    assert(s@.subrange(0, cs@.len() as int) =~= s@);
    out.push('"');
    assert(out@ =~= base + json_string_of(s@));
}

// ---------------------------------------------------------------------------
// The message
// ---------------------------------------------------------------------------

/// The JSON value of the optional name: `null` when absent.
pub open spec fn name_json(n: Option<Seq<char>>) -> Seq<char> {
    match n {
        None => "null"@,
        Some(s) => json_string_of(s),
    }
}

/// The kind-specific tail of the message, from the `type` field on. A
/// mouse move carries its coordinate texts verbatim as the two numbers and
/// the fixed `auto_builded` marker; key and button events carry one JSON
/// string.
pub open spec fn data_json(d: EventDataView) -> Seq<char> {
    match d {
        EventDataView::MouseMove { x_text, y_text } => ",\"type\":\"MouseMove\",\"data\":{\"x\":"@
            + x_text + ",\"y\":"@ + y_text + "},\"auto_builded\":true}"@,
        EventDataView::KeyPress { key } => ",\"type\":\"KeyPress\",\"data\":{\"key\":"@
            + json_string_of(key) + "}}"@,
        EventDataView::KeyRelease { key } => ",\"type\":\"KeyRelease\",\"data\":{\"key\":"@
            + json_string_of(key) + "}}"@,
        EventDataView::ButtonPress { button } => ",\"type\":\"ButtonPress\",\"data\":{\"button\":"@
            + json_string_of(button) + "}}"@,
        EventDataView::ButtonRelease { button } => ",\"type\":\"ButtonRelease\",\"data\":{\"button\":"@
            + json_string_of(button) + "}}"@,
    }
}

/// The whole wire message of one canonical event: time, name, then the
/// kind-specific tail.
pub open spec fn json_of(e: CanonicalEventView) -> Seq<char> {
    "{\"time\":"@ + dec_str(e.time_ms) + ",\"name\":"@ + name_json(e.name) + data_json(e.data)
}

/// Serializes one canonical event as its wire message.
pub fn serialize_event(e: &CanonicalEvent) -> (r: String)
    ensures
        r@ == json_of(e@),
{
    let mut out: Vec<char> = Vec::new();
    push_lit(&mut out, "{\"time\":");
    let mut ms = u128_to_dec(e.time_ms);
    out.append(&mut ms);
    push_lit(&mut out, ",\"name\":");
    match &e.name {
        None => push_lit(&mut out, "null"),
        Some(s) => push_json_string(&mut out, s),
    }
    match &e.data {
        EventData::MouseMove { x_text, y_text } => {
            push_lit(&mut out, ",\"type\":\"MouseMove\",\"data\":{\"x\":");
            let mut xs = chars_of(x_text.as_str());
            out.append(&mut xs);
            push_lit(&mut out, ",\"y\":");
            let mut ys = chars_of(y_text.as_str());
            out.append(&mut ys);
            push_lit(&mut out, "},\"auto_builded\":true}");
        },
        EventData::KeyPress { key } => {
            push_lit(&mut out, ",\"type\":\"KeyPress\",\"data\":{\"key\":");
            push_json_string(&mut out, key);
            push_lit(&mut out, "}}");
        },
        EventData::KeyRelease { key } => {
            push_lit(&mut out, ",\"type\":\"KeyRelease\",\"data\":{\"key\":");
            push_json_string(&mut out, key);
            push_lit(&mut out, "}}");
        },
        EventData::ButtonPress { button } => {
            push_lit(&mut out, ",\"type\":\"ButtonPress\",\"data\":{\"button\":");
            push_json_string(&mut out, button);
            push_lit(&mut out, "}}");
        },
        EventData::ButtonRelease { button } => {
            push_lit(&mut out, ",\"type\":\"ButtonRelease\",\"data\":{\"button\":");
            push_json_string(&mut out, button);
            push_lit(&mut out, "}}");
        },
    }
    assert(out@ =~= json_of(e@));
    string_from_chars(&out)
}

/// The wire message of one capture text: the serialized decode, or nothing
/// when the text does not decode.
pub open spec fn wire_message_of(s: Seq<char>) -> Option<Seq<char>> {
    match parse_event_spec(s) {
        Some(e) => Some(json_of(e)),
        None => None,
    }
}

/// Decodes one capture text and serializes the result for the wire.
/// Nothing comes back when a segment is missing or malformed.
pub fn parse_event_string(input: &str) -> (r: Option<String>)
    ensures
        match r {
            Some(m) => wire_message_of(input@) == Some(m@),
            None => wire_message_of(input@) is None,
        },
{
    match parse_event(input) {
        Some(e) => Some(serialize_event(&e)),
        None => None,
    }
}

} // verus!
