//! The capture stream: what the ordered sink receives when a sequence of
//! raw event texts is observed. Each text that decodes contributes its wire
//! message, in observation order; texts that do not decode are dropped
//! without disturbing the rest.

use vstd::prelude::*;

use crate::wire::parse_event_string;
use crate::wire::wire_message_of;

verus! {

/// The messages the sink receives for a sequence of observed raw texts:
/// the wire message of each text that decodes, in observation order.
pub open spec fn messages_of(raws: Seq<Seq<char>>) -> Seq<Seq<char>>
    decreases raws.len(),
{
    if raws.len() == 0 {
        Seq::empty()
    } else {
        let rest = messages_of(raws.drop_last());
        match wire_message_of(raws.last()) {
            Some(m) => rest.push(m),
            None => rest,
        }
    }
}

/// Decodes a batch of raw texts into the messages the sink receives, in
/// order.
pub fn process_events(raws: &Vec<String>) -> (out: Vec<String>)
    ensures
        out.deep_view() == messages_of(raws.deep_view()),
{
    let mut out: Vec<String> = Vec::new();
    let mut i: usize = 0;
    while i < raws.len()
        invariant
            i <= raws@.len(),
            out.deep_view() == messages_of(raws.deep_view().subrange(0, i as int)),
        decreases raws@.len() - i,
    {
        let ghost pre = out.deep_view();
        let ghost dv = raws.deep_view();
        proof {
            assert(dv.subrange(0, i + 1).drop_last() =~= dv.subrange(0, i as int));
            assert(dv.subrange(0, i + 1).last() == dv[i as int]);
            assert(dv[i as int] == raws@[i as int]@);
        }
        match parse_event_string(raws[i].as_str()) {
            Some(m) => {
                out.push(m);
                proof {
                    assert(out.deep_view() =~= pre.push(m@));
                }
            },
            None => {},
        }
        i = i + 1;
    }
    proof {
        assert(raws.deep_view().subrange(0, raws@.len() as int) =~= raws.deep_view());
    }
    out
}

/// Capture preserves the order of the stream: after any further events are
/// observed, the messages already delivered for the earlier events stand
/// unchanged, in their old order, at the front of the sink. Dropped events
/// never reorder the messages around them.
pub proof fn lemma_capture_preserves_order(r1: Seq<Seq<char>>, r2: Seq<Seq<char>>)
    requires
        r1.is_prefix_of(r2),
    ensures
        messages_of(r1).is_prefix_of(messages_of(r2)),
    decreases r2.len(),
{
    if r1.len() == r2.len() {
        assert(r1 =~= r2);
    } else {
        assert(r1.is_prefix_of(r2.drop_last())) by {
            assert(r2.drop_last().subrange(0, r1.len() as int) =~= r2.subrange(
                0,
                r1.len() as int,
            ));
        }
        lemma_capture_preserves_order(r1, r2.drop_last());
        let m1 = messages_of(r1);
        let md = messages_of(r2.drop_last());
        match wire_message_of(r2.last()) {
            Some(m) => {
                assert(m1.is_prefix_of(md.push(m))) by {
                    assert(md.push(m).subrange(0, m1.len() as int) =~= md.subrange(
                        0,
                        m1.len() as int,
                    ));
                }
            },
            None => {},
        }
    }
}

} // verus!
