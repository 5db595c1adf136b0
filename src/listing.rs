//! The textual form of a list of messages: `[`, CR LF, then each message as
//! `"key":"value"`, separated by `,` CR LF, then `]`. Keys and values are
//! written as they are, without escaping.

use vstd::prelude::*;
use crate::ring::{Entry, Message};

verus! {

/// The text of one message.
pub open spec fn item_text(e: Entry) -> Seq<char> {
    seq!['"'] + e.0 + seq!['"', ':', '"'] + e.1 + seq!['"']
}

/// The texts of the messages of `v`, with `,` CR LF between two of them.
pub open spec fn joined(v: Seq<Entry>) -> Seq<char>
    decreases v.len(),
{
    if v.len() == 0 {
        Seq::empty()
    } else if v.len() == 1 {
        item_text(v[0])
    } else {
        joined(v.drop_last()) + seq![',', '\r', '\n'] + item_text(v.last())
    }
}

/// The whole listing of `v`.
pub open spec fn listing(v: Seq<Entry>) -> Seq<char> {
    seq!['[', '\r', '\n'] + joined(v) + seq![']']
}

/// Writes the listing of `entries`.
pub fn render(entries: &Vec<Message>) -> (r: String)
    ensures
        r@ == listing(entries@.map_values(|m: Message| m@)),
{
    let ghost v = entries@.map_values(|m: Message| m@);
    let quote = "\"";
    let colon = "\":\"";
    let sep = ",\r\n";
    let open_text = "[\r\n";
    let close_text = "]";
    proof {
        reveal_strlit("\"");
        reveal_strlit("\":\"");
        reveal_strlit(",\r\n");
        reveal_strlit("[\r\n");
        reveal_strlit("]");
    }
    let mut body = String::new();
    let mut i: usize = 0;
    while i < entries.len()
        invariant
            i <= entries@.len(),
            v == entries@.map_values(|m: Message| m@),
            quote@ == seq!['"'],
            colon@ == seq!['"', ':', '"'],
            sep@ == seq![',', '\r', '\n'],
            body@ == joined(v.subrange(0, i as int)),
        decreases entries@.len() - i,
    {
        let ghost before = body@;
        if i > 0 {
            body.append(sep);
        }
        body.append(quote);
        body.append(entries[i].key.as_str());
        body.append(colon);
        body.append(entries[i].value.as_str());
        body.append(quote);
        proof {
            let w = v.subrange(0, i + 1);
            assert(w.drop_last() =~= v.subrange(0, i as int));
            assert(w.last() == v[i as int]);
            if i == 0 {
                assert(body@ =~= item_text(v[0]));
            } else {
                assert(body@ =~= before + seq![',', '\r', '\n'] + item_text(v[i as int]));
            }
        }
        i = i + 1;
    }
    assert(v.subrange(0, i as int) =~= v);
    let mut out = String::new();
    out.append(open_text);
    out.append(body.as_str());
    out.append(close_text);
    assert(out@ =~= listing(v));
    out
}

} // verus!
