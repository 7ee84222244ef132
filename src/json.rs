use vstd::prelude::*;

use crate::bridge::{json_quote, json_quoted};
use crate::text::{chars_of, push_all};
use crate::types::{HeadersView, headers_view};

verus! {

/// One object member: the quoted key, a colon, and the value's JSON text.
pub open spec fn json_member(e: (Seq<char>, Seq<char>)) -> Seq<char> {
    json_quoted(e.0) + seq![':'] + e.1
}

/// Object members separated by commas.
pub open spec fn json_members(es: Seq<(Seq<char>, Seq<char>)>) -> Seq<char>
    decreases es.len(),
{
    if es.len() == 0 {
        Seq::empty()
    } else if es.len() == 1 {
        json_member(es[0])
    } else {
        json_members(es.drop_last()) + seq![','] + json_member(es.last())
    }
}

/// A JSON object, in compact form, whose members are keys with the JSON text
/// of their values, in the given order.
pub open spec fn json_object(es: Seq<(Seq<char>, Seq<char>)>) -> Seq<char> {
    seq!['{'] + json_members(es) + seq!['}']
}

/// Pairs of texts as a JSON object of strings.
pub open spec fn json_text_map(hs: HeadersView) -> Seq<char> {
    json_object(hs.map_values(|p: (Seq<char>, Seq<char>)| (p.0, json_quoted(p.1))))
}

/// The JSON text of a string.
pub fn json_string(s: &str) -> (r: Vec<char>)
    ensures
        r@ == json_quoted(s@),
{
    let q = json_quote(s);
    chars_of(q.as_str())
}

/// A JSON object from keys and the JSON texts of their values.
pub fn json_object_text(es: &Vec<(String, Vec<char>)>) -> (r: Vec<char>)
    ensures
        r@ == json_object(es@.map_values(|e: (String, Vec<char>)| (e.0@, e.1@))),
{
    let ghost m = es@.map_values(|e: (String, Vec<char>)| (e.0@, e.1@));
    let mut r: Vec<char> = Vec::new();
    r.push('{');
    let mut i: usize = 0;
    while i < es.len()
        invariant
            i <= es@.len(),
            m == es@.map_values(|e: (String, Vec<char>)| (e.0@, e.1@)),
            r@ == seq!['{'] + json_members(m.subrange(0, i as int)),
        decreases es@.len() - i,
    {
        assert(m.subrange(0, i + 1).drop_last() =~= m.subrange(0, i as int));
        if i > 0 {
            r.push(',');
        }
        let k = json_string(es[i].0.as_str());
        push_all(&mut r, k.as_slice());
        r.push(':');
        push_all(&mut r, es[i].1.as_slice());
        proof {
            let sub = m.subrange(0, i + 1);
            assert(sub.last() == m[i as int]);
            if i == 0 {
                assert(sub.len() == 1);
                assert(sub[0] == m[0]);
            }
        }
        assert(r@ =~= seq!['{'] + json_members(m.subrange(0, i + 1)));
        i = i + 1;
    }
    r.push('}');
    assert(m.subrange(0, m.len() as int) =~= m);
    assert(r@ =~= json_object(m));
    r
}

/// Pairs of texts as a JSON object of strings.
pub fn json_map(hs: &Vec<(String, String)>) -> (r: Vec<char>)
    ensures
        r@ == json_text_map(headers_view(hs@)),
{
    let mut es: Vec<(String, Vec<char>)> = Vec::new();
    let mut i: usize = 0;
    while i < hs.len()
        invariant
            i <= hs@.len(),
            es@.len() == i,
            forall|j: int|
                0 <= j < i ==> (#[trigger] es@[j]).0@ == hs@[j].0@ && es@[j].1@ == json_quoted(
                    hs@[j].1@,
                ),
        decreases hs@.len() - i,
    {
        let v = json_string(hs[i].1.as_str());
        es.push((hs[i].0.clone(), v));
        i = i + 1;
    }
    let r = json_object_text(&es);
    assert(es@.map_values(|e: (String, Vec<char>)| (e.0@, e.1@)) =~= headers_view(hs@).map_values(
        |p: (Seq<char>, Seq<char>)| (p.0, json_quoted(p.1)),
    ));
    r
}

} // verus!
