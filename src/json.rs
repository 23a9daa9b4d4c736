//! JSON text, as far as the request and the response need it.

use vstd::prelude::*;
use vstd::multiset::Multiset;
use crate::keys::{key_le, key_le_text, lemma_key_le_reflexive, lemma_key_le_total, lemma_key_le_transitive};

verus! {

/// What the JSON parser makes of `text`: the document parsed from it,
/// serialised again in compact form; nothing when the text is refused
/// (it is not well-formed JSON, or it nests deeper than the parser allows).
pub uninterp spec fn json_compact_of(text: Seq<char>) -> Option<Seq<char>>;

/// Relies on `serde_json::from_str` into `serde_json::Value`, and on
/// `serde_json::to_string` of that value; both depend on their input alone.
#[verifier::external_body]
pub(crate) fn reencode_json(text: &str) -> (r: Option<String>)
    ensures
        match r {
            Some(c) => json_compact_of(text@) == Some(c@),
            None => json_compact_of(text@) is None,
        },
{
    serde_json::from_str::<serde_json::Value>(text).ok().and_then(|v| serde_json::to_string(&v).ok())
}

/// A JSON document, with the members of each object in the order they are kept.
pub enum JsonValue {
    Null,
    Bool(bool),
    /// A number, in its JSON notation.
    Number(String),
    Str(String),
    Array(Vec<JsonValue>),
    /// The members of an object: each key with its value.
    Object(Vec<(String, JsonValue)>),
}

/// The keys of a list of members come in order.
pub open spec fn keys_ascending(e: Seq<(String, JsonValue)>) -> bool {
    forall|i: int, j: int| 0 <= i < j < e.len() ==> key_le(#[trigger] e[i].0@, #[trigger] e[j].0@)
}

/// Every object in `v`, at every depth, has its keys in order.
pub open spec fn sorted_deep(v: JsonValue) -> bool
    decreases v,
{
    match v {
        JsonValue::Array(items) => all_sorted_deep(items@),
        JsonValue::Object(e) => keys_ascending(e@) && members_sorted_deep(e@),
        _ => true,
    }
}

/// Every value in `s` is sorted at every depth.
pub open spec fn all_sorted_deep(s: Seq<JsonValue>) -> bool
    decreases s,
{
    if s.len() == 0 {
        true
    } else {
        all_sorted_deep(s.drop_last()) && sorted_deep(s.last())
    }
}

/// The value of every member in `e` is sorted at every depth.
pub open spec fn members_sorted_deep(e: Seq<(String, JsonValue)>) -> bool
    decreases e,
{
    if e.len() == 0 {
        true
    } else {
        members_sorted_deep(e.drop_last()) && sorted_deep(e.last().1)
    }
}

/// `r` holds what `v` holds, with the members of objects possibly reordered,
/// at every depth: scalars are equal, arrays keep their order, and the
/// members of an object are those of `v`, each value reordered the same way.
pub open spec fn reordered(r: JsonValue, v: JsonValue) -> bool
    decreases v,
{
    match v {
        JsonValue::Array(items) => r matches JsonValue::Array(ri) && all_reordered(ri@, items@),
        JsonValue::Object(e) => r matches JsonValue::Object(re) && exists|m: Seq<(String, JsonValue)>|
            #[trigger] m.to_multiset() == re@.to_multiset() && members_reordered(m, e@),
        _ => r == v,
    }
}

/// `rs` and `vs` have the same length, and each value of `rs` is the one
/// of `vs` at the same place, reordered.
pub open spec fn all_reordered(rs: Seq<JsonValue>, vs: Seq<JsonValue>) -> bool
    decreases vs,
{
    if vs.len() == 0 {
        rs.len() == 0
    } else {
        rs.len() == vs.len() && all_reordered(rs.drop_last(), vs.drop_last()) && reordered(rs.last(), vs.last())
    }
}

/// `m` and `e` have the same length, and each member of `m` has the key of
/// the member of `e` at the same place and its value, reordered.
pub open spec fn members_reordered(m: Seq<(String, JsonValue)>, e: Seq<(String, JsonValue)>) -> bool
    decreases e,
{
    if e.len() == 0 {
        m.len() == 0
    } else {
        m.len() == e.len() && members_reordered(m.drop_last(), e.drop_last()) && m.last().0 == e.last().0
            && reordered(m.last().1, e.last().1)
    }
}

/// `members_sorted_deep` says of each member's value that it is sorted.
proof fn lemma_members_sorted_deep(e: Seq<(String, JsonValue)>)
    ensures
        members_sorted_deep(e) <==> forall|i: int| #![trigger e[i]] 0 <= i < e.len() ==> sorted_deep(e[i].1),
    decreases e.len(),
{
    if e.len() > 0 {
        let d = e.drop_last();
        lemma_members_sorted_deep(d);
        assert forall|i: int| 0 <= i < d.len() implies #[trigger] d[i] == e[i] by {}
        if forall|i: int| #![trigger e[i]] 0 <= i < e.len() ==> sorted_deep(e[i].1) {
            assert(e.last() == e[e.len() - 1]);
            assert forall|i: int| #![trigger d[i]] 0 <= i < d.len() implies sorted_deep(d[i].1) by {
                assert(d[i] == e[i]);
            }
        }
        if members_sorted_deep(e) {
            assert forall|i: int| #![trigger e[i]] 0 <= i < e.len() implies sorted_deep(e[i].1) by {
                if i < d.len() {
                    assert(d[i] == e[i]);
                }
            }
        }
    }
}

/// Index of a member whose key comes first among `e`, which is not empty.
fn first_key_index(e: &Vec<(String, JsonValue)>) -> (b: usize)
    requires
        e@.len() > 0,
    ensures
        b < e@.len(),
        forall|t: int| 0 <= t < e@.len() ==> key_le(e@[b as int].0@, #[trigger] e@[t].0@),
{
    let mut b: usize = 0;
    let mut j: usize = 1;
    proof {
        lemma_key_le_reflexive(e@[0].0@);
    }
    while j < e.len()
        invariant
            1 <= j <= e@.len(),
            b < j,
            forall|t: int| 0 <= t < j ==> key_le(e@[b as int].0@, #[trigger] e@[t].0@),
        decreases e@.len() - j,
    {
        if !key_le_text(e[b].0.as_str(), e[j].0.as_str()) {
            proof {
                lemma_key_le_reflexive(e@[j as int].0@);
                lemma_key_le_total(e@[b as int].0@, e@[j as int].0@);
                assert forall|t: int| 0 <= t < j implies key_le(e@[j as int].0@, #[trigger] e@[t].0@) by {
                    lemma_key_le_transitive(e@[j as int].0@, e@[b as int].0@, e@[t].0@);
                }
            }
            b = j;
        }
        j = j + 1;
    }
    b
}

/// Puts members in key order; the values are kept as they are.
fn sort_members(e: Vec<(String, JsonValue)>) -> (r: Vec<(String, JsonValue)>)
    ensures
        keys_ascending(r@),
        r@.to_multiset() == e@.to_multiset(),
        members_sorted_deep(e@) ==> members_sorted_deep(r@),
{
    broadcast use vstd::multiset::group_multiset_axioms;
    let ghost orig = e@;
    let ghost all_sorted = members_sorted_deep(e@);
    proof {
        lemma_members_sorted_deep(e@);
    }
    let mut rest = e;
    let mut out: Vec<(String, JsonValue)> = Vec::new();
    proof {
        vstd::seq_lib::to_multiset_len(out@);
        vstd::multiset::lemma_multiset_empty_len(out@.to_multiset());
        assert(out@.to_multiset() =~= Multiset::empty());
        assert(out@.to_multiset().add(rest@.to_multiset()) =~= rest@.to_multiset());
    }
    while rest.len() > 0
        invariant
            out@.to_multiset().add(rest@.to_multiset()) == orig.to_multiset(),
            keys_ascending(out@),
            forall|a: int, b: int| 0 <= a < out@.len() && 0 <= b < rest@.len() ==> key_le(#[trigger] out@[a].0@, #[trigger] rest@[b].0@),
            all_sorted ==> forall|i: int| #![trigger out@[i]] 0 <= i < out@.len() ==> sorted_deep(out@[i].1),
            all_sorted ==> forall|i: int| #![trigger rest@[i]] 0 <= i < rest@.len() ==> sorted_deep(rest@[i].1),
        decreases rest@.len(),
    {
        let b = first_key_index(&rest);
        let ghost before_rest = rest@;
        let ghost before_out = out@;
        let x = rest.remove(b);
        proof {
            vstd::seq_lib::to_multiset_remove(before_rest, b as int);
            vstd::seq_lib::to_multiset_contains(before_rest, x);
            assert(rest@.to_multiset() == before_rest.to_multiset().remove(x));
            assert forall|i: int| 0 <= i < rest@.len() implies #[trigger] rest@[i] == before_rest[if i < b { i } else { i + 1 }] by {}
        }
        out.push(x);
        proof {
            assert(out@.drop_last() =~= before_out);
            vstd::seq_lib::to_multiset_build(before_out, x);
            assert(out@ == before_out.push(x));
            assert(out@.to_multiset() == before_out.to_multiset().insert(x));
            assert(out@.to_multiset().add(rest@.to_multiset()) =~= before_out.to_multiset().add(before_rest.to_multiset()));
            assert forall|a: int, c: int| 0 <= a < c < out@.len() implies key_le(#[trigger] out@[a].0@, #[trigger] out@[c].0@) by {
                if c == out@.len() - 1 {
                    assert(before_out[a] == out@[a]);
                    assert(key_le(before_out[a].0@, before_rest[b as int].0@));
                } else {
                    assert(before_out[a] == out@[a] && before_out[c] == out@[c]);
                }
            }
            assert forall|a: int, c: int| 0 <= a < out@.len() && 0 <= c < rest@.len() implies key_le(#[trigger] out@[a].0@, #[trigger] rest@[c].0@) by {
                let k = if c < b { c } else { c + 1 };
                assert(rest@[c] == before_rest[k]);
                if a < out@.len() - 1 {
                    assert(before_out[a] == out@[a]);
                    assert(key_le(before_out[a].0@, before_rest[k].0@));
                } else {
                    assert(key_le(before_rest[b as int].0@, before_rest[k].0@));
                }
            }
            if all_sorted {
                assert forall|i: int| #![trigger out@[i]] 0 <= i < out@.len() implies sorted_deep(out@[i].1) by {
                    if i < out@.len() - 1 {
                        assert(before_out[i] == out@[i]);
                    } else {
                        assert(before_rest[b as int] == out@[i]);
                    }
                }
                assert forall|i: int| #![trigger rest@[i]] 0 <= i < rest@.len() implies sorted_deep(rest@[i].1) by {
                    let k = if i < b { i } else { i + 1 };
                    assert(rest@[i] == before_rest[k]);
                }
            }
        }
    }
    proof {
        vstd::seq_lib::to_multiset_len(rest@);
        vstd::multiset::lemma_multiset_empty_len(rest@.to_multiset());
        assert(rest@.to_multiset() =~= Multiset::empty());
        assert(out@.to_multiset().add(Multiset::empty()) =~= out@.to_multiset());
        lemma_members_sorted_deep(out@);
    }
    out
}

/// Sorts the members of every object in a document by key, at every depth;
/// arrays and scalars are kept as they are.
pub fn sort_json_keys(v: JsonValue) -> (r: JsonValue)
    ensures
        sorted_deep(r),
        reordered(r, v),
    decreases v,
{
    match v {
        JsonValue::Array(items) => {
            let ghost orig = items@;
            let mut rest = items;
            let mut out: Vec<JsonValue> = Vec::new();
            while rest.len() > 0
                invariant
                    out.len() + rest.len() == orig.len(),
                    rest@ == orig.subrange(out.len() as int, orig.len() as int),
                    all_sorted_deep(out@),
                    all_reordered(out@, orig.subrange(0, out.len() as int)),
                    forall|i: int| 0 <= i < orig.len() ==> decreases_to!(v => #[trigger] orig[i]),
                decreases rest.len(),
            {
                let x = rest.remove(0);
                let y = sort_json_keys(x);
                let ghost before = out@;
                out.push(y);
                assert(out@.drop_last() =~= before);
                assert(orig.subrange(0, out.len() as int).drop_last() =~= orig.subrange(0, before.len() as int));
            }
            assert(orig.subrange(0, out.len() as int) =~= orig);
            let r = JsonValue::Array(out);
            r
        },
        JsonValue::Object(members) => {
            let ghost orig = members@;
            let mut rest = members;
            let mut mapped: Vec<(String, JsonValue)> = Vec::new();
            while rest.len() > 0
                invariant
                    mapped.len() + rest.len() == orig.len(),
                    rest@ == orig.subrange(mapped.len() as int, orig.len() as int),
                    members_sorted_deep(mapped@),
                    members_reordered(mapped@, orig.subrange(0, mapped.len() as int)),
                    forall|i: int| 0 <= i < orig.len() ==> decreases_to!(v => #[trigger] orig[i].1),
                decreases rest.len(),
            {
                let (k, x) = rest.remove(0);
                let y = sort_json_keys(x);
                let ghost before = mapped@;
                mapped.push((k, y));
                assert(mapped@.drop_last() =~= before);
                assert(orig.subrange(0, mapped.len() as int).drop_last() =~= orig.subrange(0, before.len() as int));
            }
            assert(orig.subrange(0, mapped.len() as int) =~= orig);
            let ghost m = mapped@;
            let sorted = sort_members(mapped);
            let r = JsonValue::Object(sorted);
            assert(members_reordered(m, orig));
            assert(reordered(r, v));
            r
        },
        _ => v,
    }
}

} // verus!
