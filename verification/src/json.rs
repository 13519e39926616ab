//! JSON documents as a tree of plain values, and the parser that reads them.

use crate::text::same_text;
use vstd::prelude::*;

verus! {

/// `serde_json::Value`, the parser's own tree.
#[verifier::external_type_specification]
#[verifier::external_body]
pub struct ExValue(serde_json::Value);

/// A JSON document.
#[derive(Debug, PartialEq, Eq)]
pub enum Json {
    Null,
    Bool(bool),
    /// A number, with its value where it is a whole number from 0 to 2^64 - 1.
    Number(Option<u64>),
    Text(String),
    Array(Vec<Json>),
    Object(Vec<Member>),
}

/// One member of a JSON object.
#[derive(Debug, PartialEq, Eq)]
pub struct Member {
    pub key: String,
    pub value: Json,
}

/// The document that `serde_json` reads from `bytes`, if they are JSON.
pub uninterp spec fn parsed_json(bytes: Seq<u8>) -> Option<Json>;

/// The value of the first member of `members` under `key`.
pub open spec fn member(members: Seq<Member>, key: Seq<char>) -> Option<Json>
    decreases members.len(),
{
    if members.len() == 0 {
        None
    } else if members[0].key@ == key {
        Some(members[0].value)
    } else {
        member(members.drop_first(), key)
    }
}

/// Turns the parser's tree into a `Json`, variant for variant. Of a number it
/// keeps what `Number::as_u64` returns.
#[verifier::external_body]
fn json_from_value(value: serde_json::Value) -> Json {
    match value {
        serde_json::Value::Null => Json::Null,
        serde_json::Value::Bool(b) => Json::Bool(b),
        serde_json::Value::Number(n) => Json::Number(n.as_u64()),
        serde_json::Value::String(s) => Json::Text(s),
        serde_json::Value::Array(items) => Json::Array(
            items.into_iter().map(json_from_value).collect(),
        ),
        serde_json::Value::Object(members) => Json::Object(
            members.into_iter().map(|(key, v)| Member { key, value: json_from_value(v) }).collect(),
        ),
    }
}

/// `serde_json::from_slice` for a `serde_json::Value`. Trusted: whether the
/// bytes are accepted, and the document read from them, depend on the bytes
/// alone.
#[verifier::external_body]
pub(crate) fn parse_json(bytes: &[u8]) -> (parsed: Option<Json>)
    ensures
        parsed == parsed_json(bytes@),
{
    match serde_json::from_slice::<serde_json::Value>(bytes) {
        Ok(value) => Some(json_from_value(value)),
        Err(_) => None,
    }
}

/// Looks `key` up among `members`.
pub fn find_member<'a>(members: &'a Vec<Member>, key: &str) -> (found: Option<&'a Json>)
    ensures
        found matches Some(value) ==> member(members@, key@) == Some(*value),
        found is None ==> member(members@, key@) is None,
{
    let mut i: usize = 0;
    assert(members@.skip(0) == members@);
    while i < members.len()
        invariant
            i <= members.len(),
            member(members@, key@) == member(members@.skip(i as int), key@),
        decreases members.len() - i,
    {
        if same_text(members[i].key.as_str(), key) {
            assert(members@.skip(i as int)[0] == members@[i as int]);
            return Some(&members[i].value);
        }
        assert(members@.skip(i as int).drop_first() == members@.skip(i + 1));
        assert(members@.skip(i as int)[0] == members@[i as int]);
        i += 1;
    }
    assert(members@.skip(i as int).len() == 0);
    None
}

/// No two of `members` have the same key.
pub open spec fn keys_distinct(members: Seq<Member>) -> bool {
    forall|i: int, j: int|
        0 <= i < j < members.len() ==> members[i].key@ != members[j].key@
}

/// The member at `i` is the one found under its key if no earlier member has
/// that key.
proof fn lemma_member_found(members: Seq<Member>, i: int)
    requires
        0 <= i < members.len(),
        forall|k: int| 0 <= k < i ==> (#[trigger] members[k]).key@ != members[i].key@,
    ensures
        member(members, members[i].key@) == Some(members[i].value),
    decreases i,
{
    if i > 0 {
        let rest = members.drop_first();
        assert(rest[i - 1] == members[i]);
        assert forall|k: int| 0 <= k < i - 1 implies (#[trigger] rest[k]).key@ != rest[i
            - 1].key@ by {
            assert(rest[k] == members[k + 1]);
        }
        lemma_member_found(rest, i - 1);
    }
}

/// Nothing is found under a key that no member has.
proof fn lemma_member_missing(members: Seq<Member>, key: Seq<char>)
    requires
        forall|k: int| 0 <= k < members.len() ==> (#[trigger] members[k]).key@ != key,
    ensures
        member(members, key) is None,
    decreases members.len(),
{
    if members.len() > 0 {
        let rest = members.drop_first();
        assert forall|k: int| 0 <= k < rest.len() implies (#[trigger] rest[k]).key@ != key by {
            assert(rest[k] == members[k + 1]);
        }
        lemma_member_missing(rest, key);
    }
}

/// Looking a key up does not depend on the order of the members: two objects
/// with the same members, each key once, give the same value under every key.
pub proof fn lemma_member_order_independent(one: Seq<Member>, other: Seq<Member>, key: Seq<char>)
    requires
        keys_distinct(one),
        keys_distinct(other),
        forall|m: Member| one.contains(m) <==> other.contains(m),
    ensures
        member(one, key) == member(other, key),
{
    if exists|i: int| 0 <= i < one.len() && one[i].key@ == key {
        let i = choose|i: int| 0 <= i < one.len() && one[i].key@ == key;
        lemma_member_found(one, i);
        assert(one.contains(one[i]));
        assert(other.contains(one[i]));
        let j = choose|j: int| 0 <= j < other.len() && other[j] == one[i];
        lemma_member_found(other, j);
    } else {
        lemma_member_missing(one, key);
        assert forall|k: int| 0 <= k < other.len() implies (#[trigger] other[k]).key@ != key by {
            assert(other.contains(other[k]));
            assert(one.contains(other[k]));
            let i = choose|i: int| 0 <= i < one.len() && one[i] == other[k];
            assert(one[i].key@ == other[k].key@);
        }
        lemma_member_missing(other, key);
    }
}

} // verus!
