//! JSON documents as mathematical values, and what holds of the members of
//! an object.

use vstd::prelude::*;

verus! {

/// A JSON number. Numbers come in three kinds, which are told apart when a
/// number is read.
pub enum JsonNumber {
    /// An integer from zero to `u64::MAX`.
    Unsigned(u64),
    /// An integer below zero.
    Negative(i64),
    /// Any other finite number, by the bits of its 64-bit representation.
    Fraction(u64),
}

/// A JSON document as a mathematical value.
///
/// The members of an object are kept in the order in which they stand in the
/// text, since that is the order in which they are printed again.
pub enum Json {
    Null,
    Bool(bool),
    Number(JsonNumber),
    Text(Seq<char>),
    List(Seq<Json>),
    Object(Seq<(Seq<char>, Json)>),
}

/// The members of a JSON object: names with their values, in order.
pub type Members = Seq<(Seq<char>, Json)>;

/// The value that `members` holds under `key`, if any: that of the first
/// member of that name.
pub open spec fn lookup(members: Members, key: Seq<char>) -> Option<Json>
    decreases members.len(),
{
    if members.len() == 0 {
        None
    } else if members[0].0 == key {
        Some(members[0].1)
    } else {
        lookup(members.drop_first(), key)
    }
}

/// Whether no two members share a name.
pub open spec fn distinct_keys(members: Members) -> bool {
    forall|i: int, j: int| 0 <= i < j < members.len() ==> members[i].0 != members[j].0
}

impl Json {
    /// The member `key` of an object; `None` for a missing member and for
    /// anything that is not an object.
    pub open spec fn member(self, key: Seq<char>) -> Option<Json> {
        match self {
            Json::Object(members) => lookup(members, key),
            _ => None,
        }
    }

    /// The JSON number that stands for `n`.
    pub open spec fn count(n: u64) -> Json {
        Json::Number(JsonNumber::Unsigned(n))
    }
}

/// A name that no member has is not found, and the other way round.
pub proof fn lemma_lookup_none(members: Members, key: Seq<char>)
    ensures
        lookup(members, key) is None <==> forall|i: int|
            0 <= i < members.len() ==> (#[trigger] members[i]).0 != key,
    decreases members.len(),
{
    if members.len() > 0 {
        let rest = members.drop_first();
        lemma_lookup_none(rest, key);
        if members[0].0 != key {
            if lookup(rest, key) is None {
                assert forall|i: int| 0 <= i < members.len() implies (#[trigger] members[i]).0
                    != key by {
                    if i > 0 {
                        assert(members[i] == rest[i - 1]);
                    }
                }
            } else {
                let j = choose|j: int| 0 <= j < rest.len() && (#[trigger] rest[j]).0 == key;
                assert(members[j + 1] == rest[j]);
            }
        }
    }
}

} // verus!
