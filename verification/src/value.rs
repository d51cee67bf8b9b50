//! A JSON value as the executor reads task arguments: numbers are kept only when
//! they are integers, which is all the executor's rules look at.
use vstd::prelude::*;
use crate::text::text_equal;

verus! {

/// One JSON value.
#[derive(Debug)]
pub enum WireValue {
    Null,
    Bool(bool),
    /// A nonnegative integer.
    UInt(u64),
    /// A negative integer.
    NegInt(i64),
    /// A number with a fraction or exponent.
    Fraction,
    Str(String),
    Array(Vec<WireValue>),
    /// Members in document order; keys are distinct.
    Object(Vec<(String, WireValue)>),
}

/// The value of the first member of `members` named `key`.
pub open spec fn member(members: Seq<(String, WireValue)>, key: Seq<char>) -> Option<WireValue>
    decreases members.len(),
{
    if members.len() == 0 {
        None
    } else if members[0].0@ == key {
        Some(members[0].1)
    } else {
        member(members.skip(1), key)
    }
}

/// Some member of `members` is named `key`.
pub open spec fn has_member(members: Seq<(String, WireValue)>, key: Seq<char>) -> bool {
    exists|i: int| 0 <= i < members.len() && #[trigger] members[i].0@ == key
}

proof fn lemma_member_found(members: Seq<(String, WireValue)>, key: Seq<char>, i: int)
    requires
        0 <= i < members.len(),
        members[i].0@ == key,
        forall|k: int| 0 <= k < i ==> members[k].0@ != key,
    ensures
        member(members, key) == Some(members[i].1),
    decreases i,
{
    if i > 0 {
        lemma_member_found(members.skip(1), key, i - 1);
    }
}

proof fn lemma_member_absent(members: Seq<(String, WireValue)>, key: Seq<char>)
    requires
        forall|k: int| 0 <= k < members.len() ==> members[k].0@ != key,
    ensures
        member(members, key) is None,
    decreases members.len(),
{
    if members.len() > 0 {
        lemma_member_absent(members.skip(1), key);
    }
}

/// The value of the member named `key`, if any.
pub fn get_member<'a>(members: &'a Vec<(String, WireValue)>, key: &str) -> (r: Option<&'a WireValue>)
    ensures
        match member(members@, key@) {
            Some(v) => r == Some(&v),
            None => r is None,
        },
        r is Some <==> has_member(members@, key@),
{
    let mut i: usize = 0;
    while i < members.len()
        invariant
            i <= members@.len(),
            forall|k: int| 0 <= k < i ==> members@[k].0@ != key@,
        decreases members@.len() - i,
    {
        if text_equal(members[i].0.as_str(), key) {
            proof { lemma_member_found(members@, key@, i as int); }
            return Some(&members[i].1);
        }
        i = i + 1;
    }
    proof { lemma_member_absent(members@, key@); }
    None
}

impl WireValue {
    /// The text of a string value.
    pub fn as_str(&self) -> (r: Option<&str>)
        ensures
            match self {
                WireValue::Str(s) => r matches Some(t) && t@ == s@,
                _ => r is None,
            },
    {
        match self {
            WireValue::Str(s) => Some(s.as_str()),
            _ => None,
        }
    }

    /// The value of a nonnegative integer.
    pub fn as_u64(&self) -> (r: Option<u64>)
        ensures
            match self {
                WireValue::UInt(n) => r == Some(*n),
                _ => r is None,
            },
    {
        match self {
            WireValue::UInt(n) => Some(*n),
            _ => None,
        }
    }
}

} // verus!
