use vstd::prelude::*;

verus! {

/// A JSON document as the candle logic reads it.
///
/// Numbers keep their textual form: no logic of this crate reads a JSON
/// number as a number. Object members keep their order of appearance.
#[derive(Debug)]
pub enum JsonValue {
    Null,
    Bool(bool),
    Number(String),
    String(String),
    Array(Vec<JsonValue>),
    Object(Vec<(String, JsonValue)>),
}

/// The value of the first member named `key`, if any.
pub open spec fn spec_member(members: Seq<(String, JsonValue)>, key: Seq<char>) -> Option<JsonValue>
    decreases members.len(),
{
    if members.len() == 0 {
        None
    } else if members[0].0@ == key {
        Some(members[0].1)
    } else {
        spec_member(members.drop_first(), key)
    }
}

/// Looking a key up: the member of an object, nothing for any other value.
pub open spec fn spec_get(v: JsonValue, key: Seq<char>) -> Option<JsonValue> {
    match v {
        JsonValue::Object(members) => spec_member(members@, key),
        _ => None,
    }
}

/// The text of a JSON string.
pub open spec fn spec_as_str(v: JsonValue) -> Option<Seq<char>> {
    match v {
        JsonValue::String(s) => Some(s@),
        _ => None,
    }
}

/// The elements of a JSON array.
pub open spec fn spec_as_array(v: JsonValue) -> Option<Seq<JsonValue>> {
    match v {
        JsonValue::Array(items) => Some(items@),
        _ => None,
    }
}

proof fn lemma_member_skip(members: Seq<(String, JsonValue)>, key: Seq<char>, i: int)
    requires
        0 <= i <= members.len(),
        forall|j: int| 0 <= j < i ==> (#[trigger] members[j]).0@ != key,
    ensures
        spec_member(members, key) == spec_member(members.subrange(i, members.len() as int), key),
    decreases i,
{
    if i > 0 {
        let rest = members.drop_first();
        assert forall|j: int| 0 <= j < i - 1 implies (#[trigger] rest[j]).0@ != key by {
            assert(rest[j] == members[j + 1]);
        }
        lemma_member_skip(rest, key, i - 1);
        assert(rest.subrange(i - 1, rest.len() as int) =~= members.subrange(i, members.len() as int));
    } else {
        assert(members.subrange(0, members.len() as int) =~= members);
    }
}

impl JsonValue {
    /// The member `key` of an object; `None` when `self` is no object or
    /// has no such member.
    pub fn get<'a>(&'a self, key: &str) -> (r: Option<&'a JsonValue>)
        ensures
            r is Some <==> spec_get(*self, key@) is Some,
            r matches Some(v) ==> spec_get(*self, key@) == Some(*v),
    {
        match self {
            JsonValue::Object(members) => {
                let wanted = String::from_str(key);
                let n = members.len();
                let mut i: usize = 0;
                while i < n
                    invariant
                        n == members@.len(),
                        0 <= i <= n,
                        wanted@ == key@,
                        spec_get(*self, key@) == spec_member(members@, key@),
                        forall|j: int| 0 <= j < i ==> (#[trigger] members@[j]).0@ != key@,
                    decreases n - i,
                {
                    if members[i].0 == wanted {
                        proof {
                            lemma_member_skip(members@, key@, i as int);
                            let rest = members@.subrange(i as int, n as int);
                            assert(rest[0] == members@[i as int]);
                            assert(rest[0].0@ == key@);
                        }
                        return Some(&members[i].1);
                    }
                    i = i + 1;
                }
                proof {
                    lemma_member_skip(members@, key@, n as int);
                    assert(members@.subrange(n as int, n as int).len() == 0);
                }
                None
            },
            _ => None,
        }
    }

    /// The text of a JSON string; `None` for any other value.
    pub fn as_str(&self) -> (r: Option<&str>)
        ensures
            r is Some <==> spec_as_str(*self) is Some,
            r matches Some(s) ==> spec_as_str(*self) == Some(s@),
    {
        match self {
            JsonValue::String(s) => Some(s.as_str()),
            _ => None,
        }
    }

    /// The elements of a JSON array; `None` for any other value.
    pub fn as_array(&self) -> (r: Option<&Vec<JsonValue>>)
        ensures
            r is Some <==> spec_as_array(*self) is Some,
            r matches Some(items) ==> spec_as_array(*self) == Some(items@),
    {
        match self {
            JsonValue::Array(items) => Some(items),
            _ => None,
        }
    }
}

} // verus!
