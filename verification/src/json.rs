//! A plain model of a JSON document, as far as the settings logic reads one:
//! the raw settings object kept in the store is inspected key by key during
//! upgrade detection and legacy migration, and Ollama's tag listing is read
//! for model names.

use vstd::prelude::*;
use crate::text::str_eq;

verus! {

/// A JSON value. Numbers keep their textual form; the logic never computes
/// with them, it only tells them apart from the other kinds.
pub enum JsonValue {
    Null,
    Bool(bool),
    Number(String),
    Str(String),
    Array(Vec<JsonValue>),
    Object(Vec<(String, JsonValue)>),
}

/// Index of the first entry of `entries` whose key is `key`, if any.
#[verifier::opaque]
pub open spec fn first_key_index(entries: Seq<(String, JsonValue)>, key: Seq<char>) -> Option<int>
    decreases entries.len(),
{
    if entries.len() == 0 {
        None
    } else if entries[0].0@ == key {
        Some(0)
    } else {
        match first_key_index(entries.drop_first(), key) {
            Some(i) => Some(i + 1),
            None => None,
        }
    }
}

proof fn lemma_first_key_index(entries: Seq<(String, JsonValue)>, key: Seq<char>)
    ensures
        match first_key_index(entries, key) {
            Some(i) => 0 <= i < entries.len() && entries[i].0@ == key && forall|j: int|
                0 <= j < i ==> entries[j].0@ != key,
            None => forall|j: int| 0 <= j < entries.len() ==> entries[j].0@ != key,
        },
    decreases entries.len(),
{
    reveal(first_key_index);
    if entries.len() > 0 {
        lemma_first_key_index(entries.drop_first(), key);
        if entries[0].0@ != key {
            assert forall|j: int| 1 <= j < entries.len() implies entries[j].0@ == entries.drop_first()[j
                - 1].0@ by {}
        }
    }
}

impl JsonValue {
    /// What `value.get(key)` gives: the member named `key` of an object.
    pub open spec fn spec_member(self, key: Seq<char>) -> Option<JsonValue> {
        match self {
            JsonValue::Object(entries) => match first_key_index(entries@, key) {
                Some(i) => Some(entries@[i].1),
                None => None,
            },
            _ => None,
        }
    }

    /// What `value.as_str()` gives.
    pub open spec fn spec_as_str(self) -> Option<Seq<char>> {
        match self {
            JsonValue::Str(s) => Some(s@),
            _ => None,
        }
    }

    /// What `value.as_bool()` gives.
    pub open spec fn spec_as_bool(self) -> Option<bool> {
        match self {
            JsonValue::Bool(b) => Some(b),
            _ => None,
        }
    }

    /// The member `key` of an object, as a string, if it is one.
    pub open spec fn spec_member_str(self, key: Seq<char>) -> Option<Seq<char>> {
        match self.spec_member(key) {
            Some(v) => v.spec_as_str(),
            None => None,
        }
    }

    /// The member named `key` of an object (`None` for other kinds).
    pub fn get(&self, key: &str) -> (r: Option<&JsonValue>)
        ensures
            match r {
                Some(v) => self.spec_member(key@) == Some(*v),
                None => self.spec_member(key@) is None,
            },
    {
        match self {
            JsonValue::Object(entries) => {
                let mut i: usize = 0;
                proof {
                    lemma_first_key_index(entries@, key@);
                }
                while i < entries.len()
                    invariant
                        i <= entries.len(),
                        *self == JsonValue::Object(*entries),
                        forall|j: int| 0 <= j < i ==> entries@[j].0@ != key@,
                        match first_key_index(entries@, key@) {
                            Some(k) => 0 <= k < entries@.len() && entries@[k].0@ == key@
                                && forall|j: int| 0 <= j < k ==> entries@[j].0@ != key@,
                            None => forall|j: int|
                                0 <= j < entries@.len() ==> entries@[j].0@ != key@,
                        },
                    decreases entries.len() - i,
                {
                    if str_eq(entries[i].0.as_str(), key) {
                        proof {
                            match first_key_index(entries@, key@) {
                                Some(k) => {
                                    if k > i {
                                        assert(entries@[i as int].0@ == key@);
                                    }
                                },
                                None => {
                                    assert(entries@[i as int].0@ == key@);
                                },
                            }
                            assert(first_key_index(entries@, key@) == Some(i as int));
                        }
                        return Some(&entries[i].1);
                    }
                    i = i + 1;
                }
                None
            },
            _ => None,
        }
    }

    /// The text of a JSON string.
    pub fn as_str(&self) -> (r: Option<&str>)
        ensures
            match r {
                Some(s) => self.spec_as_str() == Some(s@),
                None => self.spec_as_str() is None,
            },
    {
        match self {
            JsonValue::Str(s) => Some(s.as_str()),
            _ => None,
        }
    }

    /// The value of a JSON boolean.
    pub fn as_bool(&self) -> (r: Option<bool>)
        ensures
            r == self.spec_as_bool(),
    {
        match self {
            JsonValue::Bool(b) => Some(*b),
            _ => None,
        }
    }

    /// Whether this is an object.
    pub fn is_object(&self) -> (r: bool)
        ensures
            r == (self is Object),
    {
        match self {
            JsonValue::Object(_) => true,
            _ => false,
        }
    }

    /// Whether this is an object with at least one member.
    pub fn is_non_empty_object(&self) -> (r: bool)
        ensures
            r == (self matches JsonValue::Object(e) && e@.len() > 0),
    {
        match self {
            JsonValue::Object(entries) => entries.len() > 0,
            _ => false,
        }
    }

    /// The member `key` of an object, as a string, if it is one.
    pub fn member_str(&self, key: &str) -> (r: Option<&str>)
        ensures
            match r {
                Some(s) => self.spec_member_str(key@) == Some(s@),
                None => self.spec_member_str(key@) is None,
            },
    {
        match self.get(key) {
            Some(v) => v.as_str(),
            None => None,
        }
    }
}

} // verus!
