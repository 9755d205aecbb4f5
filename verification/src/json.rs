//! A document tree with named-field lookups.
//!
//! Spec documents, hook payloads and the bundled schema are all read as trees
//! of this one shape. The library only ever looks fields up by name and reads
//! strings and lists out of them.

use vstd::prelude::*;
use crate::text::{owned, str_eq};

verus! {

/// One named member of an object.
pub struct Member {
    pub key: String,
    pub value: JsonValue,
}

/// A parsed document.
pub enum JsonValue {
    Null,
    Bool(bool),
    /// A number, kept as the JSON crate holds it.
    Number(serde_json::Number),
    Text(String),
    Array(Vec<JsonValue>),
    /// The members of an object; in a parsed document, in the order of their
    /// keys.
    Object(Vec<Member>),
}

/// The tree type of the JSON crate, as the parsers hand it over.
#[verifier::external_type_specification]
#[verifier::external_body]
pub struct ExternalTree(serde_json::Value);

/// The number type of the JSON crate. The library carries numbers and never
/// looks into them.
#[verifier::external_type_specification]
#[verifier::external_body]
pub struct ExternalNumber(serde_json::Number);

/// What parsing `text` as JSON gives: the document, or the parser's message.
pub uninterp spec fn json_document(text: Seq<char>) -> Result<JsonValue, Seq<char>>;

/// Copies a tree of the JSON crate into a `JsonValue`, node for node
/// (`serde_json::Value`, matched variant by variant). Object members keep
/// the crate's order.
#[verifier::external_body]
pub(crate) fn tree_of(v: &serde_json::Value) -> JsonValue {
    match v {
        serde_json::Value::Null => JsonValue::Null,
        serde_json::Value::Bool(b) => JsonValue::Bool(*b),
        serde_json::Value::Number(n) => JsonValue::Number(n.clone()),
        serde_json::Value::String(s) => JsonValue::Text(s.clone()),
        serde_json::Value::Array(a) => JsonValue::Array(a.iter().map(tree_of).collect()),
        serde_json::Value::Object(o) => JsonValue::Object(
            o.iter().map(|(k, v)| Member { key: k.clone(), value: tree_of(v) }).collect(),
        ),
    }
}

/// Copies a `JsonValue` into a tree of the JSON crate (`serde_json::Value`),
/// node for node.
#[verifier::external_body]
pub(crate) fn serde_of(v: &JsonValue) -> serde_json::Value {
    match v {
        JsonValue::Null => serde_json::Value::Null,
        JsonValue::Bool(b) => serde_json::Value::Bool(*b),
        JsonValue::Number(n) => serde_json::Value::Number(n.clone()),
        JsonValue::Text(s) => serde_json::Value::String(s.clone()),
        JsonValue::Array(a) => serde_json::Value::Array(a.iter().map(serde_of).collect()),
        JsonValue::Object(o) => serde_json::Value::Object(
            o.iter().map(|m| (m.key.clone(), serde_of(&m.value))).collect(),
        ),
    }
}

/// The text of `v` as indented JSON.
pub uninterp spec fn json_pretty(v: JsonValue) -> Seq<char>;

/// Writes `v` as indented JSON with `serde_json::to_string_pretty`, which
/// orders the members of an object by their names. The text is a function of
/// the value alone.
#[verifier::external_body]
pub(crate) fn pretty_text(v: &JsonValue) -> (r: String)
    ensures
        r@ == json_pretty(*v),
{
    serde_json::to_string_pretty(&serde_of(v)).unwrap_or_default()
}

/// Parses `text` as JSON with `serde_json::from_str`. The result is a
/// function of the text alone: the document on success, the parser's message
/// otherwise.
#[verifier::external_body]
pub(crate) fn parse_json_text(text: &str) -> (r: Result<JsonValue, String>)
    ensures
        match r {
            Ok(v) => json_document(text@) == Ok::<JsonValue, Seq<char>>(v),
            Err(e) => json_document(text@) == Err::<JsonValue, Seq<char>>(e@),
        },
{
    match serde_json::from_str::<serde_json::Value>(text) {
        Ok(v) => Ok(tree_of(&v)),
        Err(e) => Err(e.to_string()),
    }
}

/// Parses `text` as JSON: the document, or the parser's message.
pub fn parse_json(text: &str) -> (r: Result<JsonValue, String>)
    ensures
        match r {
            Ok(v) => json_document(text@) == Ok::<JsonValue, Seq<char>>(v),
            Err(e) => json_document(text@) == Err::<JsonValue, Seq<char>>(e@),
        },
{
    parse_json_text(text)
}

/// The text of `v` as indented JSON, the members of each object in the
/// order of their names.
pub fn to_json_text(v: &JsonValue) -> (r: String)
    ensures
        r@ == json_pretty(*v),
{
    pretty_text(v)
}

/// The position of the first member of `members` named `key`, if any.
pub open spec fn member_index(members: Seq<Member>, key: Seq<char>) -> Option<int>
    decreases members.len(),
{
    if members.len() == 0 {
        None
    } else if members[0].key@ == key {
        Some(0)
    } else {
        match member_index(members.skip(1), key) {
            Some(i) => Some(i + 1),
            None => None,
        }
    }
}

/// What `member_index` returns is the first position that holds `key`.
pub proof fn lemma_member_index(members: Seq<Member>, key: Seq<char>)
    ensures
        match member_index(members, key) {
            Some(i) => 0 <= i < members.len() && members[i].key@ == key && forall|j: int|
                0 <= j < i ==> members[j].key@ != key,
            None => forall|j: int| 0 <= j < members.len() ==> members[j].key@ != key,
        },
    decreases members.len(),
{
    if members.len() > 0 && members[0].key@ != key {
        lemma_member_index(members.skip(1), key);
        match member_index(members.skip(1), key) {
            Some(i) => {
                assert(members.skip(1)[i] == members[i + 1]);
                assert forall|j: int| 0 <= j < i + 1 implies members[j].key@ != key by {
                    if j > 0 {
                        assert(members.skip(1)[j - 1] == members[j]);
                    }
                }
            },
            None => {
                assert forall|j: int| 0 <= j < members.len() implies members[j].key@ != key by {
                    if j > 0 {
                        assert(members.skip(1)[j - 1] == members[j]);
                    }
                }
            },
        }
    }
}

/// The value of the first member of `members` named `key`, if any.
pub open spec fn lookup(members: Seq<Member>, key: Seq<char>) -> Option<JsonValue> {
    match member_index(members, key) {
        Some(i) => Some(members[i].value),
        None => None,
    }
}

/// Taking a member out of a list changes nothing for the other names.
pub proof fn lemma_lookup_after_remove(members: Seq<Member>, i: int, key: Seq<char>)
    requires
        0 <= i < members.len(),
        members[i].key@ != key,
    ensures
        lookup(members.remove(i), key) == lookup(members, key),
{
    let after = members.remove(i);
    lemma_member_index(members, key);
    lemma_member_index(after, key);
    assert forall|j: int| 0 <= j < after.len() implies after[j] == (if j < i {
        members[j]
    } else {
        members[j + 1]
    }) by {}
    match member_index(members, key) {
        Some(b) => {
            let b2 = if b < i {
                b
            } else {
                b - 1
            };
            assert(after[b2] == members[b]);
            match member_index(after, key) {
                Some(a) => {
                    let a2 = if a < i {
                        a
                    } else {
                        a + 1
                    };
                    assert(after[a] == members[a2]);
                    assert(a2 == b);
                },
                None => {},
            }
        },
        None => {
            match member_index(after, key) {
                Some(a) => {
                    let a2 = if a < i {
                        a
                    } else {
                        a + 1
                    };
                    assert(after[a] == members[a2]);
                },
                None => {},
            }
        },
    }
}

/// Giving a member a new value changes nothing for the other names, and
/// nothing about which member a name finds.
pub proof fn lemma_lookup_after_update(members: Seq<Member>, i: int, m: Member, key: Seq<char>)
    requires
        0 <= i < members.len(),
        members[i].key@ == m.key@,
    ensures
        member_index(members.update(i, m), key) == member_index(members, key),
        key != m.key@ ==> lookup(members.update(i, m), key) == lookup(members, key),
{
    let after = members.update(i, m);
    lemma_member_index(members, key);
    lemma_member_index(after, key);
    assert forall|j: int| 0 <= j < members.len() implies (#[trigger] after[j]).key@
        == members[j].key@ by {}
    match member_index(members, key) {
        Some(b) => {
            assert(after[b].key@ == members[b].key@);
            match member_index(after, key) {
                Some(a) => {
                    assert(after[a].key@ == members[a].key@);
                },
                None => {},
            }
        },
        None => {
            match member_index(after, key) {
                Some(a) => {
                    assert(after[a].key@ == members[a].key@);
                },
                None => {},
            }
        },
    }
}

/// Adding a member at the end changes nothing for the names that the list
/// holds already, and gives the new name its value if the list did not hold
/// it.
pub proof fn lemma_lookup_after_push(members: Seq<Member>, m: Member, key: Seq<char>)
    ensures
        lookup(members, key) is Some ==> lookup(members.push(m), key) == lookup(members, key),
        lookup(members, key) is None && key != m.key@ ==> lookup(members.push(m), key) is None,
        lookup(members, key) is None && key == m.key@ ==> lookup(members.push(m), key) == Some(
            m.value,
        ),
{
    let after = members.push(m);
    lemma_member_index(members, key);
    lemma_member_index(after, key);
    assert forall|j: int| 0 <= j < members.len() implies #[trigger] after[j] == members[j] by {}
    match member_index(members, key) {
        Some(b) => {
            assert(after[b] == members[b]);
            match member_index(after, key) {
                Some(a) => {
                    if a < members.len() {
                        assert(after[a] == members[a]);
                    }
                },
                None => {},
            }
        },
        None => {
            match member_index(after, key) {
                Some(a) => {
                    if a < members.len() {
                        assert(after[a] == members[a]);
                    }
                },
                None => {
                    assert(after[members.len() as int] == m);
                },
            }
        },
    }
}

/// Takes the first member named `key` out of `members` and returns its
/// value. The other names find what they found before.
pub fn take_member(members: &mut Vec<Member>, key: &str) -> (r: Option<JsonValue>)
    ensures
        r == lookup(old(members)@, key@),
        forall|k: Seq<char>| k != key@ ==> lookup(final(members)@, k) == lookup(old(members)@, k),
        r is None ==> final(members)@ == old(members)@,
{
    match find_member(members, key) {
        Some(i) => {
            proof {
                lemma_member_index(members@, key@);
                assert forall|k: Seq<char>| k != key@ implies lookup(
                    members@.remove(i as int),
                    k,
                ) == lookup(members@, k) by {
                    lemma_lookup_after_remove(members@, i as int, k);
                }
            }
            let m = members.remove(i);
            Some(m.value)
        },
        None => None,
    }
}

/// Gives the name `key` the value `value` in `members`: in the first member
/// of that name, or in a new member at the end. The other names find what
/// they found before.
pub fn set_member(members: &mut Vec<Member>, key: &str, value: JsonValue)
    ensures
        lookup(final(members)@, key@) == Some(value),
        forall|k: Seq<char>| k != key@ ==> lookup(final(members)@, k) == lookup(old(members)@, k),
{
    let member = Member { key: owned(key), value };
    match find_member(members, key) {
        Some(i) => {
            proof {
                lemma_member_index(members@, key@);
                lemma_lookup_after_update(members@, i as int, member, key@);
                assert forall|k: Seq<char>| k != key@ implies lookup(
                    members@.update(i as int, member),
                    k,
                ) == lookup(members@, k) by {
                    lemma_lookup_after_update(members@, i as int, member, k);
                }
            }
            members[i] = member;
        },
        None => {
            proof {
                lemma_lookup_after_push(members@, member, key@);
                assert forall|k: Seq<char>| k != key@ implies lookup(members@.push(member), k)
                    == lookup(members@, k) by {
                    lemma_lookup_after_push(members@, member, k);
                }
            }
            members.push(member);
        },
    }
}

/// The position of the first member named `key`.
pub fn find_member(members: &Vec<Member>, key: &str) -> (r: Option<usize>)
    ensures
        match r {
            Some(i) => member_index(members@, key@) == Some(i as int) && i < members.len(),
            None => member_index(members@, key@) is None,
        },
{
    let mut i: usize = 0;
    while i < members.len()
        invariant
            i <= members.len(),
            forall|j: int| 0 <= j < i ==> members@[j].key@ != key@,
        decreases members.len() - i,
    {
        if str_eq(members[i].key.as_str(), key) {
            proof {
                lemma_member_index(members@, key@);
            }
            return Some(i);
        }
        i += 1;
    }
    proof {
        lemma_member_index(members@, key@);
    }
    None
}

impl JsonValue {
    /// The member named `key`, when this is an object that has one.
    pub open spec fn spec_get(self, key: Seq<char>) -> Option<JsonValue> {
        match self {
            JsonValue::Object(members) => match member_index(members@, key) {
                Some(i) => Some(members@[i].value),
                None => None,
            },
            _ => None,
        }
    }

    /// The text of this value, when it is a string.
    pub open spec fn spec_as_str(self) -> Option<Seq<char>> {
        match self {
            JsonValue::Text(s) => Some(s@),
            _ => None,
        }
    }

    /// The items of this value, when it is a list.
    pub open spec fn spec_as_array(self) -> Option<Seq<JsonValue>> {
        match self {
            JsonValue::Array(items) => Some(items@),
            _ => None,
        }
    }

    /// The members of this value, when it is an object.
    pub open spec fn spec_as_object(self) -> Option<Seq<Member>> {
        match self {
            JsonValue::Object(members) => Some(members@),
            _ => None,
        }
    }

    /// The truth value of this value, when it is one.
    pub open spec fn spec_as_bool(self) -> Option<bool> {
        match self {
            JsonValue::Bool(b) => Some(b),
            _ => None,
        }
    }

    /// The text found by looking `key` up and reading the result as a string.
    pub open spec fn spec_get_str(self, key: Seq<char>) -> Option<Seq<char>> {
        match self.spec_get(key) {
            Some(v) => v.spec_as_str(),
            None => None,
        }
    }

    /// Looks up the member named `key`. Anything but an object has no members.
    pub fn get(&self, key: &str) -> (r: Option<&JsonValue>)
        ensures
            match r {
                Some(v) => self.spec_get(key@) == Some(*v),
                None => self.spec_get(key@) is None,
            },
    {
        match self {
            JsonValue::Object(members) => match find_member(members, key) {
                Some(i) => Some(&members[i].value),
                None => None,
            },
            _ => None,
        }
    }

    /// The text of this value, when it is a string.
    pub fn as_str(&self) -> (r: Option<&str>)
        ensures
            match r {
                Some(s) => self.spec_as_str() == Some(s@),
                None => self.spec_as_str() is None,
            },
    {
        match self {
            JsonValue::Text(s) => Some(s.as_str()),
            _ => None,
        }
    }

    /// The items of this value, when it is a list.
    pub fn as_array(&self) -> (r: Option<&Vec<JsonValue>>)
        ensures
            match r {
                Some(items) => self.spec_as_array() == Some(items@),
                None => self.spec_as_array() is None,
            },
    {
        match self {
            JsonValue::Array(items) => Some(items),
            _ => None,
        }
    }

    /// The members of this value, when it is an object.
    pub fn as_object(&self) -> (r: Option<&Vec<Member>>)
        ensures
            match r {
                Some(members) => self.spec_as_object() == Some(members@),
                None => self.spec_as_object() is None,
            },
    {
        match self {
            JsonValue::Object(members) => Some(members),
            _ => None,
        }
    }

    /// Looks `key` up and reads the result as a string.
    pub fn get_str(&self, key: &str) -> (r: Option<&str>)
        ensures
            match r {
                Some(s) => self.spec_get_str(key@) == Some(s@),
                None => self.spec_get_str(key@) is None,
            },
    {
        match self.get(key) {
            Some(v) => v.as_str(),
            None => None,
        }
    }

    /// The truth value of this value, when it is one.
    pub fn as_bool(&self) -> (r: Option<bool>)
        ensures
            r == self.spec_as_bool(),
    {
        match self {
            JsonValue::Bool(b) => Some(*b),
            _ => None,
        }
    }

    /// True when this is the null value.
    pub fn is_null(&self) -> (b: bool)
        ensures
            b == (self is Null),
    {
        match self {
            JsonValue::Null => true,
            _ => false,
        }
    }
}

} // verus!
