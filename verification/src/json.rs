//! JSON documents, as far as the replies of a forge are read.

use vstd::prelude::*;

use crate::text::{concat, same_text};

verus! {

/// What a member of a JSON object holds.
#[derive(Debug, Clone, Copy, PartialEq, Eq, Structural)]
pub enum JsonField {
    /// A number, and its value where it is a whole number from 0 to 2^64 - 1.
    Number(Option<u64>),
    Bool(bool),
    Object,
    Other,
}

/// A JSON document.
#[derive(Debug)]
pub enum Json {
    /// An object with its members.
    Object(Vec<(String, JsonField)>),
    /// An array with its length.
    Array(usize),
    Other,
}

/// The model of a `Json`.
pub enum JsonView {
    Object(Seq<(Seq<char>, JsonField)>),
    Array(nat),
    Other,
}

impl View for Json {
    type V = JsonView;

    open spec fn view(&self) -> JsonView {
        match *self {
            Json::Object(members) => JsonView::Object(
                members@.map_values(|m: (String, JsonField)| (m.0@, m.1)),
            ),
            Json::Array(n) => JsonView::Array(n as nat),
            Json::Other => JsonView::Other,
        }
    }
}

/// What `serde_json::from_reader` makes of a sequence of bytes: the document, or the
/// text of the error.
pub uninterp spec fn json_document(bytes: Seq<u8>) -> Result<JsonView, Seq<char>>;

/// The model of what a parse yields.
pub open spec fn parse_result(r: Result<Json, String>) -> Result<JsonView, Seq<char>> {
    match r {
        Ok(doc) => Ok(doc@),
        Err(e) => Err(e@),
    }
}

/// `serde_json::from_reader` reads a JSON document from bytes or fails with an error
/// that has a text. `json_document` stands for either. Of the document, the members
/// of an object or the length of an array are handed on.
#[verifier::external_body]
fn parse_json(bytes: &[u8]) -> (r: Result<Json, String>)
    ensures
        parse_result(r) == json_document(bytes@),
{
    let field = |v: serde_json::Value| match v {
        serde_json::Value::Bool(b) => JsonField::Bool(b),
        serde_json::Value::Number(n) => JsonField::Number(n.as_u64()),
        serde_json::Value::Object(_) => JsonField::Object,
        _ => JsonField::Other,
    };
    match serde_json::from_reader(bytes) {
        Ok(serde_json::Value::Object(m)) => {
            Ok(Json::Object(m.into_iter().map(|(k, v)| (k, field(v))).collect()))
        },
        Ok(serde_json::Value::Array(a)) => Ok(Json::Array(a.len())),
        Ok(_) => Ok(Json::Other),
        Err(e) => Err(e.to_string()),
    }
}

/// The first of the members that has the given key.
pub open spec fn member_among(members: Seq<(Seq<char>, JsonField)>, key: Seq<char>) -> Option<
    JsonField,
>
    decreases members.len(),
{
    if members.len() == 0 {
        None
    } else if members[0].0 == key {
        Some(members[0].1)
    } else {
        member_among(members.drop_first(), key)
    }
}

impl JsonView {
    /// What the document holds under a key: nothing where it is not an object.
    pub open spec fn member(self, key: Seq<char>) -> Option<JsonField> {
        match self {
            JsonView::Object(members) => member_among(members, key),
            _ => None,
        }
    }

    /// The lower 32 bits of the number under a key, or zero where there is none.
    pub open spec fn count(self, key: Seq<char>) -> u32 {
        match self.member(key) {
            Some(JsonField::Number(Some(n))) => (n % 0x1_0000_0000) as u32,
            _ => 0,
        }
    }

    /// The boolean under a key is there and true.
    pub open spec fn flag(self, key: Seq<char>) -> bool {
        self.member(key) == Some(JsonField::Bool(true))
    }

    /// An object stands under the key.
    pub open spec fn has_object(self, key: Seq<char>) -> bool {
        self.member(key) == Some(JsonField::Object)
    }
}

/// The lower 32 bits of `n`.
pub(crate) fn low_32_bits(n: u64) -> (r: u32)
    ensures
        r == n % 0x1_0000_0000,
{
    assert(n & 0xffff_ffff == n % 0x1_0000_0000) by (bit_vector);
    assert(n & 0xffff_ffff <= 0xffff_ffff) by (bit_vector);
    (n & 0xffff_ffff) as u32
}

impl Json {
    /// Reads a document from bytes. An error is reported as a failure to read JSON.
    pub fn read(bytes: &[u8]) -> (r: Result<Json, String>)
        ensures
            parse_result(r) == match json_document(bytes@) {
                Ok(doc) => Ok::<JsonView, Seq<char>>(doc),
                Err(e) => Err("Failed to read JSON: "@ + e),
            },
    {
        match parse_json(bytes) {
            Ok(doc) => Ok(doc),
            Err(e) => Err(concat("Failed to read JSON: ", e.as_str())),
        }
    }

    /// What the document holds under a key.
    pub fn get(&self, key: &str) -> (r: Option<JsonField>)
        ensures
            r == self@.member(key@),
    {
        match self {
            Json::Object(members) => {
                let ghost all = members@.map_values(|m: (String, JsonField)| (m.0@, m.1));
                let mut k: usize = 0;
                assert(all.skip(0) =~= all);
                while k < members.len()
                    invariant
                        k <= members.len(),
                        all == members@.map_values(|m: (String, JsonField)| (m.0@, m.1)),
                        self@ == JsonView::Object(all),
                        member_among(all, key@) == member_among(all.skip(k as int), key@),
                    decreases members.len() - k,
                {
                    assert(all.skip(k as int)[0] == all[k as int]);
                    assert(all.skip(k as int).drop_first() =~= all.skip(k + 1));
                    if same_text(members[k].0.as_str(), key) {
                        return Some(members[k].1);
                    }
                    k = k + 1;
                }
                None
            },
            _ => None,
        }
    }

    /// The lower 32 bits of the number under a key, or zero where there is none.
    pub fn count(&self, key: &str) -> (r: u32)
        ensures
            r == self@.count(key@),
    {
        match self.get(key) {
            Some(JsonField::Number(Some(n))) => low_32_bits(n),
            _ => 0,
        }
    }

    /// Whether the boolean under a key is there and true.
    pub fn flag(&self, key: &str) -> (r: bool)
        ensures
            r == self@.flag(key@),
    {
        match self.get(key) {
            Some(JsonField::Bool(b)) => b,
            _ => false,
        }
    }

    /// Whether an object stands under the key.
    pub fn has_object(&self, key: &str) -> (r: bool)
        ensures
            r == self@.has_object(key@),
    {
        match self.get(key) {
            Some(JsonField::Object) => true,
            _ => false,
        }
    }
}

/// What an object holds under a key is its first member with that key, and nothing where
/// no member has it.
pub proof fn first_member_counts(members: Seq<(Seq<char>, JsonField)>, key: Seq<char>, k: int)
    requires
        0 <= k <= members.len(),
        forall|j: int| 0 <= j < k ==> (#[trigger] members[j]).0 != key,
        k < members.len() ==> members[k].0 == key,
    ensures
        JsonView::Object(members).member(key) == if k < members.len() {
            Some(members[k].1)
        } else {
            None
        },
    decreases k,
{
    if k > 0 {
        let rest = members.drop_first();
        assert(members[0].0 != key);
        assert forall|j: int| 0 <= j < k - 1 implies (#[trigger] rest[j]).0 != key by {
            assert(rest[j] == members[j + 1]);
        }
        first_member_counts(rest, key, k - 1);
    }
}

/// A number under a key is read as it is, if 32 bits can hold it. What is missing or is no
/// such number counts as zero; only `true` is a flag that is set, and only an object is an
/// object.
pub proof fn fields_are_read(doc: JsonView, key: Seq<char>)
    ensures
        doc.member(key) matches Some(JsonField::Number(Some(n))) ==> n <= u32::MAX ==> doc.count(
            key,
        ) == n,
        !(doc.member(key) matches Some(JsonField::Number(Some(_)))) ==> doc.count(key) == 0,
        doc.flag(key) <==> doc.member(key) == Some(JsonField::Bool(true)),
        doc.has_object(key) <==> doc.member(key) == Some(JsonField::Object),
        !(doc is Object) ==> doc.member(key) is None,
{
}

} // verus!
