//! JSON documents as plain values. Reading and writing JSON text is the work
//! of `serde_json`; the codec works on the values defined here.

use crate::text::str_eq;
use vstd::prelude::*;

verus! {

/// `serde_json::Value`, a JSON document of `serde_json`. The verifier sees
/// nothing inside it; what it holds goes by the name `serde_tree`.
#[verifier::external_type_specification]
#[verifier::external_body]
pub struct ExSerdeValue(serde_json::Value);

/// `serde_json::Error`, the error of `serde_json`. Nothing is said of it.
#[verifier::external_type_specification]
#[verifier::external_body]
pub struct ExSerdeError(serde_json::Error);

/// `serde_json::Number`, a JSON number of `serde_json`. It is carried
/// through as it is; nothing is said of it.
#[verifier::external_type_specification]
#[verifier::external_body]
pub struct ExSerdeNumber(serde_json::Number);

/// A JSON value. The members of an object are kept as a list; where a key
/// occurs more than once, the last occurrence counts.
#[derive(Debug)]
pub enum JsonValue {
    Null,
    Bool(bool),
    Number(serde_json::Number),
    String(String),
    Array(Vec<JsonValue>),
    Object(Vec<(String, JsonValue)>),
}

/// The mathematical model of a [`JsonValue`].
pub enum JsonTree {
    Null,
    Bool(bool),
    Number(serde_json::Number),
    String(Seq<char>),
    Array(Seq<JsonTree>),
    Object(Seq<(Seq<char>, JsonTree)>),
}

/// The last position below `k` at which `members` holds the key `key`.
pub open spec fn last_index_of(members: Seq<(Seq<char>, JsonTree)>, key: Seq<char>, k: int) -> Option<
    int,
>
    decreases k,
{
    if k <= 0 || k > members.len() {
        None
    } else if members[k - 1].0 == key {
        Some(k - 1)
    } else {
        last_index_of(members, key, k - 1)
    }
}

/// The value that `members` gives to `key`.
pub open spec fn member(members: Seq<(Seq<char>, JsonTree)>, key: Seq<char>) -> Option<JsonTree> {
    match last_index_of(members, key, members.len() as int) {
        Some(i) => Some(members[i].1),
        None => None,
    }
}

/// What `last_index_of` finds holds the key, and nothing after it does.
pub proof fn lemma_last_index_of(members: Seq<(Seq<char>, JsonTree)>, key: Seq<char>, k: int)
    requires
        0 <= k <= members.len(),
    ensures
        match last_index_of(members, key, k) {
            Some(i) => 0 <= i < k && members[i].0 == key && forall|j: int|
                i < j < k ==> (#[trigger] members[j]).0 != key,
            None => forall|j: int| 0 <= j < k ==> (#[trigger] members[j]).0 != key,
        },
    decreases k,
{
    if k > 0 && members[k - 1].0 != key {
        lemma_last_index_of(members, key, k - 1);
    }
}

/// Equality of JSON documents up to the order of the members of an object
/// and up to members that a later member with the same key overrides.
pub open spec fn json_equiv(a: JsonTree, b: JsonTree) -> bool
    decreases a,
{
    match a {
        JsonTree::Null => b is Null,
        JsonTree::Bool(x) => b == JsonTree::Bool(x),
        JsonTree::Number(x) => b == JsonTree::Number(x),
        JsonTree::String(x) => b == JsonTree::String(x),
        JsonTree::Array(x) => match b {
            JsonTree::Array(y) => x.len() == y.len() && forall|i: int|
                0 <= i < x.len() ==> json_equiv(#[trigger] x[i], y[i]),
            _ => false,
        },
        JsonTree::Object(x) => match b {
            JsonTree::Object(y) => forall|key: Seq<char>|
                match (
                    #[trigger] last_index_of(x, key, x.len() as int),
                    last_index_of(y, key, y.len() as int),
                ) {
                    (Some(i), Some(j)) => 0 <= i < x.len() && json_equiv(x[i].1, y[j].1),
                    (None, None) => true,
                    _ => false,
                },
            _ => false,
        },
    }
}

impl JsonValue {
    /// The model of the value.
    pub open spec fn tree(&self) -> JsonTree
        decreases self,
    {
        match self {
            JsonValue::Null => JsonTree::Null,
            JsonValue::Bool(b) => JsonTree::Bool(*b),
            JsonValue::Number(n) => JsonTree::Number(*n),
            JsonValue::String(s) => JsonTree::String(s@),
            JsonValue::Array(items) => JsonTree::Array(
                Seq::new(
                    items.len() as nat,
                    |i: int|
                        if 0 <= i < items.len() {
                            items[i].tree()
                        } else {
                            JsonTree::Null
                        },
                ),
            ),
            JsonValue::Object(members) => JsonTree::Object(
                Seq::new(
                    members.len() as nat,
                    |i: int|
                        if 0 <= i < members.len() {
                            (members[i].0@, members[i].1.tree())
                        } else {
                            (Seq::empty(), JsonTree::Null)
                        },
                ),
            ),
        }
    }

    /// The value of the member `key`, where `self` is an object that has one.
    #[verifier::loop_isolation(false)]
    pub fn get(&self, key: &str) -> (r: Option<&JsonValue>)
        ensures
            match r {
                Some(v) => self.tree() is Object && member(self.tree()->Object_0, key@) == Some(
                    v.tree(),
                ),
                None => !(self.tree() is Object) || member(self.tree()->Object_0, key@) is None,
            },
    {
        match self {
            JsonValue::Object(members) => {
                let ghost ms = self.tree()->Object_0;
                let mut k: usize = members.len();
                while k > 0
                    invariant
                        k <= members.len(),
                        ms.len() == members.len(),
                        forall|i: int| 0 <= i < ms.len() ==> (#[trigger] ms[i]).0 == members[i].0@,
                        forall|i: int|
                            0 <= i < ms.len() ==> (#[trigger] ms[i]).1 == members[i].1.tree(),
                        last_index_of(ms, key@, ms.len() as int) == last_index_of(
                            ms,
                            key@,
                            k as int,
                        ),
                    decreases k,
                {
                    if str_eq(members[k - 1].0.as_str(), key) {
                        assert(ms[k - 1].0 == key@);
                        assert(ms[k - 1].1 == members[k - 1].1.tree());
                        return Some(&members[k - 1].1);
                    }
                    assert(ms[k - 1].0 != key@);
                    k = k - 1;
                }
                None
            },
            _ => None,
        }
    }

    /// The members of `self`, where it is an object.
    pub fn as_object(&self) -> (r: Option<&Vec<(String, JsonValue)>>)
        ensures
            match r {
                Some(members) => *self == JsonValue::Object(*members),
                None => !(self.tree() is Object),
            },
    {
        match self {
            JsonValue::Object(members) => Some(members),
            _ => None,
        }
    }

    /// The text of `self`, where it is a string.
    pub fn as_str(&self) -> (r: Option<&str>)
        ensures
            match r {
                Some(s) => self.tree() == JsonTree::String(s@),
                None => !(self.tree() is String),
            },
    {
        match self {
            JsonValue::String(s) => Some(s.as_str()),
            _ => None,
        }
    }
}

/// What `serde_json` reads from the JSON text `data`, the members of each
/// object in the order in which its map hands them out; `None` where it
/// rejects the text.
pub uninterp spec fn parsed_json(data: Seq<u8>) -> Option<JsonTree>;

/// What a `serde_json::Value` holds, the members of each object in the order
/// in which its map hands them out.
pub uninterp spec fn serde_tree(v: serde_json::Value) -> JsonTree;

/// The compact JSON text that `serde_json` writes for a value, or `None`
/// where its serializer fails on the value.
pub uninterp spec fn json_text(tree: JsonTree) -> Option<Seq<u8>>;

/// The indented JSON text that `serde_json` writes for a value, or `None`
/// where its serializer fails on the value.
pub uninterp spec fn json_text_pretty(tree: JsonTree) -> Option<Seq<u8>>;

/// The JSON text that `serde_json` writes for a value, compact or indented.
pub open spec fn written_text(tree: JsonTree, pretty: bool) -> Option<Seq<u8>> {
    if pretty {
        json_text_pretty(tree)
    } else {
        json_text(tree)
    }
}

/// `serde_json::from_reader` over a byte slice, read as a `Value`: the
/// document that the text holds, or the parser's error.
#[verifier::external_body]
pub(crate) fn read_value(data: &[u8]) -> (r: Result<serde_json::Value, serde_json::Error>)
    ensures
        match r {
            Ok(v) => parsed_json(data@) == Some(serde_tree(v)),
            Err(_) => parsed_json(data@) is None,
        },
{
    serde_json::from_reader(data)
}

/// Copies a `serde_json::Value` into a [`JsonValue`], variant by variant;
/// the members of an object come in the order of `Map::iter`.
#[verifier::external_body]
pub(crate) fn value_from_serde(v: &serde_json::Value) -> (r: JsonValue)
    ensures
        r.tree() == serde_tree(*v),
{
    match v {
        serde_json::Value::Null => JsonValue::Null,
        serde_json::Value::Bool(b) => JsonValue::Bool(*b),
        serde_json::Value::Number(n) => JsonValue::Number(n.clone()),
        serde_json::Value::String(s) => JsonValue::String(s.clone()),
        serde_json::Value::Array(a) => JsonValue::Array(a.iter().map(value_from_serde).collect()),
        serde_json::Value::Object(m) => JsonValue::Object(
            m.iter().map(|(k, v)| (k.clone(), value_from_serde(v))).collect(),
        ),
    }
}

/// Copies a [`JsonValue`] into a `serde_json::Value`, variant by variant.
/// The members of an object go into a fresh `serde_json::Map` by
/// `Map::insert`, one after the other in their order: an insert under a key
/// that the map holds already updates the value, so of the members with one
/// key the last one stays. The map hands its members out in an order of its
/// own.
#[verifier::external_body]
pub(crate) fn value_to_serde(v: &JsonValue) -> (r: serde_json::Value)
    ensures
        json_equiv(serde_tree(r), v.tree()),
{
    match v {
        JsonValue::Null => serde_json::Value::Null,
        JsonValue::Bool(b) => serde_json::Value::Bool(*b),
        JsonValue::Number(n) => serde_json::Value::Number(n.clone()),
        JsonValue::String(s) => serde_json::Value::String(s.clone()),
        JsonValue::Array(a) => serde_json::Value::Array(a.iter().map(value_to_serde).collect()),
        JsonValue::Object(m) => {
            let mut map = serde_json::Map::new();
            for (k, v) in m.iter() {
                map.insert(k.clone(), value_to_serde(v));
            }
            serde_json::Value::Object(map)
        },
    }
}

/// `serde_json::to_writer` into a fresh vector: the compact text of the
/// value, or the serializer's error. Whether it fails, and what it writes,
/// depends on the value alone.
#[verifier::external_body]
pub(crate) fn write_value(v: &serde_json::Value) -> (r: Result<Vec<u8>, serde_json::Error>)
    ensures
        match r {
            Ok(bytes) => json_text(serde_tree(*v)) == Some(bytes@),
            Err(_) => json_text(serde_tree(*v)) is None,
        },
{
    let mut out = Vec::new();
    serde_json::to_writer(&mut out, v)?;
    Ok(out)
}

/// `serde_json::to_writer_pretty` into a fresh vector: the indented text of
/// the value, or the serializer's error. Whether it fails, and what it
/// writes, depends on the value alone.
#[verifier::external_body]
pub(crate) fn write_value_pretty(v: &serde_json::Value) -> (r: Result<
    Vec<u8>,
    serde_json::Error,
>)
    ensures
        match r {
            Ok(bytes) => json_text_pretty(serde_tree(*v)) == Some(bytes@),
            Err(_) => json_text_pretty(serde_tree(*v)) is None,
        },
{
    let mut out = Vec::new();
    serde_json::to_writer_pretty(&mut out, v)?;
    Ok(out)
}

/// Reads a JSON document from its text. `None` where the text is not JSON.
pub fn parse(data: &[u8]) -> (r: Option<JsonValue>)
    ensures
        match r {
            Some(v) => parsed_json(data@) == Some(v.tree()),
            None => parsed_json(data@) is None,
        },
{
    match read_value(data) {
        Ok(v) => Some(value_from_serde(&v)),
        Err(_) => None,
    }
}

/// Writes a JSON document as text, compact or indented. The document is
/// handed to `serde_json` as a document equal to `value` up to the order of
/// members; the result is the text that `serde_json` writes for that
/// document, and `None` where its serializer fails on it.
pub fn serialize(value: &JsonValue, pretty: bool) -> (r: Option<Vec<u8>>)
    ensures
        exists|t: JsonTree|
            json_equiv(t, value.tree()) && written_text(t, pretty) == match r {
                Some(bytes) => Some(bytes@),
                None => None,
            },
{
    let v = value_to_serde(value);
    let written = if pretty {
        write_value_pretty(&v)
    } else {
        write_value(&v)
    };
    let r = match written {
        Ok(bytes) => Some(bytes),
        Err(_) => None,
    };
    proof {
        let t = serde_tree(v);
        assert(json_equiv(t, value.tree()) && written_text(t, pretty) == match r {
            Some(bytes) => Some(bytes@),
            None => None::<Seq<u8>>,
        });
    }
    r
}

} // verus!
