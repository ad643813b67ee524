//! JSON values of `serde_json`, seen as trees.
use vstd::prelude::*;

#[allow(unused_imports)]
use vstd::utf8::*;

verus! {

#[verifier::external_type_specification]
#[verifier::external_body]
pub struct ExValue(serde_json::Value);

/// What a JSON value holds. `Float` carries the binary64 pattern of a number that is no integer of
/// 64 bits.
pub enum JsonTree {
    Null,
    Bool(bool),
    Integer(int),
    Float(u64),
    Text(Seq<char>),
    Array(Seq<JsonTree>),
    Object(Map<Seq<char>, JsonTree>),
}

impl JsonTree {
    /// The member of an object; other values have none.
    pub open spec fn member(self, key: Seq<char>) -> Option<JsonTree> {
        match self {
            JsonTree::Object(members) => if members.contains_key(key) {
                Some(members[key])
            } else {
                None
            },
            _ => None,
        }
    }

    /// The text of a string.
    pub open spec fn text(self) -> Option<Seq<char>> {
        match self {
            JsonTree::Text(text) => Some(text),
            _ => None,
        }
    }

    /// An integer that `i64` holds.
    pub open spec fn signed(self) -> Option<i64> {
        match self {
            JsonTree::Integer(n) => if i64::MIN <= n <= i64::MAX {
                Some(n as i64)
            } else {
                None
            },
            _ => None,
        }
    }

    /// An integer that `u64` holds.
    pub open spec fn unsigned(self) -> Option<u64> {
        match self {
            JsonTree::Integer(n) => if 0 <= n <= u64::MAX {
                Some(n as u64)
            } else {
                None
            },
            _ => None,
        }
    }

    /// The text of a member, empty where there is none.
    pub open spec fn member_text(self, key: Seq<char>) -> Seq<char> {
        match self.member(key) {
            Some(JsonTree::Text(text)) => text,
            _ => Seq::empty(),
        }
    }

    /// The object with one member set.
    pub open spec fn with(self, key: Seq<char>, value: JsonTree) -> JsonTree {
        match self {
            JsonTree::Object(members) => JsonTree::Object(members.insert(key, value)),
            _ => self,
        }
    }

    /// The object with one member left out.
    pub open spec fn without(self, key: Seq<char>) -> JsonTree {
        match self {
            JsonTree::Object(members) => JsonTree::Object(members.remove(key)),
            _ => self,
        }
    }
}

/// What a `serde_json::Value` holds.
pub uninterp spec fn json_tree(v: serde_json::Value) -> JsonTree;

/// What `serde_json::from_slice` reads into a `Value`.
pub uninterp spec fn json_document(bytes: Seq<u8>) -> Option<JsonTree>;

/// What `serde_json::to_string_pretty` writes for a value.
pub uninterp spec fn json_text(tree: JsonTree) -> Seq<char>;

/// The tree has at most `depth` levels of arrays and objects, and no numbers but integers unless
/// there may be `floats`.
pub open spec fn is_shallow(tree: JsonTree, depth: nat, floats: bool) -> bool
    decreases depth,
{
    match tree {
        JsonTree::Float(_) => floats,
        JsonTree::Array(items) => depth > 0 && forall|i: int|
            0 <= i < items.len() ==> is_shallow(#[trigger] items[i], (depth - 1) as nat, floats),
        JsonTree::Object(members) => depth > 0 && forall|key: Seq<char>| #[trigger]
            members.contains_key(key) ==> is_shallow(members[key], (depth - 1) as nat, floats),
        _ => true,
    }
}

/// Two trees of at most `depth` levels that differ at most in the values of their floats.
pub open spec fn alike(a: JsonTree, b: JsonTree, depth: nat) -> bool
    decreases depth,
{
    match (a, b) {
        (JsonTree::Float(_), JsonTree::Float(_)) => true,
        (JsonTree::Array(xs), JsonTree::Array(ys)) => depth > 0 && xs.len() == ys.len() && forall|
            i: int,
        |
            0 <= i < xs.len() ==> alike(#[trigger] xs[i], ys[i], (depth - 1) as nat),
        (JsonTree::Object(xs), JsonTree::Object(ys)) => depth > 0 && xs.dom() == ys.dom() && forall|
            key: Seq<char>,
        | #[trigger]
            xs.contains_key(key) ==> alike(xs[key], ys[key], (depth - 1) as nat),
        _ => a == b,
    }
}

/// What was read is the tree, but for the values of its floats.
pub open spec fn reads_back(read: Option<JsonTree>, tree: JsonTree) -> bool {
    read matches Some(read) && alike(tree, read, 127)
}

/// Trees without floats are alike only where they are the same.
pub proof fn lemma_alike_is_same(a: JsonTree, b: JsonTree, depth: nat)
    requires
        alike(a, b, depth),
        is_shallow(a, depth, false),
    ensures
        a == b,
    decreases depth,
{
    match (a, b) {
        (JsonTree::Array(xs), JsonTree::Array(ys)) => {
            assert forall|i: int| 0 <= i < xs.len() implies xs[i] == ys[i] by {
                lemma_alike_is_same(xs[i], ys[i], (depth - 1) as nat);
            }
            assert(xs =~= ys);
        },
        (JsonTree::Object(xs), JsonTree::Object(ys)) => {
            assert forall|key: Seq<char>| #[trigger] xs.contains_key(key) implies xs[key]
                == ys[key] by {
                lemma_alike_is_same(xs[key], ys[key], (depth - 1) as nat);
            }
            assert(xs =~= ys);
        },
        _ => {},
    }
}

/// The tree of a value that may be missing.
pub open spec fn tree_of(v: Option<&serde_json::Value>) -> Option<JsonTree> {
    match v {
        Some(v) => Some(json_tree(*v)),
        None => None,
    }
}

/// The tree of an owned value that may be missing.
pub open spec fn owned_tree(v: Option<serde_json::Value>) -> Option<JsonTree> {
    match v {
        Some(v) => Some(json_tree(v)),
        None => None,
    }
}

/// `serde_json::from_slice::<Value>`: the value that it reads is a function of the bytes, and has at
/// most 127 levels of arrays and objects.
#[verifier::external_body]
pub(crate) fn parse(bytes: &[u8]) -> (r: Option<serde_json::Value>)
    ensures
        owned_tree(r) == json_document(bytes@),
        match r {
            Some(v) => is_shallow(json_tree(v), 127, true),
            None => true,
        },
{
    serde_json::from_slice::<serde_json::Value>(bytes).ok()
}

/// `serde_json::to_string_pretty` of a `Value`: every value is written, and the text is a function of
/// what the value holds. A value of at most 127 levels is read again as it was, but for the values of
/// its floats. A float is written with its shortest digits and a point or an exponent, so it is read as
/// a float, even the largest; which one, to within the last places, is left unsaid, and so is what
/// becomes of deeper values, which are not read at all.
#[verifier::external_body]
pub(crate) fn to_text(v: &serde_json::Value) -> (r: Option<String>)
    ensures
        r is Some,
        r->0@ == json_text(json_tree(*v)),
        is_shallow(json_tree(*v), 127, true) ==> reads_back(
            json_document(encode_utf8(r->0@)),
            json_tree(*v),
        ),
{
    serde_json::to_string_pretty(v).ok()
}

/// `Value::get` with a string: the member of an object, and nothing for other values.
#[verifier::external_body]
pub(crate) fn member<'a>(v: &'a serde_json::Value, key: &str) -> (r: Option<&'a serde_json::Value>)
    ensures
        tree_of(r) == json_tree(*v).member(key@),
{
    v.get(key)
}

/// `Value::as_str`: the text of a string, and nothing for other values.
#[verifier::external_body]
pub(crate) fn text(v: &serde_json::Value) -> (r: Option<&str>)
    ensures
        match r {
            Some(s) => json_tree(*v).text() == Some(s@),
            None => json_tree(*v).text() is None,
        },
{
    v.as_str()
}

/// `Value::as_i64`: an integer that `i64` holds, and nothing for other values.
#[verifier::external_body]
pub(crate) fn signed(v: &serde_json::Value) -> (r: Option<i64>)
    ensures
        r == json_tree(*v).signed(),
{
    v.as_i64()
}

/// `Value::as_u64`: an integer that `u64` holds, and nothing for other values.
#[verifier::external_body]
pub(crate) fn unsigned(v: &serde_json::Value) -> (r: Option<u64>)
    ensures
        r == json_tree(*v).unsigned(),
{
    v.as_u64()
}

/// `Value::is_object`.
#[verifier::external_body]
pub(crate) fn is_object(v: &serde_json::Value) -> (r: bool)
    ensures
        r == (json_tree(*v) is Object),
{
    v.is_object()
}

/// `Value::Object` of a new `serde_json::Map`: an object without members.
#[verifier::external_body]
pub(crate) fn new_object() -> (r: serde_json::Value)
    ensures
        json_tree(r) == JsonTree::Object(Map::empty()),
{
    serde_json::Value::Object(serde_json::Map::new())
}

/// `Value::String`: a string of the given text.
#[verifier::external_body]
pub(crate) fn new_text(s: &str) -> (r: serde_json::Value)
    ensures
        json_tree(r) == JsonTree::Text(s@),
{
    serde_json::Value::String(s.to_owned())
}

/// Assignment through `IndexMut` of `Value` with a string: the member of an object is put in or
/// replaced, and all others stay.
#[verifier::external_body]
pub(crate) fn set_member(v: &mut serde_json::Value, key: &str, value: serde_json::Value)
    requires
        json_tree(*old(v)) is Object,
    ensures
        json_tree(*final(v)) == json_tree(*old(v)).with(key@, json_tree(value)),
{
    v[key] = value;
}

/// `serde_json::Map::remove` on the members of an object: the member is taken out and handed back,
/// and all others stay. A value that is no object is left alone.
#[verifier::external_body]
pub(crate) fn take_member(v: &mut serde_json::Value, key: &str) -> (r: Option<serde_json::Value>)
    ensures
        owned_tree(r) == json_tree(*old(v)).member(key@),
        json_tree(*final(v)) == json_tree(*old(v)).without(key@),
{
    v.as_object_mut().and_then(|members| members.remove(key))
}

/// The text of a member, empty where there is none.
pub fn member_text<'a>(v: &'a serde_json::Value, key: &str) -> (r: &'a str)
    ensures
        r@ == json_tree(*v).member_text(key@),
{
    match member(v, key) {
        Some(m) => match text(m) {
            Some(s) => s,
            None => {
                assert(""@ =~= Seq::empty()) by {
                    reveal_strlit("");
                }
                ""
            },
        },
        None => {
            assert(""@ =~= Seq::empty()) by {
                reveal_strlit("");
            }
            ""
        },
    }
}

/// The text of a member that is a string.
pub fn member_str<'a>(v: &'a serde_json::Value, key: &str) -> (r: Option<&'a str>)
    ensures
        match r {
            Some(s) => json_tree(*v).member(key@) == Some(JsonTree::Text(s@)),
            None => !(json_tree(*v).member(key@) matches Some(JsonTree::Text(_))),
        },
{
    match member(v, key) {
        Some(m) => text(m),
        None => None,
    }
}

} // verus!
