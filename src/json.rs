use vstd::prelude::*;
use vstd::string::StringExecFns;

verus! {

broadcast use vstd::std_specs::vec::group_vec_axioms;

/// serde_json's document tree, read only through `node_of`.
#[verifier::external_type_specification]
#[verifier::external_body]
pub struct ExValue(serde_json::Value);

/// serde_json's parse error.
#[verifier::external_type_specification]
#[verifier::external_body]
pub struct ExJsonError(serde_json::Error);

/// A JSON number: the number itself and, where it is an integer that fits,
/// its `i64` value.
#[derive(Debug)]
pub struct JsonNumber {
    pub integer: Option<i64>,
    pub value: serde_json::Number,
}

/// A JSON document as the parsing rules read it. An object keeps its
/// entries in the order serde_json's map gives them.
#[derive(Debug)]
pub enum Json {
    Null,
    Bool(bool),
    Number(JsonNumber),
    Str(String),
    Array(Vec<Json>),
    Object(Vec<(String, Json)>),
}

/// The mathematical view of a JSON document.
pub enum JsonV {
    Null,
    Bool(bool),
    Number(JsonNumber),
    Str(Seq<char>),
    Array(Seq<JsonV>),
    Object(Seq<(Seq<char>, JsonV)>),
}

pub open spec fn view_of(j: Json) -> JsonV
    decreases j,
{
    match j {
        Json::Null => JsonV::Null,
        Json::Bool(b) => JsonV::Bool(b),
        Json::Number(n) => JsonV::Number(n),
        Json::Str(s) => JsonV::Str(s@),
        Json::Array(items) => JsonV::Array(
            Seq::new(
                items@.len(),
                |i: int|
                    if 0 <= i < items@.len() {
                        view_of(items@[i])
                    } else {
                        JsonV::Null
                    },
            ),
        ),
        Json::Object(es) => JsonV::Object(
            Seq::new(
                es@.len(),
                |i: int|
                    if 0 <= i < es@.len() {
                        (es@[i].0@, view_of(es@[i].1))
                    } else {
                        (Seq::empty(), JsonV::Null)
                    },
            ),
        ),
    }
}

impl View for Json {
    type V = JsonV;

    open spec fn view(&self) -> JsonV {
        view_of(*self)
    }
}

/// The document that serde_json reads from `text`; `None` where it reads
/// none.
pub uninterp spec fn json_of(text: Seq<char>) -> Option<JsonV>;

/// The tree that a serde_json value holds.
pub uninterp spec fn tree_of(v: serde_json::Value) -> JsonV;

/// One level of a serde_json value, its children still unconverted.
pub enum Node {
    Null,
    Bool(bool),
    Number(Option<i64>, serde_json::Number),
    Str(String),
    Array(Vec<serde_json::Value>),
    Object(Vec<(String, serde_json::Value)>),
}

/// Relies on serde_json::from_str: reads one JSON document from text, or fails.
#[verifier::external_body]
fn read_value(text: &str) -> (r: Result<serde_json::Value, serde_json::Error>)
    ensures
        match r {
            Ok(v) => json_of(text@) == Some(tree_of(v)),
            Err(_) => json_of(text@) is None,
        },
{
    serde_json::from_str(text)
}

/// Relies on serde_json::Value's variants: each one's contents are moved out
/// as they stand, an object's entries in the map's own order; a number comes
/// with `Number::as_i64`, `Some` exactly for an integer that fits in `i64`.
#[verifier::external_body]
fn node_of(v: serde_json::Value) -> (r: Node)
    ensures
        match r {
            Node::Null => tree_of(v) == JsonV::Null,
            Node::Bool(b) => tree_of(v) == JsonV::Bool(b),
            Node::Number(i, n) => tree_of(v) == JsonV::Number(JsonNumber { integer: i, value: n }),
            Node::Str(s) => tree_of(v) == JsonV::Str(s@),
            Node::Array(items) => tree_of(v) matches JsonV::Array(js) && js.len() == items@.len()
                && forall|i: int| 0 <= i < js.len() ==> js[i] == tree_of(#[trigger] items@[i]),
            Node::Object(es) => tree_of(v) matches JsonV::Object(js) && js.len() == es@.len()
                && forall|i: int|
                0 <= i < js.len() ==> js[i] == (es@[i].0@, tree_of(#[trigger] es@[i].1)),
        },
{
    match v {
        serde_json::Value::Null => Node::Null,
        serde_json::Value::Bool(b) => Node::Bool(b),
        serde_json::Value::Number(n) => Node::Number(n.as_i64(), n),
        serde_json::Value::String(s) => Node::Str(s),
        serde_json::Value::Array(a) => Node::Array(a),
        serde_json::Value::Object(m) => Node::Object(m.into_iter().collect()),
    }
}

/// Converts a serde_json value into the library's tree.
pub fn from_value(v: serde_json::Value) -> (r: Json)
    ensures
        r@ == tree_of(v),
    decreases tree_of(v),
{
    match node_of(v) {
        Node::Null => Json::Null,
        Node::Bool(b) => Json::Bool(b),
        Node::Number(integer, n) => Json::Number(JsonNumber { integer, value: n }),
        Node::Str(s) => Json::Str(s),
        Node::Array(items) => {
            let ghost js = tree_of(v)->Array_0;
            let ghost orig = items@;
            let ghost n = orig.len();
            let mut items = items;
            let mut rev: Vec<Json> = Vec::new();
            loop
                invariant
                    tree_of(v) == JsonV::Array(js),
                    js.len() == n,
                    orig.len() == n,
                    forall|i: int| 0 <= i < n ==> js[i] == tree_of(#[trigger] orig[i]),
                    items@.len() <= n,
                    items@ == orig.take(items@.len() as int),
                    rev@.len() + items@.len() == n,
                    forall|k: int| 0 <= k < rev@.len() ==> (#[trigger] rev@[k])@ == js[n - 1 - k],
                ensures
                    rev@.len() == n,
                    forall|k: int| 0 <= k < rev@.len() ==> (#[trigger] rev@[k])@ == js[n - 1 - k],
                decreases items@.len(),
            {
                match items.pop() {
                    Some(item) => {
                        let ghost idx = items@.len() as int;
                        assert(item == orig[idx]);
                        assert(items@ =~= orig.take(idx));
                        proof {
                            vstd::seq::axiom_seq_index_decreases(js, idx);
                            assert(decreases_to!(tree_of(v) => tree_of(v)->Array_0));
                        }
                        let j = from_value(item);
                        rev.push(j);
                    },
                    None => break,
                }
            }
            let mut out: Vec<Json> = Vec::new();
            loop
                invariant
                    js.len() == n,
                    out@.len() + rev@.len() == n,
                    forall|k: int| 0 <= k < rev@.len() ==> (#[trigger] rev@[k])@ == js[n - 1 - k],
                    forall|k: int| 0 <= k < out@.len() ==> (#[trigger] out@[k])@ == js[k],
                ensures
                    out@.len() == n,
                    forall|k: int| 0 <= k < out@.len() ==> (#[trigger] out@[k])@ == js[k],
                decreases rev@.len(),
            {
                match rev.pop() {
                    Some(j) => out.push(j),
                    None => break,
                }
            }
            let r = Json::Array(out);
            assert(r@->Array_0 =~= js);
            r
        },
        Node::Object(entries) => {
            let ghost js = tree_of(v)->Object_0;
            let ghost orig = entries@;
            let ghost n = orig.len();
            let mut entries = entries;
            let mut rev: Vec<(String, Json)> = Vec::new();
            loop
                invariant
                    tree_of(v) == JsonV::Object(js),
                    js.len() == n,
                    orig.len() == n,
                    forall|i: int| 0 <= i < n ==> js[i] == (orig[i].0@, tree_of(#[trigger] orig[i].1)),
                    entries@.len() <= n,
                    entries@ == orig.take(entries@.len() as int),
                    rev@.len() + entries@.len() == n,
                    forall|k: int|
                        0 <= k < rev@.len() ==> ((#[trigger] rev@[k]).0@, rev@[k].1@) == js[n - 1 - k],
                ensures
                    rev@.len() == n,
                    forall|k: int|
                        0 <= k < rev@.len() ==> ((#[trigger] rev@[k]).0@, rev@[k].1@) == js[n - 1 - k],
                decreases entries@.len(),
            {
                match entries.pop() {
                    Some(e) => {
                        let ghost idx = entries@.len() as int;
                        assert(e == orig[idx]);
                        assert(entries@ =~= orig.take(idx));
                        proof {
                            vstd::seq::axiom_seq_index_decreases(js, idx);
                            assert(decreases_to!(tree_of(v) => tree_of(v)->Object_0));
                            assert(decreases_to!(js[idx] => js[idx].1));
                        }
                        let (key, item) = e;
                        let j = from_value(item);
                        rev.push((key, j));
                    },
                    None => break,
                }
            }
            let mut out: Vec<(String, Json)> = Vec::new();
            loop
                invariant
                    js.len() == n,
                    out@.len() + rev@.len() == n,
                    forall|k: int|
                        0 <= k < rev@.len() ==> ((#[trigger] rev@[k]).0@, rev@[k].1@) == js[n - 1 - k],
                    forall|k: int| 0 <= k < out@.len() ==> ((#[trigger] out@[k]).0@, out@[k].1@) == js[k],
                ensures
                    out@.len() == n,
                    forall|k: int| 0 <= k < out@.len() ==> ((#[trigger] out@[k]).0@, out@[k].1@) == js[k],
                decreases rev@.len(),
            {
                match rev.pop() {
                    Some(e) => out.push(e),
                    None => break,
                }
            }
            let r = Json::Object(out);
            assert(r@->Object_0 =~= js);
            r
        },
    }
}

/// Reads a JSON document from text into the library's tree; `None` where the
/// text is not one JSON document.
pub fn parse_json(text: &str) -> (r: Option<Json>)
    ensures
        match json_of(text@) {
            Some(d) => r matches Some(j) && j@ == d,
            None => r is None,
        },
{
    match read_value(text) {
        Ok(v) => Some(from_value(v)),
        Err(_) => None,
    }
}

/// The value under `key` among an object's entries; the first entry wins.
pub open spec fn entry_of(entries: Seq<(Seq<char>, JsonV)>, key: Seq<char>) -> Option<JsonV>
    decreases entries.len(),
{
    if entries.len() == 0 {
        None
    } else if entries[0].0 == key {
        Some(entries[0].1)
    } else {
        entry_of(entries.drop_first(), key)
    }
}

/// The member `key` of an object; `None` for a missing key or a non-object.
pub open spec fn member(doc: JsonV, key: Seq<char>) -> Option<JsonV> {
    match doc {
        JsonV::Object(entries) => entry_of(entries, key),
        _ => None,
    }
}

impl Json {
    /// The member `key` of an object, or `None`.
    pub fn get(&self, key: &str) -> (r: Option<&Json>)
        ensures
            match r {
                Some(j) => member(self@, key@) == Some(j@),
                None => member(self@, key@) is None,
            },
    {
        match self {
            Json::Object(entries) => {
                let ghost ve = self@->Object_0;
                let wanted = String::from_str(key);
                let mut i: usize = 0;
                assert(ve.skip(0) =~= ve);
                while i < entries.len()
                    invariant
                        0 <= i <= entries@.len(),
                        wanted@ == key@,
                        ve.len() == entries@.len(),
                        forall|k: int| 0 <= k < ve.len() ==> #[trigger] ve[k] == (entries@[k].0@, entries@[k].1@),
                        member(self@, key@) == entry_of(ve, key@),
                        entry_of(ve, key@) == entry_of(ve.skip(i as int), key@),
                    decreases entries@.len() - i,
                {
                    let ghost rest = ve.skip(i as int);
                    assert(rest[0] == ve[i as int]);
                    assert(rest.drop_first() =~= ve.skip(i + 1));
                    if entries[i].0.eq(&wanted) {
                        return Some(&entries[i].1);
                    }
                    i = i + 1;
                }
                None
            },
            _ => None,
        }
    }
}

} // verus!
