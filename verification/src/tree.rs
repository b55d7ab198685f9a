//! A parsed JSON or TOML document, held as plain values.
use vstd::prelude::*;

verus! {

/// One value of a parsed JSON or TOML document.
///
/// Objects and tables keep their entries in the order the parser's map lists them;
/// numbers that are not `i64`-representable integers, and TOML dates, are `Other`.
pub enum DataNode {
    Null,
    Bool(bool),
    Int(i64),
    Other,
    Str(String),
    Arr(Vec<DataNode>),
    Obj(Vec<(String, DataNode)>),
}

/// The value of the first entry named `key`, searching from position `i`.
pub open spec fn lookup_from(e: Seq<(String, DataNode)>, key: Seq<char>, i: int) -> Option<DataNode>
    decreases e.len() - i,
{
    if 0 <= i < e.len() {
        if e[i].0@ == key {
            Some(e[i].1)
        } else {
            lookup_from(e, key, i + 1)
        }
    } else {
        None
    }
}

/// `Value::get(key)`: the member of an object, `None` for anything else.
pub open spec fn node_get(v: DataNode, key: Seq<char>) -> Option<DataNode> {
    match v {
        DataNode::Obj(e) => lookup_from(e@, key, 0),
        _ => None,
    }
}

/// `Value::as_str`.
pub open spec fn node_str(v: DataNode) -> Option<Seq<char>> {
    match v {
        DataNode::Str(s) => Some(s@),
        _ => None,
    }
}

/// `Value::as_i64`.
pub open spec fn node_int(v: DataNode) -> Option<i64> {
    match v {
        DataNode::Int(i) => Some(i),
        _ => None,
    }
}

/// `node_get` followed by `node_str`.
pub open spec fn get_str(v: DataNode, key: Seq<char>) -> Option<Seq<char>> {
    match node_get(v, key) {
        Some(x) => node_str(x),
        None => None,
    }
}

/// `node_get` followed by `node_int`.
pub open spec fn get_int(v: DataNode, key: Seq<char>) -> Option<i64> {
    match node_get(v, key) {
        Some(x) => node_int(x),
        None => None,
    }
}

impl DataNode {
    /// The member named `key` of an object.
    pub fn get(&self, key: &str) -> (r: Option<&DataNode>)
        ensures
            r matches Some(x) ==> node_get(*self, key@) == Some(*x),
            r is None ==> node_get(*self, key@) is None,
    {
        match self {
            DataNode::Obj(e) => {
                let k = String::from_str(key);
                let mut i: usize = 0;
                while i < e.len()
                    invariant
                        *self == DataNode::Obj(*e),
                        k@ == key@,
                        i <= e@.len(),
                        lookup_from(e@, key@, i as int) == lookup_from(e@, key@, 0),
                    decreases e@.len() - i,
                {
                    if e[i].0 == k {
                        return Some(&e[i].1);
                    }
                    i = i + 1;
                }
                None
            },
            _ => None,
        }
    }

    /// The text of a string value.
    pub fn as_str(&self) -> (r: Option<&String>)
        ensures
            r matches Some(s) ==> node_str(*self) == Some(s@),
            r is None ==> node_str(*self) is None,
    {
        match self {
            DataNode::Str(s) => Some(s),
            _ => None,
        }
    }

    /// The value of an integer.
    pub fn as_i64(&self) -> (r: Option<i64>)
        ensures
            r == node_int(*self),
    {
        match self {
            DataNode::Int(i) => Some(*i),
            _ => None,
        }
    }

    /// The elements of an array.
    pub fn as_array(&self) -> (r: Option<&Vec<DataNode>>)
        ensures
            r matches Some(v) ==> *self == DataNode::Arr(*v),
            r is None ==> !(*self is Arr),
    {
        match self {
            DataNode::Arr(v) => Some(v),
            _ => None,
        }
    }

    /// The member `key`, read as a string.
    pub fn get_str(&self, key: &str) -> (r: Option<&String>)
        ensures
            r matches Some(s) ==> get_str(*self, key@) == Some(s@),
            r is None ==> get_str(*self, key@) is None,
    {
        match self.get(key) {
            Some(x) => x.as_str(),
            None => None,
        }
    }

    /// The member `key`, read as an integer.
    pub fn get_i64(&self, key: &str) -> (r: Option<i64>)
        ensures
            r == get_int(*self, key@),
    {
        match self.get(key) {
            Some(x) => x.as_i64(),
            None => None,
        }
    }
}

/// `serde_json::Value`, opaque to the proofs.
#[verifier::external_type_specification]
#[verifier::external_body]
pub struct ExJsonValue(serde_json::Value);

/// `toml::Value`, opaque to the proofs.
#[verifier::external_type_specification]
#[verifier::external_body]
pub struct ExTomlValue(toml::Value);

/// What `serde_json::from_str::<serde_json::Value>` makes of a text: the document as a
/// tree, or the error's message.
pub uninterp spec fn json_parse(text: Seq<char>) -> Result<DataNode, Seq<char>>;

/// What `toml::from_str::<toml::Value>` makes of a text: the document as a tree, or the
/// error's message.
pub uninterp spec fn toml_parse(text: Seq<char>) -> Result<DataNode, Seq<char>>;

pub open spec fn parse_view(r: Result<DataNode, String>) -> Result<DataNode, Seq<char>> {
    match r {
        Ok(d) => Ok(d),
        Err(e) => Err(e@),
    }
}

/// One JSON value as a tree, member for member (used by `parse_json`).
#[verifier::external_body]
fn json_node(v: &serde_json::Value) -> DataNode {
    match v {
        serde_json::Value::Null => DataNode::Null,
        serde_json::Value::Bool(b) => DataNode::Bool(*b),
        serde_json::Value::Number(n) => n.as_i64().map_or(DataNode::Other, DataNode::Int),
        serde_json::Value::String(s) => DataNode::Str(s.clone()),
        serde_json::Value::Array(a) => DataNode::Arr(a.iter().map(json_node).collect()),
        serde_json::Value::Object(o) => {
            DataNode::Obj(o.iter().map(|(k, x)| (k.clone(), json_node(x))).collect())
        },
    }
}

/// One TOML value as a tree, member for member (used by `parse_toml`).
#[verifier::external_body]
fn toml_node(v: &toml::Value) -> DataNode {
    match v {
        toml::Value::String(s) => DataNode::Str(s.clone()),
        toml::Value::Integer(i) => DataNode::Int(*i),
        toml::Value::Boolean(b) => DataNode::Bool(*b),
        toml::Value::Float(_) => DataNode::Other,
        toml::Value::Datetime(_) => DataNode::Other,
        toml::Value::Array(a) => DataNode::Arr(a.iter().map(toml_node).collect()),
        toml::Value::Table(t) => {
            DataNode::Obj(t.iter().map(|(k, x)| (k.clone(), toml_node(x))).collect())
        },
    }
}

/// `serde_json::from_str::<serde_json::Value>`, the value turned into a tree (members
/// in the order of the parsed map) and an error into its message: what comes back is
/// named by `json_parse`.
#[verifier::external_body]
pub(crate) fn parse_json(text: &str) -> (r: Result<DataNode, String>)
    ensures
        parse_view(r) == json_parse(text@),
{
    match serde_json::from_str::<serde_json::Value>(text) {
        Ok(v) => Ok(json_node(&v)),
        Err(e) => Err(e.to_string()),
    }
}

/// `toml::from_str::<toml::Value>`, the value turned into a tree (members in the order
/// of the parsed table) and an error into its message: what comes back is named by
/// `toml_parse`.
#[verifier::external_body]
pub(crate) fn parse_toml(text: &str) -> (r: Result<DataNode, String>)
    ensures
        parse_view(r) == toml_parse(text@),
{
    match toml::from_str::<toml::Value>(text) {
        Ok(v) => Ok(toml_node(&v)),
        Err(e) => Err(e.to_string()),
    }
}

} // verus!
