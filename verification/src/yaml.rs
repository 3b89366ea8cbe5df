//! YAML documents as trees, read and written by the `serde_yaml` crate.

use vstd::prelude::*;
use serde_yaml::Value;

verus! {

/// A value of `serde_yaml`.
#[verifier::external_type_specification]
#[verifier::external_body]
pub struct ExValue(serde_yaml::Value);

/// A number of a YAML document, as `serde_yaml` holds it.
#[verifier::external_type_specification]
#[verifier::external_body]
pub struct ExNumber(serde_yaml::Number);

/// A tag of a YAML document, as `serde_yaml` holds it.
#[verifier::external_type_specification]
#[verifier::external_body]
pub struct ExTag(serde_yaml::value::Tag);

/// A node of a YAML document.
pub enum Yaml {
    Null,
    Bool(bool),
    Number(serde_yaml::Number),
    Text(String),
    List(Vec<Yaml>),
    Table(Vec<(Yaml, Yaml)>),
    Tagged(serde_yaml::value::Tag, Box<Yaml>),
}

/// The model of a node: texts as sequences of characters, lists and tables as
/// sequences of nodes and of key and value.
pub enum Node {
    Null,
    Bool(bool),
    Number(serde_yaml::Number),
    Text(Seq<char>),
    List(Seq<Node>),
    Table(Seq<(Node, Node)>),
    Tagged(serde_yaml::value::Tag, Box<Node>),
}

impl Yaml {
    /// The model of this node.
    pub open spec fn node(self) -> Node
        decreases self,
    {
        match self {
            Yaml::Null => Node::Null,
            Yaml::Bool(b) => Node::Bool(b),
            Yaml::Number(n) => Node::Number(n),
            Yaml::Text(s) => Node::Text(s@),
            Yaml::List(v) => Node::List(
                Seq::new(
                    v@.len(),
                    |i: int|
                        if 0 <= i < v@.len() {
                            v@[i].node()
                        } else {
                            Node::Null
                        },
                ),
            ),
            Yaml::Table(v) => Node::Table(
                Seq::new(
                    v@.len(),
                    |i: int|
                        if 0 <= i < v@.len() {
                            (v@[i].0.node(), v@[i].1.node())
                        } else {
                            (Node::Null, Node::Null)
                        },
                ),
            ),
            Yaml::Tagged(t, b) => Node::Tagged(t, Box::new((*b).node())),
        }
    }
}

impl Node {
    /// The node under its tags.
    pub open spec fn untagged(self) -> Node
        decreases self,
    {
        match self {
            Node::Tagged(_, b) => (*b).untagged(),
            _ => self,
        }
    }
}

/// The index of the first entry whose key is the text `key`, or the number of
/// entries where there is none.
pub open spec fn entry_index(entries: Seq<(Node, Node)>, key: Seq<char>) -> int
    decreases entries.len(),
{
    if entries.len() == 0 || entries[0].0 == Node::Text(key) {
        0
    } else {
        1 + entry_index(entries.drop_first(), key)
    }
}

/// `entry_index` is the least index of an entry with the key.
pub proof fn lemma_entry_index(entries: Seq<(Node, Node)>, key: Seq<char>)
    ensures
        0 <= entry_index(entries, key) <= entries.len(),
        entry_index(entries, key) < entries.len() ==> entries[entry_index(entries, key)].0
            == Node::Text(key),
        forall|j: int|
            0 <= j < entry_index(entries, key) ==> (#[trigger] entries[j]).0 != Node::Text(key),
    decreases entries.len(),
{
    if entries.len() > 0 && entries[0].0 != Node::Text(key) {
        let rest = entries.drop_first();
        lemma_entry_index(rest, key);
        assert forall|j: int| 0 <= j < entry_index(entries, key) implies (
        #[trigger] entries[j]).0 != Node::Text(key) by {
            if j > 0 {
                assert(rest[j - 1] == entries[j]);
            }
        }
    }
}

/// An index with the properties of `entry_index` is it.
pub proof fn lemma_entry_index_is(entries: Seq<(Node, Node)>, key: Seq<char>, i: int)
    requires
        0 <= i <= entries.len(),
        i < entries.len() ==> entries[i].0 == Node::Text(key),
        forall|j: int| 0 <= j < i ==> (#[trigger] entries[j]).0 != Node::Text(key),
    ensures
        entry_index(entries, key) == i,
{
    lemma_entry_index(entries, key);
    let k = entry_index(entries, key);
    if k < i {
        assert(entries[k].0 != Node::Text(key));
    } else if i < k {
        assert(entries[i].0 != Node::Text(key));
    }
}

/// What `serde_yaml` reads from the bytes of a document: a tree, or the
/// message of its error.
pub uninterp spec fn yaml_parse(raw: Seq<u8>) -> Result<Node, Seq<char>>;

/// What `serde_yaml` writes for a tree: a text, or the message of its error.
pub uninterp spec fn yaml_text(node: Node) -> Result<Seq<char>, Seq<char>>;

/// A `serde_yaml::Value` as a tree, node for node.
#[verifier::external_body]
fn tree_of(value: Value) -> Yaml {
    match value {
        Value::Null => Yaml::Null,
        Value::Bool(b) => Yaml::Bool(b),
        Value::Number(n) => Yaml::Number(n),
        Value::String(s) => Yaml::Text(s),
        Value::Sequence(v) => Yaml::List(v.into_iter().map(tree_of).collect()),
        Value::Mapping(m) => {
            Yaml::Table(m.into_iter().map(|(k, v)| (tree_of(k), tree_of(v))).collect())
        },
        Value::Tagged(t) => Yaml::Tagged(t.tag, Box::new(tree_of(t.value))),
    }
}

/// A tree as a `serde_yaml::Value`, node for node.
#[verifier::external_body]
fn value_of(tree: Yaml) -> Value {
    match tree {
        Yaml::Null => Value::Null,
        Yaml::Bool(b) => Value::Bool(b),
        Yaml::Number(n) => Value::Number(n),
        Yaml::Text(s) => Value::String(s),
        Yaml::List(v) => Value::Sequence(v.into_iter().map(value_of).collect()),
        Yaml::Table(m) => {
            Value::Mapping(m.into_iter().map(|(k, v)| (value_of(k), value_of(v))).collect())
        },
        Yaml::Tagged(tag, b) => {
            Value::Tagged(Box::new(serde_yaml::value::TaggedValue { tag, value: value_of(*b) }))
        },
    }
}

/// `serde_yaml::from_slice` into a `serde_yaml::Value`: the tree that the
/// bytes hold, or the error's message.
#[verifier::external_body]
pub(crate) fn read_yaml(raw: &[u8]) -> (r: Result<Yaml, String>)
    ensures
        match r {
            Ok(tree) => yaml_parse(raw@) == Ok::<Node, Seq<char>>(tree.node()),
            Err(e) => yaml_parse(raw@) == Err::<Node, Seq<char>>(e@),
        },
{
    match serde_yaml::from_slice::<Value>(raw) {
        Ok(value) => Ok(tree_of(value)),
        Err(e) => Err(e.to_string()),
    }
}

/// `serde_yaml::to_string` of a `serde_yaml::Value`: the text of the tree, or
/// the error's message.
#[verifier::external_body]
pub(crate) fn write_yaml(tree: Yaml) -> (r: Result<String, String>)
    ensures
        match r {
            Ok(s) => yaml_text(tree.node()) == Ok::<Seq<char>, Seq<char>>(s@),
            Err(e) => yaml_text(tree.node()) == Err::<Seq<char>, Seq<char>>(e@),
        },
{
    match serde_yaml::to_string(&value_of(tree)) {
        Ok(text) => Ok(text),
        Err(e) => Err(e.to_string()),
    }
}

} // verus!
