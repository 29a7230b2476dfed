//! The boundary to `serde_yaml`, which writes the YAML text.
//!
//! Nothing in this file is proved: it says what the library takes from
//! `serde_yaml`, over a tree that stands for a YAML value.

use vstd::prelude::*;
use vstd::utf8::encode_utf8;

verus! {

/// The size of the largest document that is handed to the serializer. The
/// serializer counts the bytes of a string, the lines of its text and the
/// columns of a line in an `i32`; with a document of this size none of them
/// comes near the end of that range.
pub const MAX_DOCUMENT_SIZE: usize = 0x1000_0000;

/// What every node counts for in the size of a document, for what is
/// written around it: indentation, a marker, quotes, a line break.
pub const NODE_SIZE: usize = 16;

/// What a YAML value is to this library: a string, a sequence of values, or
/// a mapping that keeps its entries in the order in which they were given.
pub enum YamlNode {
    Scalar(Seq<char>),
    Sequence(Seq<YamlNode>),
    Mapping(Seq<(YamlNode, YamlNode)>),
}

/// `serde_yaml::Value`, carried through without a look inside.
#[verifier::external_type_specification]
#[verifier::external_body]
pub struct ExValue(serde_yaml::Value);

/// `serde_yaml::Error`, carried through without a look inside.
#[verifier::external_type_specification]
#[verifier::external_body]
pub struct ExError(serde_yaml::Error);

/// The tree that a `serde_yaml::Value` holds.
pub uninterp spec fn node_of(value: serde_yaml::Value) -> YamlNode;

/// The text that `serde_yaml::to_string` gives for a value that holds
/// `node`, or `None` where it gives an error.
pub uninterp spec fn yaml_text(node: YamlNode) -> Option<Seq<char>>;

/// The nodes of a list of values.
pub open spec fn nodes_of(values: Seq<serde_yaml::Value>) -> Seq<YamlNode> {
    values.map_values(|value: serde_yaml::Value| node_of(value))
}

/// The nodes of a list of entries, key and value.
pub open spec fn entry_nodes_of(entries: Seq<(serde_yaml::Value, serde_yaml::Value)>) -> Seq<
    (YamlNode, YamlNode),
> {
    entries.map_values(
        |entry: (serde_yaml::Value, serde_yaml::Value)| (node_of(entry.0), node_of(entry.1)),
    )
}

/// Whether every key is a string, and no two entries have the same key.
pub open spec fn distinct_text_keys(entries: Seq<(YamlNode, YamlNode)>) -> bool {
    &&& forall|i: int| 0 <= i < entries.len() ==> (#[trigger] entries[i]).0 is Scalar
    &&& forall|i: int, j: int| 0 <= i < j < entries.len() ==> entries[i].0 != entries[j].0
}

/// What a string counts for in the size of a document: what every node
/// counts for, and its bytes in UTF-8.
pub open spec fn text_size(text: Seq<char>) -> nat {
    NODE_SIZE as nat + encode_utf8(text).len()
}

/// The size of a node: what every node counts for, and what its bytes or its
/// nodes count for.
pub open spec fn node_size(node: YamlNode) -> nat
    decreases node, 0nat,
{
    match node {
        YamlNode::Scalar(text) => text_size(text),
        YamlNode::Sequence(items) => NODE_SIZE as nat + nodes_size(items),
        YamlNode::Mapping(entries) => NODE_SIZE as nat + entries_size(entries),
    }
}

/// The size of the nodes of a sequence.
pub open spec fn nodes_size(items: Seq<YamlNode>) -> nat
    decreases items, 1nat,
{
    if items.len() == 0 {
        0
    } else {
        nodes_size(items.drop_last()) + node_size(items.last())
    }
}

/// The size of the keys and values of a mapping.
pub open spec fn entries_size(entries: Seq<(YamlNode, YamlNode)>) -> nat
    decreases entries, 1nat,
{
    if entries.len() == 0 {
        0
    } else {
        entries_size(entries.drop_last()) + node_size(entries.last().0) + node_size(
            entries.last().1,
        )
    }
}

/// Whether a node is a mapping from strings to strings.
pub open spec fn is_record(node: YamlNode) -> bool {
    node matches YamlNode::Mapping(entries) && forall|i: int|
        0 <= i < entries.len() ==> (#[trigger] entries[i]).0 is Scalar && entries[i].1 is Scalar
}

/// Whether a node is a sequence of such mappings.
pub open spec fn is_record_list(node: YamlNode) -> bool {
    node matches YamlNode::Sequence(items) && forall|i: int|
        0 <= i < items.len() ==> is_record(#[trigger] items[i])
}

/// Whether a node is a mapping from strings to such sequences: the shape of
/// the documents that this library writes.
pub open spec fn is_document(node: YamlNode) -> bool {
    node matches YamlNode::Mapping(entries) && forall|i: int|
        0 <= i < entries.len() ==> (#[trigger] entries[i]).0 is Scalar && is_record_list(
            entries[i].1,
        )
}

/// Makes `serde_yaml::Value::String`: a value that holds the given string.
#[verifier::external_body]
pub(crate) fn scalar(text: &str) -> (value: serde_yaml::Value)
    ensures
        node_of(value) == YamlNode::Scalar(text@),
{
    serde_yaml::Value::String(text.to_owned())
}

/// Makes `serde_yaml::Value::Sequence`: a value that holds the given
/// values, in their order.
#[verifier::external_body]
pub(crate) fn sequence(items: Vec<serde_yaml::Value>) -> (value: serde_yaml::Value)
    ensures
        node_of(value) == YamlNode::Sequence(nodes_of(items@)),
{
    serde_yaml::Value::Sequence(items)
}

/// Collects entries into a `serde_yaml::Mapping` (its `FromIterator`) and
/// makes `serde_yaml::Value::Mapping` of it. With strings for keys, none of
/// them given twice, the mapping holds the entries in the order given.
#[verifier::external_body]
pub(crate) fn mapping(entries: Vec<(serde_yaml::Value, serde_yaml::Value)>) -> (value:
    serde_yaml::Value)
    requires
        distinct_text_keys(entry_nodes_of(entries@)),
    ensures
        node_of(value) == YamlNode::Mapping(entry_nodes_of(entries@)),
{
    serde_yaml::Value::Mapping(entries.into_iter().collect())
}

/// Calls `serde_yaml::to_string` on a value that holds a document of at
/// most the largest size. The outcome depends on the tree that the value
/// holds and on nothing else.
#[verifier::external_body]
pub(crate) fn to_text(value: &serde_yaml::Value) -> (result: Result<String, serde_yaml::Error>)
    requires
        is_document(node_of(*value)),
        node_size(node_of(*value)) <= MAX_DOCUMENT_SIZE,
    ensures
        match result {
            Ok(text) => yaml_text(node_of(*value)) == Some(text@),
            Err(_) => yaml_text(node_of(*value)) is None,
        },
{
    serde_yaml::to_string(value)
}

} // verus!
