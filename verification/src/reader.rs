//! Reading a document tree out of property-list bytes.

use crate::document::{bindings, node_model, Dictionary, DocumentError, DocumentNode, Node};
use vstd::prelude::*;

verus! {

/// `plist::Value`, a value of a property list; nothing inside it is seen
/// here.
#[verifier::external_type_specification]
#[verifier::external_body]
pub struct ExPlistValue(plist::Value);

/// `plist::Error`, carried through as it is.
#[verifier::external_type_specification]
#[verifier::external_body]
pub struct ExPlistError(plist::Error);

/// The tree that the `plist` crate reads out of `bytes`, in either of the
/// encodings it knows; `None` where it reads none.
pub uninterp spec fn plist_tree(bytes: Seq<u8>) -> Option<Node>;

/// The tree that a `plist::Value` holds. Dictionaries, arrays, strings and
/// binary data are kept as they are, and a value of any other kind stands
/// in the tree as `Node::Other`.
pub uninterp spec fn value_tree(value: plist::Value) -> Node;

/// One level of a `plist::Value`: its kind, with the values it is made of.
enum ValueParts {
    Dictionary(Vec<(String, plist::Value)>),
    Array(Vec<plist::Value>),
    String(String),
    Data(Vec<u8>),
    Other,
}

/// The map that the first `n` of `entries` denote, each key bound to the
/// tree of its value.
spec fn value_bindings(entries: Seq<(String, plist::Value)>, n: nat) -> Map<
    Seq<char>,
    Node,
>
    decreases n,
{
    if n == 0 || n > entries.len() {
        Map::empty()
    } else {
        value_bindings(entries, (n - 1) as nat).insert(entries[n - 1].0@, value_tree(entries[n - 1].1))
    }
}

/// The trees of a sequence of values, one for one.
spec fn value_trees(items: Seq<plist::Value>) -> Seq<Node> {
    Seq::new(items.len(), |i: int| value_tree(items[i]))
}

/// Whether no two of `entries` have the same key.
spec fn distinct_keys(entries: Seq<(String, plist::Value)>) -> bool {
    forall|i: int, j: int|
        0 <= i < j < entries.len() ==> (#[trigger] entries[i]).0@ != (#[trigger] entries[j]).0@
}

/// The tree that is made of `parts`.
spec fn parts_tree(parts: ValueParts) -> Node {
    match parts {
        ValueParts::Dictionary(entries) => Node::Dictionary(
            value_bindings(entries@, entries@.len()),
        ),
        ValueParts::Array(items) => Node::Array(value_trees(items@)),
        ValueParts::String(text) => Node::String(text@),
        ValueParts::Data(bytes) => Node::Data(bytes@),
        ValueParts::Other => Node::Other,
    }
}

/// Calls `plist::Value::from_reader` on `bytes`. The contract gives the
/// tree of the value that was read a name, `plist_tree`, and so claims
/// that the same bytes are always read as the same tree; it does not say
/// which tree that is.
#[verifier::external_body]
fn read_plist(bytes: &[u8]) -> (read: Result<plist::Value, plist::Error>)
    ensures
        match read {
            Ok(value) => plist_tree(bytes@) == Some(value_tree(value)),
            Err(_) => plist_tree(bytes@) is None,
        },
{
    plist::Value::from_reader(std::io::Cursor::new(bytes))
}

/// Takes a `plist::Value` apart, one level deep: the variant is told, and
/// its fields are moved over as they are. The bindings of a dictionary come
/// in the order in which `plist::Dictionary::into_iter` hands them out. The
/// contract claims that the value's tree is made of the trees of these
/// parts, and that a dictionary binds each key once.
#[verifier::external_body]
fn take_apart(value: plist::Value) -> (parts: ValueParts)
    ensures
        parts_tree(parts) == value_tree(value),
        parts matches ValueParts::Dictionary(entries) ==> distinct_keys(entries@),
{
    match value {
        plist::Value::Dictionary(dict) => ValueParts::Dictionary(dict.into_iter().collect()),
        plist::Value::Array(items) => ValueParts::Array(items),
        plist::Value::String(text) => ValueParts::String(text),
        plist::Value::Data(bytes) => ValueParts::Data(bytes),
        _ => ValueParts::Other,
    }
}

/// The first `n` bindings bind finitely many keys.
proof fn lemma_value_bindings_finite(entries: Seq<(String, plist::Value)>, n: nat)
    ensures
        value_bindings(entries, n).dom().finite(),
    decreases n,
{
    if n > 0 && n <= entries.len() {
        lemma_value_bindings_finite(entries, (n - 1) as nat);
    }
}

/// Among bindings with distinct keys, each key is bound to the tree of its
/// own value.
proof fn lemma_value_bindings_index(entries: Seq<(String, plist::Value)>, n: nat, i: int)
    requires
        distinct_keys(entries),
        0 <= i < n <= entries.len(),
    ensures
        value_bindings(entries, n).contains_key(entries[i].0@),
        value_bindings(entries, n)[entries[i].0@] == value_tree(entries[i].1),
    decreases n,
{
    if i < n - 1 {
        lemma_value_bindings_index(entries, (n - 1) as nat, i);
    }
}

/// Bindings whose keys and trees agree one for one denote the same map.
proof fn lemma_bindings_agree(
    nodes: Seq<(String, DocumentNode)>,
    values: Seq<(String, plist::Value)>,
    n: nat,
)
    requires
        n <= nodes.len(),
        n <= values.len(),
        forall|j: int|
            0 <= j < n ==> (#[trigger] nodes[j]).0@ == values[j].0@ && node_model(nodes[j].1)
                == value_tree(values[j].1),
    ensures
        bindings(nodes, n) == value_bindings(values, n),
    decreases n,
{
    if n > 0 {
        lemma_bindings_agree(nodes, values, (n - 1) as nat);
    }
}

/// Turns a `plist::Value` into a node with the same tree, level by level.
pub fn node_from_value(value: plist::Value) -> (node: DocumentNode)
    ensures
        node@ == value_tree(value),
    decreases value_tree(value),
{
    let ghost tree = value_tree(value);
    match take_apart(value) {
        ValueParts::Dictionary(entries) => {
            let ghost all = entries@;
            let mut out: Vec<(String, DocumentNode)> = Vec::new();
            for entry in it: entries
                invariant
                    it.seq() == all,
                    distinct_keys(all),
                    tree == Node::Dictionary(value_bindings(all, all.len())),
                    tree == value_tree(value),
                    out@.len() == it.index(),
                    forall|j: int|
                        0 <= j < out@.len() ==> (#[trigger] out@[j]).0@ == all[j].0@ && node_model(
                            out@[j].1,
                        ) == value_tree(all[j].1),
            {
                let (key, child) = entry;
                proof {
                    lemma_value_bindings_finite(all, all.len());
                    lemma_value_bindings_index(all, all.len(), it.index() as int);
                    assert(decreases_to!(tree->Dictionary_0 => tree->Dictionary_0[key@]));
                }
                let node = node_from_value(child);
                out.push((key, node));
            }
            proof {
                lemma_bindings_agree(out@, all, all.len());
            }
            DocumentNode::Dictionary(Dictionary { entries: out })
        },
        ValueParts::Array(items) => {
            let ghost all = items@;
            let mut out: Vec<DocumentNode> = Vec::new();
            for item in it: items
                invariant
                    it.seq() == all,
                    tree == Node::Array(value_trees(all)),
                    tree == value_tree(value),
                    out@.len() == it.index(),
                    forall|j: int|
                        0 <= j < out@.len() ==> node_model(#[trigger] out@[j]) == value_tree(all[j]),
            {
                proof {
                    assert(decreases_to!(tree->Array_0 => tree->Array_0[it.index() as int]));
                }
                let node = node_from_value(item);
                out.push(node);
            }
            proof {
                assert(DocumentNode::Array(out)@->Array_0 =~= value_trees(all));
            }
            DocumentNode::Array(out)
        },
        ValueParts::String(text) => DocumentNode::String(text),
        ValueParts::Data(bytes) => DocumentNode::Data(bytes),
        ValueParts::Other => DocumentNode::Other,
    }
}

/// Reads `bytes` as a document: the tree that the `plist` crate reads out of
/// them, or `Malformed` where it reads none.
pub fn parse_document(bytes: &[u8]) -> (parsed: Result<DocumentNode, DocumentError>)
    ensures
        match parsed {
            Ok(node) => plist_tree(bytes@) == Some(node@),
            Err(error) => plist_tree(bytes@) is None && error == DocumentError::Malformed,
        },
{
    match read_plist(bytes) {
        Ok(value) => Ok(node_from_value(value)),
        Err(_) => Err(DocumentError::Malformed),
    }
}

} // verus!
