//! The document tree: a loosely typed hierarchy of dictionaries, arrays,
//! strings and binary blobs, together with its mathematical model.

use vstd::prelude::*;

verus! {

/// The mathematical value of a document node.
///
/// A dictionary is a finite map from keys to nodes, so the order in which
/// its entries were written plays no part in it.
pub enum Node {
    Dictionary(Map<Seq<char>, Node>),
    Array(Seq<Node>),
    String(Seq<char>),
    Data(Seq<u8>),
    Other,
}

/// The variant of a node, without its contents.
#[derive(Clone, Copy, Debug, PartialEq, Eq, Structural)]
pub enum NodeKind {
    Dictionary,
    Array,
    String,
    Data,
    Other,
}

/// Why some bytes, or the document read out of them, gave no extraction
/// at all.
#[derive(Clone, Copy, Debug, PartialEq, Eq, Structural)]
pub enum DocumentError {
    /// The bytes are not a document.
    Malformed,
    /// The document's root is no dictionary, or its `PayloadContent` is
    /// absent or no array of dictionaries.
    UnexpectedShape,
}

impl Node {
    /// The variant of this node.
    pub open spec fn kind(self) -> NodeKind {
        match self {
            Node::Dictionary(_) => NodeKind::Dictionary,
            Node::Array(_) => NodeKind::Array,
            Node::String(_) => NodeKind::String,
            Node::Data(_) => NodeKind::Data,
            Node::Other => NodeKind::Other,
        }
    }
}

/// A node of a document tree.
///
/// `Other` stands for every kind of value that carries no payload field:
/// numbers, booleans, dates and the like.
#[derive(Debug)]
pub enum DocumentNode {
    Dictionary(Dictionary),
    Array(Vec<DocumentNode>),
    String(String),
    Data(Vec<u8>),
    Other,
}

/// A dictionary node, kept as the list of its bindings in the order they
/// were written. A later binding of a key shadows an earlier one.
#[derive(Debug)]
pub struct Dictionary {
    pub entries: Vec<(String, DocumentNode)>,
}

/// The model of a node.
pub open spec fn node_model(node: DocumentNode) -> Node
    decreases node,
{
    match node {
        DocumentNode::Dictionary(dict) => Node::Dictionary(
            bindings(dict.entries@, dict.entries@.len()),
        ),
        DocumentNode::Array(items) => Node::Array(
            Seq::new(
                items@.len(),
                |i: int|
                    if 0 <= i < items@.len() {
                        node_model(items@[i])
                    } else {
                        Node::Other
                    },
            ),
        ),
        DocumentNode::String(text) => Node::String(text@),
        DocumentNode::Data(bytes) => Node::Data(bytes@),
        DocumentNode::Other => Node::Other,
    }
}

/// The map that the first `n` bindings of `entries` denote.
pub open spec fn bindings(entries: Seq<(String, DocumentNode)>, n: nat) -> Map<Seq<char>, Node>
    decreases entries, n,
{
    if n == 0 || n > entries.len() {
        Map::empty()
    } else {
        bindings(entries, (n - 1) as nat).insert(entries[n - 1].0@, node_model(entries[n - 1].1))
    }
}

/// The models of a sequence of nodes, one for one.
pub open spec fn models(items: Seq<DocumentNode>) -> Seq<Node> {
    Seq::new(items.len(), |i: int| node_model(items[i]))
}

impl View for DocumentNode {
    type V = Node;

    open spec fn view(&self) -> Node {
        node_model(*self)
    }
}

impl View for Dictionary {
    type V = Map<Seq<char>, Node>;

    open spec fn view(&self) -> Map<Seq<char>, Node> {
        bindings(self.entries@, self.entries@.len())
    }
}

/// A key is bound by the first `n` bindings exactly if one of them names it,
/// and it is then bound to the node of the last one that does.
pub proof fn lemma_bindings(entries: Seq<(String, DocumentNode)>, n: nat, key: Seq<char>)
    requires
        n <= entries.len(),
    ensures
        bindings(entries, n).contains_key(key) <==> exists|i: int|
            0 <= i < n && (#[trigger] entries[i]).0@ == key,
        forall|i: int|
            0 <= i < n && (#[trigger] entries[i]).0@ == key && (forall|j: int|
                i < j < n ==> (#[trigger] entries[j]).0@ != key) ==> bindings(entries, n)[key]
                == node_model(entries[i].1),
    decreases n,
{
    if n > 0 {
        lemma_bindings(entries, (n - 1) as nat, key);
    }
}

/// The model of an array node is the sequence of its items' models.
pub proof fn lemma_array_model(items: Vec<DocumentNode>)
    ensures
        DocumentNode::Array(items)@ == Node::Array(models(items@)),
{
    assert(DocumentNode::Array(items)@->Array_0 =~= models(items@));
}

impl DocumentNode {
    /// The variant of this node.
    pub fn kind(&self) -> (kind: NodeKind)
        ensures
            kind == self@.kind(),
    {
        match self {
            DocumentNode::Dictionary(_) => NodeKind::Dictionary,
            DocumentNode::Array(_) => NodeKind::Array,
            DocumentNode::String(_) => NodeKind::String,
            DocumentNode::Data(_) => NodeKind::Data,
            DocumentNode::Other => NodeKind::Other,
        }
    }

    /// The dictionary of a dictionary node; `None` for any other node.
    pub fn as_dictionary(&self) -> (found: Option<&Dictionary>)
        ensures
            match found {
                Some(dict) => self@ == Node::Dictionary(dict@),
                None => !(self@ is Dictionary),
            },
    {
        match self {
            DocumentNode::Dictionary(dict) => Some(dict),
            _ => None,
        }
    }

    /// The items of an array node; `None` for any other node.
    pub fn as_array(&self) -> (found: Option<&Vec<DocumentNode>>)
        ensures
            match found {
                Some(items) => self@ == Node::Array(models(items@)),
                None => !(self@ is Array),
            },
    {
        match self {
            DocumentNode::Array(items) => {
                proof {
                    lemma_array_model(*items);
                }
                Some(items)
            },
            _ => None,
        }
    }

    /// The text of a string node; `None` for any other node.
    pub fn as_string(&self) -> (found: Option<&String>)
        ensures
            match found {
                Some(text) => self@ == Node::String(text@),
                None => !(self@ is String),
            },
    {
        match self {
            DocumentNode::String(text) => Some(text),
            _ => None,
        }
    }

    /// The bytes of a binary node; `None` for any other node.
    pub fn as_data(&self) -> (found: Option<&Vec<u8>>)
        ensures
            match found {
                Some(bytes) => self@ == Node::Data(bytes@),
                None => !(self@ is Data),
            },
    {
        match self {
            DocumentNode::Data(bytes) => Some(bytes),
            _ => None,
        }
    }
}

impl Dictionary {
    /// The dictionary without bindings.
    pub fn new() -> (dict: Dictionary)
        ensures
            dict@ == Map::<Seq<char>, Node>::empty(),
    {
        Dictionary { entries: Vec::new() }
    }

    /// Binds `key` to `value`; an earlier binding of `key` is shadowed.
    pub fn insert(&mut self, key: String, value: DocumentNode)
        ensures
            final(self)@ == old(self)@.insert(key@, value@),
    {
        let ghost before = self.entries@;
        self.entries.push((key, value));
        proof {
            lemma_bindings_prefix(before, self.entries@, before.len());
        }
    }

    /// Looks `key` up.
    pub fn get(&self, key: &str) -> (found: Option<&DocumentNode>)
        ensures
            match found {
                Some(node) => self@.contains_key(key@) && self@[key@] == node@,
                None => !self@.contains_key(key@),
            },
    {
        let wanted = key.to_owned();
        let mut i: usize = self.entries.len();
        while i > 0
            invariant
                i <= self.entries.len(),
                wanted@ == key@,
                forall|j: int| i <= j < self.entries.len() ==> (#[trigger] self.entries@[j]).0@ != key@,
            decreases i,
        {
            i = i - 1;
            if self.entries[i].0 == wanted {
                proof {
                    lemma_bindings(self.entries@, self.entries@.len(), key@);
                }
                return Some(&self.entries[i].1);
            }
        }
        proof {
            lemma_bindings(self.entries@, self.entries@.len(), key@);
        }
        None
    }
}

/// Bindings depend only on the entries they range over.
proof fn lemma_bindings_prefix(
    short: Seq<(String, DocumentNode)>,
    long: Seq<(String, DocumentNode)>,
    n: nat,
)
    requires
        n <= short.len() <= long.len(),
        forall|i: int| 0 <= i < short.len() ==> short[i] == long[i],
    ensures
        bindings(short, n) == bindings(long, n),
    decreases n,
{
    if n > 0 {
        lemma_bindings_prefix(short, long, (n - 1) as nat);
    }
}

} // verus!
