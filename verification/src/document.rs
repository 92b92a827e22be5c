//! The lock document as a whole: its nodes in document order, the name of
//! its root node and its format version.

use vstd::prelude::*;
use crate::engine::{canonical_url, first_missing, ReconstructionFailure};
use crate::model::{Node, NodeView};
use crate::registry::named_type;
use crate::text::same_text;

verus! {

/// A lock document. Every value of this type is well formed.
#[derive(Debug)]
pub struct LockDocument {
    nodes: Vec<Node>,
    root: String,
    version: u8,
}

/// What a lock document holds.
pub struct DocumentView {
    /// The nodes, in the order of the document.
    pub nodes: Seq<NodeView>,
    /// The name of the entry node.
    pub root: Seq<char>,
    /// The format version.
    pub version: u8,
}

/// Whether a node holds, in one reference or the other, every field that
/// its type requires. A node of a type that the registry does not know
/// requires none.
pub open spec fn is_complete(node: NodeView) -> bool {
    named_type(node.locked.source.type_) matches Some(t) ==> first_missing(t, node) is None
}

impl DocumentView {
    /// The names of the nodes, in the order of the document.
    pub open spec fn names(self) -> Seq<Seq<char>> {
        Seq::new(self.nodes.len(), |i: int| self.nodes[i].name)
    }

    /// Whether a node has the name `name`.
    pub open spec fn has_node(self, name: Seq<char>) -> bool {
        exists|i: int| 0 <= i < self.nodes.len() && #[trigger] self.nodes[i].name == name
    }

    /// The node with the name `name`.
    pub open spec fn node_named(self, name: Seq<char>) -> Option<NodeView> {
        if self.has_node(name) {
            Some(
                self.nodes[choose|i: int|
                    0 <= i < self.nodes.len() && #[trigger] self.nodes[i].name == name],
            )
        } else {
            None
        }
    }

    /// No two nodes share a name, the root names a node, and every node is
    /// complete.
    pub open spec fn well_formed(self) -> bool {
        &&& forall|i: int, j: int|
            0 <= i < j < self.nodes.len() ==> #[trigger] self.nodes[i].name
                != #[trigger] self.nodes[j].name
        &&& self.has_node(self.root)
        &&& forall|i: int| 0 <= i < self.nodes.len() ==> is_complete(#[trigger] self.nodes[i])
    }
}

/// In a well-formed document a name belongs to one node at most: the node
/// at any position is the node of its name.
pub proof fn lemma_node_named(doc: DocumentView, i: int)
    requires
        doc.well_formed(),
        0 <= i < doc.nodes.len(),
    ensures
        doc.node_named(doc.nodes[i].name) == Some(doc.nodes[i]),
{
    let name = doc.nodes[i].name;
    let j = choose|j: int| 0 <= j < doc.nodes.len() && #[trigger] doc.nodes[j].name == name;
    assert(j == i) by {
        if j < i {
            assert(doc.nodes[j].name != doc.nodes[i].name);
        } else if i < j {
            assert(doc.nodes[i].name != doc.nodes[j].name);
        }
    }
}

/// The names of a well-formed document are pairwise distinct, and there are
/// as many as nodes.
pub proof fn lemma_names_distinct(doc: DocumentView)
    requires
        doc.well_formed(),
    ensures
        doc.names().no_duplicates(),
        doc.names().len() == doc.nodes.len(),
{
    assert forall|i: int, j: int|
        0 <= i < doc.names().len() && 0 <= j < doc.names().len() && i != j implies doc.names()[i]
        != doc.names()[j] by {
        if i < j {
            assert(doc.nodes[i].name != doc.nodes[j].name);
        } else {
            assert(doc.nodes[j].name != doc.nodes[i].name);
        }
    }
}

/// No node of a well-formed document fails for want of a field.
pub proof fn lemma_no_field_missing(doc: DocumentView, i: int)
    requires
        doc.well_formed(),
        0 <= i < doc.nodes.len(),
    ensures
        !(canonical_url(doc.nodes[i]) matches Err(ReconstructionFailure::MissingField(_, _))),
{
    assert(is_complete(doc.nodes[i]));
}

impl View for LockDocument {
    type V = DocumentView;

    closed spec fn view(&self) -> DocumentView {
        DocumentView {
            nodes: Seq::new(self.nodes@.len(), |i: int| self.nodes@[i]@),
            root: self.root@,
            version: self.version,
        }
    }
}

impl LockDocument {
    #[verifier::type_invariant]
    spec fn valid(self) -> bool {
        self@.well_formed()
    }

    /// A document of the given parts.
    pub(crate) fn assemble(nodes: Vec<Node>, root: String, version: u8) -> (doc: LockDocument)
        requires
            (DocumentView {
                nodes: Seq::new(nodes@.len(), |i: int| nodes@[i]@),
                root: root@,
                version,
            }).well_formed(),
        ensures
            doc@ == (DocumentView {
                nodes: Seq::new(nodes@.len(), |i: int| nodes@[i]@),
                root: root@,
                version,
            }),
            doc@.well_formed(),
    {
        LockDocument { nodes, root, version }
    }

    /// The number of nodes.
    pub fn len(&self) -> (n: usize)
        ensures
            n == self@.nodes.len(),
            self@.well_formed(),
    {
        proof {
            use_type_invariant(self);
        }
        self.nodes.len()
    }

    /// The node at position `i` of the document, if it has so many.
    pub fn node(&self, i: usize) -> (found: Option<&Node>)
        ensures
            match found {
                Some(node) => i < self@.nodes.len() && node@ == self@.nodes[i as int],
                None => i >= self@.nodes.len(),
            },
    {
        if i < self.nodes.len() {
            Some(&self.nodes[i])
        } else {
            None
        }
    }

    /// The name of the entry node.
    pub fn root(&self) -> (name: &str)
        ensures
            name@ == self@.root,
    {
        self.root.as_str()
    }

    /// The format version.
    pub fn version(&self) -> (version: u8)
        ensures
            version == self@.version,
    {
        self.version
    }

    /// The node with the name `name`, if there is one.
    pub fn get(&self, name: &str) -> (found: Option<&Node>)
        ensures
            match found {
                Some(node) => self@.node_named(name@) == Some(node@),
                None => self@.node_named(name@) is None,
            },
    {
        proof {
            use_type_invariant(self);
        }
        let mut i: usize = 0;
        while i < self.nodes.len()
            invariant
                i <= self.nodes.len(),
                self@.well_formed(),
                self@.nodes.len() == self.nodes.len(),
                forall|k: int| 0 <= k < self.nodes.len() ==> #[trigger] self@.nodes[k]
                    == self.nodes@[k]@,
                forall|k: int| 0 <= k < i ==> #[trigger] self@.nodes[k].name != name@,
            decreases self.nodes.len() - i,
        {
            if same_text(self.nodes[i].name.as_str(), name) {
                proof {
                    lemma_node_named(self@, i as int);
                }
                return Some(&self.nodes[i]);
            }
            i += 1;
        }
        None
    }
}

} // verus!
