//! The queries over a lock document: the names of its nodes, the URL of each
//! node, and the URL of one node by name.

use vstd::prelude::*;
use crate::document::{lemma_names_distinct, DocumentView, LockDocument};
use crate::engine::{
    canonical_url, outcome_of, reconstruct, ReconstructionError, ReconstructionFailure,
};
use crate::model::NodeView;

verus! {

/// Why a lookup by name gave no URL.
#[derive(Clone, Debug, PartialEq, Eq)]
pub enum LookupError {
    /// The document has no node of the name, repeated here.
    NotFound(String),
    /// The node was found and has no canonical URL.
    Reconstruction(ReconstructionError),
}

/// A lookup error with its texts as sequences of characters.
pub enum LookupFailure {
    NotFound(Seq<char>),
    Reconstruction(ReconstructionFailure),
}

impl View for LookupError {
    type V = LookupFailure;

    open spec fn view(&self) -> LookupFailure {
        match self {
            LookupError::NotFound(name) => LookupFailure::NotFound(name@),
            LookupError::Reconstruction(e) => LookupFailure::Reconstruction(e@),
        }
    }
}

/// What looking `name` up in a document gives.
pub open spec fn looked_up(doc: DocumentView, name: Seq<char>) -> Result<Seq<char>, LookupFailure> {
    match doc.node_named(name) {
        None => Err(LookupFailure::NotFound(name)),
        Some(node) => match canonical_url(node) {
            Ok(url) => Ok(url),
            Err(e) => Err(LookupFailure::Reconstruction(e)),
        },
    }
}

/// The URLs of all nodes of a document, or the failure of the first node,
/// in document order, that has none.
pub open spec fn all_urls(nodes: Seq<NodeView>) -> Result<
    Seq<Seq<char>>,
    ReconstructionFailure,
>
    decreases nodes.len(),
{
    if nodes.len() == 0 {
        Ok(Seq::empty())
    } else {
        match all_urls(nodes.drop_last()) {
            Err(e) => Err(e),
            Ok(urls) => match canonical_url(nodes.last()) {
                Err(e) => Err(e),
                Ok(url) => Ok(urls.push(url)),
            },
        }
    }
}

/// Once a node has failed, the nodes after it do not change the outcome.
proof fn lemma_failure_stays(nodes: Seq<NodeView>, n: int)
    requires
        0 <= n <= nodes.len(),
        all_urls(nodes.take(n)) is Err,
    ensures
        all_urls(nodes) == all_urls(nodes.take(n)),
    decreases nodes.len() - n,
{
    if n < nodes.len() {
        let next = nodes.take(n + 1);
        assert(next.drop_last() == nodes.take(n));
        lemma_failure_stays(nodes, n + 1);
    } else {
        assert(nodes.take(n) == nodes);
    }
}

/// The names of the nodes, in document order: each name once, and as many
/// names as nodes.
pub fn list_names(doc: &LockDocument) -> (names: Vec<String>)
    ensures
        names.deep_view() == doc@.names(),
        names.deep_view().no_duplicates(),
        names.len() == doc@.nodes.len(),
{
    let n = doc.len();
    let mut names: Vec<String> = Vec::new();
    let mut i: usize = 0;
    while i < n
        invariant
            i <= n,
            n == doc@.nodes.len(),
            names.len() == i,
            forall|k: int| 0 <= k < i ==> #[trigger] names@[k]@ == doc@.nodes[k].name,
        decreases n - i,
    {
        if let Some(node) = doc.node(i) {
            names.push(node.name.clone());
        }
        i += 1;
    }
    proof {
        assert(names.deep_view() =~= doc@.names());
        lemma_names_distinct(doc@);
    }
    names
}

/// The name of each node with its URL or the reason why it has none, in
/// document order. A node that fails leaves the others as they are.
pub fn list_name_url_pairs(doc: &LockDocument) -> (pairs: Vec<
    (String, Result<String, ReconstructionError>),
>)
    ensures
        pairs.len() == doc@.nodes.len(),
        forall|i: int|
            0 <= i < pairs.len() ==> {
                &&& (#[trigger] pairs@[i]).0@ == doc@.nodes[i].name
                &&& outcome_of(pairs@[i].1) == canonical_url(doc@.nodes[i])
            },
{
    let n = doc.len();
    let mut pairs: Vec<(String, Result<String, ReconstructionError>)> = Vec::new();
    let mut i: usize = 0;
    while i < n
        invariant
            i <= n,
            n == doc@.nodes.len(),
            pairs.len() == i,
            forall|k: int|
                0 <= k < i ==> {
                    &&& (#[trigger] pairs@[k]).0@ == doc@.nodes[k].name
                    &&& outcome_of(pairs@[k].1) == canonical_url(doc@.nodes[k])
                },
        decreases n - i,
    {
        if let Some(node) = doc.node(i) {
            let url = reconstruct(node);
            pairs.push((node.name.clone(), url));
        }
        i += 1;
    }
    pairs
}

/// The URL of each node, in document order; the failure of the first node
/// that has none fails the whole listing.
pub fn list_urls(doc: &LockDocument) -> (res: Result<Vec<String>, ReconstructionError>)
    ensures
        match res {
            Ok(urls) => all_urls(doc@.nodes) == Ok::<Seq<Seq<char>>, ReconstructionFailure>(
                urls.deep_view(),
            ),
            Err(e) => all_urls(doc@.nodes) == Err::<Seq<Seq<char>>, ReconstructionFailure>(e@),
        },
{
    let n = doc.len();
    let mut urls: Vec<String> = Vec::new();
    let mut i: usize = 0;
    assert(urls.deep_view() =~= Seq::<Seq<char>>::empty());
    assert(doc@.nodes.take(0).len() == 0);
    while i < n
        invariant
            i <= n,
            n == doc@.nodes.len(),
            all_urls(doc@.nodes.take(i as int)) == Ok::<Seq<Seq<char>>, ReconstructionFailure>(
                urls.deep_view(),
            ),
        decreases n - i,
    {
        proof {
            let next = doc@.nodes.take(i + 1);
            assert(next.drop_last() == doc@.nodes.take(i as int));
            assert(next.last() == doc@.nodes[i as int]);
        }
        let ghost before = urls.deep_view();
        if let Some(node) = doc.node(i) {
            match reconstruct(node) {
                Ok(url) => {
                    urls.push(url);
                    assert(urls.deep_view() =~= before.push(url@));
                },
                Err(e) => {
                    proof {
                        lemma_failure_stays(doc@.nodes, i + 1);
                    }
                    return Err(e);
                },
            }
        }
        i += 1;
    }
    assert(doc@.nodes.take(i as int) == doc@.nodes);
    Ok(urls)
}

/// The URL of the node with the name `name`.
pub fn lookup(doc: &LockDocument, name: &str) -> (res: Result<String, LookupError>)
    ensures
        match res {
            Ok(url) => looked_up(doc@, name@) == Ok::<Seq<char>, LookupFailure>(url@),
            Err(e) => looked_up(doc@, name@) == Err::<Seq<char>, LookupFailure>(e@),
        },
{
    match doc.get(name) {
        None => Err(LookupError::NotFound(name.to_owned())),
        Some(node) => match reconstruct(node) {
            Ok(url) => Ok(url),
            Err(e) => Err(LookupError::Reconstruction(e)),
        },
    }
}

} // verus!
