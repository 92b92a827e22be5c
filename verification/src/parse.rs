//! Reading a lock document from its JSON text.
//!
//! The text is one JSON object with the members `version`, `root` and
//! `nodes`. Each member of `nodes` is a node: an object with the members
//! `inputs`, `locked` and `original`. Members that this module does not
//! name are passed over.

use vstd::prelude::*;
use crate::document::{is_complete, DocumentView, LockDocument};
use crate::engine::{find_missing, first_missing};
use crate::json::{
    as_natural, as_text, decode, is_null, json_text, json_tree, member, member_names, JsonTree,
};
use crate::model::{LockedSpec, LockedView, Node, NodeView, OriginalSpec, SourceView};
use crate::registry::{named_type, Field, SourceType};

verus! {

/// Why a text is no lock document.
#[derive(Clone, Copy, PartialEq, Eq, Debug, Structural)]
pub enum ParseError {
    /// The text is no JSON, or a part of the document is absent or not of
    /// the kind that the format gives it.
    Malformed,
    /// The document declares the format version carried here, which is
    /// larger than any version of the format.
    UnsupportedVersion(u64),
    /// A node holds, in neither of its references, the field carried here,
    /// which the type of its locked reference requires.
    MissingField(Field),
}

/// The largest format version.
pub const MAX_VERSION: u64 = 255;

/// The text under `key`, where `tree` is an object with a string there.
pub open spec fn text_at(tree: JsonTree, key: Seq<char>) -> Option<Seq<char>> {
    match tree.get(key) {
        Some(JsonTree::Text(s)) => Some(s),
        _ => None,
    }
}

/// The text under `key` of a member that may be left out: `Some(None)`
/// where `tree` has no such member or holds `null` there, `None` where it
/// holds anything but a string.
pub open spec fn optional_text_at(tree: JsonTree, key: Seq<char>) -> Option<Option<Seq<char>>> {
    match tree.get(key) {
        None => Some(None),
        Some(JsonTree::Null) => Some(None),
        Some(JsonTree::Text(s)) => Some(Some(s)),
        Some(_) => None,
    }
}

/// The number under `key`, where `tree` is an object with a whole number
/// from 0 to `u64::MAX` there.
pub open spec fn natural_at(tree: JsonTree, key: Seq<char>) -> Option<u64> {
    match tree.get(key) {
        Some(JsonTree::Number(Some(n))) => Some(n),
        _ => None,
    }
}

/// The source reference that an object holds: `type` as a string, and each
/// of `owner`, `repo`, `url`, `rev` and `ref` as a string or left out.
pub open spec fn source_of(tree: JsonTree) -> Option<SourceView> {
    if text_at(tree, "type"@) is Some && optional_text_at(tree, "owner"@) is Some
        && optional_text_at(tree, "repo"@) is Some && optional_text_at(tree, "url"@) is Some
        && optional_text_at(tree, "rev"@) is Some && optional_text_at(tree, "ref"@) is Some {
        Some(
            SourceView {
                type_: text_at(tree, "type"@)->0,
                owner: optional_text_at(tree, "owner"@)->0,
                repo: optional_text_at(tree, "repo"@)->0,
                url: optional_text_at(tree, "url"@)->0,
                rev: optional_text_at(tree, "rev"@)->0,
                ref_: optional_text_at(tree, "ref"@)->0,
            },
        )
    } else {
        None
    }
}

/// The locked reference that an object holds: a source reference with
/// `last_modified` as a number and `nar_hash` as a string.
pub open spec fn locked_of(tree: JsonTree) -> Option<LockedView> {
    if source_of(tree) is Some && natural_at(tree, "last_modified"@) is Some && text_at(
        tree,
        "nar_hash"@,
    ) is Some {
        Some(
            LockedView {
                source: source_of(tree)->0,
                last_modified: natural_at(tree, "last_modified"@)->0,
                nar_hash: text_at(tree, "nar_hash"@)->0,
            },
        )
    } else {
        None
    }
}

/// The inputs that an object holds: each member's name with the string
/// under it, in the order of the object.
pub open spec fn inputs_of(tree: JsonTree) -> Option<Seq<(Seq<char>, Seq<char>)>> {
    match tree {
        JsonTree::Object { names, values } => if forall|i: int|
            0 <= i < names.len() ==> text_at(tree, #[trigger] names[i]) is Some {
            Some(Seq::new(names.len(), |i: int| (names[i], text_at(tree, names[i])->0)))
        } else {
            None
        },
        _ => None,
    }
}

/// The node that an object holds under the name `name`, before its fields
/// are held against its type.
pub open spec fn node_shape(name: Seq<char>, tree: JsonTree) -> Option<NodeView> {
    match (tree.get("inputs"@), tree.get("locked"@), tree.get("original"@)) {
        (Some(inputs), Some(locked), Some(original)) => if inputs_of(inputs) is Some && locked_of(
            locked,
        ) is Some && source_of(original) is Some {
            Some(
                NodeView {
                    name,
                    inputs: inputs_of(inputs)->0,
                    original: source_of(original)->0,
                    locked: locked_of(locked)->0,
                },
            )
        } else {
            None
        },
        _ => None,
    }
}

/// The node that an object holds under the name `name`.
pub open spec fn node_of(name: Seq<char>, tree: JsonTree) -> Result<NodeView, ParseError> {
    match node_shape(name, tree) {
        None => Err(ParseError::Malformed),
        Some(node) => match named_type(node.locked.source.type_) {
            None => Ok(node),
            Some(t) => match first_missing(t, node) {
                Some(f) => Err(ParseError::MissingField(f)),
                None => Ok(node),
            },
        },
    }
}

/// The first `count` members of an object of nodes, each read as a node
/// under its name; the error of the first that is none.
pub open spec fn nodes_of(tree: JsonTree, count: int) -> Result<Seq<NodeView>, ParseError>
    decreases count,
{
    if count <= 0 {
        Ok(Seq::empty())
    } else {
        match nodes_of(tree, count - 1) {
            Err(e) => Err(e),
            Ok(nodes) => {
                let name = tree.names()->0[count - 1];
                match node_of(name, tree.get(name)->0) {
                    Err(e) => Err(e),
                    Ok(node) => Ok(nodes.push(node)),
                }
            },
        }
    }
}

/// The document of the given root and version whose nodes are the members
/// of `held`. The spelling of an object that holds a name twice is no
/// document.
pub open spec fn graph_of(held: JsonTree, root: Seq<char>, version: u8) -> Result<
    DocumentView,
    ParseError,
> {
    match held.names() {
        None => Err(ParseError::Malformed),
        Some(names) => if !names.no_duplicates() {
            Err(ParseError::Malformed)
        } else {
            match nodes_of(held, names.len() as int) {
                Err(e) => Err(e),
                Ok(nodes) => if names.contains(root) {
                    Ok(DocumentView { nodes, root, version })
                } else {
                    Err(ParseError::Malformed)
                },
            }
        },
    }
}

/// The document that a JSON value holds.
///
/// `version` is a whole number, and no larger than [`MAX_VERSION`]; `root`
/// is a string; `nodes` is an object whose members are nodes; and `root`
/// names one of them. The version is read first, the nodes in the order of
/// the document, and the first part that fails gives the error.
pub open spec fn document_of(tree: JsonTree) -> Result<DocumentView, ParseError> {
    match natural_at(tree, "version"@) {
        None => Err(ParseError::Malformed),
        Some(version) => if version > MAX_VERSION {
            Err(ParseError::UnsupportedVersion(version))
        } else {
            match (text_at(tree, "root"@), tree.get("nodes"@)) {
                (Some(root), Some(held)) => graph_of(held, root, version as u8),
                _ => Err(ParseError::Malformed),
            }
        },
    }
}

/// What a result of reading holds.
pub open spec fn parsed_of(res: Result<LockDocument, ParseError>) -> Result<
    DocumentView,
    ParseError,
> {
    match res {
        Ok(doc) => Ok(doc@),
        Err(e) => Err(e),
    }
}

/// The nodes read from an object of nodes carry its names, in order, and
/// each is complete.
pub proof fn lemma_nodes_read(tree: JsonTree, count: int)
    requires
        tree.names() matches Some(names) && 0 <= count <= names.len(),
        nodes_of(tree, count) is Ok,
    ensures
        nodes_of(tree, count)->Ok_0.len() == count,
        forall|i: int|
            0 <= i < count ==> {
                &&& (#[trigger] nodes_of(tree, count)->Ok_0[i]).name == tree.names()->0[i]
                &&& is_complete(nodes_of(tree, count)->Ok_0[i])
            },
    decreases count,
{
    if count > 0 {
        lemma_nodes_read(tree, count - 1);
    }
}

/// Once a node has failed, the nodes after it do not change the outcome.
pub proof fn lemma_node_error_stays(tree: JsonTree, count: int, more: int)
    requires
        0 <= count <= more,
        nodes_of(tree, count) is Err,
    ensures
        nodes_of(tree, more) == nodes_of(tree, count),
    decreases more - count,
{
    if count < more {
        lemma_node_error_stays(tree, count, more - 1);
    }
}

/// Every document that is read is well formed.
pub proof fn lemma_read_document_well_formed(tree: JsonTree)
    requires
        document_of(tree) is Ok,
    ensures
        document_of(tree)->Ok_0.well_formed(),
{
    let doc = document_of(tree)->Ok_0;
    let nodes = tree.get("nodes"@)->0;
    let names = nodes.names()->0;
    lemma_nodes_read(nodes, names.len() as int);
    let i = choose|i: int| 0 <= i < names.len() && names[i] == doc.root;
    assert(doc.nodes[i].name == doc.root);
    assert forall|i: int, j: int| 0 <= i < j < doc.nodes.len() implies #[trigger] doc.nodes[i].name
        != #[trigger] doc.nodes[j].name by {
        assert(names[i] != names[j]);
    }
}

fn read_text(value: &serde_json::Value, key: &str) -> (res: Result<String, ParseError>)
    ensures
        match res {
            Ok(text) => text_at(json_tree(*value), key@) == Some(text@),
            Err(e) => text_at(json_tree(*value), key@) is None && e == ParseError::Malformed,
        },
{
    match member(value, key) {
        None => Err(ParseError::Malformed),
        Some(inner) => match as_text(inner) {
            None => Err(ParseError::Malformed),
            Some(text) => Ok(text.to_owned()),
        },
    }
}

fn read_optional_text(value: &serde_json::Value, key: &str) -> (res: Result<
    Option<String>,
    ParseError,
>)
    ensures
        match res {
            Ok(text) => optional_text_at(json_tree(*value), key@) == Some(text.deep_view()),
            Err(e) => optional_text_at(json_tree(*value), key@) is None && e
                == ParseError::Malformed,
        },
{
    match member(value, key) {
        None => Ok(None),
        Some(inner) => match as_text(inner) {
            Some(text) => Ok(Some(text.to_owned())),
            None => if is_null(inner) {
                Ok(None)
            } else {
                Err(ParseError::Malformed)
            },
        },
    }
}

fn read_natural(value: &serde_json::Value, key: &str) -> (res: Result<u64, ParseError>)
    ensures
        match res {
            Ok(n) => natural_at(json_tree(*value), key@) == Some(n),
            Err(e) => natural_at(json_tree(*value), key@) is None && e == ParseError::Malformed,
        },
{
    match member(value, key) {
        None => Err(ParseError::Malformed),
        Some(inner) => match as_natural(inner) {
            None => Err(ParseError::Malformed),
            Some(n) => Ok(n),
        },
    }
}

fn read_source(value: &serde_json::Value) -> (res: Result<OriginalSpec, ParseError>)
    ensures
        match res {
            Ok(source) => source_of(json_tree(*value)) == Some(source@),
            Err(e) => source_of(json_tree(*value)) is None && e == ParseError::Malformed,
        },
{
    let type_ = read_text(value, "type")?;
    let owner = read_optional_text(value, "owner")?;
    let repo = read_optional_text(value, "repo")?;
    let url = read_optional_text(value, "url")?;
    let rev = read_optional_text(value, "rev")?;
    let ref_ = read_optional_text(value, "ref")?;
    Ok(OriginalSpec { type_, owner, repo, url, rev, ref_ })
}

fn read_locked(value: &serde_json::Value) -> (res: Result<LockedSpec, ParseError>)
    ensures
        match res {
            Ok(locked) => locked_of(json_tree(*value)) == Some(locked@),
            Err(e) => locked_of(json_tree(*value)) is None && e == ParseError::Malformed,
        },
{
    let source = read_source(value)?;
    let last_modified = read_natural(value, "last_modified")?;
    let nar_hash = read_text(value, "nar_hash")?;
    Ok(
        LockedSpec {
            type_: source.type_,
            owner: source.owner,
            repo: source.repo,
            url: source.url,
            rev: source.rev,
            ref_: source.ref_,
            last_modified,
            nar_hash,
        },
    )
}

fn read_inputs(value: &serde_json::Value) -> (res: Result<Vec<(String, String)>, ParseError>)
    ensures
        match res {
            Ok(inputs) => inputs_of(json_tree(*value)) == Some(inputs.deep_view()),
            Err(e) => inputs_of(json_tree(*value)) is None && e == ParseError::Malformed,
        },
{
    let names = match member_names(value) {
        Some(names) => names,
        None => {
            return Err(ParseError::Malformed);
        },
    };
    let ghost tree = json_tree(*value);
    let mut inputs: Vec<(String, String)> = Vec::new();
    let mut i: usize = 0;
    while i < names.len()
        invariant
            i <= names.len(),
            tree == json_tree(*value),
            tree.names() == Some(names.deep_view()),
            inputs.len() == i,
            forall|k: int|
                0 <= k < i ==> text_at(tree, names.deep_view()[k]) == Some(
                    (#[trigger] inputs@[k]).1@,
                ) && inputs@[k].0@ == names.deep_view()[k],
        decreases names.len() - i,
    {
        assert(names.deep_view()[i as int] == names@[i as int]@);
        let target = match read_text(value, names[i].as_str()) {
            Ok(target) => target,
            Err(e) => {
                return Err(e);
            },
        };
        inputs.push((names[i].clone(), target));
        i += 1;
    }
    proof {
        let ns = names.deep_view();
        let held = inputs.deep_view();
        assert forall|k: int| 0 <= k < ns.len() implies text_at(tree, #[trigger] ns[k])
            is Some by {
            assert(inputs@[k].0@ == ns[k]);
        }
        assert forall|k: int| 0 <= k < ns.len() implies inputs_of(tree)->0[k] == held[k] by {
            assert(inputs@[k].0@ == ns[k]);
            assert(held[k] == (inputs@[k].0@, inputs@[k].1@));
        }
        assert(inputs_of(tree)->0 =~= held);
    }
    Ok(inputs)
}

fn read_node(name: &str, value: &serde_json::Value) -> (res: Result<Node, ParseError>)
    ensures
        match res {
            Ok(node) => node_of(name@, json_tree(*value)) == Ok::<NodeView, ParseError>(node@),
            Err(e) => node_of(name@, json_tree(*value)) == Err::<NodeView, ParseError>(e),
        },
{
    let inputs = match member(value, "inputs") {
        Some(inner) => read_inputs(inner)?,
        None => {
            return Err(ParseError::Malformed);
        },
    };
    let locked = match member(value, "locked") {
        Some(inner) => read_locked(inner)?,
        None => {
            return Err(ParseError::Malformed);
        },
    };
    let original = match member(value, "original") {
        Some(inner) => read_source(inner)?,
        None => {
            return Err(ParseError::Malformed);
        },
    };
    let node = Node { name: name.to_owned(), inputs, original, locked };
    assert(node_shape(name@, json_tree(*value)) == Some(node@));
    if let Some(t) = SourceType::from_name(node.locked.type_.as_str()) {
        if let Some(f) = find_missing(t, &node) {
            return Err(ParseError::MissingField(f));
        }
    }
    Ok(node)
}

/// The lock document that a JSON value holds.
pub fn from_value(value: &serde_json::Value) -> (res: Result<LockDocument, ParseError>)
    ensures
        parsed_of(res) == document_of(json_tree(*value)),
        res matches Ok(doc) ==> doc@.well_formed(),
{
    let ghost tree = json_tree(*value);
    let version = read_natural(value, "version")?;
    if version > MAX_VERSION {
        return Err(ParseError::UnsupportedVersion(version));
    }
    let root = read_text(value, "root")?;
    let held = match member(value, "nodes") {
        Some(held) => held,
        None => {
            return Err(ParseError::Malformed);
        },
    };
    let names = match member_names(held) {
        Some(names) => names,
        None => {
            return Err(ParseError::Malformed);
        },
    };
    let ghost inner = json_tree(*held);
    let mut nodes: Vec<Node> = Vec::new();
    let mut i: usize = 0;
    while i < names.len()
        invariant
            i <= names.len(),
            tree == json_tree(*value),
            natural_at(tree, "version"@) == Some(version),
            version <= MAX_VERSION,
            text_at(tree, "root"@) == Some(root@),
            tree.get("nodes"@) == Some(inner),
            inner == json_tree(*held),
            inner.names() == Some(names.deep_view()),
            names.deep_view().no_duplicates(),
            nodes.len() == i,
            nodes_of(inner, i as int) is Ok,
            nodes_of(inner, i as int)->Ok_0 == Seq::new(i as nat, |k: int| nodes@[k]@),
        decreases names.len() - i,
    {
        assert(names.deep_view()[i as int] == names@[i as int]@);
        let ghost before = Seq::new(i as nat, |k: int| nodes@[k]@);
        let inner_node = match member(held, names[i].as_str()) {
            Some(inner_node) => inner_node,
            None => {
                assert(names.deep_view().contains(names@[i as int]@));
                return Err(ParseError::Malformed);
            },
        };
        let node = match read_node(names[i].as_str(), inner_node) {
            Ok(node) => node,
            Err(e) => {
                proof {
                    assert(nodes_of(inner, i + 1) == Err::<Seq<NodeView>, ParseError>(e));
                    lemma_node_error_stays(inner, i + 1, names.len() as int);
                }
                return Err(e);
            },
        };
        nodes.push(node);
        i += 1;
        assert(Seq::new(i as nat, |k: int| nodes@[k]@) =~= before.push(node@));
    }
    if member(held, root.as_str()).is_none() {
        return Err(ParseError::Malformed);
    }
    proof {
        lemma_read_document_well_formed(tree);
    }
    Ok(LockDocument::assemble(nodes, root, version as u8))
}

/// The lock document that `bytes` are the JSON text of.
///
/// Bytes that are no JSON text are malformed; of those that are, the
/// outcome is that of [`from_value`] on the value that they spell.
pub fn parse(bytes: &[u8]) -> (res: Result<LockDocument, ParseError>)
    ensures
        match json_text(bytes@) {
            Some(tree) => parsed_of(res) == document_of(tree),
            None => res matches Err(ParseError::Malformed),
        },
        res matches Ok(doc) ==> doc@.well_formed(),
{
    match decode(bytes) {
        Ok(value) => from_value(&value),
        Err(_) => Err(ParseError::Malformed),
    }
}

} // verus!
