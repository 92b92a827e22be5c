//! The lock document: a graph of named nodes, each a pinned source.

use vstd::prelude::*;
use crate::registry::Field;

verus! {

/// The source reference that the author declared.
#[derive(Clone, Debug, PartialEq, Eq)]
pub struct OriginalSpec {
    pub type_: String,
    pub owner: Option<String>,
    pub repo: Option<String>,
    pub url: Option<String>,
    pub rev: Option<String>,
    pub ref_: Option<String>,
}

/// The source reference as it was resolved and pinned.
#[derive(Clone, Debug, PartialEq, Eq)]
pub struct LockedSpec {
    pub type_: String,
    pub owner: Option<String>,
    pub repo: Option<String>,
    pub url: Option<String>,
    pub rev: Option<String>,
    pub ref_: Option<String>,
    /// Seconds since the epoch.
    pub last_modified: u64,
    /// The content hash, carried as it was read.
    pub nar_hash: String,
}

/// One pinned dependency.
#[derive(Clone, Debug, PartialEq, Eq)]
pub struct Node {
    /// The name under which the document holds the node.
    pub name: String,
    /// Local alias and the name of the node that it refers to.
    pub inputs: Vec<(String, String)>,
    pub original: OriginalSpec,
    pub locked: LockedSpec,
}

/// What a source reference holds.
pub struct SourceView {
    pub type_: Seq<char>,
    pub owner: Option<Seq<char>>,
    pub repo: Option<Seq<char>>,
    pub url: Option<Seq<char>>,
    pub rev: Option<Seq<char>>,
    pub ref_: Option<Seq<char>>,
}

/// What a locked reference holds.
pub struct LockedView {
    pub source: SourceView,
    pub last_modified: u64,
    pub nar_hash: Seq<char>,
}

/// What a node holds.
pub struct NodeView {
    pub name: Seq<char>,
    pub inputs: Seq<(Seq<char>, Seq<char>)>,
    pub original: SourceView,
    pub locked: LockedView,
}

impl SourceView {
    /// The value of field `f`, if the reference holds it.
    pub open spec fn field(self, f: Field) -> Option<Seq<char>> {
        match f {
            Field::Owner => self.owner,
            Field::Repo => self.repo,
            Field::Url => self.url,
            Field::Rev => self.rev,
        }
    }
}

impl NodeView {
    /// The value of field `f`: that of the locked reference, or else that of
    /// the original one.
    pub open spec fn resolved(self, f: Field) -> Option<Seq<char>> {
        match self.locked.source.field(f) {
            Some(value) => Some(value),
            None => self.original.field(f),
        }
    }
}

impl View for OriginalSpec {
    type V = SourceView;

    open spec fn view(&self) -> SourceView {
        SourceView {
            type_: self.type_@,
            owner: self.owner.deep_view(),
            repo: self.repo.deep_view(),
            url: self.url.deep_view(),
            rev: self.rev.deep_view(),
            ref_: self.ref_.deep_view(),
        }
    }
}

impl View for LockedSpec {
    type V = LockedView;

    open spec fn view(&self) -> LockedView {
        LockedView {
            source: SourceView {
                type_: self.type_@,
                owner: self.owner.deep_view(),
                repo: self.repo.deep_view(),
                url: self.url.deep_view(),
                rev: self.rev.deep_view(),
                ref_: self.ref_.deep_view(),
            },
            last_modified: self.last_modified,
            nar_hash: self.nar_hash@,
        }
    }
}

impl View for Node {
    type V = NodeView;

    open spec fn view(&self) -> NodeView {
        NodeView {
            name: self.name@,
            inputs: self.inputs.deep_view(),
            original: self.original@,
            locked: self.locked@,
        }
    }
}

fn borrowed(value: &Option<String>) -> (text: Option<&str>)
    ensures
        text.deep_view() == value.deep_view(),
{
    match value {
        Some(s) => Some(s.as_str()),
        None => None,
    }
}

impl OriginalSpec {
    /// The value of field `f`, if the reference holds it.
    pub fn field(&self, f: Field) -> (value: Option<&str>)
        ensures
            value.deep_view() == self@.field(f),
    {
        match f {
            Field::Owner => borrowed(&self.owner),
            Field::Repo => borrowed(&self.repo),
            Field::Url => borrowed(&self.url),
            Field::Rev => borrowed(&self.rev),
        }
    }
}

impl LockedSpec {
    /// The value of field `f`, if the reference holds it.
    pub fn field(&self, f: Field) -> (value: Option<&str>)
        ensures
            value.deep_view() == self@.source.field(f),
    {
        match f {
            Field::Owner => borrowed(&self.owner),
            Field::Repo => borrowed(&self.repo),
            Field::Url => borrowed(&self.url),
            Field::Rev => borrowed(&self.rev),
        }
    }
}

impl Node {
    /// The value of field `f`: that of the locked reference, or else that of
    /// the original one.
    pub fn resolved(&self, f: Field) -> (value: Option<&str>)
        ensures
            value.deep_view() == self@.resolved(f),
    {
        match self.locked.field(f) {
            Some(value) => Some(value),
            None => self.original.field(f),
        }
    }
}

} // verus!
