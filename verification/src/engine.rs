//! Reconstruction of the canonical URL of a node.

use vstd::prelude::*;
use vstd::string::StringExecFns;
use crate::escape::{escaped_segment, push_escaped};
use crate::model::{LockedView, Node, NodeView, SourceView};
use crate::registry::{
    canonical_scheme, lemma_scheme_fields_required, named_type, required, required_fields,
    scheme, Field, Piece, SourceType,
};

verus! {

/// Why a node has no canonical URL.
#[derive(Clone, Debug, PartialEq, Eq)]
pub enum ReconstructionError {
    /// The locked reference declares a type that the registry does not know.
    UnknownType(String),
    /// Neither reference holds a field that the type requires.
    MissingField(Field, SourceType),
    /// The node, named here, is indirect: nothing in the document says where
    /// its source is.
    Unresolvable(String),
}

/// A reconstruction error with its texts as sequences of characters.
pub enum ReconstructionFailure {
    UnknownType(Seq<char>),
    MissingField(Field, SourceType),
    Unresolvable(Seq<char>),
}

impl View for ReconstructionError {
    type V = ReconstructionFailure;

    open spec fn view(&self) -> ReconstructionFailure {
        match self {
            ReconstructionError::UnknownType(name) => ReconstructionFailure::UnknownType(name@),
            ReconstructionError::MissingField(f, t) => ReconstructionFailure::MissingField(*f, *t),
            ReconstructionError::Unresolvable(name) => ReconstructionFailure::Unresolvable(name@),
        }
    }
}

/// The first of `fields`, from position `from` on, that the node holds in
/// neither reference.
pub open spec fn missing_from(fields: Seq<Field>, node: NodeView, from: int) -> Option<Field>
    decreases fields.len() - from,
{
    if from < 0 || from >= fields.len() {
        None
    } else if node.resolved(fields[from]) is None {
        Some(fields[from])
    } else {
        missing_from(fields, node, from + 1)
    }
}

/// The first field that type `t` requires and the node lacks.
pub open spec fn first_missing(t: SourceType, node: NodeView) -> Option<Field> {
    missing_from(required(t), node, 0)
}

/// The text that one piece of a template stands for.
pub open spec fn piece_text(piece: Piece, node: NodeView) -> Seq<char> {
    match piece {
        Piece::Literal(text) => text@,
        Piece::Verbatim(f) => node.resolved(f).unwrap(),
        Piece::Segment(f) => escaped_segment(node.resolved(f).unwrap()),
    }
}

/// A template filled in with the fields of a node.
pub open spec fn rendered(pieces: Seq<Piece>, node: NodeView) -> Seq<char>
    decreases pieces.len(),
{
    if pieces.len() == 0 {
        Seq::empty()
    } else {
        rendered(pieces.drop_last(), node) + piece_text(pieces.last(), node)
    }
}

/// The canonical URL of a node, or the reason why it has none.
///
/// The type is that of the locked reference. Each field is read from the
/// locked reference and, where that lacks it, from the original one. Neither
/// `ref_` is ever read.
pub open spec fn canonical_url(node: NodeView) -> Result<Seq<char>, ReconstructionFailure> {
    match named_type(node.locked.source.type_) {
        None => Err(ReconstructionFailure::UnknownType(node.locked.source.type_)),
        Some(t) => match first_missing(t, node) {
            Some(f) => Err(ReconstructionFailure::MissingField(f, t)),
            None => match scheme(t) {
                None => Err(ReconstructionFailure::Unresolvable(node.name)),
                Some(pieces) => Ok(rendered(pieces, node)),
            },
        },
    }
}

/// What a result of reconstruction holds, text for text.
pub open spec fn outcome_of(res: Result<String, ReconstructionError>) -> Result<
    Seq<char>,
    ReconstructionFailure,
> {
    match res {
        Ok(url) => Ok(url@),
        Err(e) => Err(e@),
    }
}

/// What `missing_from` finds: where it finds nothing, the node holds every
/// field from position `from` on; where it finds a field, the node lacks
/// that field and holds every field between `from` and it.
pub proof fn lemma_missing_from(fields: Seq<Field>, node: NodeView, from: int)
    requires
        0 <= from <= fields.len(),
    ensures
        match missing_from(fields, node, from) {
            None => forall|k: int|
                from <= k < fields.len() ==> node.resolved(#[trigger] fields[k]) is Some,
            Some(f) => exists|k: int|
                {
                    &&& from <= k < fields.len()
                    &&& #[trigger] fields[k] == f
                    &&& node.resolved(f) is None
                    &&& forall|j: int| from <= j < k ==> node.resolved(#[trigger] fields[j]) is Some
                },
        },
    decreases fields.len() - from,
{
    if from < fields.len() {
        lemma_missing_from(fields, node, from + 1);
        if node.resolved(fields[from]) is None {
            assert(fields[from] == fields[from]);
        } else {
            if let Some(f) = missing_from(fields, node, from + 1) {
                let k = choose|k: int|
                    {
                        &&& from + 1 <= k < fields.len()
                        &&& #[trigger] fields[k] == f
                        &&& node.resolved(f) is None
                        &&& forall|j: int|
                            from + 1 <= j < k ==> node.resolved(#[trigger] fields[j]) is Some
                    };
                assert(fields[k] == f);
            }
        }
    }
}

/// Where a type lacks no field, each field of its template is held.
proof fn lemma_template_fields_held(t: SourceType, node: NodeView, i: int)
    requires
        first_missing(t, node) is None,
        scheme(t) matches Some(pieces) && 0 <= i < pieces.len(),
    ensures
        scheme(t)->0[i].field() matches Some(f) ==> node.resolved(f) is Some,
{
    lemma_scheme_fields_required(t, i);
    if let Some(f) = scheme(t)->0[i].field() {
        lemma_missing_from(required(t), node, 0);
    }
}

/// `node` with other values in the `ref_` of its two references.
pub open spec fn with_refs(
    node: NodeView,
    original_ref: Option<Seq<char>>,
    locked_ref: Option<Seq<char>>,
) -> NodeView {
    NodeView {
        original: SourceView { ref_: original_ref, ..node.original },
        locked: LockedView {
            source: SourceView { ref_: locked_ref, ..node.locked.source },
            ..node.locked
        },
        ..node
    }
}

proof fn lemma_missing_same(fields: Seq<Field>, a: NodeView, b: NodeView, from: int)
    requires
        forall|f: Field| a.resolved(f) == b.resolved(f),
    ensures
        missing_from(fields, a, from) == missing_from(fields, b, from),
    decreases fields.len() - from,
{
    if 0 <= from < fields.len() {
        lemma_missing_same(fields, a, b, from + 1);
    }
}

proof fn lemma_rendered_same(pieces: Seq<Piece>, a: NodeView, b: NodeView)
    requires
        forall|f: Field| a.resolved(f) == b.resolved(f),
    ensures
        rendered(pieces, a) == rendered(pieces, b),
    decreases pieces.len(),
{
    if pieces.len() > 0 {
        lemma_rendered_same(pieces.drop_last(), a, b);
    }
}

/// A branch or tag never shows in the outcome: whatever the two `ref_` hold,
/// with or without a `rev` beside them, the node has the same canonical URL
/// or fails for the same reason.
pub proof fn lemma_ref_never_read(
    node: NodeView,
    original_ref: Option<Seq<char>>,
    locked_ref: Option<Seq<char>>,
)
    ensures
        canonical_url(with_refs(node, original_ref, locked_ref)) == canonical_url(node),
{
    let other = with_refs(node, original_ref, locked_ref);
    assert forall|f: Field| other.resolved(f) == node.resolved(f) by {}
    if let Some(t) = named_type(node.locked.source.type_) {
        lemma_missing_same(required(t), other, node, 0);
        if let Some(pieces) = scheme(t) {
            lemma_rendered_same(pieces, other, node);
        }
    }
}

/// Reconstruction is a function of what the node holds: two results for
/// the same node are the same URL or the same failure.
pub proof fn lemma_reconstruct_deterministic(
    node: Node,
    first: Result<String, ReconstructionError>,
    second: Result<String, ReconstructionError>,
)
    requires
        outcome_of(first) == canonical_url(node@),
        outcome_of(second) == canonical_url(node@),
    ensures
        outcome_of(first) == outcome_of(second),
{
}

/// The first field that type `t` requires and `node` holds in neither
/// reference.
pub fn find_missing(t: SourceType, node: &Node) -> (missing: Option<Field>)
    ensures
        missing == first_missing(t, node@),
{
    let fields = required_fields(t);
    let mut i: usize = 0;
    while i < fields.len()
        invariant
            i <= fields.len(),
            fields@ == required(t),
            missing_from(fields@, node@, 0) == missing_from(fields@, node@, i as int),
        decreases fields.len() - i,
    {
        let f = fields[i];
        if node.resolved(f).is_none() {
            return Some(f);
        }
        i += 1;
    }
    None
}

/// The canonical URL of `node`.
pub fn reconstruct(node: &Node) -> (res: Result<String, ReconstructionError>)
    ensures
        outcome_of(res) == canonical_url(node@),
{
    let t = match SourceType::from_name(node.locked.type_.as_str()) {
        Some(t) => t,
        None => {
            return Err(ReconstructionError::UnknownType(node.locked.type_.clone()));
        },
    };
    if let Some(f) = find_missing(t, node) {
        return Err(ReconstructionError::MissingField(f, t));
    }
    let pieces = match canonical_scheme(t) {
        Some(pieces) => pieces,
        None => {
            return Err(ReconstructionError::Unresolvable(node.name.clone()));
        },
    };
    let mut url = String::new();
    let mut j: usize = 0;
    while j < pieces.len()
        invariant
            j <= pieces.len(),
            scheme(t) == Some(pieces@),
            first_missing(t, node@) is None,
            url@ == rendered(pieces@.take(j as int), node@),
        decreases pieces.len() - j,
    {
        proof {
            lemma_template_fields_held(t, node@, j as int);
            let next = pieces@.take(j + 1);
            assert(next.drop_last() == pieces@.take(j as int));
            assert(next.last() == pieces@[j as int]);
        }
        match pieces[j] {
            Piece::Literal(text) => {
                url.append(text);
            },
            Piece::Verbatim(f) => {
                let value = node.resolved(f);
                url.append(value.unwrap());
            },
            Piece::Segment(f) => {
                let value = node.resolved(f);
                push_escaped(&mut url, value.unwrap());
            },
        }
        j += 1;
    }
    assert(pieces@.take(j as int) == pieces@);
    Ok(url)
}

} // verus!
