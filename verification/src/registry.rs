//! The registry of source types: which fields each type needs and the shape
//! of the URL that names a source of that type.

use vstd::prelude::*;
use crate::text::same_text;

verus! {

/// A kind of source that the registry knows.
#[derive(Clone, Copy, PartialEq, Eq, Debug, Structural)]
pub enum SourceType {
    Github,
    Gitlab,
    Sourcehut,
    Git,
    Tarball,
    Url,
    Path,
    Indirect,
}

/// A field of a source reference that a source type may need.
#[derive(Clone, Copy, PartialEq, Eq, Debug, Structural)]
pub enum Field {
    Owner,
    Repo,
    Url,
    Rev,
}

/// One piece of a URL template.
#[derive(Clone, Copy, Debug)]
pub enum Piece {
    /// Fixed text.
    Literal(&'static str),
    /// The value of a field, as it is.
    Verbatim(Field),
    /// The value of a field, percent-encoded as a path segment.
    Segment(Field),
}

impl Piece {
    /// The field whose value the piece stands for, if it is no fixed text.
    pub open spec fn field(self) -> Option<Field> {
        match self {
            Piece::Literal(_) => None,
            Piece::Verbatim(f) => Some(f),
            Piece::Segment(f) => Some(f),
        }
    }
}

/// The name under which a lock document declares each source type.
pub open spec fn declared_name(t: SourceType) -> Seq<char> {
    match t {
        SourceType::Github => "github"@,
        SourceType::Gitlab => "gitlab"@,
        SourceType::Sourcehut => "sourcehut"@,
        SourceType::Git => "git"@,
        SourceType::Tarball => "tarball"@,
        SourceType::Url => "url"@,
        SourceType::Path => "path"@,
        SourceType::Indirect => "indirect"@,
    }
}

/// The source type that a name declares, if the registry knows the name.
pub open spec fn named_type(name: Seq<char>) -> Option<SourceType> {
    if name == declared_name(SourceType::Github) {
        Some(SourceType::Github)
    } else if name == declared_name(SourceType::Gitlab) {
        Some(SourceType::Gitlab)
    } else if name == declared_name(SourceType::Sourcehut) {
        Some(SourceType::Sourcehut)
    } else if name == declared_name(SourceType::Git) {
        Some(SourceType::Git)
    } else if name == declared_name(SourceType::Tarball) {
        Some(SourceType::Tarball)
    } else if name == declared_name(SourceType::Url) {
        Some(SourceType::Url)
    } else if name == declared_name(SourceType::Path) {
        Some(SourceType::Path)
    } else if name == declared_name(SourceType::Indirect) {
        Some(SourceType::Indirect)
    } else {
        None
    }
}

/// The fields that a source of type `t` must have, in the order in which
/// they are looked for.
pub open spec fn required(t: SourceType) -> Seq<Field> {
    match t {
        SourceType::Github | SourceType::Gitlab | SourceType::Sourcehut => seq![
            Field::Owner,
            Field::Repo,
            Field::Rev,
        ],
        SourceType::Git => seq![Field::Url, Field::Rev],
        SourceType::Tarball | SourceType::Url | SourceType::Path => seq![Field::Url],
        SourceType::Indirect => seq![],
    }
}

/// The template `prefix{owner}/{repo}/{rev}` of the forges.
pub open spec fn forge_scheme(prefix: &'static str) -> Seq<Piece> {
    seq![
        Piece::Literal(prefix),
        Piece::Segment(Field::Owner),
        Piece::Literal("/"),
        Piece::Segment(Field::Repo),
        Piece::Literal("/"),
        Piece::Verbatim(Field::Rev),
    ]
}

/// The URL template of a source type. An indirect source has none: only a
/// registry outside the lock document can say where it is.
pub open spec fn scheme(t: SourceType) -> Option<Seq<Piece>> {
    match t {
        SourceType::Github => Some(forge_scheme("github:")),
        SourceType::Gitlab => Some(forge_scheme("gitlab:")),
        SourceType::Sourcehut => Some(forge_scheme("sourcehut:")),
        SourceType::Git => Some(
            seq![
                Piece::Literal("git+"),
                Piece::Verbatim(Field::Url),
                Piece::Literal("?rev="),
                Piece::Verbatim(Field::Rev),
            ],
        ),
        SourceType::Tarball | SourceType::Url => Some(seq![Piece::Verbatim(Field::Url)]),
        SourceType::Path => Some(seq![Piece::Literal("path:"), Piece::Verbatim(Field::Url)]),
        SourceType::Indirect => None,
    }
}

impl SourceType {
    /// The source type that `name` declares.
    pub fn from_name(name: &str) -> (found: Option<SourceType>)
        ensures
            found == named_type(name@),
    {
        if same_text(name, "github") {
            Some(SourceType::Github)
        } else if same_text(name, "gitlab") {
            Some(SourceType::Gitlab)
        } else if same_text(name, "sourcehut") {
            Some(SourceType::Sourcehut)
        } else if same_text(name, "git") {
            Some(SourceType::Git)
        } else if same_text(name, "tarball") {
            Some(SourceType::Tarball)
        } else if same_text(name, "url") {
            Some(SourceType::Url)
        } else if same_text(name, "path") {
            Some(SourceType::Path)
        } else if same_text(name, "indirect") {
            Some(SourceType::Indirect)
        } else {
            None
        }
    }

    /// The name under which a lock document declares this type.
    pub fn name(self) -> (name: &'static str)
        ensures
            name@ == declared_name(self),
    {
        match self {
            SourceType::Github => "github",
            SourceType::Gitlab => "gitlab",
            SourceType::Sourcehut => "sourcehut",
            SourceType::Git => "git",
            SourceType::Tarball => "tarball",
            SourceType::Url => "url",
            SourceType::Path => "path",
            SourceType::Indirect => "indirect",
        }
    }
}

/// The fields that a source of type `t` must have.
pub fn required_fields(t: SourceType) -> (fields: Vec<Field>)
    ensures
        fields@ == required(t),
{
    match t {
        SourceType::Github | SourceType::Gitlab | SourceType::Sourcehut => vec![
            Field::Owner,
            Field::Repo,
            Field::Rev,
        ],
        SourceType::Git => vec![Field::Url, Field::Rev],
        SourceType::Tarball | SourceType::Url | SourceType::Path => vec![Field::Url],
        SourceType::Indirect => Vec::new(),
    }
}

fn forge_pieces(prefix: &'static str) -> (pieces: Vec<Piece>)
    ensures
        pieces@ == forge_scheme(prefix),
{
    vec![
        Piece::Literal(prefix),
        Piece::Segment(Field::Owner),
        Piece::Literal("/"),
        Piece::Segment(Field::Repo),
        Piece::Literal("/"),
        Piece::Verbatim(Field::Rev),
    ]
}

/// The URL template of a source type, or `None` for an indirect source.
pub fn canonical_scheme(t: SourceType) -> (pieces: Option<Vec<Piece>>)
    ensures
        pieces is Some == scheme(t) is Some,
        pieces matches Some(p) ==> scheme(t) == Some(p@),
{
    match t {
        SourceType::Github => Some(forge_pieces("github:")),
        SourceType::Gitlab => Some(forge_pieces("gitlab:")),
        SourceType::Sourcehut => Some(forge_pieces("sourcehut:")),
        SourceType::Git => Some(
            vec![
                Piece::Literal("git+"),
                Piece::Verbatim(Field::Url),
                Piece::Literal("?rev="),
                Piece::Verbatim(Field::Rev),
            ],
        ),
        SourceType::Tarball | SourceType::Url => Some(vec![Piece::Verbatim(Field::Url)]),
        SourceType::Path => Some(vec![Piece::Literal("path:"), Piece::Verbatim(Field::Url)]),
        SourceType::Indirect => None,
    }
}

/// Every field that a template uses is one that its type requires.
pub proof fn lemma_scheme_fields_required(t: SourceType, i: int)
    requires
        scheme(t) matches Some(pieces) && 0 <= i < pieces.len(),
    ensures
        scheme(t)->0[i].field() matches Some(f) ==> required(t).contains(f),
{
    let fields = required(t);
    if fields.len() > 0 {
        assert(fields.contains(fields[0]));
    }
    if fields.len() > 1 {
        assert(fields.contains(fields[1]));
    }
    if fields.len() > 2 {
        assert(fields.contains(fields[2]));
    }
}

/// Each source type is the one that its own name declares.
pub proof fn lemma_name_declares_type(t: SourceType)
    ensures
        named_type(declared_name(t)) == Some(t),
{
    reveal_strlit("github");
    reveal_strlit("gitlab");
    reveal_strlit("sourcehut");
    reveal_strlit("git");
    reveal_strlit("tarball");
    reveal_strlit("url");
    reveal_strlit("path");
    reveal_strlit("indirect");
    assert("github"@.len() == 6 && "gitlab"@.len() == 6 && "sourcehut"@.len() == 9);
    assert("git"@.len() == 3 && "tarball"@.len() == 7 && "url"@.len() == 3);
    assert("path"@.len() == 4 && "indirect"@.len() == 8);
    assert("github"@[3] != "gitlab"@[3]);
    assert("git"@[0] != "url"@[0]);
}

} // verus!
