use flake_inputs::escape::push_escaped;
use flake_inputs::registry::{canonical_scheme, required_fields, Field, Piece, SourceType};
use flake_inputs::text::same_text;

fn shown(pieces: &[Piece]) -> String {
    let mut out = String::new();
    for piece in pieces {
        match piece {
            Piece::Literal(text) => out.push_str(text),
            Piece::Verbatim(Field::Owner) | Piece::Segment(Field::Owner) => out.push_str("{owner}"),
            Piece::Verbatim(Field::Repo) | Piece::Segment(Field::Repo) => out.push_str("{repo}"),
            Piece::Verbatim(Field::Url) | Piece::Segment(Field::Url) => out.push_str("{url}"),
            Piece::Verbatim(Field::Rev) | Piece::Segment(Field::Rev) => out.push_str("{rev}"),
        }
    }
    out
}

#[test]
fn every_type_is_found_by_its_name() {
    let all = [
        SourceType::Github,
        SourceType::Gitlab,
        SourceType::Sourcehut,
        SourceType::Git,
        SourceType::Tarball,
        SourceType::Url,
        SourceType::Path,
        SourceType::Indirect,
    ];
    for t in all {
        assert_eq!(SourceType::from_name(t.name()), Some(t));
    }
}

#[test]
fn type_names_are_those_of_the_format() {
    assert_eq!(SourceType::Github.name(), "github");
    assert_eq!(SourceType::Gitlab.name(), "gitlab");
    assert_eq!(SourceType::Sourcehut.name(), "sourcehut");
    assert_eq!(SourceType::Git.name(), "git");
    assert_eq!(SourceType::Tarball.name(), "tarball");
    assert_eq!(SourceType::Url.name(), "url");
    assert_eq!(SourceType::Path.name(), "path");
    assert_eq!(SourceType::Indirect.name(), "indirect");
}

#[test]
fn other_names_declare_no_type() {
    assert_eq!(SourceType::from_name(""), None);
    assert_eq!(SourceType::from_name("unknown-x"), None);
    assert_eq!(SourceType::from_name("githu"), None);
    assert_eq!(SourceType::from_name("github "), None);
    assert_eq!(SourceType::from_name("mercurial"), None);
    assert_eq!(SourceType::from_name("GIT"), None);
}

#[test]
fn forges_require_owner_repo_and_rev() {
    let expected = vec![Field::Owner, Field::Repo, Field::Rev];
    assert_eq!(required_fields(SourceType::Github), expected);
    assert_eq!(required_fields(SourceType::Gitlab), expected);
    assert_eq!(required_fields(SourceType::Sourcehut), expected);
}

#[test]
fn other_types_require_their_fields() {
    assert_eq!(required_fields(SourceType::Git), vec![Field::Url, Field::Rev]);
    assert_eq!(required_fields(SourceType::Tarball), vec![Field::Url]);
    assert_eq!(required_fields(SourceType::Url), vec![Field::Url]);
    assert_eq!(required_fields(SourceType::Path), vec![Field::Url]);
    assert_eq!(required_fields(SourceType::Indirect), Vec::new());
}

#[test]
fn schemes_have_the_shape_of_their_urls() {
    let scheme = |t| shown(&canonical_scheme(t).unwrap());
    assert_eq!(scheme(SourceType::Github), "github:{owner}/{repo}/{rev}");
    assert_eq!(scheme(SourceType::Gitlab), "gitlab:{owner}/{repo}/{rev}");
    assert_eq!(scheme(SourceType::Sourcehut), "sourcehut:{owner}/{repo}/{rev}");
    assert_eq!(scheme(SourceType::Git), "git+{url}?rev={rev}");
    assert_eq!(scheme(SourceType::Tarball), "{url}");
    assert_eq!(scheme(SourceType::Url), "{url}");
    assert_eq!(scheme(SourceType::Path), "path:{url}");
}

#[test]
fn indirect_has_no_scheme() {
    assert!(canonical_scheme(SourceType::Indirect).is_none());
}

#[test]
fn only_owner_and_repo_are_segments() {
    for t in [SourceType::Github, SourceType::Gitlab, SourceType::Sourcehut] {
        let pieces = canonical_scheme(t).unwrap();
        assert!(matches!(pieces[1], Piece::Segment(Field::Owner)));
        assert!(matches!(pieces[3], Piece::Segment(Field::Repo)));
        assert!(matches!(pieces[5], Piece::Verbatim(Field::Rev)));
    }
}

#[test]
fn scheme_fields_are_required_fields() {
    let all = [
        SourceType::Github,
        SourceType::Gitlab,
        SourceType::Sourcehut,
        SourceType::Git,
        SourceType::Tarball,
        SourceType::Url,
        SourceType::Path,
    ];
    for t in all {
        let required = required_fields(t);
        for piece in canonical_scheme(t).unwrap() {
            match piece {
                Piece::Literal(_) => {}
                Piece::Verbatim(f) | Piece::Segment(f) => assert!(required.contains(&f)),
            }
        }
    }
}

#[test]
fn same_text_compares_characters() {
    assert!(same_text("", ""));
    assert!(same_text("github", "github"));
    assert!(!same_text("github", "gitlab"));
    assert!(!same_text("git", "github"));
    assert!(!same_text("github", "git"));
    assert!(same_text("é-ß", "é-ß"));
    assert!(!same_text("é", "e"));
}

#[test]
fn plain_segment_is_unchanged() {
    let mut out = String::new();
    push_escaped(&mut out, "AZaz09_.-");
    assert_eq!(out, "AZaz09_.-");
}

#[test]
fn escaped_segment_is_appended() {
    let mut out = String::from("github:");
    push_escaped(&mut out, "a b");
    assert_eq!(out, "github:a%20b");
    push_escaped(&mut out, "");
    assert_eq!(out, "github:a%20b");
}

#[test]
fn reserved_bytes_become_upper_case_hex() {
    let mut out = String::new();
    push_escaped(&mut out, "/~%?#+@:");
    assert_eq!(out, "%2F%7E%25%3F%23%2B%40%3A");
}

#[test]
fn bytes_beside_the_plain_ranges_are_encoded() {
    let mut out = String::new();
    push_escaped(&mut out, "@[`{/:,");
    assert_eq!(out, "%40%5B%60%7B%2F%3A%2C");
}

#[test]
fn control_and_high_bytes_are_encoded() {
    let mut out = String::new();
    push_escaped(&mut out, "\u{0}\n\u{7f}");
    assert_eq!(out, "%00%0A%7F");
    let mut wide = String::new();
    push_escaped(&mut wide, "é€😀");
    assert_eq!(wide, "%C3%A9%E2%82%AC%F0%9F%98%80");
}
