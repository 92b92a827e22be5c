use flake_inputs::engine::{find_missing, reconstruct, ReconstructionError};
use flake_inputs::model::{LockedSpec, Node, OriginalSpec};
use flake_inputs::registry::{Field, SourceType};

fn text(s: &str) -> Option<String> {
    Some(s.to_string())
}

fn original(type_: &str) -> OriginalSpec {
    OriginalSpec {
        type_: type_.to_string(),
        owner: None,
        repo: None,
        url: None,
        rev: None,
        ref_: None,
    }
}

fn locked(type_: &str) -> LockedSpec {
    LockedSpec {
        type_: type_.to_string(),
        owner: None,
        repo: None,
        url: None,
        rev: None,
        ref_: None,
        last_modified: 1700000000,
        nar_hash: "sha256-AAAA".to_string(),
    }
}

fn node(name: &str, original: OriginalSpec, locked: LockedSpec) -> Node {
    Node { name: name.to_string(), inputs: Vec::new(), original, locked }
}

fn forge(type_: &str, owner: &str, repo: &str, rev: &str) -> Node {
    let mut l = locked(type_);
    l.owner = text(owner);
    l.repo = text(repo);
    l.rev = text(rev);
    node("dep", original(type_), l)
}

#[test]
fn github_node_gives_its_url() {
    let n = forge("github", "a", "b", "deadbeef");
    assert_eq!(reconstruct(&n), Ok("github:a/b/deadbeef".to_string()));
}

#[test]
fn gitlab_node_gives_its_url() {
    let n = forge("gitlab", "group", "project", "0123abcd");
    assert_eq!(reconstruct(&n), Ok("gitlab:group/project/0123abcd".to_string()));
}

#[test]
fn sourcehut_node_gives_its_url() {
    let n = forge("sourcehut", "~user", "repo.git", "ffff");
    assert_eq!(reconstruct(&n), Ok("sourcehut:%7Euser/repo.git/ffff".to_string()));
}

#[test]
fn git_node_gives_its_url() {
    let mut l = locked("git");
    l.url = text("https://example.com/r.git");
    l.rev = text("abc123");
    let n = node("dep", original("git"), l);
    assert_eq!(reconstruct(&n), Ok("git+https://example.com/r.git?rev=abc123".to_string()));
}

#[test]
fn git_url_falls_back_to_the_original() {
    let mut o = original("git");
    o.url = text("https://example.com/r.git");
    let mut l = locked("git");
    l.rev = text("abc123");
    let n = node("dep", o, l);
    assert_eq!(reconstruct(&n), Ok("git+https://example.com/r.git?rev=abc123".to_string()));
}

#[test]
fn every_field_falls_back_to_the_original() {
    let mut o = original("github");
    o.owner = text("a");
    o.repo = text("b");
    o.rev = text("deadbeef");
    let n = node("dep", o, locked("github"));
    assert_eq!(reconstruct(&n), Ok("github:a/b/deadbeef".to_string()));
}

#[test]
fn locked_field_wins_over_the_original() {
    let mut o = original("github");
    o.owner = text("x");
    o.repo = text("y");
    o.rev = text("0000");
    let mut n = forge("github", "a", "b", "deadbeef");
    n.original = o;
    assert_eq!(reconstruct(&n), Ok("github:a/b/deadbeef".to_string()));
}

#[test]
fn ref_never_shows_beside_a_rev() {
    let mut l = locked("git");
    l.url = text("https://example.com/r.git");
    l.rev = text("abc123");
    l.ref_ = text("main");
    let mut o = original("git");
    o.ref_ = text("main");
    let n = node("dep", o, l);
    let url = reconstruct(&n).unwrap();
    assert_eq!(url, "git+https://example.com/r.git?rev=abc123");
    assert!(!url.contains("main"));
}

#[test]
fn ref_changes_nothing() {
    let plain = forge("github", "a", "b", "deadbeef");
    let mut with_ref = plain.clone();
    with_ref.locked.ref_ = text("main");
    with_ref.original.ref_ = text("release");
    assert_eq!(reconstruct(&with_ref), reconstruct(&plain));
}

#[test]
fn ref_does_not_stand_in_for_a_rev() {
    let mut l = locked("git");
    l.url = text("https://example.com/r.git");
    l.ref_ = text("main");
    let n = node("dep", original("git"), l);
    assert_eq!(
        reconstruct(&n),
        Err(ReconstructionError::MissingField(Field::Rev, SourceType::Git))
    );
}

#[test]
fn tarball_url_is_passed_through() {
    let mut l = locked("tarball");
    l.url = text("https://example.com/a b/x.tar.gz?q=1#frag");
    let n = node("dep", original("tarball"), l);
    assert_eq!(reconstruct(&n), Ok("https://example.com/a b/x.tar.gz?q=1#frag".to_string()));
}

#[test]
fn url_type_is_passed_through() {
    let mut l = locked("url");
    l.url = text("https://example.com/file");
    l.rev = text("ignored");
    let n = node("dep", original("url"), l);
    assert_eq!(reconstruct(&n), Ok("https://example.com/file".to_string()));
}

#[test]
fn path_node_gives_its_url() {
    let mut l = locked("path");
    l.url = text("/nix/store/abc-source");
    let n = node("dep", original("path"), l);
    assert_eq!(reconstruct(&n), Ok("path:/nix/store/abc-source".to_string()));
}

#[test]
fn unknown_type_is_an_error() {
    let mut l = locked("unknown-x");
    l.owner = text("a");
    l.repo = text("b");
    l.rev = text("deadbeef");
    l.url = text("https://example.com");
    let n = node("broken", original("github"), l);
    assert_eq!(reconstruct(&n), Err(ReconstructionError::UnknownType("unknown-x".to_string())));
}

#[test]
fn type_of_the_original_is_not_read() {
    let mut n = forge("github", "a", "b", "deadbeef");
    n.original.type_ = "unknown-x".to_string();
    assert_eq!(reconstruct(&n), Ok("github:a/b/deadbeef".to_string()));
}

#[test]
fn type_names_are_case_sensitive() {
    let n = forge("GitHub", "a", "b", "deadbeef");
    assert_eq!(reconstruct(&n), Err(ReconstructionError::UnknownType("GitHub".to_string())));
}

#[test]
fn mercurial_is_not_in_the_registry() {
    let mut l = locked("hg");
    l.url = text("https://example.com/repo");
    l.rev = text("abc");
    let n = node("dep", original("hg"), l);
    assert_eq!(reconstruct(&n), Err(ReconstructionError::UnknownType("hg".to_string())));
}

#[test]
fn indirect_node_is_unresolvable() {
    let mut l = locked("indirect");
    l.owner = text("a");
    l.repo = text("b");
    let n = node("nixpkgs", original("indirect"), l);
    assert_eq!(reconstruct(&n), Err(ReconstructionError::Unresolvable("nixpkgs".to_string())));
}

#[test]
fn missing_owner_is_reported_first() {
    let n = node("dep", original("github"), locked("github"));
    assert_eq!(
        reconstruct(&n),
        Err(ReconstructionError::MissingField(Field::Owner, SourceType::Github))
    );
}

#[test]
fn missing_repo_is_reported() {
    let mut l = locked("gitlab");
    l.owner = text("a");
    let n = node("dep", original("gitlab"), l);
    assert_eq!(
        reconstruct(&n),
        Err(ReconstructionError::MissingField(Field::Repo, SourceType::Gitlab))
    );
}

#[test]
fn missing_rev_is_reported() {
    let mut l = locked("sourcehut");
    l.owner = text("a");
    l.repo = text("b");
    let n = node("dep", original("sourcehut"), l);
    assert_eq!(
        reconstruct(&n),
        Err(ReconstructionError::MissingField(Field::Rev, SourceType::Sourcehut))
    );
}

#[test]
fn missing_url_is_reported() {
    let mut l = locked("git");
    l.rev = text("abc123");
    let n = node("dep", original("git"), l);
    assert_eq!(
        reconstruct(&n),
        Err(ReconstructionError::MissingField(Field::Url, SourceType::Git))
    );
    let t = node("dep", original("tarball"), locked("tarball"));
    assert_eq!(
        reconstruct(&t),
        Err(ReconstructionError::MissingField(Field::Url, SourceType::Tarball))
    );
    let p = node("dep", original("path"), locked("path"));
    assert_eq!(
        reconstruct(&p),
        Err(ReconstructionError::MissingField(Field::Url, SourceType::Path))
    );
}

#[test]
fn find_missing_gives_the_first_field_in_order() {
    let mut l = locked("github");
    l.repo = text("b");
    let n = node("dep", original("github"), l);
    assert_eq!(find_missing(SourceType::Github, &n), Some(Field::Owner));
    assert_eq!(find_missing(SourceType::Git, &n), Some(Field::Url));
    assert_eq!(find_missing(SourceType::Indirect, &n), None);
    let full = forge("github", "a", "b", "c");
    assert_eq!(find_missing(SourceType::Github, &full), None);
}

#[test]
fn owner_and_repo_are_percent_encoded() {
    let n = forge("github", "my org", "r/é", "dead beef");
    assert_eq!(reconstruct(&n), Ok("github:my%20org/r%2F%C3%A9/dead beef".to_string()));
}

#[test]
fn empty_fields_are_present() {
    let n = forge("github", "", "", "");
    assert_eq!(reconstruct(&n), Ok("github://".to_string()));
}

#[test]
fn reconstruct_twice_gives_the_same() {
    let good = forge("github", "a", "b", "deadbeef");
    assert_eq!(reconstruct(&good), reconstruct(&good));
    let bad = node("dep", original("nope"), locked("nope"));
    assert_eq!(reconstruct(&bad), reconstruct(&bad));
}

#[test]
fn resolved_reads_locked_then_original() {
    let mut o = original("github");
    o.owner = text("from-original");
    o.repo = text("only-original");
    let mut l = locked("github");
    l.owner = text("from-locked");
    let n = node("dep", o, l);
    assert_eq!(n.resolved(Field::Owner), Some("from-locked"));
    assert_eq!(n.resolved(Field::Repo), Some("only-original"));
    assert_eq!(n.resolved(Field::Rev), None);
    assert_eq!(n.locked.field(Field::Repo), None);
    assert_eq!(n.original.field(Field::Owner), Some("from-original"));
}
