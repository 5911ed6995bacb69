use std::collections::hash_map::DefaultHasher;
use std::collections::HashSet;
use std::hash::{Hash, Hasher};

use pixi::git_rev::{GitReference, GitRev};
use pixi::pypi_name::{PackageName, PyPiPackageName};
use pixi::version_spec::VersionOrStar;

fn hash_of<T: Hash>(t: &T) -> u64 {
    let mut h = DefaultHasher::new();
    t.hash(&mut h);
    h.finish()
}

#[test]
fn full_hash_is_full_revision() {
    let rev = GitRev::from("0123456789abcdef0123456789abcdef01234567");
    assert!(matches!(rev, GitRev::Full(_)));
    assert_eq!(rev.as_full(), Some("0123456789abcdef0123456789abcdef01234567"));
    assert_eq!(
        rev.to_git_reference(),
        GitReference::FullCommit("0123456789abcdef0123456789abcdef01234567".to_string())
    );
}

#[test]
fn other_revisions_are_short() {
    for s in ["", "abc1234", "main", "v1.2.3", "0123456789abcdef0123456789abcdef0123456"] {
        let rev = GitRev::from(s);
        assert!(matches!(rev, GitRev::Short(_)), "{s}");
        assert_eq!(rev.as_full(), None);
        assert_eq!(rev.to_string(), s);
        assert_eq!(rev.to_git_reference(), GitReference::BranchOrTagOrCommit(s.to_string()));
    }
}

#[test]
fn names_differing_in_case_and_separators_are_equal() {
    let a = PyPiPackageName::from_str("Foo-Bar").unwrap();
    let b = PyPiPackageName::from_str("foo_bar").unwrap();
    assert!(a == b);
    assert_eq!(hash_of(&a), hash_of(&b));
    assert_eq!(a.as_source(), "Foo-Bar");
    assert_eq!(b.as_source(), "foo_bar");
    assert_eq!(a.as_normalized().as_str(), "foo-bar");
    let mut set = HashSet::new();
    set.insert(a);
    assert!(set.contains(&b));
    assert!(set.contains(&PackageName::from_str("FOO.bar").unwrap()));
}

#[test]
fn separator_runs_collapse() {
    let n = PyPiPackageName::from_str("Foo__.-Bar.Baz9").unwrap();
    assert_eq!(n.as_normalized().as_str(), "foo-bar-baz9");
    assert_eq!(n.as_source(), "Foo__.-Bar.Baz9");
}

#[test]
fn invalid_names_are_rejected() {
    for s in ["-foo", "foo-", "foo bar", "föo"] {
        let e = PyPiPackageName::from_str(s).unwrap_err();
        assert_eq!(e.name, s);
    }
}

#[test]
fn different_names_are_not_equal() {
    let a = PyPiPackageName::from_str("foo").unwrap();
    let b = PyPiPackageName::from_str("foobar").unwrap();
    assert!(a != b);
}

#[test]
fn from_normalized_keeps_normalized_text() {
    let n = PackageName::from_str("Some_Package").unwrap();
    let p = PyPiPackageName::from_normalized(n);
    assert_eq!(p.as_source(), "some-package");
    assert_eq!(p.as_normalized().as_str(), "some-package");
}

#[test]
fn wildcard_round_trips() {
    let v = VersionOrStar::from_str("*").unwrap();
    assert!(matches!(v, VersionOrStar::Star));
    assert_eq!(v.to_string(), "*");
    assert_eq!(v.to_version_specifiers().to_string(), "");
}

#[test]
fn version_constraints_parse() {
    let v = VersionOrStar::from_str(">=1.0").unwrap();
    assert!(matches!(v, VersionOrStar::Version(_)));
    assert_eq!(v.to_string(), ">=1.0");
    let empty = VersionOrStar::from_str("").unwrap();
    assert_eq!(empty.to_string(), "");
    assert!(matches!(empty, VersionOrStar::Version(_)));
}

#[test]
fn invalid_version_constraints_fail() {
    let e = VersionOrStar::from_str("not a version").unwrap_err();
    assert_eq!(e.text, "not a version");
}
