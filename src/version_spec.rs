//! Version constraints of wheel-ecosystem requirements, with the `*`
//! wildcard kept apart from an empty constraint list.
use pep440_rs::VersionSpecifiers;
use std::str::FromStr;
use vstd::prelude::*;

verus! {

/// pep440_rs::VersionSpecifiers, carried through as an opaque value.
#[verifier::external_type_specification]
#[verifier::external_body]
pub struct ExVersionSpecifiers(pep440_rs::VersionSpecifiers);

/// pep440_rs::VersionSpecifier, the element type that VersionSpecifiers
/// dereferences to; opaque.
#[verifier::external_type_specification]
#[verifier::external_body]
pub struct ExVersionSpecifier(pep440_rs::VersionSpecifier);

/// Relies on pep440_rs's derived `Clone` for `VersionSpecifiers`, which the
/// derived `Clone` of `VersionOrStar` calls; nothing is claimed of the copy.
pub assume_specification[ <VersionSpecifiers as Clone>::clone ](v: &VersionSpecifiers) -> VersionSpecifiers;

/// The text is a list of version constraints; whether it is depends on the
/// text alone.
pub uninterp spec fn parses_as_specifiers(s: Seq<char>) -> bool;

/// The text that a constraint list renders as.
pub uninterp spec fn specifiers_text(v: VersionSpecifiers) -> Seq<char>;

/// Relies on pep440_rs's `FromStr` for `VersionSpecifiers`: a parsed
/// constraint list exactly when the text is one, and an error (not a panic)
/// otherwise; the parser's own assertions guard states that its scanner
/// reaches only by construction.
#[verifier::external_body]
fn parse_version_specifiers(s: &str) -> (r: Option<VersionSpecifiers>)
    ensures
        r is Some <==> parses_as_specifiers(s@),
{
    VersionSpecifiers::from_str(s).ok()
}

/// Relies on pep440_rs's `Display` for `VersionSpecifiers`: the constraints
/// separated by commas.
#[verifier::external_body]
fn version_specifiers_text(v: &VersionSpecifiers) -> (r: String)
    ensures
        r@ == specifiers_text(*v),
{
    v.to_string()
}

/// Relies on pep440_rs::VersionSpecifiers::empty: the list of no
/// constraints, whose `Display` writes nothing.
#[verifier::external_body]
fn empty_version_specifiers() -> (r: VersionSpecifiers)
    ensures
        specifiers_text(r) == Seq::<char>::empty(),
{
    VersionSpecifiers::empty()
}

/// The text of the wildcard.
pub open spec fn wildcard_text() -> Seq<char> {
    "*"@
}

/// A text that is not a constraint list.
#[derive(Debug, Clone, PartialEq, Eq)]
pub struct InvalidVersionSpecifiers {
    pub text: String,
}

/// Either a list of version constraints or the wildcard `*`.
#[derive(Debug, Clone, PartialEq, Eq, Hash)]
pub enum VersionOrStar {
    Version(VersionSpecifiers),
    Star,
}

impl VersionOrStar {
    /// The wildcard text gives `Star`; any other text is parsed as a
    /// constraint list.
    pub fn from_str(s: &str) -> (r: Result<VersionOrStar, InvalidVersionSpecifiers>)
        ensures
            s@ == wildcard_text() ==> r matches Ok(VersionOrStar::Star),
            s@ != wildcard_text() ==> (r is Ok <==> parses_as_specifiers(s@)),
            s@ != wildcard_text() ==> (r is Ok ==> r->Ok_0 is Version),
            r matches Err(e) ==> e.text@ == s@,
    {
        let star = "*".to_owned();
        let text = s.to_owned();
        if text == star {
            proof {
                reveal_strlit("*");
            }
            Ok(VersionOrStar::Star)
        } else {
            match parse_version_specifiers(s) {
                Some(v) => Ok(VersionOrStar::Version(v)),
                None => Err(InvalidVersionSpecifiers { text }),
            }
        }
    }

    /// The wildcard renders as `*`, a constraint list as its constraints.
    pub fn to_string(&self) -> (r: String)
        ensures
            self is Star ==> r@ == wildcard_text(),
            self matches VersionOrStar::Version(v) ==> r@ == specifiers_text(*v),
    {
        match self {
            VersionOrStar::Version(v) => version_specifiers_text(v),
            VersionOrStar::Star => "*".to_owned(),
        }
    }

    /// The constraints to resolve with: the wildcard constrains nothing.
    pub fn to_version_specifiers(self) -> (r: VersionSpecifiers)
        ensures
            self matches VersionOrStar::Version(v) ==> r == v,
            self is Star ==> specifiers_text(r) == Seq::<char>::empty(),
    {
        match self {
            VersionOrStar::Version(v) => v,
            VersionOrStar::Star => empty_version_specifiers(),
        }
    }
}

/// The wildcard text parses to `Star` and `Star` renders as that same
/// text (see `from_str` and `to_string`), which is the single character
/// `*`: never an empty string, and never the text of the empty constraint
/// list that the wildcard stands for when resolving.
pub proof fn lemma_wildcard_round_trip()
    ensures
        wildcard_text().len() == 1,
        wildcard_text() == seq!['*'],
        wildcard_text() != Seq::<char>::empty(),
{
    reveal_strlit("*");
}

} // verus!
