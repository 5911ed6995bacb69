//! Wheel-ecosystem package names: the text as written, and its normalized
//! form, which alone decides equality.
use std::str::FromStr;
use vstd::prelude::*;

verus! {

/// `-`, `_` and `.` separate the words of a name.
pub open spec fn is_name_separator(c: char) -> bool {
    c == '-' || c == '_' || c == '.'
}

/// An ASCII letter or digit.
pub open spec fn is_name_alnum(c: char) -> bool {
    ('a' <= c && c <= 'z') || ('A' <= c && c <= 'Z') || ('0' <= c && c <= '9')
}

/// Letters, digits and separators only, neither starting nor ending with a
/// separator.
pub open spec fn valid_package_name(s: Seq<char>) -> bool {
    &&& forall|i: int| 0 <= i < s.len() ==> is_name_alnum(s[i]) || is_name_separator(s[i])
    &&& s.len() > 0 ==> !is_name_separator(s[0]) && !is_name_separator(s.last())
}

/// ASCII upper case to lower case; every other character is kept.
pub open spec fn ascii_lower(c: char) -> char {
    if 'A' <= c && c <= 'Z' {
        (((c as u32) + 32) as u8) as char
    } else {
        c
    }
}

/// The normalized form: letters in lower case, each run of separators
/// collapsed into one `-`.
pub open spec fn normalized_package_name(s: Seq<char>) -> Seq<char>
    decreases s.len(),
{
    if s.len() == 0 {
        seq![]
    } else {
        let prefix = normalized_package_name(s.drop_last());
        let c = s.last();
        if is_name_separator(c) {
            if s.len() >= 2 && is_name_separator(s[s.len() - 2]) {
                prefix
            } else {
                prefix.push('-')
            }
        } else {
            prefix.push(ascii_lower(c))
        }
    }
}

/// What a single character becomes when case and separator style are
/// ignored.
pub open spec fn name_char_class(c: char) -> char {
    if is_name_separator(c) {
        '-'
    } else {
        ascii_lower(c)
    }
}

/// `a` and `b` differ at most in the case of letters and in which
/// separator stands at each place.
pub open spec fn same_up_to_case_and_separators(a: Seq<char>, b: Seq<char>) -> bool {
    &&& a.len() == b.len()
    &&& forall|i: int| 0 <= i < a.len() ==> name_char_class(a[i]) == name_char_class(b[i])
}

proof fn lemma_char_class(x: char, y: char)
    requires
        name_char_class(x) == name_char_class(y),
    ensures
        is_name_separator(x) <==> is_name_separator(y),
        is_name_alnum(x) <==> is_name_alnum(y),
        !is_name_separator(x) ==> ascii_lower(x) == ascii_lower(y),
{
}

/// Names that differ only in case and separator style are both valid or
/// both invalid, and normalize to the same text.
pub proof fn lemma_normalization_ignores_case_and_separators(a: Seq<char>, b: Seq<char>)
    requires
        same_up_to_case_and_separators(a, b),
    ensures
        valid_package_name(a) <==> valid_package_name(b),
        normalized_package_name(a) == normalized_package_name(b),
    decreases a.len(),
{
    if a.len() > 0 {
        let n = a.len() - 1;
        assert(same_up_to_case_and_separators(a.drop_last(), b.drop_last())) by {
            assert forall|i: int| 0 <= i < a.drop_last().len() implies name_char_class(
                a.drop_last()[i],
            ) == name_char_class(b.drop_last()[i]) by {
                assert(name_char_class(a[i]) == name_char_class(b[i]));
            }
        }
        lemma_normalization_ignores_case_and_separators(a.drop_last(), b.drop_last());
        lemma_char_class(a[n], b[n]);
        lemma_char_class(a[0], b[0]);
        if n >= 1 {
            lemma_char_class(a[n - 1], b[n - 1]);
        }
        assert forall|i: int| 0 <= i < a.len() implies (is_name_alnum(a[i]) || is_name_separator(
            a[i],
        )) <==> (is_name_alnum(b[i]) || is_name_separator(b[i])) by {
            lemma_char_class(a[i], b[i]);
        }
    }
}

/// Relies on pep508_rs::PackageName::from_str: it accepts exactly the valid
/// names, and its text is the normalized form.
#[verifier::external_body]
fn pep508_normalize(name: &str) -> (r: Option<String>)
    ensures
        r is Some <==> valid_package_name(name@),
        r matches Some(n) ==> n@ == normalized_package_name(name@),
{
    match pep508_rs::PackageName::from_str(name) {
        Ok(n) => Some(n.to_string()),
        Err(_) => None,
    }
}

/// A name that was not valid.
#[derive(Debug, Clone, PartialEq, Eq)]
pub struct InvalidNameError {
    pub name: String,
}

/// A normalized package name.
#[derive(Debug, Clone, Eq, Hash)]
pub struct PackageName {
    normalized: String,
}

impl PartialEq for PackageName {
    fn eq(&self, other: &PackageName) -> (r: bool)
        ensures
            r == (self@ == other@),
    {
        self.normalized == other.normalized
    }
}

impl vstd::std_specs::cmp::PartialEqSpecImpl for PackageName {
    open spec fn obeys_eq_spec() -> bool {
        true
    }

    open spec fn eq_spec(&self, other: &PackageName) -> bool {
        self@ == other@
    }
}

impl View for PackageName {
    type V = Seq<char>;

    closed spec fn view(&self) -> Seq<char> {
        self.normalized@
    }
}

impl PackageName {
    /// Validates and normalizes `name`.
    pub fn from_str(name: &str) -> (r: Result<PackageName, InvalidNameError>)
        ensures
            r is Ok <==> valid_package_name(name@),
            r matches Ok(n) ==> n@ == normalized_package_name(name@),
            r matches Err(e) ==> e.name@ == name@,
    {
        match pep508_normalize(name) {
            Some(normalized) => Ok(PackageName { normalized }),
            None => Err(InvalidNameError { name: name.to_owned() }),
        }
    }

    /// The normalized text.
    pub fn as_str(&self) -> (r: &str)
        ensures
            r@ == self@,
    {
        self.normalized.as_str()
    }
}

/// A package name that keeps the text it was written with; equality looks
/// at the normalized form only.
#[derive(Debug, Clone, Eq)]
pub struct PyPiPackageName {
    source: String,
    normalized: PackageName,
}

impl PartialEq for PyPiPackageName {
    fn eq(&self, other: &PyPiPackageName) -> (r: bool)
        ensures
            r == (self.normalized_view() == other.normalized_view()),
    {
        self.normalized == other.normalized
    }
}

impl vstd::std_specs::cmp::PartialEqSpecImpl for PyPiPackageName {
    open spec fn obeys_eq_spec() -> bool {
        true
    }

    open spec fn eq_spec(&self, other: &PyPiPackageName) -> bool {
        self.normalized_view() == other.normalized_view()
    }
}

impl core::hash::Hash for PyPiPackageName {
    /// Relies on std's `Hash` for `String`: hashes the normalized text only,
    /// as equality compares it only, and as the derived `Hash` of
    /// `PackageName` does.
    #[verifier::external_body]
    fn hash<H: core::hash::Hasher>(&self, state: &mut H) {
        self.normalized.normalized.hash(state)
    }
}

impl core::borrow::Borrow<PackageName> for PyPiPackageName {
    fn borrow(&self) -> (r: &PackageName)
        ensures
            PackageName::view(r) == self.normalized_view(),
    {
        &self.normalized
    }
}

impl PyPiPackageName {
    pub closed spec fn source_view(&self) -> Seq<char> {
        self.source@
    }

    pub closed spec fn normalized_view(&self) -> Seq<char> {
        self.normalized@
    }

    /// Parses `name`, keeping it as the source text.
    pub fn from_str(name: &str) -> (r: Result<PyPiPackageName, InvalidNameError>)
        ensures
            r is Ok <==> valid_package_name(name@),
            r matches Ok(n) ==> n.source_view() == name@ && n.normalized_view()
                == normalized_package_name(name@),
            r matches Err(e) ==> e.name@ == name@,
    {
        match PackageName::from_str(name) {
            Ok(normalized) => Ok(PyPiPackageName { source: name.to_owned(), normalized }),
            Err(e) => Err(e),
        }
    }

    /// A name whose source text is its normalized form.
    pub fn from_normalized(normalized: PackageName) -> (r: PyPiPackageName)
        ensures
            r.source_view() == normalized@,
            r.normalized_view() == normalized@,
    {
        let source = normalized.as_str().to_owned();
        PyPiPackageName { source, normalized }
    }

    pub fn as_normalized(&self) -> (r: &PackageName)
        ensures
            r@ == self.normalized_view(),
    {
        &self.normalized
    }

    pub fn as_source(&self) -> (r: &str)
        ensures
            r@ == self.source_view(),
    {
        self.source.as_str()
    }
}

/// Parsing two names that differ only in case and separator style gives
/// names that compare equal, each keeping its own source text.
pub proof fn lemma_equivalent_names_compare_equal(
    a: &str,
    b: &str,
    na: PyPiPackageName,
    nb: PyPiPackageName,
)
    requires
        same_up_to_case_and_separators(a@, b@),
        na.source_view() == a@,
        na.normalized_view() == normalized_package_name(a@),
        nb.source_view() == b@,
        nb.normalized_view() == normalized_package_name(b@),
    ensures
        na.normalized_view() == nb.normalized_view(),
        na.source_view() == a@,
        nb.source_view() == b@,
{
    lemma_normalization_ignores_case_and_separators(a@, b@);
}

} // verus!
