//! Git revisions of source-controlled dependencies, classified by length.
use vstd::prelude::*;
use vstd::string::*;

verus! {

/// Number of characters of a full commit hash.
pub const FULL_COMMIT_LEN: usize = 40;

/// A git revision: a full commit hash, or anything shorter or longer
/// (a branch, a tag or an abbreviated hash).
#[derive(Debug, Clone, PartialEq, Eq, Hash)]
pub enum GitRev {
    Short(String),
    Full(String),
}

/// How downstream tooling should look a revision up in a repository.
#[derive(Debug, Clone, PartialEq, Eq, Hash)]
pub enum GitReference {
    /// A pinned commit.
    FullCommit(String),
    /// A name to resolve against the repository.
    BranchOrTagOrCommit(String),
}

/// The classification rule: a revision is full exactly when its length is
/// that of a full commit hash.
pub open spec fn is_full_rev(s: Seq<char>) -> bool {
    s.len() == FULL_COMMIT_LEN as nat
}

impl GitRev {
    /// The revision text, whichever the variant.
    pub open spec fn text(&self) -> Seq<char> {
        match self {
            GitRev::Short(s) => s@,
            GitRev::Full(s) => s@,
        }
    }

    /// Classifies `s` by its length.
    pub fn from(s: &str) -> (r: GitRev)
        ensures
            r.text() == s@,
            r is Full <==> is_full_rev(s@),
    {
        let owned = s.to_owned();
        if s.unicode_len() == FULL_COMMIT_LEN {
            GitRev::Full(owned)
        } else {
            GitRev::Short(owned)
        }
    }

    /// The revision when it is a full commit hash.
    pub fn as_full(&self) -> (r: Option<&str>)
        ensures
            match self {
                GitRev::Full(s) => r matches Some(t) && t@ == s@,
                GitRev::Short(_) => r is None,
            },
    {
        match self {
            GitRev::Full(full) => Some(full.as_str()),
            GitRev::Short(_) => None,
        }
    }

    /// A full revision is pinned; a short one is left for the repository
    /// to resolve.
    pub fn to_git_reference(&self) -> (r: GitReference)
        ensures
            match self {
                GitRev::Full(s) => r == GitReference::FullCommit(*s),
                GitRev::Short(s) => r == GitReference::BranchOrTagOrCommit(*s),
            },
    {
        match self {
            GitRev::Full(rev) => GitReference::FullCommit(rev.clone()),
            GitRev::Short(rev) => GitReference::BranchOrTagOrCommit(rev.clone()),
        }
    }

    /// The revision text.
    pub fn to_string(&self) -> (r: String)
        ensures
            r@ == self.text(),
    {
        match self {
            GitRev::Short(s) => s.clone(),
            GitRev::Full(s) => s.clone(),
        }
    }
}

} // verus!
