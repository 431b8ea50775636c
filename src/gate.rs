//! The path gatekeeper: decides whether a path that a caller hands in lies
//! inside one of the permitted roots, and gives the canonical form to act on.
//!
//! Looking paths up on disk is left to the caller, who passes in what the
//! lookups gave: the canonical form of the path itself, when it exists, and
//! otherwise the canonical form of the text before its last name.
use vstd::prelude::*;
use crate::path::{
    valid_sep, file_name, joined, is_plain, contains, strictly_contains, file_name_of, join,
    is_plain_path, path_contains,
};
use crate::layout::{data_root, scratch_root, data_root_of, scratch_root_of};

verus! {

/// What the caller means to do with a path.
#[derive(Clone, Copy, Debug, PartialEq, Eq, Structural)]
pub enum Intent {
    /// The target must already exist.
    Read,
    /// The target may be new; its folder must exist.
    Write,
}

/// Why a path was refused.
#[derive(Clone, Copy, Debug, PartialEq, Eq, Structural)]
pub enum GateError {
    /// The path could not be brought to a canonical form.
    InvalidPath,
    /// The canonical form lies outside every permitted root.
    AccessDenied,
    /// A target to be read does not exist.
    NotFound,
}

/// The view of a validation result.
pub open spec fn gate_view(r: Result<String, GateError>) -> Result<Seq<char>, GateError> {
    match r {
        Ok(s) => Ok(s@),
        Err(e) => Err(e),
    }
}

/// The canonical path to act on: the path's own canonical form if the lookup
/// found one; else that of its folder with its file name put under it.
pub open spec fn candidate(
    path: Seq<char>,
    direct: Option<Seq<char>>,
    parent: Option<Seq<char>>,
    sep: char,
) -> Option<Seq<char>> {
    match direct {
        Some(c) => Some(c),
        None => match (parent, file_name(path, sep)) {
            (Some(folder), Some(name)) => Some(joined(folder, name, sep)),
            _ => None,
        },
    }
}

/// A set of permitted roots, each in the form it is compared in (canonical
/// where the root exists), and the separator of the system the paths belong
/// to: paths are split into components at it, and a folder is extended with it.
pub struct Gatekeeper {
    pub roots: Vec<String>,
    pub separator: char,
}

impl Gatekeeper {
    pub open spec fn wf(&self) -> bool {
        valid_sep(self.separator)
    }

    /// The roots, as text.
    pub open spec fn root_views(&self) -> Seq<Seq<char>> {
        self.roots.deep_view()
    }

    /// Whether `c` is one of the roots or lies below one.
    pub open spec fn permits(&self, c: Seq<char>) -> bool {
        exists|i: int|
            0 <= i < self.root_views().len() && contains(
                #[trigger] self.root_views()[i],
                c,
                self.separator,
            )
    }

    /// The outcome of validating `path` with `intent`, given the canonical
    /// form of the path (`direct`) and that of the text before its last name
    /// (`parent`), each none where the lookup failed.
    pub open spec fn validation(
        &self,
        path: Seq<char>,
        intent: Intent,
        direct: Option<Seq<char>>,
        parent: Option<Seq<char>>,
    ) -> Result<Seq<char>, GateError> {
        match candidate(path, direct, parent, self.separator) {
            None => Err(GateError::InvalidPath),
            Some(c) => if !is_plain(c, self.separator) {
                Err(GateError::InvalidPath)
            } else if !self.permits(c) {
                Err(GateError::AccessDenied)
            } else if intent is Read && direct is None {
                Err(GateError::NotFound)
            } else {
                Ok(c)
            },
        }
    }

    /// A gatekeeper over the given roots.
    pub fn new(roots: Vec<String>, separator: char) -> (r: Gatekeeper)
        requires
            valid_sep(separator),
        ensures
            r.wf(),
            r.roots@ == roots@,
            r.separator == separator,
    {
        Gatekeeper { roots, separator }
    }

    fn permits_path(&self, c: &str) -> (r: bool)
        ensures
            r == self.permits(c@),
    {
        let mut i: usize = 0;
        while i < self.roots.len()
            invariant
                i <= self.roots.len(),
                forall|j: int|
                    0 <= j < i ==> !contains(#[trigger] self.root_views()[j], c@, self.separator),
            decreases self.roots.len() - i,
        {
            if path_contains(self.roots[i].as_str(), c, self.separator) {
                assert(contains(self.root_views()[i as int], c@, self.separator));
                return true;
            }
            i = i + 1;
        }
        false
    }

    /// Validates `path` for `intent`. `direct` is the canonical form of the
    /// path where it exists; `parent` is that of the text before its last
    /// name (see `parent_of`), looked up when `direct` is none.
    pub fn validate(
        &self,
        path: &str,
        intent: Intent,
        direct: Option<String>,
        parent: Option<String>,
    ) -> (r: Result<String, GateError>)
        requires
            self.wf(),
        ensures
            gate_view(r) == self.validation(path@, intent, direct.deep_view(), parent.deep_view()),
    {
        let found = direct.is_some();
        let c = match direct {
            Some(c) => c,
            None => {
                let name = match file_name_of(path, self.separator) {
                    Some(n) => n,
                    None => return Err(GateError::InvalidPath),
                };
                match parent {
                    Some(folder) => join(folder.as_str(), name.as_str(), self.separator),
                    None => return Err(GateError::InvalidPath),
                }
            },
        };
        if !is_plain_path(c.as_str(), self.separator) {
            return Err(GateError::InvalidPath);
        }
        if !self.permits_path(c.as_str()) {
            return Err(GateError::AccessDenied);
        }
        if intent == Intent::Read && !found {
            return Err(GateError::NotFound);
        }
        Ok(c)
    }
}

/// The roots that the application permits: its data folder under the user's
/// documents, and its scratch folder under the temporary area.
pub fn permitted_roots(documents: &str, temp: &str, sep: char) -> (r: Vec<String>)
    requires
        valid_sep(sep),
    ensures
        r.deep_view() == seq![data_root(documents@, sep), scratch_root(temp@, sep)],
{
    let mut roots: Vec<String> = Vec::new();
    roots.push(data_root_of(documents, sep));
    roots.push(scratch_root_of(temp, sep));
    assert(roots.deep_view() =~= seq![data_root(documents@, sep), scratch_root(temp@, sep)]);
    roots
}

/// A path whose canonical form lies strictly below a permitted root is
/// accepted, as that canonical form; for reading, it must exist.
pub proof fn lemma_descendant_accepted(
    g: Gatekeeper,
    path: Seq<char>,
    intent: Intent,
    direct: Option<Seq<char>>,
    parent: Option<Seq<char>>,
    c: Seq<char>,
    i: int,
)
    requires
        candidate(path, direct, parent, g.separator) == Some(c),
        is_plain(c, g.separator),
        0 <= i < g.root_views().len(),
        strictly_contains(g.root_views()[i], c, g.separator),
        intent is Write || direct is Some,
    ensures
        g.validation(path, intent, direct, parent) == Ok::<Seq<char>, GateError>(c),
{
    assert(g.permits(c));
}

/// A path whose canonical form lies outside every permitted root is denied,
/// whatever its text says before the `..` segments are resolved.
pub proof fn lemma_escape_denied(
    g: Gatekeeper,
    path: Seq<char>,
    intent: Intent,
    direct: Option<Seq<char>>,
    parent: Option<Seq<char>>,
    c: Seq<char>,
)
    requires
        candidate(path, direct, parent, g.separator) == Some(c),
        is_plain(c, g.separator),
        forall|i: int|
            0 <= i < g.root_views().len() ==> !contains(
                #[trigger] g.root_views()[i],
                c,
                g.separator,
            ),
    ensures
        g.validation(path, intent, direct, parent) == Err::<Seq<char>, GateError>(GateError::AccessDenied),
{
}

/// Validating a path that validation gave back, whose canonical form is
/// itself, gives back that same path.
pub proof fn lemma_validate_idempotent(
    g: Gatekeeper,
    path: Seq<char>,
    intent: Intent,
    direct: Option<Seq<char>>,
    parent: Option<Seq<char>>,
    c: Seq<char>,
    parent_again: Option<Seq<char>>,
)
    requires
        g.validation(path, intent, direct, parent) == Ok::<Seq<char>, GateError>(c),
    ensures
        g.validation(c, intent, Some(c), parent_again) == Ok::<Seq<char>, GateError>(c),
{
}

} // verus!
