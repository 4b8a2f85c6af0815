//! Choosing the one authoritative installation of a package-manager binary
//! among the candidates found on the search path.

use crate::text::{contains, contains_str};
use vstd::prelude::*;

verus! {

#[derive(Debug, PartialEq, Eq, Structural)]
pub enum ToolchainError {
    /// No executable of that name is on the search path.
    NotFound,
    /// The installation is not the managed one, or an unmanaged binary shadows a managed one.
    AmbiguousInstallation,
    /// Several unmanaged binaries are on the search path.
    MultipleInstallations,
    /// A candidate's path could not be resolved to its real location.
    CanonicalizationError,
}

/// A path that has a segment named `corepack`, with either separator.
pub open spec fn is_managed_path(path: Seq<char>) -> bool {
    contains(path, "/corepack/"@) || contains(path, "\\corepack\\"@)
}

/// The canonical paths of the candidates, in search-path order; `None` stands
/// for a candidate whose path could not be canonicalized.
pub open spec fn candidate_views(cs: Seq<Option<String>>) -> Seq<Option<Seq<char>>> {
    cs.map_values(|c: Option<String>| match c {
        Some(p) => Some(p@),
        None => None,
    })
}

pub open spec fn any_unresolved(cs: Seq<Option<Seq<char>>>) -> bool {
    exists|i: int| 0 <= i < cs.len() && (#[trigger] cs[i]) is None
}

pub open spec fn any_managed(cs: Seq<Option<Seq<char>>>) -> bool {
    exists|i: int| 0 <= i < cs.len() && (#[trigger] cs[i]) is Some && is_managed_path(cs[i]->0)
}

/// The outcome of resolution over all candidates in search-path order: the
/// first one is taken when it is managed; otherwise the run fails.
pub open spec fn resolution(cs: Seq<Option<Seq<char>>>) -> Result<Seq<char>, ToolchainError> {
    if cs.len() == 0 {
        Err(ToolchainError::NotFound)
    } else if cs[0] is None {
        Err(ToolchainError::CanonicalizationError)
    } else if is_managed_path(cs[0]->0) {
        Ok(cs[0]->0)
    } else if any_unresolved(cs) {
        Err(ToolchainError::CanonicalizationError)
    } else if any_managed(cs) {
        Err(ToolchainError::AmbiguousInstallation)
    } else if cs.len() == 1 {
        Err(ToolchainError::AmbiguousInstallation)
    } else {
        Err(ToolchainError::MultipleInstallations)
    }
}

pub open spec fn path_result_view(r: Result<String, ToolchainError>) -> Result<Seq<char>, ToolchainError> {
    match r {
        Ok(p) => Ok(p@),
        Err(e) => Err(e),
    }
}

/// Whether a canonical path belongs to a managed installation.
pub fn is_managed(path: &str) -> (r: bool)
    ensures
        r == is_managed_path(path@),
{
    contains_str(path, "/corepack/") || contains_str(path, "\\corepack\\")
}

/// Picks the installation to use from the canonicalized candidates, listed in
/// search-path order, or says why none can be used.
pub fn resolve_installation(candidates: &Vec<Option<String>>) -> (r: Result<String, ToolchainError>)
    ensures
        path_result_view(r) == resolution(candidate_views(candidates@)),
{
    let ghost cs = candidate_views(candidates@);
    if candidates.len() == 0 {
        return Err(ToolchainError::NotFound);
    }
    match &candidates[0] {
        None => {
            return Err(ToolchainError::CanonicalizationError);
        },
        Some(first) => {
            if is_managed(first.as_str()) {
                return Ok(first.clone());
            }
        },
    }
    let mut unresolved = false;
    let mut managed = false;
    let mut i: usize = 0;
    while i < candidates.len()
        invariant
            cs == candidate_views(candidates@),
            i <= candidates.len(),
            unresolved <==> exists|j: int| 0 <= j < i && (#[trigger] cs[j]) is None,
            managed <==> exists|j: int|
                0 <= j < i && (#[trigger] cs[j]) is Some && is_managed_path(cs[j]->0),
        decreases candidates.len() - i,
    {
        match &candidates[i] {
            None => {
                unresolved = true;
            },
            Some(p) => {
                if is_managed(p.as_str()) {
                    managed = true;
                }
            },
        }
        assert(cs[i as int] == match candidates@[i as int] {
            Some(p) => Some(p@),
            None => None::<Seq<char>>,
        });
        i += 1;
    }
    if unresolved {
        Err(ToolchainError::CanonicalizationError)
    } else if managed {
        Err(ToolchainError::AmbiguousInstallation)
    } else if candidates.len() == 1 {
        Err(ToolchainError::AmbiguousInstallation)
    } else {
        Err(ToolchainError::MultipleInstallations)
    }
}

} // verus!
