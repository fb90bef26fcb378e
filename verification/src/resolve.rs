//! The search for an installed dependency: the directory of the package itself
//! is looked at first, then each directory above it, as node does.

use crate::search::{first_good_is_found, Search};
use vstd::prelude::*;

verus! {

/// How many levels are looked at: all, or those up to the repository root. Level
/// 0 is the directory of the package that has the dependency, level 1 the
/// directory above it, and so on.
pub open spec fn levels_of(ancestors: usize, repo_level: Option<usize>) -> int {
    match repo_level {
        Some(level) => if level < ancestors {
            level + 1
        } else {
            ancestors as int
        },
        None => ancestors as int,
    }
}

/// Starts a search from a directory with `ancestors` levels, itself included.
/// `repo_level` is the level of the repository root, if that is among them:
/// nothing above it is looked at.
pub fn resolve_dep(ancestors: usize, repo_level: Option<usize>) -> (search: Search)
    ensures
        search == Search::started(levels_of(ancestors, repo_level)),
{
    let levels: usize = match repo_level {
        Some(level) => if level < ancestors {
            level + 1
        } else {
            ancestors
        },
        None => ancestors,
    };
    Search::start(levels)
}

/// A dependency is found at the nearest level at which it is installed, and not
/// found only where it is installed at no level up to the repository root.
/// `present` tells of every level whether it is there.
pub proof fn nearest_level_is_found(
    present: Seq<bool>,
    ancestors: usize,
    repo_level: Option<usize>,
)
    requires
        present.len() == ancestors,
    ensures
        ({
            let levels = levels_of(ancestors, repo_level);
            match Search::started(levels).after_all(present) {
                Search::Trying { .. } => false,
                Search::Found { index } => {
                    &&& index < levels
                    &&& present[index as int]
                    &&& forall|i: int| 0 <= i < index ==> !present[i]
                },
                Search::Exhausted => forall|i: int| 0 <= i < levels ==> !present[i],
            }
        }),
{
    first_good_is_found(present, levels_of(ancestors, repo_level));
}

/// A dependency is found at the nearest level at which it is installed, from the
/// package's own directory up to the repository root and no further, or to the
/// last level where the root is not among them. It is missing only where it is
/// installed at none of these. `present` tells of every level whether it is there.
pub proof fn nothing_above_the_repository_is_found(
    ancestors: usize,
    repo_level: Option<usize>,
    search: Search,
    present: Seq<bool>,
)
    requires
        call_ensures(resolve_dep, (ancestors, repo_level), search),
        present.len() == ancestors,
    ensures
        match search.after_all(present) {
            Search::Trying { .. } => false,
            Search::Found { index } => {
                &&& index < ancestors
                &&& repo_level is Some ==> index <= repo_level->0
                &&& present[index as int]
                &&& forall|i: int| 0 <= i < index ==> !present[i]
            },
            Search::Exhausted => forall|i: int|
                0 <= i < ancestors && (repo_level is Some ==> i <= repo_level->0) ==> !present[i],
        },
{
    nearest_level_is_found(present, ancestors, repo_level);
}

} // verus!
