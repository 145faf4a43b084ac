//! Source-repository syncing: what to do with the checkout path the
//! options name, given what is found on disk there.
//!
//! The surrounding application probes the path and runs the
//! version-control commands; the decision which command is right, or
//! that none is, falls here.

use vstd::prelude::*;

verus! {

/// The path of the source checkout, as the options record it.
pub fn vencord_repo_path(dir: &str) -> (r: String)
    ensures
        r@ == dir@,
{
    dir.to_owned()
}

/// What a sync has to do at the checkout path.
pub enum RepoSyncAction {
    /// The path is a checkout already: fast-forward it.
    Pull,
    /// The path is an empty directory: clone into it.
    CloneHere,
    /// Nothing is at the path: create its parent and clone.
    CreateParentAndClone,
    /// The path can not be synced; the message says why.
    Fail(String),
}

/// Decide the sync action from what the path holds: an existing
/// checkout is fast-forwarded; an existing empty directory or a
/// missing path is cloned into; anything else fails with the
/// offending path named.
pub fn plan_repo_sync(
    path: &str,
    exists: bool,
    is_repo: bool,
    is_dir: bool,
    is_empty: bool,
) -> (r: RepoSyncAction)
    ensures
        exists && is_repo ==> r is Pull,
        exists && !is_repo && is_dir && is_empty ==> r is CloneHere,
        exists && !is_repo && is_dir && !is_empty ==> r is Fail && r->Fail_0@ == "Existing path "@
            + path@
            + " is not a git repository. Remove it or choose an empty directory before syncing"@,
        exists && !is_repo && !is_dir ==> r is Fail && r->Fail_0@ == "Existing path "@ + path@
            + " is not a directory. Choose a directory for the Vencord clone"@,
        !exists ==> r is CreateParentAndClone,
{
    if exists {
        if is_repo {
            RepoSyncAction::Pull
        } else if is_dir {
            if is_empty {
                RepoSyncAction::CloneHere
            } else {
                RepoSyncAction::Fail(
                    String::from_str("Existing path ").concat(path).concat(
                        " is not a git repository. Remove it or choose an empty directory before syncing",
                    ),
                )
            }
        } else {
            RepoSyncAction::Fail(
                String::from_str("Existing path ").concat(path).concat(
                    " is not a directory. Choose a directory for the Vencord clone",
                ),
            )
        }
    } else {
        RepoSyncAction::CreateParentAndClone
    }
}

} // verus!
