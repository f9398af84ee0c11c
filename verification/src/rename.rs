//! Renames confined to a sandbox base.
//!
//! A rename names a folder under the user's home directory and two names
//! relative to that folder. Both endpoints are resolved against the same
//! base, and any input that could traverse out of it is rejected before
//! the host layer touches the filesystem.

use vstd::prelude::*;
use crate::errors::FsError;
use crate::paths::is_safe_relative;
use crate::paths::join_under;
use crate::paths::joined;
use crate::paths::lemma_joined_stays_under;
use crate::paths::safe_relative;

verus! {

/// The two fully resolved endpoints of a rename.
#[derive(Clone, Debug)]
pub struct RenamePlan {
    pub old_path: String,
    pub new_path: String,
}

/// Both endpoints of `plan` resolved against the base `<home>/<folder>`.
pub open spec fn plan_under(
    plan: RenamePlan,
    home: Seq<char>,
    folder: Seq<char>,
    old_rel: Seq<char>,
    new_rel: Seq<char>,
) -> bool {
    &&& plan.old_path@ == joined(joined(home, folder), old_rel)
    &&& plan.new_path@ == joined(joined(home, folder), new_rel)
}

/// Resolves a rename's endpoints against `<home>/<folder>`.
///
/// Succeeds exactly when the folder and both relative names are safe to
/// anchor under the base; everything else is `PathEscapesSandbox`.
pub fn plan_rename(home: &str, folder: &str, old_rel: &str, new_rel: &str) -> (r: Result<
    RenamePlan,
    FsError,
>)
    ensures
        r is Ok <==> safe_relative(folder@) && safe_relative(old_rel@) && safe_relative(new_rel@),
        r matches Ok(plan) ==> plan_under(plan, home@, folder@, old_rel@, new_rel@),
        r matches Err(e) ==> e == FsError::PathEscapesSandbox,
{
    if !is_safe_relative(folder) || !is_safe_relative(old_rel) || !is_safe_relative(new_rel) {
        return Err(FsError::PathEscapesSandbox);
    }
    let base = join_under(home, folder);
    Ok(
        RenamePlan {
            old_path: join_under(base.as_str(), old_rel),
            new_path: join_under(base.as_str(), new_rel),
        },
    )
}

/// Relies on dirs::home_dir: the host's home directory, when the platform
/// reports one whose text is valid Unicode. The value is read from the host
/// environment, so nothing is promised of it.
#[verifier::external_body]
fn home_dir_text() -> (r: Option<String>) {
    dirs::home_dir().and_then(|p| p.into_os_string().into_string().ok())
}

/// Resolves and sandbox-checks a rename of `old_rel` to `new_rel` inside
/// the folder `<home>/<folder>`.
///
/// An input that could traverse out of the base is rejected with
/// `PathEscapesSandbox` before the home directory is even consulted; a host
/// without a resolvable home is `HomeDirectoryUnavailable`; otherwise both
/// endpoints come out joined under the same base.
pub fn prepare_rename(folder: &str, old_rel: &str, new_rel: &str) -> (r: Result<
    RenamePlan,
    FsError,
>)
    ensures
        !(safe_relative(folder@) && safe_relative(old_rel@) && safe_relative(new_rel@)) <==> r
            == Err::<RenamePlan, FsError>(FsError::PathEscapesSandbox),
        r matches Err(e) ==> e == FsError::PathEscapesSandbox
            || e == FsError::HomeDirectoryUnavailable,
        r matches Ok(plan) ==> exists|home: Seq<char>|
            plan_under(plan, home, folder@, old_rel@, new_rel@),
{
    if !is_safe_relative(folder) || !is_safe_relative(old_rel) || !is_safe_relative(new_rel) {
        return Err(FsError::PathEscapesSandbox);
    }
    let home = match home_dir_text() {
        Some(h) => h,
        None => {
            return Err(FsError::HomeDirectoryUnavailable);
        },
    };
    match plan_rename(home.as_str(), folder, old_rel, new_rel) {
        Ok(plan) => {
            proof {
                assert(plan_under(plan, home@, folder@, old_rel@, new_rel@));
            }
            Ok(plan)
        },
        Err(e) => Err(e),
    }
}

/// Law: both endpoints of a rename plan live under the same sandboxed
/// base — each is the base `<home>/<folder>`, then the separator, then the
/// relative name it was resolved from.
pub proof fn lemma_plan_endpoints_share_base(
    plan: RenamePlan,
    home: Seq<char>,
    folder: Seq<char>,
    old_rel: Seq<char>,
    new_rel: Seq<char>,
)
    requires
        plan_under(plan, home, folder, old_rel, new_rel),
    ensures
        plan.old_path@.subrange(0, joined(home, folder).len() as int) == joined(home, folder),
        plan.new_path@.subrange(0, joined(home, folder).len() as int) == joined(home, folder),
        plan.old_path@.subrange(joined(home, folder).len() + 1 as int, plan.old_path@.len() as int)
            == old_rel,
        plan.new_path@.subrange(joined(home, folder).len() + 1 as int, plan.new_path@.len() as int)
            == new_rel,
{
    lemma_joined_stays_under(joined(home, folder), old_rel);
    lemma_joined_stays_under(joined(home, folder), new_rel);
}

/// Maps the host layer's report of the OS rename primitive back to the
/// operation's result: plain success, or `RenameFailed` — the filesystem is
/// then exactly as the primitive left it, nothing is retried.
pub fn rename_outcome(renamed: bool) -> (r: Result<bool, FsError>)
    ensures
        renamed ==> r == Ok::<bool, FsError>(true),
        !renamed ==> r == Err::<bool, FsError>(FsError::RenameFailed),
{
    if renamed {
        Ok(true)
    } else {
        Err(FsError::RenameFailed)
    }
}

} // verus!
