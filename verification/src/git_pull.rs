//! The repository-pull helper: settle a pull from what the environment
//! reported about the version-control executable and the pull command.

use vstd::prelude::*;

use crate::command::CmdOutcome;

verus! {

/// What can go wrong while pulling the repository.
#[derive(Debug, PartialEq, Eq, Structural)]
pub enum GitError {
    GitNotInstalled,
    GitPullError,
}

/// Settle the repository pull: no resolved version-control executable
/// means it is not installed; otherwise the pull succeeded exactly when
/// its command could be spawned and exited successfully.
pub fn pull_git_repo(git_path: &Option<String>, pull: &CmdOutcome) -> (r: Result<(), GitError>)
    ensures
        git_path is None ==> r == Err::<(), GitError>(GitError::GitNotInstalled),
        git_path is Some ==> r == (match *pull {
            CmdOutcome::Exited(true) => Ok::<(), GitError>(()),
            _ => Err::<(), GitError>(GitError::GitPullError),
        }),
{
    match git_path {
        None => Err(GitError::GitNotInstalled),
        Some(_) => match pull {
            CmdOutcome::Exited(ok) => {
                if *ok {
                    Ok(())
                } else {
                    Err(GitError::GitPullError)
                }
            },
            CmdOutcome::SpawnFailed => Err(GitError::GitPullError),
        },
    }
}

} // verus!
