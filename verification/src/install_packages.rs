//! Package provisioning: search the path for a required executable and,
//! when it is missing, drive the package manager through an installation
//! run, modelled as a state machine over external command outcomes.
//!
//! Every run opens with the system update and upgrade. A package whose
//! name carries "ansible" then goes through the repository-registration
//! dance that makes its third-party repository available before the
//! package itself can be installed: check that the helper package for
//! managing repositories is installed, install it if not, check that the
//! required repository is registered, and register it if not. A
//! remediation that succeeds lets the run proceed; a command that cannot
//! be spawned or — for anything but the two checks, whose exit status is
//! the answer — exits non-zero fails the run.

use vstd::prelude::*;

use crate::command::CmdOutcome;
use crate::text::{contains_seq, contains_substring};

verus! {

/// What can go wrong while installing a package.
#[derive(Debug, PartialEq, Eq, Structural)]
pub enum InstallError {
    CommandExecutionError,
}

/// The next external command that an installation run asks for.
#[derive(Debug, PartialEq, Eq, Structural, Clone, Copy)]
pub enum InstallAction {
    /// Update the package manager's index.
    RunUpdate,
    /// Upgrade the installed packages.
    RunUpgrade,
    /// Ask the package database whether the repository-managing helper
    /// package is installed.
    CheckHelper,
    /// Install the repository-managing helper package.
    InstallHelper,
    /// Ask whether the required third-party repository is registered in
    /// the system's package sources.
    CheckRepo,
    /// Register the required third-party repository.
    RegisterRepo,
    /// Install the target package itself.
    InstallTarget,
}

/// Where an installation run stands: which command's outcome it awaits,
/// or how it ended. `dance` records whether the run goes through the
/// repository-registration dance after the update and upgrade.
#[derive(Debug, PartialEq, Eq, Structural, Clone, Copy)]
pub enum InstallPhase {
    RunningUpdate { dance: bool },
    RunningUpgrade { dance: bool },
    CheckingHelper,
    InstallingHelper,
    CheckingRepo,
    RegisteringRepo,
    InstallingTarget,
    Succeeded,
    Failed,
}

/// The phase an installation run opens in: the system update, bound for
/// the repository dance when the package's name carries "ansible" and
/// straight for the package's own installation otherwise.
pub open spec fn install_start_spec(package: Seq<char>) -> InstallPhase {
    InstallPhase::RunningUpdate { dance: contains_seq(package, "ansible"@) }
}

/// The transition relation of an installation run. The two checks read
/// their exit status as the answer: a negative helper check turns to
/// installing the helper, a negative repository check to registering
/// the repository, and a successful remediation lets the run proceed as
/// if the check had passed. Every other command must be spawned and
/// exit successfully, else the run fails.
pub open spec fn install_step_spec(phase: InstallPhase, outcome: CmdOutcome) -> InstallPhase {
    match phase {
        InstallPhase::RunningUpdate { dance } => match outcome {
            CmdOutcome::Exited(true) => InstallPhase::RunningUpgrade { dance },
            _ => InstallPhase::Failed,
        },
        InstallPhase::RunningUpgrade { dance } => match outcome {
            CmdOutcome::Exited(true) => if dance {
                InstallPhase::CheckingHelper
            } else {
                InstallPhase::InstallingTarget
            },
            _ => InstallPhase::Failed,
        },
        InstallPhase::CheckingHelper => match outcome {
            CmdOutcome::SpawnFailed => InstallPhase::Failed,
            CmdOutcome::Exited(present) => if present {
                InstallPhase::CheckingRepo
            } else {
                InstallPhase::InstallingHelper
            },
        },
        InstallPhase::InstallingHelper => match outcome {
            CmdOutcome::Exited(true) => InstallPhase::CheckingRepo,
            _ => InstallPhase::Failed,
        },
        InstallPhase::CheckingRepo => match outcome {
            CmdOutcome::SpawnFailed => InstallPhase::Failed,
            CmdOutcome::Exited(registered) => if registered {
                InstallPhase::InstallingTarget
            } else {
                InstallPhase::RegisteringRepo
            },
        },
        InstallPhase::RegisteringRepo => match outcome {
            CmdOutcome::Exited(true) => InstallPhase::InstallingTarget,
            _ => InstallPhase::Failed,
        },
        InstallPhase::InstallingTarget => match outcome {
            CmdOutcome::Exited(true) => InstallPhase::Succeeded,
            _ => InstallPhase::Failed,
        },
        InstallPhase::Succeeded => InstallPhase::Succeeded,
        InstallPhase::Failed => InstallPhase::Failed,
    }
}

/// The command a phase awaits; a finished run awaits none.
pub open spec fn install_action_spec(phase: InstallPhase) -> Option<InstallAction> {
    match phase {
        InstallPhase::RunningUpdate { dance: _ } => Some(InstallAction::RunUpdate),
        InstallPhase::RunningUpgrade { dance: _ } => Some(InstallAction::RunUpgrade),
        InstallPhase::CheckingHelper => Some(InstallAction::CheckHelper),
        InstallPhase::InstallingHelper => Some(InstallAction::InstallHelper),
        InstallPhase::CheckingRepo => Some(InstallAction::CheckRepo),
        InstallPhase::RegisteringRepo => Some(InstallAction::RegisterRepo),
        InstallPhase::InstallingTarget => Some(InstallAction::InstallTarget),
        InstallPhase::Succeeded => None,
        InstallPhase::Failed => None,
    }
}

/// How a finished run ended; `None` while it still awaits a command.
pub open spec fn install_result_spec(phase: InstallPhase) -> Option<Result<(), InstallError>> {
    match phase {
        InstallPhase::Succeeded => Some(Ok(())),
        InstallPhase::Failed => Some(Err(InstallError::CommandExecutionError)),
        _ => None,
    }
}

/// Open an installation run for `package`.
pub fn install_package(package: &str) -> (r: InstallPhase)
    ensures
        r == install_start_spec(package@),
{
    InstallPhase::RunningUpdate { dance: contains_substring(package, "ansible") }
}

/// Advance an installation run by the outcome of the command it awaited.
pub fn install_step(phase: &InstallPhase, outcome: &CmdOutcome) -> (r: InstallPhase)
    ensures
        r == install_step_spec(*phase, *outcome),
{
    match phase {
        InstallPhase::RunningUpdate { dance } => match outcome {
            CmdOutcome::Exited(true) => InstallPhase::RunningUpgrade { dance: *dance },
            _ => InstallPhase::Failed,
        },
        InstallPhase::RunningUpgrade { dance } => match outcome {
            CmdOutcome::Exited(true) => {
                if *dance {
                    InstallPhase::CheckingHelper
                } else {
                    InstallPhase::InstallingTarget
                }
            },
            _ => InstallPhase::Failed,
        },
        InstallPhase::CheckingHelper => match outcome {
            CmdOutcome::SpawnFailed => InstallPhase::Failed,
            CmdOutcome::Exited(present) => {
                if *present {
                    InstallPhase::CheckingRepo
                } else {
                    InstallPhase::InstallingHelper
                }
            },
        },
        InstallPhase::InstallingHelper => match outcome {
            CmdOutcome::Exited(true) => InstallPhase::CheckingRepo,
            _ => InstallPhase::Failed,
        },
        InstallPhase::CheckingRepo => match outcome {
            CmdOutcome::SpawnFailed => InstallPhase::Failed,
            CmdOutcome::Exited(registered) => {
                if *registered {
                    InstallPhase::InstallingTarget
                } else {
                    InstallPhase::RegisteringRepo
                }
            },
        },
        InstallPhase::RegisteringRepo => match outcome {
            CmdOutcome::Exited(true) => InstallPhase::InstallingTarget,
            _ => InstallPhase::Failed,
        },
        InstallPhase::InstallingTarget => match outcome {
            CmdOutcome::Exited(true) => InstallPhase::Succeeded,
            _ => InstallPhase::Failed,
        },
        InstallPhase::Succeeded => InstallPhase::Succeeded,
        InstallPhase::Failed => InstallPhase::Failed,
    }
}

/// The command an installation run asks for next.
pub fn install_action(phase: &InstallPhase) -> (r: Option<InstallAction>)
    ensures
        r == install_action_spec(*phase),
{
    match phase {
        InstallPhase::RunningUpdate { dance: _ } => Some(InstallAction::RunUpdate),
        InstallPhase::RunningUpgrade { dance: _ } => Some(InstallAction::RunUpgrade),
        InstallPhase::CheckingHelper => Some(InstallAction::CheckHelper),
        InstallPhase::InstallingHelper => Some(InstallAction::InstallHelper),
        InstallPhase::CheckingRepo => Some(InstallAction::CheckRepo),
        InstallPhase::RegisteringRepo => Some(InstallAction::RegisterRepo),
        InstallPhase::InstallingTarget => Some(InstallAction::InstallTarget),
        InstallPhase::Succeeded => None,
        InstallPhase::Failed => None,
    }
}

/// How a finished installation run ended.
pub fn install_result(phase: &InstallPhase) -> (r: Option<Result<(), InstallError>>)
    ensures
        r == install_result_spec(*phase),
{
    match phase {
        InstallPhase::Succeeded => Some(Ok(())),
        InstallPhase::Failed => Some(Err(InstallError::CommandExecutionError)),
        _ => None,
    }
}

/// How many commands a run can still ask for, at most.
pub open spec fn phase_rank(phase: InstallPhase) -> nat {
    match phase {
        InstallPhase::RunningUpdate { dance: _ } => 7,
        InstallPhase::RunningUpgrade { dance: _ } => 6,
        InstallPhase::CheckingHelper => 5,
        InstallPhase::InstallingHelper => 4,
        InstallPhase::CheckingRepo => 3,
        InstallPhase::RegisteringRepo => 2,
        InstallPhase::InstallingTarget => 1,
        InstallPhase::Succeeded => 0,
        InstallPhase::Failed => 0,
    }
}

/// Every step of a run that still awaits a command lowers its rank, so
/// driving a run performs at most seven commands before it finishes.
pub proof fn lemma_install_step_progress(phase: InstallPhase, outcome: CmdOutcome)
    requires
        install_action_spec(phase) is Some,
    ensures
        phase_rank(install_step_spec(phase, outcome)) < phase_rank(phase),
{
}

/// A package without the repository dance runs exactly the update, the
/// upgrade and its own install, and the run succeeds precisely when all
/// three could be spawned and exited successfully; anything else ends
/// it in the command-execution error.
pub proof fn lemma_plain_install_outcome(
    package: Seq<char>,
    update: CmdOutcome,
    upgrade: CmdOutcome,
    install: CmdOutcome,
)
    requires
        !contains_seq(package, "ansible"@),
    ensures
        ({
            let end = install_step_spec(
                install_step_spec(install_step_spec(install_start_spec(package), update), upgrade),
                install,
            );
            install_result_spec(end) == (if update == CmdOutcome::Exited(true) && upgrade
                == CmdOutcome::Exited(true) && install == CmdOutcome::Exited(true) {
                Some(Ok::<(), InstallError>(()))
            } else {
                Some(Err::<(), InstallError>(InstallError::CommandExecutionError))
            })
        }),
{
}

/// The repository dance exists to make the target installable: when the
/// helper and the repository are found missing but installing the one
/// and registering the other succeed, the run still reaches the
/// target's installation and succeeds with it.
pub proof fn lemma_repository_dance_enables_install(package: Seq<char>)
    requires
        contains_seq(package, "ansible"@),
    ensures
        ({
            let ok = CmdOutcome::Exited(true);
            let missing = CmdOutcome::Exited(false);
            let after_upgrade = install_step_spec(
                install_step_spec(install_start_spec(package), ok),
                ok,
            );
            let after_dance = install_step_spec(
                install_step_spec(
                    install_step_spec(install_step_spec(after_upgrade, missing), ok),
                    missing,
                ),
                ok,
            );
            &&& after_upgrade == InstallPhase::CheckingHelper
            &&& after_dance == InstallPhase::InstallingTarget
            &&& install_result_spec(install_step_spec(after_dance, ok)) == Some(
                Ok::<(), InstallError>(()),
            )
        }),
{
}

/// What ensuring a package decided: the executable's resolved location
/// when it was already on the search path, else the opening phase of an
/// installation run for the package.
#[derive(Debug)]
pub enum PackageStatus {
    AlreadyPresent(String),
    InstallNeeded(InstallPhase),
}

/// Relies on which::which: searches the process's executable search
/// path for a name and resolves it to a location; `None` when the
/// search finds nothing or the location is not valid UTF-8. The result
/// depends on the environment, so nothing is promised of it.
#[verifier::external_body]
fn locate_executable(name: &str) -> (r: Option<String>) {
    match which::which(name) {
        Ok(path) => path.into_os_string().into_string().ok(),
        Err(_) => None,
    }
}

/// Settle one package from what the search-path lookup yielded: a
/// located executable is reported as already present, with its
/// location, and no installation run is opened for it; only a missing
/// one opens a run.
pub fn package_decision(location: Option<String>, package: &str) -> (r: PackageStatus)
    ensures
        location matches Some(p) ==> (r matches PackageStatus::AlreadyPresent(q) && q@ == p@),
        location is None ==> (r matches PackageStatus::InstallNeeded(ph) && ph
            == install_start_spec(package@)),
{
    match location {
        Some(p) => PackageStatus::AlreadyPresent(p),
        None => PackageStatus::InstallNeeded(install_package(package)),
    }
}

/// Ensure one required package: search the path for its executable and
/// settle it; whatever the search yields, an installation run is opened
/// only when it yields nothing.
pub fn ensure_package(executable: &str, package: &str) -> (r: PackageStatus)
    ensures
        r matches PackageStatus::InstallNeeded(ph) ==> ph == install_start_spec(package@),
{
    let location = locate_executable(executable);
    package_decision(location, package)
}

} // verus!
