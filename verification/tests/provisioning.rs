use bldr::command::CmdOutcome;
use bldr::dotfiles_presence::{
    creation_required, dotfiles_directories, target_directories, DirProbe, DirectorySet,
    DotfilesError,
};
use bldr::git_pull::{pull_git_repo, GitError};
use bldr::install_packages::{
    ensure_package, install_action, install_package, install_result, install_step,
    package_decision, InstallAction, InstallError, InstallPhase, PackageStatus,
};

// Run one directory through the check-then-act flow against a directory-set
// model: probe it, create it when the probe reported it absent, and settle
// the outcome.
fn provision(model: &mut DirectorySet, path: &str) -> Result<bool, DotfilesError> {
    let probe = if model.contains_path(path) {
        DirProbe::Present
    } else {
        DirProbe::Absent
    };
    let created = if creation_required(&probe) {
        model.ensure_directory(path);
        true
    } else {
        false
    };
    dotfiles_directories(&probe, created)
}

#[test]
fn test_dotfiles_directories() {
    let mut model = DirectorySet::new();
    for path in target_directories("/home/alice") {
        assert!(provision(&mut model, &path).is_ok());
    }
}

#[test]
fn lib_test_dotfiles_directories() {
    let mut model = DirectorySet::new();
    assert!(provision(&mut model, "/home/bob/.config").is_ok());
    assert!(provision(&mut model, "/home/bob/.ansible-vault").is_ok());
    assert!(provision(&mut model, "/home/bob/.dotfiles").is_ok());
    assert!(provision(&mut model, "/home/bob/.ssh").is_ok());
}

#[test]
fn test_target_directories_under_home() {
    let paths = target_directories("/home/alice");
    assert_eq!(paths.len(), 4);
    assert_eq!(paths[0], "/home/alice/.config");
    assert_eq!(paths[1], "/home/alice/.ansible-vault");
    assert_eq!(paths[2], "/home/alice/.dotfiles");
    assert_eq!(paths[3], "/home/alice/.ssh");
}

#[test]
fn test_provisioning_all_four_then_rerun() {
    let mut model = DirectorySet::new();
    let paths = target_directories("/home/alice");
    for path in &paths {
        // None of the four exists yet: each is created.
        assert_eq!(provision(&mut model, path), Ok(false));
    }
    for path in &paths {
        // The second run finds all four already present.
        assert_eq!(provision(&mut model, path), Ok(true));
    }
}

#[test]
fn test_provisioning_same_path_twice() {
    let mut model = DirectorySet::new();
    let first = provision(&mut model, "/home/alice/.ssh");
    assert!(first.is_ok());
    assert_eq!(provision(&mut model, "/home/alice/.ssh"), Ok(true));
}

#[test]
fn test_directory_faults() {
    assert_eq!(
        dotfiles_directories(&DirProbe::Inaccessible, false),
        Err(DotfilesError::DirectoryAccessError)
    );
    assert_eq!(
        dotfiles_directories(&DirProbe::Absent, false),
        Err(DotfilesError::DirectoryCreationError)
    );
    assert_eq!(dotfiles_directories(&DirProbe::Present, false), Ok(true));
}

// Drive an installation run, answering every command it asks for with the
// same outcome.
fn drive(mut phase: InstallPhase, outcome: CmdOutcome) -> InstallPhase {
    while install_action(&phase).is_some() {
        phase = install_step(&phase, &outcome);
    }
    phase
}

#[test]
fn test_install_package() {
    let run = install_package("curl");
    let done = drive(run, CmdOutcome::Exited(true));
    assert!(install_result(&done).unwrap().is_ok());
}

#[test]
fn lib_test_install_package() {
    let run = install_package("curl");
    assert_eq!(run, InstallPhase::RunningUpdate { dance: false });
    assert_eq!(install_action(&run), Some(InstallAction::RunUpdate));
    let upgrading = install_step(&run, &CmdOutcome::Exited(true));
    assert_eq!(upgrading, InstallPhase::RunningUpgrade { dance: false });
    assert_eq!(install_action(&upgrading), Some(InstallAction::RunUpgrade));
    let target = install_step(&upgrading, &CmdOutcome::Exited(true));
    assert_eq!(target, InstallPhase::InstallingTarget);
    let done = install_step(&target, &CmdOutcome::Exited(true));
    assert_eq!(install_result(&done), Some(Ok(())));
}

#[test]
fn test_install_ansible_repository_dance() {
    let run = install_package("ansible");
    assert_eq!(run, InstallPhase::RunningUpdate { dance: true });
    let upgrading = install_step(&run, &CmdOutcome::Exited(true));
    let helper = install_step(&upgrading, &CmdOutcome::Exited(true));
    assert_eq!(helper, InstallPhase::CheckingHelper);
    assert_eq!(install_action(&helper), Some(InstallAction::CheckHelper));
    // Helper installed, repository registered: the target gets installed.
    let repo = install_step(&helper, &CmdOutcome::Exited(true));
    assert_eq!(repo, InstallPhase::CheckingRepo);
    assert_eq!(install_action(&repo), Some(InstallAction::CheckRepo));
    let target = install_step(&repo, &CmdOutcome::Exited(true));
    assert_eq!(target, InstallPhase::InstallingTarget);
    let done = install_step(&target, &CmdOutcome::Exited(true));
    assert_eq!(install_result(&done), Some(Ok(())));
}

#[test]
fn test_install_ansible_helper_absent_then_installed() {
    // The helper check comes up negative; installing the helper succeeds,
    // so the run proceeds through the repository check to the target.
    let run = install_package("ansible");
    let upgrading = install_step(&run, &CmdOutcome::Exited(true));
    let helper = install_step(&upgrading, &CmdOutcome::Exited(true));
    let installing_helper = install_step(&helper, &CmdOutcome::Exited(false));
    assert_eq!(installing_helper, InstallPhase::InstallingHelper);
    assert_eq!(
        install_action(&installing_helper),
        Some(InstallAction::InstallHelper)
    );
    let repo = install_step(&installing_helper, &CmdOutcome::Exited(true));
    assert_eq!(repo, InstallPhase::CheckingRepo);
    let target = install_step(&repo, &CmdOutcome::Exited(true));
    assert_eq!(target, InstallPhase::InstallingTarget);
    let done = install_step(&target, &CmdOutcome::Exited(true));
    assert_eq!(install_result(&done), Some(Ok(())));
}

#[test]
fn test_install_ansible_repo_missing_then_registered() {
    // The repository check comes up negative; registering it succeeds,
    // so the run proceeds to the target.
    let run = install_package("ansible");
    let upgrading = install_step(&run, &CmdOutcome::Exited(true));
    let helper = install_step(&upgrading, &CmdOutcome::Exited(true));
    let repo = install_step(&helper, &CmdOutcome::Exited(true));
    let registering = install_step(&repo, &CmdOutcome::Exited(false));
    assert_eq!(registering, InstallPhase::RegisteringRepo);
    assert_eq!(install_action(&registering), Some(InstallAction::RegisterRepo));
    let target = install_step(&registering, &CmdOutcome::Exited(true));
    assert_eq!(target, InstallPhase::InstallingTarget);
    let done = install_step(&target, &CmdOutcome::Exited(true));
    assert_eq!(install_result(&done), Some(Ok(())));
}

#[test]
fn test_install_ansible_failed_remediation_fails() {
    // Installing the helper fails: the run fails.
    let run = install_package("ansible");
    let upgrading = install_step(&run, &CmdOutcome::Exited(true));
    let helper = install_step(&upgrading, &CmdOutcome::Exited(true));
    let installing_helper = install_step(&helper, &CmdOutcome::Exited(false));
    let done = install_step(&installing_helper, &CmdOutcome::Exited(false));
    assert_eq!(
        install_result(&done),
        Some(Err(InstallError::CommandExecutionError))
    );
    // Registering the repository fails: the run fails.
    let repo = install_step(&helper, &CmdOutcome::Exited(true));
    let registering = install_step(&repo, &CmdOutcome::Exited(false));
    let done = install_step(&registering, &CmdOutcome::SpawnFailed);
    assert_eq!(
        install_result(&done),
        Some(Err(InstallError::CommandExecutionError))
    );
}

#[test]
fn test_install_failed_upgrade_fails() {
    let run = install_package("curl");
    let upgrading = install_step(&run, &CmdOutcome::Exited(true));
    let done = install_step(&upgrading, &CmdOutcome::Exited(false));
    assert_eq!(
        install_result(&done),
        Some(Err(InstallError::CommandExecutionError))
    );
}

#[test]
fn test_install_spawn_failure_fails() {
    let run = install_package("git");
    let done = install_step(&run, &CmdOutcome::SpawnFailed);
    assert_eq!(
        install_result(&done),
        Some(Err(InstallError::CommandExecutionError))
    );
}

#[test]
fn test_missing_git_and_failing_install_abort() {
    // The executable is absent from the search path, so an installation
    // run opens; its install command exits non-zero, so the run ends in
    // the command-execution error that aborts the whole flow.
    let status = package_decision(None, "git");
    match status {
        PackageStatus::InstallNeeded(run) => {
            assert_eq!(run, InstallPhase::RunningUpdate { dance: false });
            let upgrading = install_step(&run, &CmdOutcome::Exited(true));
            let target = install_step(&upgrading, &CmdOutcome::Exited(true));
            assert_eq!(target, InstallPhase::InstallingTarget);
            let done = install_step(&target, &CmdOutcome::Exited(false));
            assert_eq!(
                install_result(&done),
                Some(Err(InstallError::CommandExecutionError))
            );
        }
        PackageStatus::AlreadyPresent(_) => panic!("no location was handed in"),
    }
}

#[test]
fn test_present_executable_needs_no_install() {
    let status = package_decision(Some("/usr/bin/git".to_string()), "git");
    match status {
        PackageStatus::AlreadyPresent(path) => assert_eq!(path, "/usr/bin/git"),
        PackageStatus::InstallNeeded(_) => panic!("an install was opened for a present executable"),
    }
}

#[test]
fn test_ensure_package_missing_executable_opens_run() {
    match ensure_package("no_such_executable_bldr_test", "no_such_executable_bldr_test") {
        PackageStatus::InstallNeeded(run) => {
            assert_eq!(run, InstallPhase::RunningUpdate { dance: false })
        }
        PackageStatus::AlreadyPresent(_) => {
            panic!("an executable of that name is on the search path")
        }
    }
}

#[test]
fn test_ensure_package_present_executable() {
    // `sh` is expected on any search path this runs under; either way the
    // run that may open must be the plain one for the package name.
    match ensure_package("sh", "sh") {
        PackageStatus::AlreadyPresent(path) => assert!(path.len() > 0),
        PackageStatus::InstallNeeded(run) => {
            assert_eq!(run, InstallPhase::RunningUpdate { dance: false })
        }
    }
}

#[test]
fn test_pull_git_repo() {
    assert_eq!(
        pull_git_repo(&None, &CmdOutcome::SpawnFailed),
        Err(GitError::GitNotInstalled)
    );
    let path = Some("/usr/bin/git".to_string());
    assert_eq!(pull_git_repo(&path, &CmdOutcome::Exited(true)), Ok(()));
    assert_eq!(
        pull_git_repo(&path, &CmdOutcome::Exited(false)),
        Err(GitError::GitPullError)
    );
    assert_eq!(
        pull_git_repo(&path, &CmdOutcome::SpawnFailed),
        Err(GitError::GitPullError)
    );
}
