//! Directory provisioning: the check-then-act decision for one target
//! directory, the canonical set of target directories under a home
//! directory, and a directory-set model over which idempotence is proved.

use vstd::prelude::*;
use vstd::string::StringExecFns;

use crate::text::str_eq;

verus! {

/// What can go wrong while provisioning a directory.
#[derive(Debug, PartialEq, Eq, Structural)]
pub enum DotfilesError {
    DirectoryCreationError,
    DirectoryAccessError,
    DirectoryPresenceError,
}

/// What an existence probe of a path reported: the path exists, it does
/// not exist, or its existence could not be determined.
#[derive(Debug, PartialEq, Eq, Structural, Clone, Copy)]
pub enum DirProbe {
    Present,
    Absent,
    Inaccessible,
}

/// The outcome of provisioning one directory, given what the existence
/// probe reported and, for an absent directory, whether the creation
/// call succeeded: `Ok(true)` for a directory that already existed,
/// `Ok(false)` for one just created.
pub open spec fn dir_decision(probe: DirProbe, created: bool) -> Result<bool, DotfilesError> {
    match probe {
        DirProbe::Present => Ok(true),
        DirProbe::Absent => if created {
            Ok(false)
        } else {
            Err(DotfilesError::DirectoryCreationError)
        },
        DirProbe::Inaccessible => Err(DotfilesError::DirectoryAccessError),
    }
}

/// Settle one directory's provisioning from the probe's report and the
/// creation outcome. `created` is consulted only for an absent
/// directory; pass what the creation call reported.
pub fn dotfiles_directories(probe: &DirProbe, created: bool) -> (r: Result<bool, DotfilesError>)
    ensures
        r == dir_decision(*probe, created),
{
    match probe {
        DirProbe::Present => Ok(true),
        DirProbe::Absent => {
            if created {
                Ok(false)
            } else {
                Err(DotfilesError::DirectoryCreationError)
            }
        },
        DirProbe::Inaccessible => Err(DotfilesError::DirectoryAccessError),
    }
}

/// A creation call is owed exactly for a directory whose probe reported
/// it absent.
pub fn creation_required(probe: &DirProbe) -> (r: bool)
    ensures
        r == (*probe is Absent),
{
    match probe {
        DirProbe::Absent => true,
        _ => false,
    }
}

/// A model of which directories exist, for exercising the provisioning
/// flow without a filesystem: its view is the set of existing paths.
pub struct DirectorySet {
    dirs: Vec<String>,
}

impl View for DirectorySet {
    type V = Set<Seq<char>>;

    closed spec fn view(&self) -> Set<Seq<char>> {
        self.dirs.deep_view().to_set()
    }
}

impl DirectorySet {
    /// A directory set in which nothing exists yet.
    pub fn new() -> (r: DirectorySet)
        ensures
            r@ == Set::<Seq<char>>::empty(),
    {
        let r = DirectorySet { dirs: Vec::new() };
        proof {
            assert(r@ =~= Set::<Seq<char>>::empty());
        }
        r
    }

    /// Does `path` exist in this set?
    pub fn contains_path(&self, path: &str) -> (r: bool)
        ensures
            r == self@.contains(path@),
    {
        let mut i: usize = 0;
        while i < self.dirs.len()
            invariant
                i <= self.dirs.len(),
                forall|j: int| 0 <= j < i ==> self.dirs.deep_view()[j] != path@,
            decreases self.dirs.len() - i,
        {
            if str_eq(self.dirs[i].as_str(), path) {
                proof {
                    assert(self.dirs.deep_view()[i as int] == path@);
                }
                return true;
            }
            i += 1;
        }
        proof {
            assert(!self.dirs.deep_view().contains(path@));
        }
        false
    }

    /// Provision one directory: report whether it already existed, and
    /// make it exist either way.
    pub fn ensure_directory(&mut self, path: &str) -> (r: bool)
        ensures
            final(self)@ == old(self)@.insert(path@),
            r == old(self)@.contains(path@),
    {
        if self.contains_path(path) {
            proof {
                assert(self@.insert(path@) =~= self@);
            }
            true
        } else {
            let ghost dv0 = self.dirs.deep_view();
            self.dirs.push(path.to_owned());
            proof {
                let dv1 = self.dirs.deep_view();
                assert(dv1 =~= dv0.push(path@));
                assert forall|x: Seq<char>| #[trigger] dv1.to_set().contains(x) implies dv0.to_set().contains(x) || x == path@ by {
                    let k = choose|k: int| 0 <= k < dv1.len() && dv1[k] == x;
                    if k < dv0.len() {
                        assert(dv0[k] == x);
                    }
                }
                assert forall|x: Seq<char>| dv0.to_set().contains(x) || x == path@ implies #[trigger] dv1.to_set().contains(x) by {
                    if dv0.to_set().contains(x) {
                        let k = choose|k: int| 0 <= k < dv0.len() && dv0[k] == x;
                        assert(dv1[k] == x);
                    } else {
                        assert(dv1[dv0.len() as int] == x);
                    }
                }
                assert(dv1.to_set() =~= dv0.to_set().insert(path@));
            }
            false
        }
    }
}

/// What an existence probe reports on an accessible directory set:
/// present exactly when the path is in the set.
pub open spec fn probe_of(dirs: Set<Seq<char>>, path: Seq<char>) -> DirProbe {
    if dirs.contains(path) {
        DirProbe::Present
    } else {
        DirProbe::Absent
    }
}

/// Provisioning a directory is idempotent: any first run that did not
/// fail leaves `path` in the directory set — whether it found the
/// directory or created it — so a second run probes it as present,
/// returns `Ok(true)` whatever its creation flag, and changes the set
/// no further.
pub proof fn lemma_ensure_directory_idempotent(
    dirs: Set<Seq<char>>,
    path: Seq<char>,
    created: bool,
)
    ensures
        dirs.insert(path).contains(path),
        dirs.insert(path).insert(path) == dirs.insert(path),
        dir_decision(probe_of(dirs.insert(path), path), created) == Ok::<bool, DotfilesError>(
            true,
        ),
{
    assert(dirs.insert(path).insert(path) =~= dirs.insert(path));
}

/// The four canonical target directories under a home directory.
pub fn target_directories(home: &str) -> (r: Vec<String>)
    ensures
        r.deep_view() == seq![
            home@ + "/.config"@,
            home@ + "/.ansible-vault"@,
            home@ + "/.dotfiles"@,
            home@ + "/.ssh"@,
        ],
{
    let mut out: Vec<String> = Vec::new();
    let mut p = home.to_owned();
    p.append("/.config");
    out.push(p);
    let mut p = home.to_owned();
    p.append("/.ansible-vault");
    out.push(p);
    let mut p = home.to_owned();
    p.append("/.dotfiles");
    out.push(p);
    let mut p = home.to_owned();
    p.append("/.ssh");
    out.push(p);
    proof {
        assert(out.deep_view() =~= seq![
            home@ + "/.config"@,
            home@ + "/.ansible-vault"@,
            home@ + "/.dotfiles"@,
            home@ + "/.ssh"@,
        ]);
    }
    out
}

} // verus!
