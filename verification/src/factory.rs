use vstd::prelude::*;
use vstd::string::*;
use crate::action::{steps, Action, Step};
use crate::error::{CgroupError, Failure};
use crate::manager::{CgroupManager, FreezerState};
use crate::path::is_joinable;
use crate::pids::{CgroupDir, FileRead, Pid};
use crate::resources::LinuxResources;
use crate::setup::{detect, get_cgroup_setup, CgroupSetup, HostProbe, DEFAULT_CGROUP_ROOT};
use crate::stats::{Stats, StatsView};

verus! {

/// What this build and this host have of the init system whose scopes can
/// hold control groups.
#[derive(Debug, Clone, Copy, PartialEq, Eq, Structural)]
pub enum InitSystem {
    /// This build cannot talk to it.
    Absent,
    /// This build can talk to it; it runs the host or it does not.
    Present { running: bool },
}

/// Whether the init system runs the host; a failure where this build cannot
/// tell.
pub open spec fn booted_spec(init: InitSystem) -> Result<bool, Failure> {
    match init {
        InitSystem::Absent => Err(Failure::Config),
        InitSystem::Present { running } => Ok(running),
    }
}

/// Whether the init system runs the host. A build that cannot talk to it
/// cannot tell, and says so.
pub fn booted(init: InitSystem) -> (r: Result<bool, CgroupError>)
    ensures
        r matches Ok(running) ==> booted_spec(init) == Ok::<bool, Failure>(running),
        r matches Err(e) ==> booted_spec(init) == Err::<bool, Failure>(e@),
{
    match init {
        InitSystem::Absent => Err(CgroupError::Config),
        InitSystem::Present { running } => Ok(running),
    }
}

/// The three kinds of backend.
#[derive(Debug, Clone, Copy, PartialEq, Eq, Structural)]
pub enum Backend {
    /// One directory for each controller.
    Legacy,
    /// One directory in the unified hierarchy.
    Unified,
    /// A scope of the init system in the unified hierarchy.
    Systemd,
}

/// The backend that is chosen for a host, or why none is. The host is
/// classified first. A host with per-controller hierarchies gets the legacy
/// backend, whatever was preferred. A host with a unified hierarchy gets the
/// backend of the init system where that was preferred, and the plain unified
/// backend where it was not: a preference that cannot be met is a failure,
/// never a reason to fall back. The path of the group is looked at last.
pub open spec fn chosen(
    cgroup_path: Seq<char>,
    systemd_cgroup: bool,
    probe: HostProbe,
    init: InitSystem,
) -> Result<Backend, Failure> {
    match detect(probe) {
        Err(e) => Err(e),
        Ok(setup) => {
            let backend = if setup != CgroupSetup::Unified {
                Ok(Backend::Legacy)
            } else if !systemd_cgroup {
                Ok(Backend::Unified)
            } else {
                match init {
                    InitSystem::Absent => Err(Failure::Config),
                    InitSystem::Present { running: false } => Err(Failure::Unsupported),
                    InitSystem::Present { running: true } => Ok(Backend::Systemd),
                }
            };
            if backend is Ok && !is_joinable(cgroup_path) {
                Err(Failure::Path(cgroup_path))
            } else {
                backend
            }
        },
    }
}

/// The manager of one group, behind whichever backend the host asked for.
#[derive(Debug, Clone, PartialEq, Eq)]
pub enum AnyManager {
    Legacy(crate::v1::Manager),
    Unified(crate::v2::Manager),
    Systemd(crate::delegated::Manager),
}

impl AnyManager {
    /// The kind of the backend.
    pub open spec fn backend(&self) -> Backend {
        match self {
            AnyManager::Legacy(_) => Backend::Legacy,
            AnyManager::Unified(_) => Backend::Unified,
            AnyManager::Systemd(_) => Backend::Systemd,
        }
    }

    /// The path of the group, as it was asked for.
    pub open spec fn cgroup_path(&self) -> Seq<char> {
        match self {
            AnyManager::Legacy(m) => m.cgroup_path(),
            AnyManager::Unified(m) => m.cgroup_path(),
            AnyManager::Systemd(m) => m.cgroup_path(),
        }
    }

    /// The root of the hierarchy, for the backends that have one hierarchy.
    pub open spec fn root_path(&self) -> Seq<char> {
        match self {
            AnyManager::Legacy(m) => DEFAULT_CGROUP_ROOT@,
            AnyManager::Unified(m) => m.root_path(),
            AnyManager::Systemd(m) => m.root_path(),
        }
    }

    /// The plan by which the backend puts a process into the group.
    pub open spec fn add_task_plan(&self, pid: Pid) -> Seq<Step> {
        match self {
            AnyManager::Legacy(m) => m.add_task_plan(pid),
            AnyManager::Unified(m) => m.add_task_plan(pid),
            AnyManager::Systemd(m) => m.add_task_plan(pid),
        }
    }

    /// The plan by which the backend puts limits on the group.
    pub open spec fn apply_plan(&self, resources: LinuxResources) -> Seq<Step> {
        match self {
            AnyManager::Legacy(m) => m.apply_plan(resources),
            AnyManager::Unified(m) => m.apply_plan(resources),
            AnyManager::Systemd(m) => m.apply_plan(resources),
        }
    }

    /// The plan by which the backend removes the group.
    pub open spec fn remove_plan(&self) -> Seq<Step> {
        match self {
            AnyManager::Legacy(m) => m.remove_plan(),
            AnyManager::Unified(m) => m.remove_plan(),
            AnyManager::Systemd(m) => m.remove_plan(),
        }
    }

    /// The plan by which the backend freezes or thaws the group.
    pub open spec fn freeze_plan(&self, state: FreezerState) -> Seq<Step> {
        match self {
            AnyManager::Legacy(m) => m.freeze_plan(state),
            AnyManager::Unified(m) => crate::v2::freeze_plan(m.dir(), state),
            AnyManager::Systemd(m) => crate::v2::freeze_plan(m.dir(), state),
        }
    }

    /// The kind of the backend.
    pub fn kind(&self) -> (b: Backend)
        ensures
            b == self.backend(),
    {
        match self {
            AnyManager::Legacy(_) => Backend::Legacy,
            AnyManager::Unified(_) => Backend::Unified,
            AnyManager::Systemd(_) => Backend::Systemd,
        }
    }
}

impl CgroupManager for AnyManager {
    open spec fn dirs(&self) -> Seq<Seq<char>> {
        match self {
            AnyManager::Legacy(m) => m.dirs(),
            AnyManager::Unified(m) => m.dirs(),
            AnyManager::Systemd(m) => m.dirs(),
        }
    }

    open spec fn pids_dir(&self) -> Seq<char> {
        match self {
            AnyManager::Legacy(m) => m.pids_dir(),
            AnyManager::Unified(m) => m.pids_dir(),
            AnyManager::Systemd(m) => m.pids_dir(),
        }
    }

    open spec fn stat_paths(&self, page_sizes: Seq<Seq<char>>) -> Seq<Seq<char>> {
        match self {
            AnyManager::Legacy(m) => m.stat_paths(page_sizes),
            AnyManager::Unified(m) => m.stat_paths(page_sizes),
            AnyManager::Systemd(m) => m.stat_paths(page_sizes),
        }
    }

    open spec fn stats_of(&self, page_sizes: Seq<Seq<char>>, reads: Seq<FileRead>) -> Result<
        StatsView,
        Failure,
    > {
        match self {
            AnyManager::Legacy(m) => m.stats_of(page_sizes, reads),
            AnyManager::Unified(m) => m.stats_of(page_sizes, reads),
            AnyManager::Systemd(m) => m.stats_of(page_sizes, reads),
        }
    }

    fn add_task(&self, pid: Pid) -> (plan: Vec<Action>)
        ensures
            steps(plan@) == self.add_task_plan(pid),
    {
        match self {
            AnyManager::Legacy(m) => m.add_task(pid),
            AnyManager::Unified(m) => m.add_task(pid),
            AnyManager::Systemd(m) => m.add_task(pid),
        }
    }

    fn apply(&self, resources: &LinuxResources) -> (plan: Vec<Action>)
        ensures
            steps(plan@) == self.apply_plan(*resources),
    {
        match self {
            AnyManager::Legacy(m) => m.apply(resources),
            AnyManager::Unified(m) => m.apply(resources),
            AnyManager::Systemd(m) => m.apply(resources),
        }
    }

    fn remove(&self) -> (plan: Vec<Action>)
        ensures
            steps(plan@) == self.remove_plan(),
    {
        match self {
            AnyManager::Legacy(m) => m.remove(),
            AnyManager::Unified(m) => m.remove(),
            AnyManager::Systemd(m) => m.remove(),
        }
    }

    fn freeze(&self, state: FreezerState) -> (r: Result<Vec<Action>, CgroupError>)
        ensures
            r matches Ok(plan) ==> steps(plan@) == self.freeze_plan(state),
    {
        match self {
            AnyManager::Legacy(m) => m.freeze(state),
            AnyManager::Unified(m) => m.freeze(state),
            AnyManager::Systemd(m) => m.freeze(state),
        }
    }

    fn stats_files(&self, page_sizes: &Vec<String>) -> (files: Vec<String>) {
        match self {
            AnyManager::Legacy(m) => m.stats_files(page_sizes),
            AnyManager::Unified(m) => m.stats_files(page_sizes),
            AnyManager::Systemd(m) => m.stats_files(page_sizes),
        }
    }

    fn stats(&self, page_sizes: &Vec<String>, reads: &Vec<FileRead>) -> (r: Result<
        Stats,
        CgroupError,
    >) {
        match self {
            AnyManager::Legacy(m) => m.stats(page_sizes, reads),
            AnyManager::Unified(m) => m.stats(page_sizes, reads),
            AnyManager::Systemd(m) => m.stats(page_sizes, reads),
        }
    }

    fn pids_root(&self) -> (dir: String) {
        match self {
            AnyManager::Legacy(m) => m.pids_root(),
            AnyManager::Unified(m) => m.pids_root(),
            AnyManager::Systemd(m) => m.pids_root(),
        }
    }

    fn get_all_pids(&self, tree: &CgroupDir) -> (r: Result<Vec<Pid>, CgroupError>) {
        match self {
            AnyManager::Legacy(m) => m.get_all_pids(tree),
            AnyManager::Unified(m) => m.get_all_pids(tree),
            AnyManager::Systemd(m) => m.get_all_pids(tree),
        }
    }
}

/// Makes the manager of the group at `cgroup_path` for the host that `probe`
/// shows. This is the one place at which a backend is chosen. A unified
/// backend manages the group in the hierarchy at the default root.
pub fn create_cgroup_manager(
    cgroup_path: &str,
    systemd_cgroup: bool,
    probe: &HostProbe,
    init: InitSystem,
) -> (r: Result<AnyManager, CgroupError>)
    ensures
        r matches Ok(m) ==> {
            &&& chosen(cgroup_path@, systemd_cgroup, *probe, init) == Ok::<Backend, Failure>(
                m.backend(),
            )
            &&& m.cgroup_path() == cgroup_path@
            &&& m.root_path() == DEFAULT_CGROUP_ROOT@
        },
        r matches Err(e) ==> chosen(cgroup_path@, systemd_cgroup, *probe, init) == Err::<
            Backend,
            Failure,
        >(e@),
{
    let setup = match get_cgroup_setup(probe) {
        Ok(setup) => setup,
        Err(e) => {
            return Err(e);
        },
    };
    match setup {
        CgroupSetup::Legacy | CgroupSetup::Hybrid => match crate::v1::Manager::new(cgroup_path) {
            Ok(m) => Ok(AnyManager::Legacy(m)),
            Err(e) => Err(e),
        },
        CgroupSetup::Unified => {
            if systemd_cgroup {
                match booted(init) {
                    Err(e) => {
                        return Err(e);
                    },
                    Ok(false) => {
                        return Err(CgroupError::Unsupported);
                    },
                    Ok(true) => {},
                }
                match crate::delegated::Manager::new(DEFAULT_CGROUP_ROOT, cgroup_path) {
                    Ok(m) => Ok(AnyManager::Systemd(m)),
                    Err(e) => Err(e),
                }
            } else {
                match crate::v2::Manager::new(DEFAULT_CGROUP_ROOT, cgroup_path) {
                    Ok(m) => Ok(AnyManager::Unified(m)),
                    Err(e) => Err(e),
                }
            }
        },
    }
}

} // verus!
