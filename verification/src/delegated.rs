use vstd::prelude::*;
use vstd::string::*;
use crate::action::{lemma_file_within, places, steps, within, Action, Step};
use crate::error::{CgroupError, Failure};
use crate::manager::{CgroupManager, FreezerState};
use crate::path::{is_joinable, join_safely};
use crate::pids::{get_all_pids, CgroupDir, FileRead, Pid};
use crate::plan::lemma_all_within_concat;
use crate::resources::LinuxResources;
use crate::stats::{path_views, Stats, StatsView};
use crate::v2::{
    files_for_stats, freeze_plan, lemma_limits_within, lemma_one_dir, lemma_stat_files_within,
    limits_plan, plan_freeze, put_limits, stat_files, stats_in, stats_of_dir,
};

verus! {

/// The manager of a group that the init system owns. The group lives in a
/// transient scope in a unified hierarchy: the init system makes and ends
/// the scope, and what it does not look after itself goes to the files of
/// the group as in any unified hierarchy.
#[derive(Debug, Clone, PartialEq, Eq)]
pub struct Manager {
    root_path: String,
    cgroup_path: String,
}

impl Manager {
    /// The root of the hierarchy.
    pub closed spec fn root_path(&self) -> Seq<char> {
        self.root_path@
    }

    /// The path of the group, as it was asked for.
    pub closed spec fn cgroup_path(&self) -> Seq<char> {
        self.cgroup_path@
    }

    /// The directory of the group: the path of the group joined to the root
    /// as text.
    pub open spec fn dir(&self) -> Seq<char> {
        self.root_path() + self.cgroup_path()
    }

    /// The plan that puts a process into the group: the init system is asked
    /// for the scope, with the process in it.
    pub open spec fn add_task_plan(&self, pid: Pid) -> Seq<Step> {
        seq![Step::StartScope(self.dir(), pid)]
    }

    /// The plan that puts limits on the group: the init system is told of
    /// the change, then each limit that is set is written.
    pub open spec fn apply_plan(&self, resources: LinuxResources) -> Seq<Step> {
        seq![Step::UpdateScope(self.dir())] + limits_plan(self.dir(), resources)
    }

    /// The plan that removes the group: the init system is asked to end the
    /// scope, and no directory is removed by hand.
    pub open spec fn remove_plan(&self) -> Seq<Step> {
        seq![Step::StopScope(self.dir())]
    }

    /// The manager of the group at `cgroup_path`, which must be empty or
    /// absolute, in the hierarchy at `root_path`.
    pub fn new(root_path: &str, cgroup_path: &str) -> (r: Result<Manager, CgroupError>)
        ensures
            r is Ok <==> is_joinable(cgroup_path@),
            r matches Ok(m) ==> m.root_path() == root_path@ && m.cgroup_path() == cgroup_path@,
            r matches Err(e) ==> e@ == Failure::Path(cgroup_path@),
    {
        match join_safely(root_path, cgroup_path) {
            Ok(_) => Ok(
                Manager { root_path: root_path.to_owned(), cgroup_path: cgroup_path.to_owned() },
            ),
            Err(e) => Err(e),
        }
    }

    /// The directory of the group.
    pub fn dir_of(&self) -> (dir: String)
        ensures
            dir@ == self.dir(),
    {
        let mut dir = self.root_path.clone();
        dir.append(self.cgroup_path.as_str());
        dir
    }
}

impl CgroupManager for Manager {
    open spec fn dirs(&self) -> Seq<Seq<char>> {
        seq![self.dir()]
    }

    open spec fn pids_dir(&self) -> Seq<char> {
        self.dir()
    }

    open spec fn stat_paths(&self, page_sizes: Seq<Seq<char>>) -> Seq<Seq<char>> {
        stat_files(self.dir(), page_sizes)
    }

    open spec fn stats_of(&self, page_sizes: Seq<Seq<char>>, reads: Seq<FileRead>) -> Result<
        StatsView,
        Failure,
    > {
        stats_of_dir(self.dir(), page_sizes, reads)
    }

    fn add_task(&self, pid: Pid) -> (plan: Vec<Action>)
        ensures
            steps(plan@) == self.add_task_plan(pid),
    {
        let mut plan: Vec<Action> = Vec::new();
        plan.push(Action::StartScope(self.dir_of(), pid));
        proof {
            assert(steps(plan@) =~= self.add_task_plan(pid));
            lemma_one_dir(steps(plan@), self.dir());
            assert(places(steps(plan@)[0], pid, self.pids_dir()));
        }
        plan
    }

    fn apply(&self, resources: &LinuxResources) -> (plan: Vec<Action>)
        ensures
            steps(plan@) == self.apply_plan(*resources),
    {
        let dir = self.dir_of();
        let mut plan: Vec<Action> = Vec::new();
        plan.push(Action::UpdateScope(dir.clone()));
        assert(steps(plan@) =~= seq![Step::UpdateScope(self.dir())]);
        put_limits(&mut plan, dir.as_str(), resources);
        proof {
            lemma_limits_within(self.dir(), *resources);
            lemma_all_within_concat(
                seq![Step::UpdateScope(self.dir())],
                limits_plan(self.dir(), *resources),
                self.dir(),
            );
            lemma_one_dir(steps(plan@), self.dir());
            if resources.is_unset() {
                assert(steps(plan@) =~= seq![Step::UpdateScope(self.dir())]);
            }
        }
        plan
    }

    fn remove(&self) -> (plan: Vec<Action>)
        ensures
            steps(plan@) == self.remove_plan(),
    {
        let mut plan: Vec<Action> = Vec::new();
        plan.push(Action::StopScope(self.dir_of()));
        proof {
            assert(steps(plan@) =~= self.remove_plan());
            lemma_one_dir(steps(plan@), self.dir());
        }
        plan
    }

    fn freeze(&self, state: FreezerState) -> (r: Result<Vec<Action>, CgroupError>)
        ensures
            r matches Ok(plan) ==> steps(plan@) == freeze_plan(self.dir(), state),
    {
        let dir = self.dir_of();
        let r = plan_freeze(dir.as_str(), state);
        proof {
            lemma_file_within(self.dir(), "cgroup.freeze"@);
            if r is Ok {
                lemma_one_dir(freeze_plan(self.dir(), state), self.dir());
            }
        }
        r
    }

    fn stats_files(&self, page_sizes: &Vec<String>) -> (files: Vec<String>) {
        let dir = self.dir_of();
        proof {
            lemma_stat_files_within(self.dir(), path_views(page_sizes@));
        }
        files_for_stats(dir.as_str(), page_sizes)
    }

    fn stats(&self, page_sizes: &Vec<String>, reads: &Vec<FileRead>) -> (r: Result<
        Stats,
        CgroupError,
    >) {
        let dir = self.dir_of();
        stats_in(dir.as_str(), page_sizes, reads)
    }

    fn pids_root(&self) -> (dir: String) {
        proof {
            assert(within(self.dir(), seq![self.dir()][0]));
        }
        self.dir_of()
    }

    fn get_all_pids(&self, tree: &CgroupDir) -> (r: Result<Vec<Pid>, CgroupError>) {
        get_all_pids(tree)
    }
}

} // verus!
