use vstd::prelude::*;
use vstd::string::*;
use crate::action::{only_removes, places, stays_within, steps, within_any, writes_nothing, Action};
use crate::error::{CgroupError, Failure};
use crate::pids::{all_pids, CgroupDir, FileRead, Pid};
use crate::resources::LinuxResources;
use crate::stats::{path_views, Stats, StatsView};

verus! {

/// The state of the freezer of a group.
#[derive(Debug, Clone, Copy, PartialEq, Eq, Structural)]
pub enum FreezerState {
    /// Every task of the group is stopped.
    Frozen,
    /// The group is on its way to being frozen. Kernels report the state; it
    /// cannot be asked for.
    Freezing,
    /// The tasks of the group run.
    Thawed,
}

/// What every backend can do for the one group that it manages. A backend
/// touches nothing itself: it says what is to be done, as a plan of actions
/// that is carried out in order and ends at the first failure, and it reads
/// what was found on the host.
pub trait CgroupManager {
    /// The directories of the group. The manager touches nothing outside
    /// them.
    spec fn dirs(&self) -> Seq<Seq<char>>;

    /// The directory whose subtree lists the processes of the group.
    spec fn pids_dir(&self) -> Seq<char>;

    /// The files from which the snapshot is made, where huge pages of the
    /// sizes `page_sizes` are asked about.
    spec fn stat_paths(&self, page_sizes: Seq<Seq<char>>) -> Seq<Seq<char>>;

    /// The snapshot that the manager makes of what was read of those files.
    spec fn stats_of(&self, page_sizes: Seq<Seq<char>>, reads: Seq<FileRead>) -> Result<
        StatsView,
        Failure,
    >;

    /// The plan that puts a process into the group.
    fn add_task(&self, pid: Pid) -> (plan: Vec<Action>)
        ensures
            stays_within(steps(plan@), self.dirs()),
            exists|i: int| 0 <= i < plan.len() && places(#[trigger] steps(plan@)[i], pid, self.pids_dir()),
    ;

    /// The plan that puts the limits of `resources` on the group. What
    /// `resources` does not set, the plan does not write.
    fn apply(&self, resources: &LinuxResources) -> (plan: Vec<Action>)
        ensures
            stays_within(steps(plan@), self.dirs()),
            resources.is_unset() ==> writes_nothing(steps(plan@)),
    ;

    /// The plan that removes the group. It only takes away, and what is
    /// already gone does not make it fail.
    fn remove(&self) -> (plan: Vec<Action>)
        ensures
            stays_within(steps(plan@), self.dirs()),
            only_removes(steps(plan@)),
    ;

    /// The plan that freezes or thaws the group. `Freezing` cannot be asked
    /// for: it is refused, and nothing is planned.
    fn freeze(&self, state: FreezerState) -> (r: Result<Vec<Action>, CgroupError>)
        ensures
            r is Err <==> state == FreezerState::Freezing,
            r matches Err(e) ==> e@ == Failure::Unsupported,
            r matches Ok(plan) ==> plan.len() == 1 && steps(plan@)[0].is_write() && stays_within(
                steps(plan@),
                self.dirs(),
            ),
    ;

    /// The files that are to be read for a snapshot, in the order in which
    /// `stats` takes what was read of them. The last of them hold the huge
    /// pages in use, one file for each of `page_sizes`.
    fn stats_files(&self, page_sizes: &Vec<String>) -> (files: Vec<String>)
        ensures
            path_views(files@) == self.stat_paths(path_views(page_sizes@)),
            forall|i: int|
                0 <= i < files.len() ==> within_any(
                    #[trigger] self.stat_paths(path_views(page_sizes@))[i],
                    self.dirs(),
                ),
    ;

    /// Makes the snapshot from what was read of the files of `stats_files`,
    /// place by place. A file of which nothing is given counts as absent.
    fn stats(&self, page_sizes: &Vec<String>, reads: &Vec<FileRead>) -> (r: Result<
        Stats,
        CgroupError,
    >)
        ensures
            r matches Ok(stats) ==> self.stats_of(path_views(page_sizes@), reads@) == Ok::<
                StatsView,
                Failure,
            >(stats@),
            r matches Err(e) ==> self.stats_of(path_views(page_sizes@), reads@) == Err::<
                StatsView,
                Failure,
            >(e@),
    ;

    /// The directory that is to be walked for the processes of the group.
    fn pids_root(&self) -> (dir: String)
        ensures
            dir@ == self.pids_dir(),
            within_any(dir@, self.dirs()),
    ;

    /// The processes of the group, from what a walk from `pids_root` down
    /// found.
    fn get_all_pids(&self, tree: &CgroupDir) -> (r: Result<Vec<Pid>, CgroupError>)
        ensures
            r matches Ok(pids) ==> all_pids(*tree) == Ok::<Seq<Pid>, Failure>(pids@),
            r matches Err(e) ==> all_pids(*tree) == Err::<Seq<Pid>, Failure>(e@),
    ;
}

} // verus!
