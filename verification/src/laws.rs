use vstd::prelude::*;
use crate::action::{
    all_within, lemma_file_within, lemma_stays_within_concat, only_removes, settled,
    stays_within, within, within_any, writes_nothing, Outcome, Step,
};
use crate::decimal::{
    decimal, is_digit, lemma_decimal_reads_back, parse_i32, signed_decimal, unsigned_part,
};
use crate::error::{Failure, IoStage};
use crate::factory::AnyManager;
use crate::manager::{CgroupManager, FreezerState};
use crate::path::{file_in, is_absolute, starts_with};
use crate::pids::{
    all_pids, all_pids_of, lemma_next_newline_bounds, line_at, listed_pids, listed_pids_from,
    next_newline, own_pids, CgroupDir, FileRead, Pid, CGROUP_PROCS,
};
use crate::plan::{for_each_dir, lemma_all_within_concat, limit_text, PerDir};
use crate::resources::LinuxResources;
use crate::setup::DEFAULT_CGROUP_ROOT;
use crate::stats::{
    chomp, lemma_source_failure_stays, max_word, read_at, single_value, source_values,
    SourceView, StatsView,
};
use crate::v1;
use crate::v1::Controller;
use crate::v2;

verus! {

/// Whatever a manager plans, and whatever it reads, lies in or below the
/// directories of its group.
pub proof fn law_plans_stay_in_the_group(
    m: AnyManager,
    pid: Pid,
    resources: LinuxResources,
    state: FreezerState,
    page_sizes: Seq<Seq<char>>,
)
    ensures
        stays_within(m.add_task_plan(pid), m.dirs()),
        stays_within(m.apply_plan(resources), m.dirs()),
        stays_within(m.remove_plan(), m.dirs()),
        stays_within(m.freeze_plan(state), m.dirs()),
        forall|i: int|
            0 <= i < m.stat_paths(page_sizes).len() ==> within_any(
                #[trigger] m.stat_paths(page_sizes)[i],
                m.dirs(),
            ),
        within_any(m.pids_dir(), m.dirs()),
{
    match m {
        AnyManager::Legacy(legacy) => {
            legacy.lemma_each_dir_within(PerDir::Create);
            legacy.lemma_each_dir_within(PerDir::Place(pid));
            legacy.lemma_each_dir_within(PerDir::Remove);
            lemma_stays_within_concat(
                for_each_dir(PerDir::Create, legacy.all_dirs()),
                for_each_dir(PerDir::Place(pid), legacy.all_dirs()),
                legacy.all_dirs(),
            );
            legacy.lemma_apply_stays_within(resources);
            lemma_file_within(legacy.dir(Controller::Freezer), "freezer.state"@);
            legacy.lemma_section_within(legacy.freeze_plan(state), Controller::Freezer);
            legacy.lemma_stat_files_within(page_sizes);
            assert(within(legacy.dir(Controller::Devices), legacy.all_dirs()[4]));
        },
        AnyManager::Unified(unified) => {
            lemma_one_directory(unified.dir(), pid, resources, state);
            v2::lemma_stat_files_within(unified.dir(), page_sizes);
            assert(unified.apply_plan(resources) =~= seq![Step::CreateDir(unified.dir())]
                + v2::limits_plan(unified.dir(), resources));
            v2::lemma_one_dir(unified.add_task_plan(pid), unified.dir());
            v2::lemma_one_dir(unified.apply_plan(resources), unified.dir());
            v2::lemma_one_dir(unified.remove_plan(), unified.dir());
        },
        AnyManager::Systemd(scope) => {
            lemma_one_directory(scope.dir(), pid, resources, state);
            v2::lemma_stat_files_within(scope.dir(), page_sizes);
            v2::lemma_one_dir(scope.add_task_plan(pid), scope.dir());
            v2::lemma_one_dir(scope.apply_plan(resources), scope.dir());
            v2::lemma_one_dir(scope.remove_plan(), scope.dir());
        },
    }
}

/// What is planned for a group in a unified hierarchy lies in or below its
/// one directory.
proof fn lemma_one_directory(
    dir: Seq<char>,
    pid: Pid,
    resources: LinuxResources,
    state: FreezerState,
)
    ensures
        within(file_in(dir, CGROUP_PROCS@), dir),
        all_within(seq![Step::CreateDir(dir)] + v2::limits_plan(dir, resources), dir),
        all_within(seq![Step::UpdateScope(dir)] + v2::limits_plan(dir, resources), dir),
        stays_within(v2::freeze_plan(dir, state), seq![dir]),
        within_any(dir, seq![dir]),
{
    lemma_file_within(dir, CGROUP_PROCS@);
    v2::lemma_limits_within(dir, resources);
    lemma_all_within_concat(seq![Step::CreateDir(dir)], v2::limits_plan(dir, resources), dir);
    lemma_all_within_concat(seq![Step::UpdateScope(dir)], v2::limits_plan(dir, resources), dir);
    lemma_file_within(dir, "cgroup.freeze"@);
    v2::lemma_one_dir(v2::freeze_plan(dir, state), dir);
    assert(within(dir, seq![dir][0]));
}

/// Each directory of a group is a place in a hierarchy below the root,
/// with the path of the group, as it was asked for, joined to it as text.
pub proof fn law_dirs_hold_the_path(m: AnyManager, i: int)
    requires
        0 <= i < m.dirs().len(),
    ensures
        exists|hierarchy: Seq<char>|
            starts_with(hierarchy, m.root_path()) && m.dirs()[i] == #[trigger] (hierarchy
                + m.cgroup_path()),
{
    match m {
        AnyManager::Legacy(legacy) => {
            let c = v1::controllers()[i];
            let hierarchy = file_in(DEFAULT_CGROUP_ROOT@, c.name());
            assert(hierarchy.subrange(0, DEFAULT_CGROUP_ROOT@.len() as int) =~= DEFAULT_CGROUP_ROOT@);
            assert(m.dirs()[i] == hierarchy + m.cgroup_path());
        },
        AnyManager::Unified(unified) => {
            let hierarchy = unified.root_path();
            assert(hierarchy.subrange(0, hierarchy.len() as int) =~= hierarchy);
            assert(m.dirs()[i] == hierarchy + m.cgroup_path());
        },
        AnyManager::Systemd(scope) => {
            let hierarchy = scope.root_path();
            assert(hierarchy.subrange(0, hierarchy.len() as int) =~= hierarchy);
            assert(m.dirs()[i] == hierarchy + m.cgroup_path());
        },
    }
}

/// The directories of a group are absolute where the root of its hierarchy
/// is, as the default root is.
pub proof fn law_dirs_are_absolute(m: AnyManager, i: int)
    requires
        0 <= i < m.dirs().len(),
        is_absolute(m.root_path()),
    ensures
        is_absolute(m.dirs()[i]),
        is_absolute(DEFAULT_CGROUP_ROOT@),
{
    reveal_strlit("/sys/fs/cgroup");
    match m {
        AnyManager::Legacy(legacy) => {
            legacy.lemma_dirs_are_absolute(v1::controllers()[i]);
        },
        AnyManager::Unified(unified) => {
            assert(unified.dir()[0] == unified.root_path()[0]);
        },
        AnyManager::Systemd(scope) => {
            assert(scope.dir()[0] == scope.root_path()[0]);
        },
    }
}

/// A manager that is asked for nothing writes to no control file.
pub proof fn law_nothing_asked_nothing_written(m: AnyManager, resources: LinuxResources)
    requires
        resources.is_unset(),
    ensures
        writes_nothing(m.apply_plan(resources)),
{
    match m {
        AnyManager::Legacy(legacy) => {
            assert(legacy.limits_plan(resources) =~= Seq::<Step>::empty());
            assert(legacy.apply_plan(resources) =~= for_each_dir(PerDir::Create, legacy.all_dirs()));
        },
        AnyManager::Unified(unified) => {
            assert(unified.apply_plan(resources) =~= seq![Step::CreateDir(unified.dir())]);
        },
        AnyManager::Systemd(scope) => {
            assert(scope.apply_plan(resources) =~= seq![Step::UpdateScope(scope.dir())]);
        },
    }
}

/// A write that did not go through is never passed over: whatever the
/// outcome but that it was done, the plan ends with an I/O error that names
/// the file, and what the host said of it is handed on unchanged. A value
/// that the host refused fails at the writing, a file that is not there or
/// cannot be opened at the opening.
pub proof fn law_refused_write_is_surfaced(path: Seq<char>, data: Seq<u8>, errno: Option<i32>)
    ensures
        settled(Step::Write(path, data), Outcome::Refused(errno)) == Err::<(), Failure>(
            Failure::Io(IoStage::Write, path, errno),
        ),
        settled(Step::Write(path, data), Outcome::Unopened(errno)) == Err::<(), Failure>(
            Failure::Io(IoStage::Open, path, errno),
        ),
        settled(Step::Write(path, data), Outcome::Missing) == Err::<(), Failure>(
            Failure::Io(IoStage::Open, path, None),
        ),
        forall|outcome: Outcome|
            settled(Step::Write(path, data), outcome) is Ok <==> outcome == Outcome::Done,
{
}

/// To remove a group that is already gone is no failure: the plan only
/// takes away, and to find nothing to take away settles as done.
pub proof fn law_removal_can_be_repeated(m: AnyManager, i: int)
    requires
        0 <= i < m.remove_plan().len(),
    ensures
        only_removes(m.remove_plan()),
        settled(m.remove_plan()[i], Outcome::Done) is Ok,
        settled(m.remove_plan()[i], Outcome::Missing) is Ok,
{
}

/// The snapshot of a group of which no file is left is a failure to open the
/// first of its files, never a snapshot.
pub proof fn law_no_stats_of_a_removed_group(
    m: AnyManager,
    page_sizes: Seq<Seq<char>>,
    reads: Seq<FileRead>,
)
    requires
        forall|i: int| read_at(reads, i) is Absent,
    ensures
        m.stats_of(page_sizes, reads) == Err::<StatsView, Failure>(
            Failure::Io(IoStage::Open, m.stat_paths(page_sizes)[0], None),
        ),
{
    let sources = match m {
        AnyManager::Legacy(_) => v1::stat_sources(),
        _ => v2::stat_sources(),
    };
    let paths = m.stat_paths(page_sizes);
    let first = sources.subrange(0, 1);
    assert(first.drop_last() =~= Seq::<SourceView>::empty());
    assert(first.last() == sources[0]);
    assert(read_at(reads, 0) is Absent);
    assert(source_values(paths, first.drop_last(), reads) == Ok::<Seq<u64>, Failure>(Seq::empty()));
    lemma_source_failure_stays(paths, sources, reads, 1);
}

/// A count that was written is read back as written, with or without a
/// line end after it.
pub proof fn law_counts_read_back(n: u64)
    ensures
        single_value(decimal(n as nat)) == Some(n),
        single_value(decimal(n as nat).push(10u8)) == Some(n),
{
    let text = decimal(n as nat);
    lemma_decimal_reads_back(n as nat);
    assert(is_digit(text[0]));
    assert(is_digit(text.last()));
    assert(chomp(text) == text);
    assert(chomp(text.push(10u8)) =~= text);
    assert(text != max_word()) by {
        if text == max_word() {
            assert(text[0] == max_word()[0]);
        }
    }
    assert(unsigned_part(text) == text);
}

/// A limit that was applied is the limit that a snapshot shows: what a
/// manager writes for a limit above zero reads back as that limit.
pub proof fn law_limits_read_back(limit: i64)
    requires
        limit > 0,
    ensures
        single_value(limit_text(limit)) == Some(limit as u64),
        single_value(limit_text(limit).push(10u8)) == Some(limit as u64),
        single_value(signed_decimal(limit as int)) == Some(limit as u64),
        single_value(signed_decimal(limit as int).push(10u8)) == Some(limit as u64),
{
    law_counts_read_back(limit as u64);
}

/// A process id that was written is read back as written.
pub proof fn law_pids_read_back(pid: Pid)
    ensures
        parse_i32(signed_decimal(pid.0 as int)) == Some(pid.0),
        forall|i: int|
            0 <= i < signed_decimal(pid.0 as int).len() ==> #[trigger] signed_decimal(pid.0 as int)[i]
                != 10,
{
    let text = signed_decimal(pid.0 as int);
    if pid.0 < 0 {
        let digits = decimal((-pid.0) as nat);
        lemma_decimal_reads_back((-pid.0) as nat);
        assert(unsigned_part(text) =~= digits);
        assert forall|i: int| 0 <= i < text.len() implies #[trigger] text[i] != 10 by {
            if i > 0 {
                assert(is_digit(digits[i - 1]));
            }
        }
    } else {
        lemma_decimal_reads_back(pid.0 as nat);
        assert(unsigned_part(text) == text);
        assert forall|i: int| 0 <= i < text.len() implies #[trigger] text[i] != 10 by {
            assert(is_digit(text[i]));
        }
    }
}

/// A text without a line end has its first line end where it ends.
proof fn lemma_no_newline(s: Seq<u8>, from: int)
    requires
        0 <= from <= s.len(),
        forall|i: int| 0 <= i < s.len() ==> #[trigger] s[i] != 10,
    ensures
        next_newline(s, from) == s.len(),
    decreases s.len() - from,
{
    if from < s.len() {
        lemma_no_newline(s, from + 1);
    }
}

/// A membership file that holds what a manager wrote for one process, on a
/// line of its own, lists that process and no other.
pub proof fn law_written_pid_is_listed(pid: Pid)
    ensures
        listed_pids(signed_decimal(pid.0 as int)) == Some(seq![pid]),
        listed_pids(signed_decimal(pid.0 as int).push(10u8)) == Some(seq![pid]),
{
    let text = signed_decimal(pid.0 as int);
    law_pids_read_back(pid);
    assert(text.len() > 0) by {
        if pid.0 >= 0 {
            lemma_decimal_reads_back(pid.0 as nat);
        }
    }
    // without a line end
    lemma_no_newline(text, 0);
    assert(line_at(text, 0) =~= text);
    assert(listed_pids_from(text, text.len() as int + 1) == Some(Seq::<Pid>::empty()));
    assert(seq![Pid(pid.0)] + Seq::<Pid>::empty() =~= seq![pid]);
    // with a line end
    let closed = text.push(10u8);
    lemma_next_newline_bounds(closed, 0);
    let end = next_newline(closed, 0);
    assert(end == text.len()) by {
        if end < text.len() {
            assert(closed[end] == text[end]);
            assert(text[end] != 10);
        } else if end > text.len() {
            assert(closed[text.len() as int] == 10);
        }
    }
    assert(text.last() != 13) by {
        if pid.0 < 0 {
            lemma_decimal_reads_back((-pid.0) as nat);
            assert(is_digit(decimal((-pid.0) as nat).last()));
            assert(text.last() == decimal((-pid.0) as nat).last());
        } else {
            lemma_decimal_reads_back(pid.0 as nat);
            assert(is_digit(text.last()));
        }
    }
    assert(closed[end - 1] == text.last());
    assert(line_at(closed, 0) =~= text);
    assert(listed_pids_from(closed, end + 1) == Some(Seq::<Pid>::empty()));
}

/// A process that a manager has put into a fresh group is found there: where
/// the membership file at the top of the walk holds what was written for the
/// process, the walk gives the process, and gives it first.
pub proof fn law_added_task_is_found(pid: Pid, tree: CgroupDir)
    requires
        tree.procs matches FileRead::Content(bytes) && (bytes@ == signed_decimal(pid.0 as int)
            || bytes@ == signed_decimal(pid.0 as int).push(10u8)),
        tree.listing is Listed,
        all_pids_of(tree.children@) is Ok,
    ensures
        all_pids(tree) matches Ok(pids) && pids.len() > 0 && pids[0] == pid && pids.contains(pid),
{
    law_written_pid_is_listed(pid);
    assert(own_pids(tree) == Ok::<Seq<Pid>, Failure>(seq![pid]));
    let pids = all_pids(tree)->Ok_0;
    assert(pids[0] == pid);
}

/// No directory of `dir` and below has a membership file, and each can be
/// listed.
pub open spec fn is_bare(dir: CgroupDir) -> bool
    decreases dir,
{
    &&& dir.procs is Absent
    &&& dir.listing is Listed
    &&& forall|i: int| 0 <= i < dir.children@.len() ==> is_bare(#[trigger] dir.children@[i])
}

/// A walk that meets no membership file gives no process.
pub proof fn law_no_membership_no_pids(dir: CgroupDir)
    requires
        is_bare(dir),
    ensures
        all_pids(dir) == Ok::<Seq<Pid>, Failure>(Seq::empty()),
    decreases dir, 1nat,
{
    lemma_bare_children(dir.children@, dir);
    assert(Seq::<Pid>::empty() + Seq::<Pid>::empty() =~= Seq::<Pid>::empty());
}

proof fn lemma_bare_children(dirs: Seq<CgroupDir>, parent: CgroupDir)
    requires
        forall|i: int| 0 <= i < dirs.len() ==> is_bare(#[trigger] dirs[i]),
        forall|i: int| 0 <= i < dirs.len() ==> decreases_to!(parent => #[trigger] dirs[i]),
    ensures
        all_pids_of(dirs) == Ok::<Seq<Pid>, Failure>(Seq::empty()),
    decreases parent, 0nat, dirs.len(),
{
    if dirs.len() > 0 {
        assert(is_bare(dirs.last()));
        law_no_membership_no_pids(dirs.last());
        lemma_bare_children(dirs.drop_last(), parent);
        assert(Seq::<Pid>::empty() + Seq::<Pid>::empty() =~= Seq::<Pid>::empty());
    }
}

} // verus!
