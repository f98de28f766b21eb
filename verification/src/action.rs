use vstd::prelude::*;
use vstd::string::*;
use crate::error::{CgroupError, Failure, IoStage};
use crate::decimal::signed_decimal;
use crate::path::{file_in, starts_with};
use crate::pids::{Pid, CGROUP_PROCS};

verus! {

/// One thing that a manager asks to be done for it. A plan is a list of
/// these, carried out in order; the first that fails ends the plan.
#[derive(Debug, Clone, PartialEq, Eq)]
pub enum Action {
    /// Create the directory, and the directories above it, unless it exists.
    CreateDir(String),
    /// Open the existing file, without creating or truncating it, and write
    /// the bytes.
    Write(String, Vec<u8>),
    /// Remove the directory.
    RemoveDir(String),
    /// Replace the device filter of the group that lives in the directory by
    /// the one that the text describes.
    DeviceFilter(String, Vec<u8>),
    /// Ask the init system for a transient scope whose group lives in the
    /// directory, with the process in it.
    StartScope(String, Pid),
    /// Tell the init system that the limits of the scope are about to change.
    UpdateScope(String),
    /// Ask the init system to end the scope.
    StopScope(String),
}

/// An action, with its path and bytes as the values that they are.
pub enum Step {
    CreateDir(Seq<char>),
    Write(Seq<char>, Seq<u8>),
    RemoveDir(Seq<char>),
    DeviceFilter(Seq<char>, Seq<u8>),
    StartScope(Seq<char>, Pid),
    UpdateScope(Seq<char>),
    StopScope(Seq<char>),
}

impl View for Action {
    type V = Step;

    open spec fn view(&self) -> Step {
        match *self {
            Action::CreateDir(path) => Step::CreateDir(path@),
            Action::Write(path, data) => Step::Write(path@, data@),
            Action::RemoveDir(path) => Step::RemoveDir(path@),
            Action::DeviceFilter(dir, text) => Step::DeviceFilter(dir@, text@),
            Action::StartScope(dir, pid) => Step::StartScope(dir@, pid),
            Action::UpdateScope(dir) => Step::UpdateScope(dir@),
            Action::StopScope(dir) => Step::StopScope(dir@),
        }
    }
}

impl Step {
    /// The path that the step touches.
    pub open spec fn target(self) -> Seq<char> {
        match self {
            Step::CreateDir(path) => path,
            Step::Write(path, _) => path,
            Step::RemoveDir(path) => path,
            Step::DeviceFilter(dir, _) => dir,
            Step::StartScope(dir, _) => dir,
            Step::UpdateScope(dir) => dir,
            Step::StopScope(dir) => dir,
        }
    }

    /// The step writes to a control file.
    pub open spec fn is_write(self) -> bool {
        self is Write
    }

    /// The step takes something away: a directory or a scope.
    pub open spec fn is_removal(self) -> bool {
        self is RemoveDir || self is StopScope
    }

    /// The stage at which the step fails when it is refused.
    pub open spec fn stage(self) -> IoStage {
        match self {
            Step::CreateDir(_) => IoStage::CreateDir,
            Step::Write(_, _) => IoStage::Write,
            Step::RemoveDir(_) => IoStage::RemoveDir,
            Step::DeviceFilter(_, _) => IoStage::Write,
            Step::StartScope(_, _) => IoStage::Request,
            Step::UpdateScope(_) => IoStage::Request,
            Step::StopScope(_) => IoStage::Request,
        }
    }
}

/// The steps of a plan.
pub open spec fn steps(plan: Seq<Action>) -> Seq<Step> {
    plan.map_values(|a: Action| a@)
}

/// `path` is the directory `dir` or lies below it.
pub open spec fn within(path: Seq<char>, dir: Seq<char>) -> bool {
    path == dir || starts_with(path, dir + seq!['/'])
}

/// `path` is one of `dirs` or lies below one of them.
pub open spec fn within_any(path: Seq<char>, dirs: Seq<Seq<char>>) -> bool {
    exists|i: int| 0 <= i < dirs.len() && within(path, #[trigger] dirs[i])
}

/// Every step of the plan touches a path in or below one of `dirs`.
pub open spec fn stays_within(plan: Seq<Step>, dirs: Seq<Seq<char>>) -> bool {
    forall|i: int| 0 <= i < plan.len() ==> within_any((#[trigger] plan[i]).target(), dirs)
}

/// Every step of the plan touches a path in or below `dir`.
pub open spec fn all_within(plan: Seq<Step>, dir: Seq<char>) -> bool {
    forall|i: int| 0 <= i < plan.len() ==> within((#[trigger] plan[i]).target(), dir)
}

/// No step of the plan writes to a control file.
pub open spec fn writes_nothing(plan: Seq<Step>) -> bool {
    forall|i: int| 0 <= i < plan.len() ==> !(#[trigger] plan[i]).is_write()
}

/// Every step of the plan takes something away.
pub open spec fn only_removes(plan: Seq<Step>) -> bool {
    forall|i: int| 0 <= i < plan.len() ==> (#[trigger] plan[i]).is_removal()
}

/// The step puts the process into the group that lives in `dir`: it writes
/// the process id to the membership file there, or asks for a scope there
/// with the process in it.
pub open spec fn places(step: Step, pid: Pid, dir: Seq<char>) -> bool {
    step == Step::Write(file_in(dir, CGROUP_PROCS@), signed_decimal(pid.0 as int)) || step
        == Step::StartScope(dir, pid)
}

/// A file in a directory lies below the directory.
pub proof fn lemma_file_within(dir: Seq<char>, name: Seq<char>)
    ensures
        within(file_in(dir, name), dir),
{
    let prefix = dir + seq!['/'];
    assert(file_in(dir, name).subrange(0, prefix.len() as int) =~= prefix);
}

/// A plan that stays below one of `dirs` stays within `dirs`.
pub proof fn lemma_all_within_one(plan: Seq<Step>, dirs: Seq<Seq<char>>, k: int)
    requires
        0 <= k < dirs.len(),
        all_within(plan, dirs[k]),
    ensures
        stays_within(plan, dirs),
{
    assert forall|i: int| 0 <= i < plan.len() implies within_any(
        (#[trigger] plan[i]).target(),
        dirs,
    ) by {
        assert(within(plan[i].target(), dirs[k]));
    }
}

/// Two plans that stay within `dirs` do so one after the other.
pub proof fn lemma_stays_within_concat(a: Seq<Step>, b: Seq<Step>, dirs: Seq<Seq<char>>)
    requires
        stays_within(a, dirs),
        stays_within(b, dirs),
    ensures
        stays_within(a + b, dirs),
{
    assert forall|i: int| 0 <= i < (a + b).len() implies within_any(
        (#[trigger] (a + b)[i]).target(),
        dirs,
    ) by {
        if i < a.len() {
            assert((a + b)[i] == a[i]);
        } else {
            assert((a + b)[i] == b[i - a.len()]);
        }
    }
}

/// How carrying out one action ended. Where the host refused, the error
/// number by which it said why is handed on as it came, if one came.
#[derive(Debug, Clone, Copy, PartialEq, Eq, Structural)]
pub enum Outcome {
    /// It was done.
    Done,
    /// What it was to work on does not exist.
    Missing,
    /// The file that it was to write to exists and could not be opened.
    Unopened(Option<i32>),
    /// It was refused: a value that was to be written was not taken, a
    /// directory not made or not removed, a request not met.
    Refused(Option<i32>),
}

/// What an outcome means for the plan: whether it goes on, and the error
/// with which it ends otherwise. To find nothing to take away is no failure;
/// to find no file to write to, or one that cannot be opened, fails at the
/// opening of the file. What the host said of a refusal is in the error
/// unchanged.
pub open spec fn settled(step: Step, outcome: Outcome) -> Result<(), Failure> {
    match outcome {
        Outcome::Done => Ok(()),
        Outcome::Missing => if step.is_removal() {
            Ok(())
        } else if step is Write {
            Err(Failure::Io(IoStage::Open, step.target(), None))
        } else {
            Err(Failure::Io(step.stage(), step.target(), None))
        },
        Outcome::Unopened(errno) => if step is Write {
            Err(Failure::Io(IoStage::Open, step.target(), errno))
        } else {
            Err(Failure::Io(step.stage(), step.target(), errno))
        },
        Outcome::Refused(errno) => Err(Failure::Io(step.stage(), step.target(), errno)),
    }
}

impl Action {
    /// The path that the action touches.
    pub fn target(&self) -> (path: &String)
        ensures
            path@ == self@.target(),
    {
        match self {
            Action::CreateDir(path) => path,
            Action::Write(path, _) => path,
            Action::RemoveDir(path) => path,
            Action::DeviceFilter(dir, _) => dir,
            Action::StartScope(dir, _) => dir,
            Action::UpdateScope(dir) => dir,
            Action::StopScope(dir) => dir,
        }
    }

    /// Decides from the outcome of the action whether the plan goes on.
    pub fn settle(&self, outcome: Outcome) -> (r: Result<(), CgroupError>)
        ensures
            r is Ok <==> settled(self@, outcome) is Ok,
            r matches Err(e) ==> settled(self@, outcome) == Err::<(), Failure>(e@),
    {
        let stage = match self {
            Action::CreateDir(_) => IoStage::CreateDir,
            Action::Write(_, _) => IoStage::Write,
            Action::RemoveDir(_) => IoStage::RemoveDir,
            Action::DeviceFilter(_, _) => IoStage::Write,
            Action::StartScope(_, _) => IoStage::Request,
            Action::UpdateScope(_) => IoStage::Request,
            Action::StopScope(_) => IoStage::Request,
        };
        match outcome {
            Outcome::Done => Ok(()),
            Outcome::Missing => match self {
                Action::RemoveDir(_) => Ok(()),
                Action::StopScope(_) => Ok(()),
                Action::Write(path, _) => Err(CgroupError::Io(IoStage::Open, path.clone(), None)),
                _ => Err(CgroupError::Io(stage, self.target().clone(), None)),
            },
            Outcome::Unopened(errno) => match self {
                Action::Write(path, _) => Err(CgroupError::Io(IoStage::Open, path.clone(), errno)),
                _ => Err(CgroupError::Io(stage, self.target().clone(), errno)),
            },
            Outcome::Refused(errno) => Err(CgroupError::Io(stage, self.target().clone(), errno)),
        }
    }
}

} // verus!
