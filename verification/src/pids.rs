use vstd::prelude::*;
use vstd::slice::slice_subrange;
use vstd::string::*;
use crate::decimal::{parse_i32, read_i32};
use crate::error::{CgroupError, Failure, IoStage};
use crate::path::{control_file, file_in};

verus! {

/// The file that lists the processes of a control group, one id to a line.
pub const CGROUP_PROCS: &'static str = "cgroup.procs";

/// The byte that ends a line.
pub const NEWLINE: u8 = 10;

/// The byte that may precede the end of a line.
pub const CARRIAGE_RETURN: u8 = 13;

/// A process id.
#[derive(Debug, Clone, Copy, PartialEq, Eq, Hash, Structural)]
pub struct Pid(pub i32);

impl Pid {
    /// The process id with the number `raw`.
    pub fn from_raw(raw: i32) -> (p: Pid)
        ensures
            p == Pid(raw),
    {
        Pid(raw)
    }

    /// The number of the process id.
    pub fn as_raw(self) -> (raw: i32)
        ensures
            raw == self.0,
    {
        self.0
    }
}

/// The place of the first line end in `s` at or after `from`, or the length
/// of `s` where there is none.
pub open spec fn next_newline(s: Seq<u8>, from: int) -> int
    decreases s.len() - from,
{
    if from < 0 || from >= s.len() {
        s.len() as int
    } else if s[from] == 10 {
        from
    } else {
        next_newline(s, from + 1)
    }
}

/// The line of `s` that starts at `from`, without its end: without the line
/// end, and without a carriage return just before the line end. A last line
/// that no line end closes is taken whole.
pub open spec fn line_at(s: Seq<u8>, from: int) -> Seq<u8> {
    let end = next_newline(s, from);
    if end < s.len() && from < end && s[end - 1] == 13 {
        s.subrange(from, end - 1)
    } else {
        s.subrange(from, end)
    }
}

/// The process ids that the lines of `s` from `from` on list, in order; `None`
/// where a line is no `i32`.
pub open spec fn listed_pids_from(s: Seq<u8>, from: int) -> Option<Seq<Pid>>
    decreases s.len() + 1 - from,
    via listed_pids_from_ends
{
    if from < 0 || from >= s.len() {
        Some(Seq::empty())
    } else {
        match (parse_i32(line_at(s, from)), listed_pids_from(s, next_newline(s, from) + 1)) {
            (Some(raw), Some(rest)) => Some(seq![Pid(raw)] + rest),
            _ => None,
        }
    }
}

#[via_fn]
proof fn listed_pids_from_ends(s: Seq<u8>, from: int) {
    if 0 <= from < s.len() {
        lemma_next_newline_bounds(s, from);
    }
}

/// The process ids that a membership file with the content `s` lists: one to
/// a line, each an `i32` as text. `None` where a line is anything else, an
/// empty line too.
pub open spec fn listed_pids(s: Seq<u8>) -> Option<Seq<Pid>> {
    listed_pids_from(s, 0)
}

/// The next line end lies at or after the place from which it is sought, and
/// no line end lies between.
pub proof fn lemma_next_newline_bounds(s: Seq<u8>, from: int)
    requires
        0 <= from <= s.len(),
    ensures
        from <= next_newline(s, from) <= s.len(),
        next_newline(s, from) < s.len() ==> s[next_newline(s, from)] == 10,
        forall|i: int| from <= i < next_newline(s, from) ==> s[i] != 10,
    decreases s.len() - from,
{
    if from < s.len() && s[from] != 10 {
        lemma_next_newline_bounds(s, from + 1);
    }
}

/// Finds the end of the line that starts at `from`.
fn find_newline(s: &[u8], from: usize) -> (end: usize)
    requires
        from <= s.len(),
    ensures
        end == next_newline(s@, from as int),
        from <= end <= s.len(),
{
    let mut i: usize = from;
    while i < s.len() && s[i] != NEWLINE
        invariant
            from <= i <= s.len(),
            next_newline(s@, from as int) == next_newline(s@, i as int),
        decreases s.len() - i,
    {
        i += 1;
    }
    i
}

/// Reads the process ids that a membership file lists. `None` where a line is
/// no process id.
pub fn read_membership(content: &[u8]) -> (r: Option<Vec<Pid>>)
    ensures
        r matches Some(pids) ==> listed_pids(content@) == Some(pids@),
        r is None ==> listed_pids(content@) is None,
{
    let mut pids: Vec<Pid> = Vec::new();
    let mut from: usize = 0;
    while from < content.len()
        invariant
            from <= content.len(),
            listed_pids(content@) == match listed_pids_from(content@, from as int) {
                Some(rest) => Some(pids@ + rest),
                None => None,
            },
        decreases content.len() - from,
    {
        let end = find_newline(content, from);
        let closed = end < content.len();
        let stop = if closed && from < end && content[end - 1] == CARRIAGE_RETURN {
            end - 1
        } else {
            end
        };
        let line = slice_subrange(content, from, stop);
        assert(line@ == line_at(content@, from as int));
        match read_i32(line) {
            None => {
                return None;
            },
            Some(raw) => {
                let ghost before = pids@;
                pids.push(Pid(raw));
                proof {
                    let rest = listed_pids_from(content@, end + 1);
                    if rest is Some {
                        assert(before + (seq![Pid(raw)] + rest->0) =~= pids@ + rest->0);
                    }
                }
            },
        }
        from = if closed { end + 1 } else { end };
    }
    assert(pids@ + Seq::<Pid>::empty() =~= pids@);
    Some(pids)
}

/// What reading one file gave.
#[derive(Debug, Clone, PartialEq, Eq)]
pub enum FileRead {
    /// There is no such file.
    Absent,
    /// The file exists and could not be read; the error number by which the
    /// host said why, where it gave one.
    Unreadable(Option<i32>),
    /// The bytes of the file.
    Content(Vec<u8>),
}

/// What listing one directory gave.
#[derive(Debug, Clone, Copy, PartialEq, Eq, Structural)]
pub enum Listing {
    /// The directory was listed.
    Listed,
    /// The directory could not be listed; the error number by which the host
    /// said why, where it gave one.
    Unlistable(Option<i32>),
}

/// A directory of a control-group hierarchy as it was found: its membership
/// file and its subdirectories, in the order in which the file system lists
/// them.
#[derive(Debug, PartialEq, Eq)]
pub struct CgroupDir {
    /// The path of the directory.
    pub path: String,
    /// The membership file of the directory.
    pub procs: FileRead,
    /// Whether the directory could be listed.
    pub listing: Listing,
    /// The subdirectories, where the directory could be listed.
    pub children: Vec<CgroupDir>,
}

/// `head`, then `tail`; the first failure where there is one.
pub open spec fn then_pids(
    head: Result<Seq<Pid>, Failure>,
    tail: Result<Seq<Pid>, Failure>,
) -> Result<Seq<Pid>, Failure> {
    match head {
        Err(e) => Err(e),
        Ok(h) => match tail {
            Err(e) => Err(e),
            Ok(t) => Ok(h + t),
        },
    }
}

/// The process ids that the membership file of `dir` itself lists: none
/// where it has no such file.
pub open spec fn own_pids(dir: CgroupDir) -> Result<Seq<Pid>, Failure> {
    let file = file_in(dir.path@, CGROUP_PROCS@);
    match dir.procs {
        FileRead::Absent => Ok(Seq::empty()),
        FileRead::Unreadable(errno) => Err(Failure::Io(IoStage::Open, file, errno)),
        FileRead::Content(bytes) => match listed_pids(bytes@) {
            Some(pids) => Ok(pids),
            None => Err(Failure::Parse(file)),
        },
    }
}

/// The process ids in `dir` and in every directory below it: those of a
/// directory before those of its subdirectories, the subdirectories in the
/// order in which they are listed, nothing left out and nothing merged. The
/// first failure in that order where there is one: a membership file that
/// cannot be read or holds a line that is no process id, or a directory that
/// cannot be listed.
pub open spec fn all_pids(dir: CgroupDir) -> Result<Seq<Pid>, Failure>
    decreases dir, 0nat,
{
    let below = match dir.listing {
        Listing::Listed => all_pids_of(dir.children@),
        Listing::Unlistable(errno) => Err(Failure::Io(IoStage::Read, dir.path@, errno)),
    };
    then_pids(own_pids(dir), below)
}

/// The process ids in and below each of `dirs`, in order.
pub open spec fn all_pids_of(dirs: Seq<CgroupDir>) -> Result<Seq<Pid>, Failure>
    decreases dirs, dirs.len(),
{
    if dirs.len() == 0 {
        Ok(Seq::empty())
    } else {
        then_pids(all_pids_of(dirs.drop_last()), all_pids(dirs.last()))
    }
}

/// Collects the process ids of a directory and of all directories below it.
pub fn get_all_pids(dir: &CgroupDir) -> (r: Result<Vec<Pid>, CgroupError>)
    ensures
        r matches Ok(pids) ==> all_pids(*dir) == Ok::<Seq<Pid>, Failure>(pids@),
        r matches Err(e) ==> all_pids(*dir) == Err::<Seq<Pid>, Failure>(e@),
    decreases dir,
{
    let mut pids: Vec<Pid> = match &dir.procs {
        FileRead::Absent => Vec::new(),
        FileRead::Unreadable(errno) => {
            return Err(
                CgroupError::Io(IoStage::Open, control_file(&dir.path, CGROUP_PROCS), *errno),
            );
        },
        FileRead::Content(bytes) => match read_membership(bytes.as_slice()) {
            Some(pids) => pids,
            None => {
                return Err(CgroupError::Parse(control_file(&dir.path, CGROUP_PROCS)));
            },
        },
    };
    assert(own_pids(*dir) == Ok::<Seq<Pid>, Failure>(pids@));
    match dir.listing {
        Listing::Listed => {},
        Listing::Unlistable(errno) => {
            return Err(CgroupError::Io(IoStage::Read, dir.path.clone(), errno));
        },
    }
    let ghost own = pids@;
    let mut i: usize = 0;
    while i < dir.children.len()
        invariant
            i <= dir.children.len(),
            dir.listing is Listed,
            own_pids(*dir) == Ok::<Seq<Pid>, Failure>(own),
            all_pids_of(dir.children@.subrange(0, i as int)) matches Ok(below) && pids@ == own
                + below,
        decreases dir.children.len() - i,
    {
        let ghost upto = dir.children@.subrange(0, i + 1);
        assert(upto.drop_last() =~= dir.children@.subrange(0, i as int));
        assert(upto.last() == dir.children@[i as int]);
        match get_all_pids(&dir.children[i]) {
            Err(e) => {
                proof {
                    lemma_failure_stays(dir.children@, i + 1);
                }
                return Err(e);
            },
            Ok(mut found) => {
                let ghost before = pids@;
                let ghost added = found@;
                pids.append(&mut found);
                assert(pids@ =~= own + (all_pids_of(upto.drop_last())->Ok_0 + added)) by {
                    assert(pids@ == before + added);
                };
            },
        }
        i += 1;
    }
    assert(dir.children@.subrange(0, i as int) =~= dir.children@);
    Ok(pids)
}

/// A failure among the first `k` of `dirs` is the failure of all of them.
pub proof fn lemma_failure_stays(dirs: Seq<CgroupDir>, k: int)
    requires
        0 <= k <= dirs.len(),
        all_pids_of(dirs.subrange(0, k)) is Err,
    ensures
        all_pids_of(dirs) == all_pids_of(dirs.subrange(0, k)),
    decreases dirs.len() - k,
{
    if k == dirs.len() {
        assert(dirs.subrange(0, k) =~= dirs);
    } else {
        assert(dirs.subrange(0, k + 1).drop_last() =~= dirs.subrange(0, k));
        lemma_failure_stays(dirs, k + 1);
    }
}

} // verus!
