use vstd::prelude::*;
use vstd::string::*;
use crate::error::{CgroupError, Failure, IoStage, SetupFailure};

verus! {

/// The one place at which the hierarchy is looked for.
pub const DEFAULT_CGROUP_ROOT: &'static str = "/sys/fs/cgroup";

/// Where a hybrid host mounts its idle unified hierarchy.
pub const UNIFIED_PROBE: &'static str = "/sys/fs/cgroup/unified";

/// The magic number of a unified hierarchy.
pub open spec fn cgroup2_magic() -> int {
    0x63677270
}

/// The magic number of the in-memory file system under which the
/// per-controller hierarchies are mounted.
pub open spec fn tmpfs_magic() -> int {
    0x01021994
}

/// `nix::sys::statfs::CGROUP2_SUPER_MAGIC`, as the number inside it: the
/// kernel's magic number for a unified hierarchy.
#[verifier::external_body]
fn cgroup2_super_magic() -> (m: i64)
    ensures
        m == cgroup2_magic(),
{
    nix::sys::statfs::CGROUP2_SUPER_MAGIC.0 as i64
}

/// `nix::sys::statfs::TMPFS_MAGIC`, as the number inside it: the kernel's magic
/// number for its in-memory file system.
#[verifier::external_body]
fn tmpfs_super_magic() -> (m: i64)
    ensures
        m == tmpfs_magic(),
{
    nix::sys::statfs::TMPFS_MAGIC.0 as i64
}

/// How the host lays out its control groups.
#[derive(Debug, Clone, Copy, PartialEq, Eq, Structural)]
pub enum CgroupSetup {
    /// Per-controller hierarchies, and a unified one that controls nothing.
    Hybrid,
    /// Per-controller hierarchies only.
    Legacy,
    /// One hierarchy for all controllers.
    Unified,
}

impl CgroupSetup {
    /// The lower-case name of the setup.
    pub open spec fn name(self) -> Seq<char> {
        match self {
            CgroupSetup::Hybrid => "hybrid"@,
            CgroupSetup::Legacy => "legacy"@,
            CgroupSetup::Unified => "unified"@,
        }
    }

    /// The lower-case name of the setup.
    pub fn as_str(&self) -> (s: &'static str)
        ensures
            s@ == self.name(),
    {
        match self {
            CgroupSetup::Hybrid => "hybrid",
            CgroupSetup::Legacy => "legacy",
            CgroupSetup::Unified => "unified",
        }
    }

    /// The name as an owned string, as it is shown to a user.
    pub fn to_string(&self) -> (s: String)
        ensures
            s@ == self.name(),
    {
        self.as_str().to_owned()
    }
}

/// What a look at one path found.
#[derive(Debug, Clone, Copy, PartialEq, Eq, Structural)]
pub enum Mount {
    /// Nothing exists at the path.
    Missing,
    /// The path exists, but its file system could not be queried; the error
    /// number by which the host said why, where it gave one.
    Unreadable(Option<i32>),
    /// The path exists on a file system with this magic number.
    Present(i64),
}

/// What was found at the default root and at the probe below it.
#[derive(Debug, Clone, Copy, PartialEq, Eq, Structural)]
pub struct HostProbe {
    /// The look at `DEFAULT_CGROUP_ROOT`.
    pub root: Mount,
    /// The look at `UNIFIED_PROBE`.
    pub unified: Mount,
}

/// The setup that a probe shows, or why it shows none. The root must exist
/// and hold a unified hierarchy or the in-memory file system of the
/// per-controller layout; below the latter, a unified hierarchy at the probe
/// path makes the host hybrid, and anything else there, or nothing, leaves it
/// legacy.
pub open spec fn detect(probe: HostProbe) -> Result<CgroupSetup, Failure> {
    match probe.root {
        Mount::Missing => Err(Failure::Setup(SetupFailure::RootMissing)),
        Mount::Unreadable(errno) => Err(Failure::Io(IoStage::Stat, DEFAULT_CGROUP_ROOT@, errno)),
        Mount::Present(m) => if m == cgroup2_magic() {
            Ok(CgroupSetup::Unified)
        } else if m == tmpfs_magic() {
            match probe.unified {
                Mount::Missing => Ok(CgroupSetup::Legacy),
                Mount::Unreadable(errno) => Err(Failure::Io(IoStage::Stat, UNIFIED_PROBE@, errno)),
                Mount::Present(u) => if u == cgroup2_magic() {
                    Ok(CgroupSetup::Hybrid)
                } else {
                    Ok(CgroupSetup::Legacy)
                },
            }
        } else {
            Err(Failure::Setup(SetupFailure::UnknownFilesystem))
        },
    }
}

/// Classifies the host from what was found at the default root and at the
/// probe below it.
pub fn get_cgroup_setup(probe: &HostProbe) -> (r: Result<CgroupSetup, CgroupError>)
    ensures
        r matches Ok(setup) ==> detect(*probe) == Ok::<CgroupSetup, Failure>(setup),
        r matches Err(e) ==> detect(*probe) == Err::<CgroupSetup, Failure>(e@),
{
    match probe.root {
        Mount::Missing => Err(CgroupError::Setup(SetupFailure::RootMissing)),
        Mount::Unreadable(errno) => Err(
            CgroupError::Io(IoStage::Stat, DEFAULT_CGROUP_ROOT.to_owned(), errno),
        ),
        Mount::Present(magic) => {
            if magic == cgroup2_super_magic() {
                Ok(CgroupSetup::Unified)
            } else if magic == tmpfs_super_magic() {
                match probe.unified {
                    Mount::Missing => Ok(CgroupSetup::Legacy),
                    Mount::Unreadable(errno) => Err(
                        CgroupError::Io(IoStage::Stat, UNIFIED_PROBE.to_owned(), errno),
                    ),
                    Mount::Present(below) => if below == cgroup2_super_magic() {
                        Ok(CgroupSetup::Hybrid)
                    } else {
                        Ok(CgroupSetup::Legacy)
                    },
                }
            } else {
                Err(CgroupError::Setup(SetupFailure::UnknownFilesystem))
            }
        },
    }
}

} // verus!
