use vstd::prelude::*;
use vstd::string::*;
use crate::decimal::decimal;
use crate::text::{as_chars, push_decimal};

verus! {

/// The directory that holds the state of containers where nothing else is
/// asked for and the runtime has the rights of the superuser.
pub const DEFAULT_ROOT: &'static str = "/run/youki";

/// The permission bits of a directory that its owner alone may read, write
/// and search.
pub open spec fn owner_only() -> u32 {
    0o700
}

/// `nix::sys::stat::Mode::S_IRWXU`, as its bits: leave for the owner to
/// read, write and search, and for nobody else to do anything.
#[verifier::external_body]
fn owner_mode() -> (mode: u32)
    ensures
        mode == owner_only(),
{
    nix::sys::stat::Mode::S_IRWXU.bits() as u32
}

/// One way to come by a directory for the state of containers.
#[derive(Debug, Clone, PartialEq, Eq)]
pub enum Attempt {
    /// The directory is taken as it is given. This cannot fail.
    Take(String),
    /// The directory is made, with the directories above it. If it cannot be
    /// made, there is no directory to be had.
    Create(String),
    /// The directory is made for the user, with the permission bits given
    /// and with the directories above it. If it cannot be made, the next
    /// attempt is made.
    CreateOwned(String, u32),
    /// The run directory below the home directory, once its links are
    /// resolved, is made for the user with the permission bits given. If
    /// the home directory cannot be resolved or the run directory cannot be
    /// made, the next attempt is made.
    CreateUnderHome(String, u32),
}

/// An attempt, with its path as the text that it is.
pub enum Try {
    Take(Seq<char>),
    Create(Seq<char>),
    CreateOwned(Seq<char>, u32),
    CreateUnderHome(Seq<char>, u32),
}

impl View for Attempt {
    type V = Try;

    open spec fn view(&self) -> Try {
        match *self {
            Attempt::Take(path) => Try::Take(path@),
            Attempt::Create(path) => Try::Create(path@),
            Attempt::CreateOwned(path, mode) => Try::CreateOwned(path@, mode),
            Attempt::CreateUnderHome(home, mode) => Try::CreateUnderHome(home@, mode),
        }
    }
}

/// What follows from how an attempt went.
#[derive(Debug, Clone, Copy, PartialEq, Eq, Structural)]
pub enum Verdict {
    /// The directory of the attempt is the one.
    Found,
    /// The next attempt is to be made.
    Next,
    /// There is no directory to be had.
    Failed,
}

/// What follows from how an attempt went.
pub open spec fn verdict(attempt: Try, succeeded: bool) -> Verdict {
    match attempt {
        Try::Take(_) => Verdict::Found,
        Try::Create(_) => if succeeded {
            Verdict::Found
        } else {
            Verdict::Failed
        },
        _ => if succeeded {
            Verdict::Found
        } else {
            Verdict::Next
        },
    }
}

/// The views of a list of attempts.
pub open spec fn tries(attempts: Seq<Attempt>) -> Seq<Try> {
    attempts.map_values(|a: Attempt| a@)
}

/// The attempts by which the directory for the state of containers is
/// found, in order. A directory that is asked for is taken. Without one, a
/// runtime with the rights of the superuser makes the default directory. A
/// runtime without them takes the runtime directory of the user where the
/// environment names one; else it tries the usual place of that directory,
/// then a run directory below the home directory where the environment
/// names one, then a directory of the user among the temporary files, each
/// for the user alone. When the attempts run out, there is no directory to
/// be had.
pub open spec fn root_attempts(
    given: Option<Seq<char>>,
    rootless: bool,
    runtime_dir: Option<Seq<char>>,
    home: Option<Seq<char>>,
    uid: u32,
) -> Seq<Try> {
    if given is Some {
        seq![Try::Take(given->0)]
    } else if !rootless {
        seq![Try::Create(DEFAULT_ROOT@)]
    } else if runtime_dir is Some {
        seq![Try::Take(runtime_dir->0)]
    } else {
        seq![Try::CreateOwned("/run/user/"@ + as_chars(decimal(uid as nat)), owner_only())] + (
        match home {
            Some(h) => seq![Try::CreateUnderHome(h, owner_only())],
            None => Seq::empty(),
        }) + seq![Try::CreateOwned("/tmp/youki/"@ + as_chars(decimal(uid as nat)), owner_only())]
    }
}

fn numbered(prefix: &str, uid: u32) -> (path: String)
    ensures
        path@ == prefix@ + as_chars(decimal(uid as nat)),
{
    let mut path = prefix.to_owned();
    push_decimal(&mut path, uid as u64);
    path
}

/// The text that may be there, as the value that it is.
pub open spec fn text_of(value: Option<String>) -> Option<Seq<char>> {
    match value {
        Some(s) => Some(s@),
        None => None,
    }
}

/// Lists the attempts by which the directory for the state of containers is
/// found: from the directory that was asked for, whether the runtime lacks
/// the rights of the superuser, what the environment names as the runtime
/// directory and the home directory of the user, and the number of the
/// user.
pub fn determine_root_path(
    root_path: Option<String>,
    rootless: bool,
    runtime_dir: Option<String>,
    home: Option<String>,
    uid: u32,
) -> (attempts: Vec<Attempt>)
    ensures
        tries(attempts@) == root_attempts(
            text_of(root_path),
            rootless,
            text_of(runtime_dir),
            text_of(home),
            uid,
        ),
{
    let mut attempts: Vec<Attempt> = Vec::new();
    if let Some(path) = root_path {
        attempts.push(Attempt::Take(path));
    } else if !rootless {
        attempts.push(Attempt::Create(DEFAULT_ROOT.to_owned()));
    } else if let Some(path) = runtime_dir {
        attempts.push(Attempt::Take(path));
    } else {
        let mode = owner_mode();
        attempts.push(Attempt::CreateOwned(numbered("/run/user/", uid), mode));
        if let Some(h) = home {
            attempts.push(Attempt::CreateUnderHome(h, mode));
        }
        attempts.push(Attempt::CreateOwned(numbered("/tmp/youki/", uid), mode));
    }
    assert(tries(attempts@) =~= root_attempts(
        text_of(root_path),
        rootless,
        text_of(runtime_dir),
        text_of(home),
        uid,
    ));
    attempts
}

/// The run directory below a home directory whose links are resolved.
pub fn run_dir_under(resolved_home: &str) -> (path: String)
    ensures
        path@ == resolved_home@ + "/.youki/run"@,
{
    let mut path = resolved_home.to_owned();
    path.append("/.youki/run");
    path
}

impl Attempt {
    /// Decides from how the attempt went what is done next.
    pub fn settle(&self, succeeded: bool) -> (v: Verdict)
        ensures
            v == verdict(self@, succeeded),
    {
        match self {
            Attempt::Take(_) => Verdict::Found,
            Attempt::Create(_) => if succeeded {
                Verdict::Found
            } else {
                Verdict::Failed
            },
            _ => if succeeded {
                Verdict::Found
            } else {
                Verdict::Next
            },
        }
    }
}

} // verus!
