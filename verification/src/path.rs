use vstd::prelude::*;
use vstd::string::*;
use crate::error::{CgroupError, Failure};

verus! {

/// A path is absolute when it starts at the root.
pub open spec fn is_absolute(p: Seq<char>) -> bool {
    p.len() > 0 && p[0] == '/'
}

/// What may be joined to a base: nothing, or an absolute path.
pub open spec fn is_joinable(suffix: Seq<char>) -> bool {
    suffix.len() == 0 || is_absolute(suffix)
}

/// `path` begins with the text of `base`.
pub open spec fn starts_with(path: Seq<char>, base: Seq<char>) -> bool {
    base.len() <= path.len() && path.subrange(0, base.len() as int) == base
}

/// Joins `suffix` to `base` as text. A relative `suffix` is refused, since it
/// could lead out of `base`; nothing is normalised afterwards.
pub fn join_safely(base: &str, suffix: &str) -> (r: Result<String, CgroupError>)
    ensures
        r is Ok <==> is_joinable(suffix@),
        r matches Ok(p) ==> p@ == base@ + suffix@,
        r matches Err(e) ==> e@ == Failure::Path(suffix@),
{
    if !suffix.is_empty() && suffix.get_char(0) != '/' {
        return Err(CgroupError::Path(suffix.to_owned()));
    }
    let mut joined = base.to_owned();
    joined.append(suffix);
    Ok(joined)
}

/// The path of the file `name` in the directory `dir`.
pub open spec fn file_in(dir: Seq<char>, name: Seq<char>) -> Seq<char> {
    dir + seq!['/'] + name
}

/// The path of the file `name` in the directory `dir`: the two with a
/// separator between them.
pub fn control_file(dir: &str, name: &str) -> (p: String)
    ensures
        p@ == file_in(dir@, name@),
{
    let mut p = dir.to_owned();
    proof {
        reveal_strlit("/");
        assert("/"@ =~= seq!['/']);
    }
    p.append("/");
    p.append(name);
    p
}

} // verus!
