use vstd::prelude::*;
use vstd::string::*;
use crate::action::{
    all_within, lemma_file_within, steps, within, Action, Step,
};
use crate::decimal::{decimal, signed_decimal, write_i64, write_u64};
use crate::devices::{default_allow_devices, default_allow_rules, rule_text, DeviceRule};
use crate::path::{control_file, file_in};
use crate::pids::{Pid, CGROUP_PROCS};
use crate::stats::{max_word, path_views};

verus! {

/// The bytes that may be there, as the values that they are.
pub open spec fn bytes_of(value: Option<Vec<u8>>) -> Option<Seq<u8>> {
    match value {
        Some(v) => Some(v@),
        None => None,
    }
}

/// The text of a count that may be set.
pub open spec fn count_text(value: Option<u64>) -> Option<Seq<u8>> {
    match value {
        Some(n) => Some(decimal(n as nat)),
        None => None,
    }
}

/// The text of an amount that may be set, with its sign.
pub open spec fn amount_text(value: Option<i64>) -> Option<Seq<u8>> {
    match value {
        Some(n) => Some(signed_decimal(n as int)),
        None => None,
    }
}

/// The text of a limit for which zero or less means none: the number, or the
/// word `max`.
pub open spec fn limit_text(limit: i64) -> Seq<u8> {
    if limit > 0 {
        decimal(limit as nat)
    } else {
        max_word()
    }
}

/// The text of a count that may be set.
pub fn count_bytes(value: Option<u64>) -> (r: Option<Vec<u8>>)
    ensures
        bytes_of(r) == count_text(value),
{
    match value {
        Some(n) => Some(write_u64(n)),
        None => None,
    }
}

/// The text of an amount that may be set.
pub fn amount_bytes(value: Option<i64>) -> (r: Option<Vec<u8>>)
    ensures
        bytes_of(r) == amount_text(value),
{
    match value {
        Some(n) => Some(write_i64(n)),
        None => None,
    }
}

/// The word `max`.
pub fn max_bytes() -> (r: Vec<u8>)
    ensures
        r@ == max_word(),
{
    let mut r: Vec<u8> = Vec::new();
    r.push('m' as u8);
    r.push('a' as u8);
    r.push('x' as u8);
    assert(r@ =~= max_word());
    r
}

/// The text of a limit for which zero or less means none.
pub fn limit_bytes(limit: i64) -> (r: Vec<u8>)
    ensures
        r@ == limit_text(limit),
{
    if limit > 0 {
        write_u64(limit as u64)
    } else {
        max_bytes()
    }
}

/// The step that writes `data` to the file `name` in `dir`.
pub open spec fn write_step(dir: Seq<char>, name: Seq<char>, data: Seq<u8>) -> Step {
    Step::Write(file_in(dir, name), data)
}

/// The steps that one setting takes: one write where it is set, none where
/// it is not.
pub open spec fn setting(dir: Seq<char>, name: Seq<char>, value: Option<Seq<u8>>) -> Seq<Step> {
    match value {
        Some(data) => seq![write_step(dir, name, data)],
        None => Seq::empty(),
    }
}

/// A plan that has grown by one section, or by none where the section is
/// empty, has grown by all sections so far.
pub proof fn lemma_section_added(
    before: Seq<Step>,
    done: Seq<Step>,
    section: Seq<Step>,
    now: Seq<Step>,
)
    requires
        now == before + done + section || (section == Seq::<Step>::empty() && now == before
            + done),
    ensures
        now == before + (done + section),
{
    assert(before + done + section =~= before + (done + section));
    if section == Seq::<Step>::empty() {
        assert(before + done =~= before + (done + section));
    }
}

/// Adds one write to a plan.
pub fn put_write(plan: &mut Vec<Action>, dir: &str, name: &str, data: Vec<u8>)
    ensures
        steps(final(plan)@) == steps(old(plan)@).push(write_step(dir@, name@, data@)),
{
    plan.push(Action::Write(control_file(dir, name), data));
    assert(steps(plan@) =~= steps(old(plan)@).push(write_step(dir@, name@, data@)));
}

/// What is done once for each directory of a group.
#[derive(Debug, Clone, Copy, PartialEq, Eq, Structural)]
pub enum PerDir {
    /// The directory is created.
    Create,
    /// The directory is removed.
    Remove,
    /// The process is written to the membership file of the directory.
    Place(Pid),
}

/// The step that does `what` for `dir`.
pub open spec fn dir_step(what: PerDir, dir: Seq<char>) -> Step {
    match what {
        PerDir::Create => Step::CreateDir(dir),
        PerDir::Remove => Step::RemoveDir(dir),
        PerDir::Place(pid) => write_step(dir, CGROUP_PROCS@, signed_decimal(pid.0 as int)),
    }
}

/// The steps that do `what` for each of `dirs`, in order.
pub open spec fn for_each_dir(what: PerDir, dirs: Seq<Seq<char>>) -> Seq<Step> {
    dirs.map_values(|d: Seq<char>| dir_step(what, d))
}

/// The file to which a device rule is written.
pub open spec fn rule_file(rule: DeviceRule) -> Seq<char> {
    if rule.allow {
        "devices.allow"@
    } else {
        "devices.deny"@
    }
}

/// The steps that write device rules, one line to a rule: the rules that
/// every container gets, then `rules`, in their order, since a later rule
/// for the same device overrides an earlier one.
pub open spec fn device_lines(dir: Seq<char>, rules: Seq<DeviceRule>) -> Seq<Step> {
    (default_allow_rules() + rules).map_values(
        |r: DeviceRule| write_step(dir, rule_file(r), rule_text(r)),
    )
}

/// Adds the steps of one setting to a plan.
pub fn put(plan: &mut Vec<Action>, dir: &str, name: &str, value: Option<Vec<u8>>)
    ensures
        steps(final(plan)@) == steps(old(plan)@) + setting(dir@, name@, bytes_of(value)),
{
    match value {
        Some(data) => {
            plan.push(Action::Write(control_file(dir, name), data));
            assert(steps(plan@) =~= steps(old(plan)@) + setting(dir@, name@, Some(data@)));
        },
        None => {
            assert(steps(plan@) =~= steps(old(plan)@) + Seq::<Step>::empty());
        },
    }
}

/// Adds to a plan the steps that do `what` for each of `dirs`.
pub fn put_each(plan: &mut Vec<Action>, what: PerDir, dirs: &Vec<String>)
    ensures
        steps(final(plan)@) == steps(old(plan)@) + for_each_dir(what, path_views(dirs@)),
{
    let ghost before = steps(plan@);
    let ghost paths = path_views(dirs@);
    let mut i: usize = 0;
    while i < dirs.len()
        invariant
            i <= dirs.len(),
            paths == path_views(dirs@),
            steps(plan@) == before + for_each_dir(what, paths.subrange(0, i as int)),
        decreases dirs.len() - i,
    {
        let ghost so_far = steps(plan@);
        let dir = &dirs[i];
        let action = match what {
            PerDir::Create => Action::CreateDir(dir.clone()),
            PerDir::Remove => Action::RemoveDir(dir.clone()),
            PerDir::Place(pid) => Action::Write(
                control_file(dir.as_str(), CGROUP_PROCS),
                write_i64(pid.0 as i64),
            ),
        };
        assert(action@ == dir_step(what, paths[i as int]));
        plan.push(action);
        assert(steps(plan@) =~= so_far.push(dir_step(what, paths[i as int])));
        assert(for_each_dir(what, paths.subrange(0, i + 1)) =~= for_each_dir(
            what,
            paths.subrange(0, i as int),
        ).push(dir_step(what, paths[i as int])));
        i += 1;
    }
    assert(paths.subrange(0, i as int) =~= paths);
}

/// Adds to a plan the steps that write device rules.
pub fn put_device_lines(plan: &mut Vec<Action>, dir: &str, rules: &Vec<DeviceRule>)
    ensures
        steps(final(plan)@) == steps(old(plan)@) + device_lines(dir@, rules@),
{
    let ghost before = steps(plan@);
    let mut all = default_allow_devices();
    let mut i: usize = 0;
    while i < rules.len()
        invariant
            i <= rules.len(),
            all@ == default_allow_rules() + rules@.subrange(0, i as int),
        decreases rules.len() - i,
    {
        all.push(rules[i]);
        assert(all@ =~= default_allow_rules() + rules@.subrange(0, i + 1));
        i += 1;
    }
    assert(rules@.subrange(0, i as int) =~= rules@);
    let ghost lines = device_lines(dir@, rules@);
    let mut k: usize = 0;
    while k < all.len()
        invariant
            k <= all.len(),
            all@ == default_allow_rules() + rules@,
            lines == device_lines(dir@, rules@),
            steps(plan@) == before + lines.subrange(0, k as int),
        decreases all.len() - k,
    {
        let ghost so_far = steps(plan@);
        let rule = all[k];
        let name = if rule.allow { "devices.allow" } else { "devices.deny" };
        plan.push(Action::Write(control_file(dir, name), rule.to_text()));
        assert(steps(plan@) =~= so_far.push(lines[k as int]));
        assert(lines.subrange(0, k + 1) =~= lines.subrange(0, k as int).push(lines[k as int]));
        k += 1;
    }
    assert(lines.subrange(0, k as int) =~= lines);
}

/// One setting stays in its directory.
pub proof fn lemma_setting_within(dir: Seq<char>, name: Seq<char>, value: Option<Seq<u8>>)
    ensures
        all_within(setting(dir, name, value), dir),
{
    lemma_file_within(dir, name);
}

/// Device rules are written in the directory.
pub proof fn lemma_device_lines_within(dir: Seq<char>, rules: Seq<DeviceRule>)
    ensures
        all_within(device_lines(dir, rules), dir),
{
    let lines = device_lines(dir, rules);
    assert forall|i: int| 0 <= i < lines.len() implies within(
        (#[trigger] lines[i]).target(),
        dir,
    ) by {
        lemma_file_within(dir, rule_file((default_allow_rules() + rules)[i]));
    }
}

/// Two plans that stay in one directory do so one after the other.
pub proof fn lemma_all_within_concat(a: Seq<Step>, b: Seq<Step>, dir: Seq<char>)
    requires
        all_within(a, dir),
        all_within(b, dir),
    ensures
        all_within(a + b, dir),
{
    assert forall|i: int| 0 <= i < (a + b).len() implies within(
        (#[trigger] (a + b)[i]).target(),
        dir,
    ) by {
        if i < a.len() {
            assert((a + b)[i] == a[i]);
        } else {
            assert((a + b)[i] == b[i - a.len()]);
        }
    }
}

} // verus!
