use vstd::prelude::*;
use vstd::string::*;
use crate::action::{
    all_within, lemma_all_within_one, lemma_file_within, places,
    stays_within, steps, within, within_any, Action, Step,
};
use crate::decimal::{decimal, write_u64};
use crate::devices::{default_allow_devices, default_allow_rules, rule_text, DeviceRule};
use crate::error::{CgroupError, Failure};
use crate::limits::{
    hugepage_file, hugepage_plan, lemma_hugepages_within, lemma_rdma_within, lemma_throttle_within,
    put_hugepages, put_rdma, put_throttle, rdma_plan, throttle_plan,
};
use crate::manager::{CgroupManager, FreezerState};
use crate::path::{control_file, file_in, is_joinable, join_safely};
use crate::pids::{get_all_pids, CgroupDir, FileRead, Pid, CGROUP_PROCS, NEWLINE};
use crate::plan::{
    bytes_of, count_text, lemma_all_within_concat, lemma_section_added,
    limit_bytes, limit_text, max_bytes, put, put_each, setting,
    write_step, PerDir,
};
use crate::resources::{LinuxBlockIo, LinuxCpu, LinuxMemory, LinuxPids, LinuxResources};
use crate::stats::{
    keyed, max_word, path_views, plain, push_usage_files, read_stats, source_views,
    stats_from, usage_files, Source, SourceView, Stats, StatsView,
};
use crate::text::{ascii, ascii_bytes};

verus! {

/// The weight that stands for a share of processor time: shares from 2 to
/// 262144 are spread evenly over weights from 1 to 10000, and shares beyond
/// either end count as the end.
pub open spec fn cpu_weight(shares: u64) -> u64 {
    let bounded: int = if shares < 2 {
        2
    } else if shares > 262144 {
        262144
    } else {
        shares as int
    };
    (1 + ((bounded - 2) * 9999) / 262142) as u64
}

/// The text of the weight; none where no share is set, or a share of zero.
pub open spec fn weight_text(shares: Option<u64>) -> Option<Seq<u8>> {
    match shares {
        Some(s) if s != 0 => Some(decimal(cpu_weight(s) as nat)),
        _ => None,
    }
}

/// The text of a quota and a period in their one file: the quota, or the
/// word `max` where the quota is not set or is zero or less; then, where the
/// period is set, a space and the period. None where neither is set.
pub open spec fn cpu_max_text(quota: Option<i64>, period: Option<u64>) -> Option<Seq<u8>> {
    if quota is None && period is None {
        None
    } else {
        let first = match quota {
            Some(q) => limit_text(q),
            None => max_word(),
        };
        let second = match period {
            Some(p) => seq![' ' as u8] + decimal(p as nat),
            None => Seq::empty(),
        };
        Some(first + second)
    }
}

/// The text of an amount of memory for which a negative amount means no
/// limit: the number, or the word `max`.
pub open spec fn unbounded_text(amount: Option<i64>) -> Option<Seq<u8>> {
    match amount {
        Some(a) => Some(
            if a < 0 {
                max_word()
            } else {
                decimal(a as nat)
            },
        ),
        None => None,
    }
}

/// The steps that set the limits on processor time.
pub open spec fn cpu_plan(dir: Seq<char>, cpu: LinuxCpu) -> Seq<Step> {
    setting(dir, "cpu.weight"@, weight_text(cpu.shares)) + setting(
        dir,
        "cpu.max"@,
        cpu_max_text(cpu.quota, cpu.period),
    )
}

/// The steps that set the limits on memory.
pub open spec fn memory_plan(dir: Seq<char>, memory: LinuxMemory) -> Seq<Step> {
    setting(dir, "memory.max"@, unbounded_text(memory.limit)) + setting(
        dir,
        "memory.swap.max"@,
        unbounded_text(memory.swap),
    ) + setting(dir, "memory.low"@, unbounded_text(memory.reservation))
}

/// The step that sets the limit on the number of processes.
pub open spec fn pids_plan(dir: Seq<char>, pids: LinuxPids) -> Seq<Step> {
    seq![write_step(dir, "pids.max"@, limit_text(pids.limit))]
}

/// The steps that set the limits on block devices: the weight, then the
/// limits on rates, each with the key of its kind.
pub open spec fn io_plan(dir: Seq<char>, block_io: LinuxBlockIo) -> Seq<Step> {
    setting(
        dir,
        "io.weight"@,
        count_text(
            match block_io.weight {
                Some(w) => Some(w as u64),
                None => None,
            },
        ),
    ) + throttle_plan(dir, "io.max"@, Some(ascii("rbps"@)), block_io.throttle_read_bps_device@)
        + throttle_plan(dir, "io.max"@, Some(ascii("wbps"@)), block_io.throttle_write_bps_device@)
        + throttle_plan(dir, "io.max"@, Some(ascii("riops"@)), block_io.throttle_read_iops_device@)
        + throttle_plan(
        dir,
        "io.max"@,
        Some(ascii("wiops"@)),
        block_io.throttle_write_iops_device@,
    )
}

/// One rule of a device filter as text: the word `allow` or `deny`, a space,
/// the rule as the kernel's device files read one, and a line end.
pub open spec fn filter_line(rule: DeviceRule) -> Seq<u8> {
    (if rule.allow {
        ascii("allow "@)
    } else {
        ascii("deny "@)
    }) + rule_text(rule) + seq![10u8]
}

/// The rules of a device filter as text, one line to a rule, in order.
pub open spec fn filter_text(rules: Seq<DeviceRule>) -> Seq<u8>
    decreases rules.len(),
{
    if rules.len() == 0 {
        Seq::empty()
    } else {
        filter_text(rules.drop_last()) + filter_line(rules.last())
    }
}

/// The step that sets the device filter: the rules that every container
/// gets, then `rules`.
pub open spec fn device_filter(dir: Seq<char>, rules: Seq<DeviceRule>) -> Seq<Step> {
    seq![Step::DeviceFilter(dir, filter_text(default_allow_rules() + rules))]
}

/// The steps that put limits on a group in a unified hierarchy: each limit
/// that is set goes to its file in the one directory of the group. The
/// unified hierarchy has no files for the marking of network packets, so
/// nothing is done for it.
pub open spec fn limits_plan(dir: Seq<char>, resources: LinuxResources) -> Seq<Step> {
    (match resources.cpu {
        Some(cpu) => cpu_plan(dir, cpu),
        None => Seq::empty(),
    }) + (match resources.memory {
        Some(memory) => memory_plan(dir, memory),
        None => Seq::empty(),
    }) + (match resources.pids {
        Some(pids) => pids_plan(dir, pids),
        None => Seq::empty(),
    }) + (match resources.devices {
        Some(rules) => device_filter(dir, rules@),
        None => Seq::empty(),
    }) + (match resources.block_io {
        Some(block_io) => io_plan(dir, block_io),
        None => Seq::empty(),
    }) + (match resources.hugepage_limits {
        Some(limits) => hugepage_plan(dir, ".max"@, true, limits@),
        None => Seq::empty(),
    }) + (match resources.rdma {
        Some(limits) => rdma_plan(dir, limits@),
        None => Seq::empty(),
    })
}

/// The word by which the one freezer file knows a state that can be asked
/// for.
pub open spec fn freeze_word(state: FreezerState) -> Seq<u8> {
    if state == FreezerState::Frozen {
        seq!['1' as u8]
    } else {
        seq!['0' as u8]
    }
}

/// The step that freezes or thaws a group in a unified hierarchy; nothing
/// for the state that cannot be asked for.
pub open spec fn freeze_plan(dir: Seq<char>, state: FreezerState) -> Seq<Step> {
    if state == FreezerState::Freezing {
        Seq::empty()
    } else {
        seq![write_step(dir, "cgroup.freeze"@, freeze_word(state))]
    }
}

/// The files from which a snapshot of a group in a unified hierarchy is
/// made: those of memory, processor time, processes and block devices, then
/// those of huge pages of the sizes `page_sizes`.
pub open spec fn stat_files(dir: Seq<char>, page_sizes: Seq<Seq<char>>) -> Seq<Seq<char>> {
    fixed_stat_files(dir) + usage_files(dir, ".current"@, page_sizes)
}

/// The files of a snapshot that are read whatever is asked about.
pub open spec fn fixed_stat_files(dir: Seq<char>) -> Seq<Seq<char>> {
    seq![
        file_in(dir, "memory.current"@),
        file_in(dir, "memory.max"@),
        file_in(dir, "memory.events"@),
        file_in(dir, "cpu.stat"@),
        file_in(dir, "pids.current"@),
        file_in(dir, "pids.max"@),
        file_in(dir, "io.weight"@),
        file_in(dir, "io.stat"@),
    ]
}

/// The snapshot of a group in a unified hierarchy, from what was read of the
/// files of `stat_files`.
pub open spec fn stats_of_dir(
    dir: Seq<char>,
    page_sizes: Seq<Seq<char>>,
    reads: Seq<FileRead>,
) -> Result<StatsView, Failure> {
    stats_from(stat_files(dir, page_sizes), stat_sources(), 7, '=' as u8, page_sizes, reads)
}

/// The sources of a snapshot, over the files of `stat_files`. The counters
/// of throttling are only there while the processor controller is on, and
/// the weight only where the host has the controller for block devices.
pub open spec fn stat_sources() -> Seq<SourceView> {
    seq![
        plain(0),
        plain(1),
        keyed(2, ascii("max"@), false),
        keyed(3, ascii("usage_usec"@), false),
        keyed(3, ascii("nr_periods"@), true),
        keyed(3, ascii("nr_throttled"@), true),
        keyed(3, ascii("throttled_usec"@), true),
        plain(4),
        plain(5),
        keyed(6, ascii("default"@), true),
    ]
}

/// The weight that stands for a share of processor time.
pub fn weight_of(shares: u64) -> (w: u64)
    ensures
        w == cpu_weight(shares),
{
    let bounded: u64 = if shares < 2 {
        2
    } else if shares > 262144 {
        262144
    } else {
        shares
    };
    1 + ((bounded - 2) * 9999) / 262142
}

fn weight_bytes(shares: Option<u64>) -> (r: Option<Vec<u8>>)
    ensures
        bytes_of(r) == weight_text(shares),
{
    match shares {
        Some(s) => if s != 0 {
            Some(write_u64(weight_of(s)))
        } else {
            None
        },
        None => None,
    }
}

fn cpu_max_bytes(quota: Option<i64>, period: Option<u64>) -> (r: Option<Vec<u8>>)
    ensures
        bytes_of(r) == cpu_max_text(quota, period),
{
    if quota.is_none() && period.is_none() {
        return None;
    }
    let mut text = match quota {
        Some(q) => limit_bytes(q),
        None => max_bytes(),
    };
    match period {
        Some(p) => {
            text.push(' ' as u8);
            let mut digits = write_u64(p);
            text.append(&mut digits);
        },
        None => {},
    }
    assert(Some(text@) =~= cpu_max_text(quota, period));
    Some(text)
}

fn unbounded_bytes(amount: Option<i64>) -> (r: Option<Vec<u8>>)
    ensures
        bytes_of(r) == unbounded_text(amount),
{
    match amount {
        Some(a) => if a < 0 {
            Some(max_bytes())
        } else {
            Some(write_u64(a as u64))
        },
        None => None,
    }
}

/// The rules of a device filter as text.
pub fn filter_bytes(rules: &Vec<DeviceRule>) -> (text: Vec<u8>)
    ensures
        text@ == filter_text(rules@),
{
    let mut text: Vec<u8> = Vec::new();
    let mut i: usize = 0;
    while i < rules.len()
        invariant
            i <= rules.len(),
            text@ == filter_text(rules@.subrange(0, i as int)),
        decreases rules.len() - i,
    {
        let rule = rules[i];
        let ghost before = text@;
        proof {
            reveal_strlit("allow ");
            reveal_strlit("deny ");
        }
        let mut word = if rule.allow { ascii_bytes("allow ") } else { ascii_bytes("deny ") };
        text.append(&mut word);
        let mut line = rule.to_text();
        text.append(&mut line);
        text.push(NEWLINE);
        assert(rules@.subrange(0, i + 1).drop_last() =~= rules@.subrange(0, i as int));
        assert(text@ =~= before + filter_line(rule));
        i += 1;
    }
    assert(rules@.subrange(0, i as int) =~= rules@);
    text
}

fn put_cpu(plan: &mut Vec<Action>, dir: &str, cpu: &LinuxCpu)
    ensures
        steps(final(plan)@) == steps(old(plan)@) + cpu_plan(dir@, *cpu),
{
    put(plan, dir, "cpu.weight", weight_bytes(cpu.shares));
    put(plan, dir, "cpu.max", cpu_max_bytes(cpu.quota, cpu.period));
    assert(steps(plan@) =~= steps(old(plan)@) + cpu_plan(dir@, *cpu));
}

fn put_memory(plan: &mut Vec<Action>, dir: &str, memory: &LinuxMemory)
    ensures
        steps(final(plan)@) == steps(old(plan)@) + memory_plan(dir@, *memory),
{
    put(plan, dir, "memory.max", unbounded_bytes(memory.limit));
    put(plan, dir, "memory.swap.max", unbounded_bytes(memory.swap));
    put(plan, dir, "memory.low", unbounded_bytes(memory.reservation));
    assert(steps(plan@) =~= steps(old(plan)@) + memory_plan(dir@, *memory));
}

fn put_pids(plan: &mut Vec<Action>, dir: &str, pids: &LinuxPids)
    ensures
        steps(final(plan)@) == steps(old(plan)@) + pids_plan(dir@, *pids),
{
    put(plan, dir, "pids.max", Some(limit_bytes(pids.limit)));
    assert(steps(plan@) =~= steps(old(plan)@) + pids_plan(dir@, *pids));
}

fn put_device_filter(plan: &mut Vec<Action>, dir: &str, rules: &Vec<DeviceRule>)
    ensures
        steps(final(plan)@) == steps(old(plan)@) + device_filter(dir@, rules@),
{
    let mut all = default_allow_devices();
    let mut i: usize = 0;
    while i < rules.len()
        invariant
            i <= rules.len(),
            all@ == default_allow_rules() + rules@.subrange(0, i as int),
        decreases rules.len() - i,
    {
        all.push(rules[i]);
        assert(all@ =~= default_allow_rules() + rules@.subrange(0, i + 1));
        i += 1;
    }
    assert(rules@.subrange(0, i as int) =~= rules@);
    plan.push(Action::DeviceFilter(dir.to_owned(), filter_bytes(&all)));
    assert(steps(plan@) =~= steps(old(plan)@) + device_filter(dir@, rules@));
}

fn put_io(plan: &mut Vec<Action>, dir: &str, block_io: &LinuxBlockIo)
    ensures
        steps(final(plan)@) == steps(old(plan)@) + io_plan(dir@, *block_io),
{
    let weight: Option<u64> = match block_io.weight {
        Some(w) => Some(w as u64),
        None => None,
    };
    proof {
        reveal_strlit("rbps");
        reveal_strlit("wbps");
        reveal_strlit("riops");
        reveal_strlit("wiops");
    }
    put(plan, dir, "io.weight", crate::plan::count_bytes(weight));
    put_throttle(plan, dir, "io.max", &Some(ascii_bytes("rbps")), &block_io.throttle_read_bps_device);
    put_throttle(plan, dir, "io.max", &Some(ascii_bytes("wbps")), &block_io.throttle_write_bps_device);
    put_throttle(plan, dir, "io.max", &Some(ascii_bytes("riops")), &block_io.throttle_read_iops_device);
    put_throttle(plan, dir, "io.max", &Some(ascii_bytes("wiops")), &block_io.throttle_write_iops_device);
    assert(steps(plan@) =~= steps(old(plan)@) + io_plan(dir@, *block_io));
}

/// Adds to a plan the steps that put limits on a group in a unified
/// hierarchy.
pub fn put_limits(plan: &mut Vec<Action>, dir: &str, resources: &LinuxResources)
    ensures
        steps(final(plan)@) == steps(old(plan)@) + limits_plan(dir@, *resources),
{
    let ghost before = steps(plan@);
    let ghost cpu = match resources.cpu {
        Some(cpu) => cpu_plan(dir@, cpu),
        None => Seq::empty(),
    };
    let ghost memory = match resources.memory {
        Some(memory) => memory_plan(dir@, memory),
        None => Seq::empty(),
    };
    let ghost pids = match resources.pids {
        Some(pids) => pids_plan(dir@, pids),
        None => Seq::empty(),
    };
    let ghost devices = if resources.devices is Some {
        device_filter(dir@, resources.devices->0@)
    } else {
        Seq::empty()
    };
    let ghost io = if resources.block_io is Some {
        io_plan(dir@, resources.block_io->0)
    } else {
        Seq::empty()
    };
    let ghost hugepages = if resources.hugepage_limits is Some {
        hugepage_plan(dir@, ".max"@, true, resources.hugepage_limits->0@)
    } else {
        Seq::empty()
    };
    let ghost rdma = if resources.rdma is Some {
        rdma_plan(dir@, resources.rdma->0@)
    } else {
        Seq::empty()
    };
    if let Some(c) = &resources.cpu {
        put_cpu(plan, dir, c);
    }
    proof {
        lemma_section_added(before, Seq::empty(), cpu, steps(plan@));
    }
    if let Some(m) = &resources.memory {
        put_memory(plan, dir, m);
    }
    proof {
        lemma_section_added(before, Seq::empty() + cpu, memory, steps(plan@));
    }
    if let Some(p) = &resources.pids {
        put_pids(plan, dir, p);
    }
    proof {
        lemma_section_added(before, Seq::empty() + cpu + memory, pids, steps(plan@));
    }
    if let Some(rules) = &resources.devices {
        put_device_filter(plan, dir, rules);
    }
    proof {
        lemma_section_added(before, Seq::empty() + cpu + memory + pids, devices, steps(plan@));
    }
    if let Some(b) = &resources.block_io {
        put_io(plan, dir, b);
    }
    proof {
        lemma_section_added(
            before,
            Seq::empty() + cpu + memory + pids + devices,
            io,
            steps(plan@),
        );
    }
    if let Some(limits) = &resources.hugepage_limits {
        put_hugepages(plan, dir, ".max", true, limits);
    }
    proof {
        lemma_section_added(
            before,
            Seq::empty() + cpu + memory + pids + devices + io,
            hugepages,
            steps(plan@),
        );
    }
    if let Some(limits) = &resources.rdma {
        put_rdma(plan, dir, limits);
    }
    proof {
        lemma_section_added(
            before,
            Seq::empty() + cpu + memory + pids + devices + io + hugepages,
            rdma,
            steps(plan@),
        );
        assert(Seq::<Step>::empty() + cpu == cpu) by {
            assert(Seq::<Step>::empty() + cpu =~= cpu);
        }
    }
}

/// Makes the plan that freezes or thaws a group in a unified hierarchy.
pub fn plan_freeze(dir: &str, state: FreezerState) -> (r: Result<Vec<Action>, CgroupError>)
    ensures
        r is Err <==> state == FreezerState::Freezing,
        r matches Err(e) ==> e@ == Failure::Unsupported,
        r matches Ok(plan) ==> steps(plan@) == freeze_plan(dir@, state),
{
    let word: u8 = match state {
        FreezerState::Frozen => '1' as u8,
        FreezerState::Thawed => '0' as u8,
        FreezerState::Freezing => {
            return Err(CgroupError::Unsupported);
        },
    };
    let mut data: Vec<u8> = Vec::new();
    data.push(word);
    assert(data@ =~= freeze_word(state));
    let mut plan: Vec<Action> = Vec::new();
    put(&mut plan, dir, "cgroup.freeze", Some(data));
    assert(steps(plan@) =~= freeze_plan(dir@, state));
    Ok(plan)
}

/// The files that are read for a snapshot of a group in a unified hierarchy.
pub fn files_for_stats(dir: &str, page_sizes: &Vec<String>) -> (files: Vec<String>)
    ensures
        path_views(files@) == stat_files(dir@, path_views(page_sizes@)),
{
    let mut files: Vec<String> = Vec::new();
    files.push(control_file(dir, "memory.current"));
    files.push(control_file(dir, "memory.max"));
    files.push(control_file(dir, "memory.events"));
    files.push(control_file(dir, "cpu.stat"));
    files.push(control_file(dir, "pids.current"));
    files.push(control_file(dir, "pids.max"));
    files.push(control_file(dir, "io.weight"));
    files.push(control_file(dir, "io.stat"));
    assert(path_views(files@) =~= fixed_stat_files(dir@));
    push_usage_files(&mut files, dir, ".current", page_sizes);
    files
}

/// Makes the snapshot of a group in a unified hierarchy.
pub fn stats_in(dir: &str, page_sizes: &Vec<String>, reads: &Vec<FileRead>) -> (r: Result<
    Stats,
    CgroupError,
>)
    ensures
        r matches Ok(stats) ==> stats_of_dir(dir@, path_views(page_sizes@), reads@) == Ok::<
            StatsView,
            Failure,
        >(stats@),
        r matches Err(e) ==> stats_of_dir(dir@, path_views(page_sizes@), reads@) == Err::<
            StatsView,
            Failure,
        >(e@),
{
    let files = files_for_stats(dir, page_sizes);
    proof {
        reveal_strlit("max");
        reveal_strlit("usage_usec");
        reveal_strlit("nr_periods");
        reveal_strlit("nr_throttled");
        reveal_strlit("throttled_usec");
        reveal_strlit("default");
    }
    let mut sources: Vec<Source> = Vec::new();
    sources.push(Source { file: 0, key: None, lenient: false });
    sources.push(Source { file: 1, key: None, lenient: false });
    sources.push(Source { file: 2, key: Some(ascii_bytes("max")), lenient: false });
    sources.push(Source { file: 3, key: Some(ascii_bytes("usage_usec")), lenient: false });
    sources.push(Source { file: 3, key: Some(ascii_bytes("nr_periods")), lenient: true });
    sources.push(Source { file: 3, key: Some(ascii_bytes("nr_throttled")), lenient: true });
    sources.push(Source { file: 3, key: Some(ascii_bytes("throttled_usec")), lenient: true });
    sources.push(Source { file: 4, key: None, lenient: false });
    sources.push(Source { file: 5, key: None, lenient: false });
    sources.push(Source { file: 6, key: Some(ascii_bytes("default")), lenient: true });
    assert(source_views(sources@) =~= stat_sources());
    assert(path_views(files@).len() == 8 + page_sizes.len());
    read_stats(&files, &sources, 7, '=' as u8, page_sizes, reads)
}

/// The limits of a group in a unified hierarchy are set in its directory.
pub proof fn lemma_limits_within(dir: Seq<char>, resources: LinuxResources)
    ensures
        all_within(limits_plan(dir, resources), dir),
{
    let cpu = match resources.cpu {
        Some(cpu) => cpu_plan(dir, cpu),
        None => Seq::empty(),
    };
    let memory = match resources.memory {
        Some(memory) => memory_plan(dir, memory),
        None => Seq::empty(),
    };
    let pids = match resources.pids {
        Some(pids) => pids_plan(dir, pids),
        None => Seq::empty(),
    };
    let devices = match resources.devices {
        Some(rules) => device_filter(dir, rules@),
        None => Seq::empty(),
    };
    let io = match resources.block_io {
        Some(block_io) => io_plan(dir, block_io),
        None => Seq::empty(),
    };
    let hugepages = match resources.hugepage_limits {
        Some(limits) => hugepage_plan(dir, ".max"@, true, limits@),
        None => Seq::empty(),
    };
    let rdma = match resources.rdma {
        Some(limits) => rdma_plan(dir, limits@),
        None => Seq::empty(),
    };
    if resources.block_io is Some {
        let b = resources.block_io->0;
        let weight = setting(
            dir,
            "io.weight"@,
            count_text(
                match b.weight {
                    Some(w) => Some(w as u64),
                    None => None,
                },
            ),
        );
        let rbps = throttle_plan(dir, "io.max"@, Some(ascii("rbps"@)), b.throttle_read_bps_device@);
        let wbps = throttle_plan(dir, "io.max"@, Some(ascii("wbps"@)), b.throttle_write_bps_device@);
        let riops = throttle_plan(dir, "io.max"@, Some(ascii("riops"@)), b.throttle_read_iops_device@);
        let wiops = throttle_plan(dir, "io.max"@, Some(ascii("wiops"@)), b.throttle_write_iops_device@);
        lemma_file_within(dir, "io.weight"@);
        lemma_throttle_within(dir, "io.max"@, Some(ascii("rbps"@)), b.throttle_read_bps_device@);
        lemma_throttle_within(dir, "io.max"@, Some(ascii("wbps"@)), b.throttle_write_bps_device@);
        lemma_throttle_within(dir, "io.max"@, Some(ascii("riops"@)), b.throttle_read_iops_device@);
        lemma_throttle_within(dir, "io.max"@, Some(ascii("wiops"@)), b.throttle_write_iops_device@);
        lemma_all_within_concat(weight, rbps, dir);
        lemma_all_within_concat(weight + rbps, wbps, dir);
        lemma_all_within_concat(weight + rbps + wbps, riops, dir);
        lemma_all_within_concat(weight + rbps + wbps + riops, wiops, dir);
    }
    if resources.hugepage_limits is Some {
        lemma_hugepages_within(dir, ".max"@, true, resources.hugepage_limits->0@);
    }
    if resources.rdma is Some {
        lemma_rdma_within(dir, resources.rdma->0@);
    }
    lemma_file_within(dir, "cpu.weight"@);
    lemma_file_within(dir, "cpu.max"@);
    lemma_file_within(dir, "memory.max"@);
    lemma_file_within(dir, "memory.swap.max"@);
    lemma_file_within(dir, "memory.low"@);
    lemma_file_within(dir, "pids.max"@);
    lemma_file_within(dir, "io.weight"@);
    if resources.cpu is Some {
        let c = resources.cpu->0;
        lemma_all_within_concat(
            setting(dir, "cpu.weight"@, weight_text(c.shares)),
            setting(dir, "cpu.max"@, cpu_max_text(c.quota, c.period)),
            dir,
        );
    }
    if resources.memory is Some {
        let m = resources.memory->0;
        lemma_all_within_concat(
            setting(dir, "memory.max"@, unbounded_text(m.limit)),
            setting(dir, "memory.swap.max"@, unbounded_text(m.swap)),
            dir,
        );
        lemma_all_within_concat(
            setting(dir, "memory.max"@, unbounded_text(m.limit)) + setting(
                dir,
                "memory.swap.max"@,
                unbounded_text(m.swap),
            ),
            setting(dir, "memory.low"@, unbounded_text(m.reservation)),
            dir,
        );
    }
    lemma_all_within_concat(cpu, memory, dir);
    lemma_all_within_concat(cpu + memory, pids, dir);
    lemma_all_within_concat(cpu + memory + pids, devices, dir);
    lemma_all_within_concat(cpu + memory + pids + devices, io, dir);
    lemma_all_within_concat(cpu + memory + pids + devices + io, hugepages, dir);
    lemma_all_within_concat(cpu + memory + pids + devices + io + hugepages, rdma, dir);
}

/// The manager of a group on a host with one unified hierarchy.
#[derive(Debug, Clone, PartialEq, Eq)]
pub struct Manager {
    root_path: String,
    cgroup_path: String,
}

impl Manager {
    /// The root of the hierarchy.
    pub closed spec fn root_path(&self) -> Seq<char> {
        self.root_path@
    }

    /// The path of the group, as it was asked for.
    pub closed spec fn cgroup_path(&self) -> Seq<char> {
        self.cgroup_path@
    }

    /// The directory of the group: the path of the group joined to the root
    /// as text.
    pub open spec fn dir(&self) -> Seq<char> {
        self.root_path() + self.cgroup_path()
    }

    /// The plan that puts a process into the group: the directory is
    /// created, then the process is written to its membership file.
    pub open spec fn add_task_plan(&self, pid: Pid) -> Seq<Step> {
        seq![
            Step::CreateDir(self.dir()),
            write_step(self.dir(), CGROUP_PROCS@, crate::decimal::signed_decimal(pid.0 as int)),
        ]
    }

    /// The plan that puts limits on the group: the directory is created,
    /// then each limit that is set is written.
    pub open spec fn apply_plan(&self, resources: LinuxResources) -> Seq<Step> {
        seq![Step::CreateDir(self.dir())] + limits_plan(self.dir(), resources)
    }

    /// The plan that removes the group.
    pub open spec fn remove_plan(&self) -> Seq<Step> {
        seq![Step::RemoveDir(self.dir())]
    }

    /// The manager of the group at `cgroup_path`, which must be empty or
    /// absolute, in the hierarchy at `root_path`.
    pub fn new(root_path: &str, cgroup_path: &str) -> (r: Result<Manager, CgroupError>)
        ensures
            r is Ok <==> is_joinable(cgroup_path@),
            r matches Ok(m) ==> m.root_path() == root_path@ && m.cgroup_path() == cgroup_path@,
            r matches Err(e) ==> e@ == Failure::Path(cgroup_path@),
    {
        match join_safely(root_path, cgroup_path) {
            Ok(_) => Ok(
                Manager { root_path: root_path.to_owned(), cgroup_path: cgroup_path.to_owned() },
            ),
            Err(e) => Err(e),
        }
    }

    /// The directory of the group.
    pub fn dir_of(&self) -> (dir: String)
        ensures
            dir@ == self.dir(),
    {
        let mut dir = self.root_path.clone();
        dir.append(self.cgroup_path.as_str());
        dir
    }

    fn only_dir(&self) -> (dirs: Vec<String>)
        ensures
            path_views(dirs@) == seq![self.dir()],
    {
        let mut dirs: Vec<String> = Vec::new();
        dirs.push(self.dir_of());
        assert(path_views(dirs@) =~= seq![self.dir()]);
        dirs
    }
}

/// A plan that stays in the one directory of a group stays within its
/// directories.
pub proof fn lemma_one_dir(plan: Seq<Step>, dir: Seq<char>)
    requires
        all_within(plan, dir),
    ensures
        stays_within(plan, seq![dir]),
{
    lemma_all_within_one(plan, seq![dir], 0);
}

/// The files of a snapshot lie in the directory of the group.
pub proof fn lemma_stat_files_within(dir: Seq<char>, page_sizes: Seq<Seq<char>>)
    ensures
        forall|i: int|
            0 <= i < stat_files(dir, page_sizes).len() ==> within(
                #[trigger] stat_files(dir, page_sizes)[i],
                dir,
            ),
        forall|i: int|
            0 <= i < stat_files(dir, page_sizes).len() ==> within_any(
                #[trigger] stat_files(dir, page_sizes)[i],
                seq![dir],
            ),
{
    lemma_fixed_stat_files_within(dir);
    assert forall|i: int| 0 <= i < stat_files(dir, page_sizes).len() implies within(
        #[trigger] stat_files(dir, page_sizes)[i],
        dir,
    ) by {
        if i < 8 {
            assert(stat_files(dir, page_sizes)[i] == fixed_stat_files(dir)[i]);
        } else {
            lemma_file_within(dir, hugepage_file(page_sizes[i - 8], ".current"@));
        }
    }
    assert forall|i: int| 0 <= i < stat_files(dir, page_sizes).len() implies within_any(
        #[trigger] stat_files(dir, page_sizes)[i],
        seq![dir],
    ) by {
        assert(within(stat_files(dir, page_sizes)[i], seq![dir][0]));
    }
}

/// The files of a snapshot that are always read lie in the directory of the
/// group.
pub proof fn lemma_fixed_stat_files_within(dir: Seq<char>)
    ensures
        forall|i: int|
            0 <= i < fixed_stat_files(dir).len() ==> within(#[trigger] fixed_stat_files(dir)[i], dir),
{
    lemma_file_within(dir, "memory.current"@);
    lemma_file_within(dir, "memory.max"@);
    lemma_file_within(dir, "memory.events"@);
    lemma_file_within(dir, "cpu.stat"@);
    lemma_file_within(dir, "pids.current"@);
    lemma_file_within(dir, "pids.max"@);
    lemma_file_within(dir, "io.weight"@);
    lemma_file_within(dir, "io.stat"@);
}

impl CgroupManager for Manager {
    open spec fn dirs(&self) -> Seq<Seq<char>> {
        seq![self.dir()]
    }

    open spec fn pids_dir(&self) -> Seq<char> {
        self.dir()
    }

    open spec fn stat_paths(&self, page_sizes: Seq<Seq<char>>) -> Seq<Seq<char>> {
        stat_files(self.dir(), page_sizes)
    }

    open spec fn stats_of(&self, page_sizes: Seq<Seq<char>>, reads: Seq<FileRead>) -> Result<
        StatsView,
        Failure,
    > {
        stats_of_dir(self.dir(), page_sizes, reads)
    }

    fn add_task(&self, pid: Pid) -> (plan: Vec<Action>)
        ensures
            steps(plan@) == self.add_task_plan(pid),
    {
        let dirs = self.only_dir();
        let mut plan: Vec<Action> = Vec::new();
        put_each(&mut plan, PerDir::Create, &dirs);
        put_each(&mut plan, PerDir::Place(pid), &dirs);
        proof {
            assert(steps(plan@) =~= self.add_task_plan(pid));
            lemma_file_within(self.dir(), CGROUP_PROCS@);
            lemma_one_dir(steps(plan@), self.dir());
            assert(places(steps(plan@)[1], pid, self.pids_dir()));
        }
        plan
    }

    fn apply(&self, resources: &LinuxResources) -> (plan: Vec<Action>)
        ensures
            steps(plan@) == self.apply_plan(*resources),
    {
        let dirs = self.only_dir();
        let dir = self.dir_of();
        let mut plan: Vec<Action> = Vec::new();
        put_each(&mut plan, PerDir::Create, &dirs);
        put_limits(&mut plan, dir.as_str(), resources);
        proof {
            assert(steps(plan@) =~= self.apply_plan(*resources));
            lemma_limits_within(self.dir(), *resources);
            lemma_all_within_concat(
                seq![Step::CreateDir(self.dir())],
                limits_plan(self.dir(), *resources),
                self.dir(),
            );
            lemma_one_dir(steps(plan@), self.dir());
            if resources.is_unset() {
                assert(steps(plan@) =~= seq![Step::CreateDir(self.dir())]);
            }
        }
        plan
    }

    fn remove(&self) -> (plan: Vec<Action>)
        ensures
            steps(plan@) == self.remove_plan(),
    {
        let dirs = self.only_dir();
        let mut plan: Vec<Action> = Vec::new();
        put_each(&mut plan, PerDir::Remove, &dirs);
        proof {
            assert(steps(plan@) =~= self.remove_plan());
            lemma_one_dir(steps(plan@), self.dir());
        }
        plan
    }

    fn freeze(&self, state: FreezerState) -> (r: Result<Vec<Action>, CgroupError>)
        ensures
            r matches Ok(plan) ==> steps(plan@) == freeze_plan(self.dir(), state),
    {
        let dir = self.dir_of();
        let r = plan_freeze(dir.as_str(), state);
        proof {
            lemma_file_within(self.dir(), "cgroup.freeze"@);
            if r is Ok {
                lemma_one_dir(freeze_plan(self.dir(), state), self.dir());
            }
        }
        r
    }

    fn stats_files(&self, page_sizes: &Vec<String>) -> (files: Vec<String>) {
        let dir = self.dir_of();
        proof {
            lemma_stat_files_within(self.dir(), path_views(page_sizes@));
        }
        files_for_stats(dir.as_str(), page_sizes)
    }

    fn stats(&self, page_sizes: &Vec<String>, reads: &Vec<FileRead>) -> (r: Result<
        Stats,
        CgroupError,
    >) {
        let dir = self.dir_of();
        stats_in(dir.as_str(), page_sizes, reads)
    }

    fn pids_root(&self) -> (dir: String) {
        proof {
            assert(within(self.dir(), seq![self.dir()][0]));
        }
        self.dir_of()
    }

    fn get_all_pids(&self, tree: &CgroupDir) -> (r: Result<Vec<Pid>, CgroupError>) {
        get_all_pids(tree)
    }
}

} // verus!
