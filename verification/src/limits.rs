use vstd::prelude::*;
use vstd::string::*;
use crate::action::{all_within, lemma_file_within, steps, within, Action, Step};
use vstd::slice::slice_subrange;
use crate::decimal::{
    all_digits, decimal, digits_value, read_digits, signed_decimal, write_i64, write_u64,
};
use crate::plan::{bytes_of, max_bytes, put_write, write_step};
use crate::resources::{HugepageLimit, InterfacePriority, RdmaLimit, ThrottleDevice};
use crate::stats::max_word;
use crate::text::{as_chars, ascii, ascii_bytes, holds_at, push_decimal, utf8, utf8_bytes};

verus! {

/// The numbers of a block device as text: the major number, a colon, and
/// the minor number.
pub open spec fn device_id(device: ThrottleDevice) -> Seq<u8> {
    signed_decimal(device.major as int) + seq![':' as u8] + signed_decimal(device.minor as int)
}

/// A limit on the rate of one device as text: the numbers of the device, a
/// space, and the rate; with a key, the key and an equals sign stand before
/// the rate.
pub open spec fn rate_line(key: Option<Seq<u8>>, device: ThrottleDevice) -> Seq<u8> {
    device_id(device) + seq![' ' as u8] + (match key {
        Some(k) => k + seq!['=' as u8],
        None => Seq::empty(),
    }) + decimal(device.rate as nat)
}

/// The steps that limit the rate of block devices: one write to the file
/// `name` for each device, in order.
pub open spec fn throttle_plan(
    dir: Seq<char>,
    name: Seq<char>,
    key: Option<Seq<u8>>,
    devices: Seq<ThrottleDevice>,
) -> Seq<Step> {
    devices.map_values(|d: ThrottleDevice| write_step(dir, name, rate_line(key, d)))
}

/// The file that holds the limit on huge pages of one size.
pub open spec fn hugepage_file(page_size: Seq<char>, suffix: Seq<char>) -> Seq<char> {
    "hugetlb."@ + page_size + suffix
}

/// The name that the kernel gives to huge pages of so many kilobytes: the
/// size in gigabytes from a gigabyte on, in megabytes from a megabyte on,
/// else in kilobytes, each rounded down, with the unit behind it.
pub open spec fn page_size_text(kilobytes: u64) -> Seq<char> {
    if kilobytes >= 1048576 {
        as_chars(decimal((kilobytes / 1048576) as nat)) + "GB"@
    } else if kilobytes >= 1024 {
        as_chars(decimal((kilobytes / 1024) as nat)) + "MB"@
    } else {
        as_chars(decimal(kilobytes as nat)) + "KB"@
    }
}

/// The name that the kernel gives to huge pages of so many kilobytes.
pub fn page_size_name(kilobytes: u64) -> (name: String)
    ensures
        name@ == page_size_text(kilobytes),
{
    let mut name = String::new();
    if kilobytes >= 1048576 {
        push_decimal(&mut name, kilobytes / 1048576);
        name.append("GB");
    } else if kilobytes >= 1024 {
        push_decimal(&mut name, kilobytes / 1024);
        name.append("MB");
    } else {
        push_decimal(&mut name, kilobytes);
        name.append("KB");
    }
    assert(name@ =~= page_size_text(kilobytes));
    name
}

/// The size in kilobytes that the name of a directory of huge pages gives:
/// the name is `hugepages-`, digits, and `kB`. `None` for any other name,
/// and where a `u64` cannot hold the size.
pub open spec fn entry_kilobytes(entry: Seq<u8>) -> Option<u64> {
    let digits = entry.subrange(10, entry.len() - 2);
    if entry.len() > 12 && entry.subrange(0, 10) == ascii("hugepages-"@) && entry.subrange(
        entry.len() - 2,
        entry.len() as int,
    ) == ascii("kB"@) && all_digits(digits) && digits_value(digits) <= u64::MAX {
        Some(digits_value(digits) as u64)
    } else {
        None
    }
}

/// Reads the size in kilobytes from the name of a directory of huge pages.
pub fn read_entry_kilobytes(entry: &[u8]) -> (r: Option<u64>)
    ensures
        r == entry_kilobytes(entry@),
{
    proof {
        reveal_strlit("hugepages-");
        reveal_strlit("kB");
    }
    let prefix = ascii_bytes("hugepages-");
    let suffix = ascii_bytes("kB");
    assert(prefix@.len() == 10 && suffix@.len() == 2);
    if entry.len() <= 12 {
        return None;
    }
    if !holds_at(entry, 0, prefix.as_slice()) || !holds_at(
        entry,
        entry.len() - 2,
        suffix.as_slice(),
    ) {
        return None;
    }
    let digits = slice_subrange(entry, 10, entry.len() - 2);
    assert(digits@.subrange(0, digits@.len() as int) =~= digits@);
    read_digits(digits, 0, u64::MAX)
}

/// A limit on huge pages as text: the number; or, where the word `max` is
/// understood, that word for a limit below zero.
pub open spec fn hugepage_text(or_max: bool, limit: i64) -> Seq<u8> {
    if or_max && limit < 0 {
        max_word()
    } else {
        signed_decimal(limit as int)
    }
}

/// The steps that limit huge pages: one write for each size, in order, to
/// the file of that size.
pub open spec fn hugepage_plan(
    dir: Seq<char>,
    suffix: Seq<char>,
    or_max: bool,
    limits: Seq<HugepageLimit>,
) -> Seq<Step> {
    limits.map_values(
        |l: HugepageLimit|
            write_step(dir, hugepage_file(l.page_size@, suffix), hugepage_text(or_max, l.limit)),
    )
}

/// The priority of one interface as text: the name of the interface, a
/// space, and the priority.
pub open spec fn priority_line(priority: InterfacePriority) -> Seq<u8> {
    utf8(priority.name@) + seq![' ' as u8] + decimal(priority.priority as nat)
}

/// The steps that set the priorities of network traffic: one write for each
/// interface, in order.
pub open spec fn priorities_plan(dir: Seq<char>, priorities: Seq<InterfacePriority>) -> Seq<Step> {
    priorities.map_values(
        |p: InterfacePriority| write_step(dir, "net_prio.ifpriomap"@, priority_line(p)),
    )
}

/// The limits of one device for remote direct memory access as text: the name
/// of the device, then, for each limit that is set, a space, its key, an
/// equals sign and the limit.
pub open spec fn rdma_line(limit: RdmaLimit) -> Seq<u8> {
    utf8(limit.device@) + (match limit.hca_handles {
        Some(n) => ascii(" hca_handle="@) + decimal(n as nat),
        None => Seq::empty(),
    }) + (match limit.hca_objects {
        Some(n) => ascii(" hca_object="@) + decimal(n as nat),
        None => Seq::empty(),
    })
}

/// The steps that limit remote direct memory access: one write for each
/// device, in order.
pub open spec fn rdma_plan(dir: Seq<char>, limits: Seq<RdmaLimit>) -> Seq<Step> {
    limits.map_values(|l: RdmaLimit| write_step(dir, "rdma.max"@, rdma_line(l)))
}

/// A limit on the rate of one device as text.
pub fn rate_text(key: &Option<Vec<u8>>, device: &ThrottleDevice) -> (text: Vec<u8>)
    ensures
        text@ == rate_line(bytes_of(*key), *device),
{
    let mut text = write_i64(device.major);
    text.push(':' as u8);
    let mut minor = write_i64(device.minor);
    text.append(&mut minor);
    text.push(' ' as u8);
    match key {
        Some(k) => {
            let mut k2 = k.clone();
            text.append(&mut k2);
            text.push('=' as u8);
        },
        None => {},
    }
    let mut rate = write_u64(device.rate);
    text.append(&mut rate);
    assert(text@ =~= rate_line(bytes_of(*key), *device));
    text
}

/// Adds to a plan the steps that limit the rate of block devices.
pub fn put_throttle(
    plan: &mut Vec<Action>,
    dir: &str,
    name: &str,
    key: &Option<Vec<u8>>,
    devices: &Vec<ThrottleDevice>,
)
    ensures
        steps(final(plan)@) == steps(old(plan)@) + throttle_plan(
            dir@,
            name@,
            bytes_of(*key),
            devices@,
        ),
{
    let ghost before = steps(plan@);
    let ghost all = throttle_plan(dir@, name@, bytes_of(*key), devices@);
    let mut i: usize = 0;
    while i < devices.len()
        invariant
            i <= devices.len(),
            all == throttle_plan(dir@, name@, bytes_of(*key), devices@),
            steps(plan@) == before + all.subrange(0, i as int),
        decreases devices.len() - i,
    {
        put_write(plan, dir, name, rate_text(key, &devices[i]));
        assert(all.subrange(0, i + 1) =~= all.subrange(0, i as int).push(all[i as int]));
        assert(steps(plan@) =~= before + all.subrange(0, i + 1));
        i += 1;
    }
    assert(all.subrange(0, i as int) =~= all);
}

/// Adds to a plan the steps that limit huge pages.
pub fn put_hugepages(
    plan: &mut Vec<Action>,
    dir: &str,
    suffix: &str,
    or_max: bool,
    limits: &Vec<HugepageLimit>,
)
    ensures
        steps(final(plan)@) == steps(old(plan)@) + hugepage_plan(dir@, suffix@, or_max, limits@),
{
    let ghost before = steps(plan@);
    let ghost all = hugepage_plan(dir@, suffix@, or_max, limits@);
    let mut i: usize = 0;
    while i < limits.len()
        invariant
            i <= limits.len(),
            all == hugepage_plan(dir@, suffix@, or_max, limits@),
            steps(plan@) == before + all.subrange(0, i as int),
        decreases limits.len() - i,
    {
        let limit = &limits[i];
        let mut name = "hugetlb.".to_owned();
        name.append(limit.page_size.as_str());
        name.append(suffix);
        let text = if or_max && limit.limit < 0 {
            max_bytes()
        } else {
            write_i64(limit.limit)
        };
        put_write(plan, dir, name.as_str(), text);
        assert(all.subrange(0, i + 1) =~= all.subrange(0, i as int).push(all[i as int]));
        assert(steps(plan@) =~= before + all.subrange(0, i + 1));
        i += 1;
    }
    assert(all.subrange(0, i as int) =~= all);
}

/// Adds to a plan the steps that set the priorities of network traffic.
pub fn put_priorities(plan: &mut Vec<Action>, dir: &str, priorities: &Vec<InterfacePriority>)
    ensures
        steps(final(plan)@) == steps(old(plan)@) + priorities_plan(dir@, priorities@),
{
    let ghost before = steps(plan@);
    let ghost all = priorities_plan(dir@, priorities@);
    let mut i: usize = 0;
    while i < priorities.len()
        invariant
            i <= priorities.len(),
            all == priorities_plan(dir@, priorities@),
            steps(plan@) == before + all.subrange(0, i as int),
        decreases priorities.len() - i,
    {
        let priority = &priorities[i];
        let mut text = utf8_bytes(priority.name.as_str());
        text.push(' ' as u8);
        let mut number = write_u64(priority.priority as u64);
        text.append(&mut number);
        assert(text@ =~= priority_line(*priority));
        put_write(plan, dir, "net_prio.ifpriomap", text);
        assert(all.subrange(0, i + 1) =~= all.subrange(0, i as int).push(all[i as int]));
        assert(steps(plan@) =~= before + all.subrange(0, i + 1));
        i += 1;
    }
    assert(all.subrange(0, i as int) =~= all);
}

/// The limits of one device for remote direct memory access as text.
pub fn rdma_text(limit: &RdmaLimit) -> (text: Vec<u8>)
    ensures
        text@ == rdma_line(*limit),
{
    let mut text = utf8_bytes(limit.device.as_str());
    proof {
        reveal_strlit(" hca_handle=");
        reveal_strlit(" hca_object=");
    }
    match limit.hca_handles {
        Some(n) => {
            let mut key = ascii_bytes(" hca_handle=");
            text.append(&mut key);
            let mut number = write_u64(n as u64);
            text.append(&mut number);
        },
        None => {},
    }
    match limit.hca_objects {
        Some(n) => {
            let mut key = ascii_bytes(" hca_object=");
            text.append(&mut key);
            let mut number = write_u64(n as u64);
            text.append(&mut number);
        },
        None => {},
    }
    assert(text@ =~= rdma_line(*limit));
    text
}

/// Adds to a plan the steps that limit remote direct memory access.
pub fn put_rdma(plan: &mut Vec<Action>, dir: &str, limits: &Vec<RdmaLimit>)
    ensures
        steps(final(plan)@) == steps(old(plan)@) + rdma_plan(dir@, limits@),
{
    let ghost before = steps(plan@);
    let ghost all = rdma_plan(dir@, limits@);
    let mut i: usize = 0;
    while i < limits.len()
        invariant
            i <= limits.len(),
            all == rdma_plan(dir@, limits@),
            steps(plan@) == before + all.subrange(0, i as int),
        decreases limits.len() - i,
    {
        put_write(plan, dir, "rdma.max", rdma_text(&limits[i]));
        assert(all.subrange(0, i + 1) =~= all.subrange(0, i as int).push(all[i as int]));
        assert(steps(plan@) =~= before + all.subrange(0, i + 1));
        i += 1;
    }
    assert(all.subrange(0, i as int) =~= all);
}

/// The limits on the rate of block devices are written in the directory.
pub proof fn lemma_throttle_within(
    dir: Seq<char>,
    name: Seq<char>,
    key: Option<Seq<u8>>,
    devices: Seq<ThrottleDevice>,
)
    ensures
        all_within(throttle_plan(dir, name, key, devices), dir),
{
    lemma_file_within(dir, name);
}

/// The limits on huge pages are written in the directory.
pub proof fn lemma_hugepages_within(
    dir: Seq<char>,
    suffix: Seq<char>,
    or_max: bool,
    limits: Seq<HugepageLimit>,
)
    ensures
        all_within(hugepage_plan(dir, suffix, or_max, limits), dir),
{
    let plan = hugepage_plan(dir, suffix, or_max, limits);
    assert forall|i: int| 0 <= i < plan.len() implies within(
        (#[trigger] plan[i]).target(),
        dir,
    ) by {
        lemma_file_within(dir, hugepage_file(limits[i].page_size@, suffix));
    }
}

/// The priorities of network traffic are written in the directory.
pub proof fn lemma_priorities_within(dir: Seq<char>, priorities: Seq<InterfacePriority>)
    ensures
        all_within(priorities_plan(dir, priorities), dir),
{
    lemma_file_within(dir, "net_prio.ifpriomap"@);
}

/// The limits on remote direct memory access are written in the directory.
pub proof fn lemma_rdma_within(dir: Seq<char>, limits: Seq<RdmaLimit>)
    ensures
        all_within(rdma_plan(dir, limits), dir),
{
    lemma_file_within(dir, "rdma.max"@);
}

} // verus!
