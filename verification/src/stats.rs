use vstd::prelude::*;
use vstd::slice::slice_subrange;
use vstd::string::*;
use crate::decimal::{parse_u64, read_u64};
use crate::error::{CgroupError, Failure, IoStage};
use crate::limits::hugepage_file;
use crate::path::{control_file, file_in};
use crate::pids::{lemma_next_newline_bounds, next_newline, FileRead, NEWLINE};
use crate::text::holds_at;
use crate::table::{
    counter_views, device_counters, read_device_counters, CounterView, DeviceCounter,
};

verus! {

/// Memory of a group, in bytes.
#[derive(Debug, Clone, Copy, PartialEq, Eq, Structural)]
pub struct MemoryStats {
    /// The memory in use.
    pub usage: u64,
    /// The most that the group may use; `u64::MAX` for no limit.
    pub limit: u64,
    /// How often the limit was hit.
    pub failcnt: u64,
}

/// Processor time of a group. The counters only ever grow.
#[derive(Debug, Clone, Copy, PartialEq, Eq, Structural)]
pub struct CpuStats {
    /// The time used.
    pub usage: u64,
    /// The periods that have passed.
    pub periods: u64,
    /// The periods in which the group was held back.
    pub throttled_periods: u64,
    /// The time for which the group was held back.
    pub throttled_time: u64,
}

/// Processes of a group.
#[derive(Debug, Clone, Copy, PartialEq, Eq, Structural)]
pub struct PidStats {
    /// The processes in the group.
    pub current: u64,
    /// The most that the group may hold; `u64::MAX` for no limit.
    pub limit: u64,
}

/// Block devices of a group; nothing where the host has no controller for
/// them.
#[derive(Debug, Clone, PartialEq, Eq)]
pub struct BlkioStats {
    /// The weight of the group among its siblings.
    pub weight: u64,
    /// What the group has moved to and from each device.
    pub devices: Vec<DeviceCounter>,
}

/// Huge pages of one size of a group.
#[derive(Debug, Clone, PartialEq, Eq)]
pub struct HugetlbStats {
    /// The size of the pages, as the kernel names it.
    pub page_size: String,
    /// The bytes in pages of that size that the group uses; zero where the
    /// host has no controller for huge pages.
    pub usage: u64,
}

/// The huge pages of one size, with the size as the text that it is.
pub struct HugetlbView {
    pub page_size: Seq<char>,
    pub usage: u64,
}

impl View for HugetlbStats {
    type V = HugetlbView;

    open spec fn view(&self) -> HugetlbView {
        HugetlbView { page_size: self.page_size@, usage: self.usage }
    }
}

/// The views of a list of huge page statistics.
pub open spec fn hugetlb_views(list: Seq<HugetlbStats>) -> Seq<HugetlbView> {
    list.map_values(|h: HugetlbStats| h@)
}

/// What the kernel reports of a group at one moment.
#[derive(Debug, Clone, PartialEq, Eq)]
pub struct Stats {
    pub memory: MemoryStats,
    pub cpu: CpuStats,
    pub pids: PidStats,
    pub blkio: BlkioStats,
    /// The huge pages in use, for each size that was asked about.
    pub hugetlb: Vec<HugetlbStats>,
}

/// A snapshot, with its lists as the values that they are.
pub struct StatsView {
    pub memory: MemoryStats,
    pub cpu: CpuStats,
    pub pids: PidStats,
    pub weight: u64,
    pub devices: Seq<CounterView>,
    pub hugetlb: Seq<HugetlbView>,
}

impl View for Stats {
    type V = StatsView;

    open spec fn view(&self) -> StatsView {
        StatsView {
            memory: self.memory,
            cpu: self.cpu,
            pids: self.pids,
            weight: self.blkio.weight,
            devices: counter_views(self.blkio.devices@),
            hugetlb: hugetlb_views(self.hugetlb@),
        }
    }
}

/// `s` without the line end that closes it, if one does.
pub open spec fn chomp(s: Seq<u8>) -> Seq<u8> {
    if s.len() > 0 && s.last() == 10 {
        s.drop_last()
    } else {
        s
    }
}

/// The word by which the kernel says that there is no limit.
pub open spec fn max_word() -> Seq<u8> {
    seq!['m' as u8, 'a' as u8, 'x' as u8]
}

/// The number that a file of one value holds: digits, or the word `max` for
/// the largest number, with or without a line end after it.
pub open spec fn single_value(s: Seq<u8>) -> Option<u64> {
    if chomp(s) == max_word() {
        Some(u64::MAX)
    } else {
        parse_u64(chomp(s))
    }
}

/// Reads a file of one value.
pub fn read_single_value(content: &[u8]) -> (r: Option<u64>)
    ensures
        r == single_value(content@),
{
    let n = content.len();
    let end = if n > 0 && content[n - 1] == NEWLINE { n - 1 } else { n };
    let body = slice_subrange(content, 0, end);
    assert(body@ =~= chomp(content@));
    if end == 3 && body[0] == 'm' as u8 && body[1] == 'a' as u8 && body[2] == 'x' as u8 {
        assert(body@ =~= max_word());
        Some(u64::MAX)
    } else {
        read_u64(body)
    }
}

/// The line of `s` from `from` to `end` is a line for `key`: it starts with
/// the key and one space.
pub open spec fn line_has_key(s: Seq<u8>, from: int, end: int, key: Seq<u8>) -> bool {
    &&& from + key.len() < end
    &&& s.subrange(from, from + key.len()) == key
    &&& s[from + key.len()] == ' ' as u8
}

/// What a file of keys and values holds for a key.
#[derive(Debug, Clone, Copy, PartialEq, Eq, Structural)]
pub enum Keyed {
    /// No line starts with the key.
    Missing,
    /// The first line with the key gives it no number.
    Malformed,
    /// The first line with the key gives it this number.
    Found(u64),
}

/// What the lines of `s` from `from` on hold for `key`: each line is a key, a
/// space and a number, and the first line with the key counts.
pub open spec fn keyed_from(s: Seq<u8>, key: Seq<u8>, from: int) -> Keyed
    decreases s.len() + 1 - from,
    via keyed_from_ends
{
    if from < 0 || from >= s.len() {
        Keyed::Missing
    } else {
        let end = next_newline(s, from);
        if line_has_key(s, from, end, key) {
            match parse_u64(s.subrange(from + key.len() + 1, end)) {
                Some(v) => Keyed::Found(v),
                None => Keyed::Malformed,
            }
        } else {
            keyed_from(s, key, end + 1)
        }
    }
}

#[via_fn]
proof fn keyed_from_ends(s: Seq<u8>, key: Seq<u8>, from: int) {
    if 0 <= from < s.len() {
        lemma_next_newline_bounds(s, from);
    }
}

/// What a file of keys and values holds for a key.
pub open spec fn keyed_value(s: Seq<u8>, key: Seq<u8>) -> Keyed {
    keyed_from(s, key, 0)
}

fn has_key(s: &[u8], from: usize, end: usize, key: &[u8]) -> (b: bool)
    requires
        from <= end <= s.len(),
    ensures
        b == line_has_key(s@, from as int, end as int, key@),
{
    if key.len() >= end - from {
        return false;
    }
    holds_at(s, from, key) && s[from + key.len()] == ' ' as u8
}

/// Looks a key up in a file of keys and values.
pub fn read_keyed_value(content: &[u8], key: &[u8]) -> (r: Keyed)
    ensures
        r == keyed_value(content@, key@),
{
    let mut from: usize = 0;
    while from < content.len()
        invariant
            from <= content.len(),
            keyed_value(content@, key@) == keyed_from(content@, key@, from as int),
        decreases content.len() - from,
    {
        let mut end: usize = from;
        while end < content.len() && content[end] != NEWLINE
            invariant
                from <= end <= content.len(),
                next_newline(content@, from as int) == next_newline(content@, end as int),
            decreases content.len() - end,
        {
            end += 1;
        }
        if has_key(content, from, end, key) {
            let value = slice_subrange(content, from + key.len() + 1, end);
            return match read_u64(value) {
                Some(v) => Keyed::Found(v),
                None => Keyed::Malformed,
            };
        }
        from = if end < content.len() { end + 1 } else { end };
    }
    Keyed::Missing
}

/// The number that a file must hold: the file must be there, be readable,
/// and hold one value.
pub open spec fn required_value(file: Seq<char>, read: FileRead) -> Result<u64, Failure> {
    match read {
        FileRead::Absent => Err(Failure::Io(IoStage::Open, file, None)),
        FileRead::Unreadable(errno) => Err(Failure::Io(IoStage::Read, file, errno)),
        FileRead::Content(bytes) => match single_value(bytes@) {
            Some(v) => Ok(v),
            None => Err(Failure::Parse(file)),
        },
    }
}

/// The number that a file may hold: zero where the file is not there.
pub open spec fn optional_value(file: Seq<char>, read: FileRead) -> Result<u64, Failure> {
    match read {
        FileRead::Absent => Ok(0u64),
        _ => required_value(file, read),
    }
}

/// The number that a file of keys and values must hold for a key.
pub open spec fn required_key(file: Seq<char>, read: FileRead, key: Seq<u8>) -> Result<
    u64,
    Failure,
> {
    match read {
        FileRead::Absent => Err(Failure::Io(IoStage::Open, file, None)),
        FileRead::Unreadable(errno) => Err(Failure::Io(IoStage::Read, file, errno)),
        FileRead::Content(bytes) => match keyed_value(bytes@, key) {
            Keyed::Found(v) => Ok(v),
            _ => Err(Failure::Parse(file)),
        },
    }
}

/// The number that a file of keys and values may hold for a key: zero where
/// the file is not there, or has no line for the key.
pub open spec fn optional_key(file: Seq<char>, read: FileRead, key: Seq<u8>) -> Result<
    u64,
    Failure,
> {
    match read {
        FileRead::Absent => Ok(0u64),
        FileRead::Content(bytes) if keyed_value(bytes@, key) is Missing => Ok(0u64),
        _ => required_key(file, read, key),
    }
}

/// What was read of the file at place `i`; nothing where the list is
/// shorter.
pub open spec fn read_at(reads: Seq<FileRead>, i: int) -> FileRead {
    if 0 <= i < reads.len() {
        reads[i]
    } else {
        FileRead::Absent
    }
}

/// Takes the number that `file` must hold from what was read of it.
pub fn take_required(file: &str, reads: &Vec<FileRead>, i: usize) -> (r: Result<
    u64,
    CgroupError,
>)
    ensures
        r matches Ok(v) ==> required_value(file@, read_at(reads@, i as int)) == Ok::<
            u64,
            Failure,
        >(v),
        r matches Err(e) ==> required_value(file@, read_at(reads@, i as int))
            == Err::<u64, Failure>(e@),
{
    if i >= reads.len() {
        return Err(CgroupError::Io(IoStage::Open, file.to_owned(), None));
    }
    match &reads[i] {
        FileRead::Absent => Err(CgroupError::Io(IoStage::Open, file.to_owned(), None)),
        FileRead::Unreadable(errno) => Err(CgroupError::Io(IoStage::Read, file.to_owned(), *errno)),
        FileRead::Content(bytes) => match read_single_value(bytes.as_slice()) {
            Some(v) => Ok(v),
            None => Err(CgroupError::Parse(file.to_owned())),
        },
    }
}

/// Takes the number that `file` may hold from what was read of it.
pub fn take_optional(file: &str, reads: &Vec<FileRead>, i: usize) -> (r: Result<
    u64,
    CgroupError,
>)
    ensures
        r matches Ok(v) ==> optional_value(file@, read_at(reads@, i as int)) == Ok::<
            u64,
            Failure,
        >(v),
        r matches Err(e) ==> optional_value(file@, read_at(reads@, i as int))
            == Err::<u64, Failure>(e@),
{
    if i >= reads.len() {
        return Ok(0);
    }
    match &reads[i] {
        FileRead::Absent => Ok(0),
        _ => take_required(file, reads, i),
    }
}

/// Takes the number that `file` holds for `key` from what was read of it.
/// Where `lenient`, no file and a file without the key give zero.
pub fn take_key(
    file: &str,
    reads: &Vec<FileRead>,
    i: usize,
    key: &[u8],
    lenient: bool,
) -> (r: Result<u64, CgroupError>)
    ensures
        r matches Ok(v) ==> (if lenient {
            optional_key(file@, read_at(reads@, i as int), key@)
        } else {
            required_key(file@, read_at(reads@, i as int), key@)
        }) == Ok::<u64, Failure>(v),
        r matches Err(e) ==> (if lenient {
            optional_key(file@, read_at(reads@, i as int), key@)
        } else {
            required_key(file@, read_at(reads@, i as int), key@)
        }) == Err::<u64, Failure>(e@),
{
    if i >= reads.len() {
        return if lenient {
            Ok(0)
        } else {
            Err(CgroupError::Io(IoStage::Open, file.to_owned(), None))
        };
    }
    match &reads[i] {
        FileRead::Absent => if lenient {
            Ok(0)
        } else {
            Err(CgroupError::Io(IoStage::Open, file.to_owned(), None))
        },
        FileRead::Unreadable(errno) => Err(CgroupError::Io(IoStage::Read, file.to_owned(), *errno)),
        FileRead::Content(bytes) => match read_keyed_value(bytes.as_slice(), key) {
            Keyed::Found(v) => Ok(v),
            Keyed::Missing => if lenient {
                Ok(0)
            } else {
                Err(CgroupError::Parse(file.to_owned()))
            },
            Keyed::Malformed => Err(CgroupError::Parse(file.to_owned())),
        },
    }
}

/// Where one number of a snapshot comes from.
#[derive(Debug, Clone, PartialEq, Eq)]
pub struct Source {
    /// The place of the file in the list of files that are read.
    pub file: usize,
    /// The key whose value is taken; none where the file holds one value.
    pub key: Option<Vec<u8>>,
    /// Whether the number can be done without: whether the file may be
    /// absent, and a file of keys may lack the key. Zero is taken then.
    pub lenient: bool,
}

/// A source, with its key as the bytes that it is.
pub struct SourceView {
    pub file: int,
    pub key: Option<Seq<u8>>,
    pub lenient: bool,
}

impl View for Source {
    type V = SourceView;

    open spec fn view(&self) -> SourceView {
        SourceView {
            file: self.file as int,
            key: match self.key {
                Some(k) => Some(k@),
                None => None,
            },
            lenient: self.lenient,
        }
    }
}

/// The views of a list of sources.
pub open spec fn source_views(sources: Seq<Source>) -> Seq<SourceView> {
    sources.map_values(|s: Source| s@)
}

/// The texts of a list of paths.
pub open spec fn path_views(paths: Seq<String>) -> Seq<Seq<char>> {
    paths.map_values(|p: String| p@)
}

/// A file of one value that must be there.
pub open spec fn plain(file: int) -> SourceView {
    SourceView { file, key: None, lenient: false }
}

/// A file of one value that may be absent.
pub open spec fn spare(file: int) -> SourceView {
    SourceView { file, key: None, lenient: true }
}

/// A key in a file of keys and values.
pub open spec fn keyed(file: int, key: Seq<u8>, lenient: bool) -> SourceView {
    SourceView { file, key: Some(key), lenient }
}

/// The number that a source gives, from what was read of the files at
/// `paths`.
pub open spec fn source_value(
    paths: Seq<Seq<char>>,
    source: SourceView,
    reads: Seq<FileRead>,
) -> Result<u64, Failure> {
    let file = paths[source.file];
    let read = read_at(reads, source.file);
    match source.key {
        None => if source.lenient {
            optional_value(file, read)
        } else {
            required_value(file, read)
        },
        Some(key) => if source.lenient {
            optional_key(file, read, key)
        } else {
            required_key(file, read, key)
        },
    }
}

/// The numbers that the sources give, in order; the first failure where a
/// source fails.
pub open spec fn source_values(
    paths: Seq<Seq<char>>,
    sources: Seq<SourceView>,
    reads: Seq<FileRead>,
) -> Result<Seq<u64>, Failure>
    decreases sources.len(),
{
    if sources.len() == 0 {
        Ok(Seq::empty())
    } else {
        match source_values(paths, sources.drop_last(), reads) {
            Err(e) => Err(e),
            Ok(first) => match source_value(paths, sources.last(), reads) {
                Err(e) => Err(e),
                Ok(v) => Ok(first.push(v)),
            },
        }
    }
}

/// The snapshot that ten numbers and two lists make: of memory the usage,
/// the limit and the count of failures; of processor time the usage, the
/// periods, the throttled periods and the throttled time; of processes the
/// count and the limit; of block devices the weight and the counters; and
/// the huge pages in use.
pub open spec fn snapshot(
    v: Seq<u64>,
    devices: Seq<CounterView>,
    hugetlb: Seq<HugetlbView>,
) -> StatsView {
    StatsView {
        memory: MemoryStats { usage: v[0], limit: v[1], failcnt: v[2] },
        cpu: CpuStats { usage: v[3], periods: v[4], throttled_periods: v[5], throttled_time: v[6] },
        pids: PidStats { current: v[7], limit: v[8] },
        weight: v[9],
        devices,
        hugetlb,
    }
}

/// The files that hold the huge pages in use, one for each size: in `dir`,
/// the file of the size with the ending `suffix`.
pub open spec fn usage_files(dir: Seq<char>, suffix: Seq<char>, sizes: Seq<Seq<char>>) -> Seq<
    Seq<char>,
> {
    sizes.map_values(|size: Seq<char>| file_in(dir, hugepage_file(size, suffix)))
}

/// The huge pages in use for each of `sizes`, from what was read of the
/// files at `paths` from the place `base` on, one file to a size. A file
/// that is not there counts as no pages in use.
pub open spec fn hugetlb_from(
    paths: Seq<Seq<char>>,
    base: int,
    sizes: Seq<Seq<char>>,
    reads: Seq<FileRead>,
) -> Result<Seq<HugetlbView>, Failure>
    decreases sizes.len(),
{
    if sizes.len() == 0 {
        Ok(Seq::empty())
    } else {
        let at = base + sizes.len() - 1;
        match hugetlb_from(paths, base, sizes.drop_last(), reads) {
            Err(e) => Err(e),
            Ok(first) => match optional_value(paths[at], read_at(reads, at)) {
                Err(e) => Err(e),
                Ok(usage) => Ok(first.push(HugetlbView { page_size: sizes.last(), usage })),
            },
        }
    }
}

/// A failure among the first `k` sizes is the failure of all of them.
pub proof fn lemma_hugetlb_failure_stays(
    paths: Seq<Seq<char>>,
    base: int,
    sizes: Seq<Seq<char>>,
    reads: Seq<FileRead>,
    k: int,
)
    requires
        0 <= k <= sizes.len(),
        hugetlb_from(paths, base, sizes.subrange(0, k), reads) is Err,
    ensures
        hugetlb_from(paths, base, sizes, reads) == hugetlb_from(
            paths,
            base,
            sizes.subrange(0, k),
            reads,
        ),
    decreases sizes.len() - k,
{
    if k == sizes.len() {
        assert(sizes.subrange(0, k) =~= sizes);
    } else {
        assert(sizes.subrange(0, k + 1).drop_last() =~= sizes.subrange(0, k));
        lemma_hugetlb_failure_stays(paths, base, sizes, reads, k + 1);
    }
}

/// The counters that a table of devices gives: none where the file is not
/// there.
pub open spec fn table_of(file: Seq<char>, read: FileRead, sep: u8) -> Result<
    Seq<CounterView>,
    Failure,
> {
    match read {
        FileRead::Absent => Ok(Seq::empty()),
        FileRead::Unreadable(errno) => Err(Failure::Io(IoStage::Read, file, errno)),
        FileRead::Content(bytes) => match device_counters(bytes@, sep) {
            Some(counters) => Ok(counters),
            None => Err(Failure::Parse(file)),
        },
    }
}

/// The snapshot that ten sources, the table of devices at the place `table`
/// and the files of huge pages after it give: the numbers are taken first,
/// in order, then the table, then the huge pages size by size.
pub open spec fn stats_from(
    paths: Seq<Seq<char>>,
    sources: Seq<SourceView>,
    table: int,
    sep: u8,
    sizes: Seq<Seq<char>>,
    reads: Seq<FileRead>,
) -> Result<StatsView, Failure> {
    match source_values(paths, sources, reads) {
        Err(e) => Err(e),
        Ok(v) => match table_of(paths[table], read_at(reads, table), sep) {
            Err(e) => Err(e),
            Ok(devices) => match hugetlb_from(paths, table + 1, sizes, reads) {
                Err(e) => Err(e),
                Ok(hugetlb) => Ok(snapshot(v, devices, hugetlb)),
            },
        },
    }
}

/// Adds to a list of files those that hold the huge pages in use.
pub fn push_usage_files(files: &mut Vec<String>, dir: &str, suffix: &str, page_sizes: &Vec<String>)
    ensures
        path_views(final(files)@) == path_views(old(files)@) + usage_files(
            dir@,
            suffix@,
            path_views(page_sizes@),
        ),
{
    let ghost before = path_views(files@);
    let ghost all = usage_files(dir@, suffix@, path_views(page_sizes@));
    let mut i: usize = 0;
    while i < page_sizes.len()
        invariant
            i <= page_sizes.len(),
            all == usage_files(dir@, suffix@, path_views(page_sizes@)),
            path_views(files@) == before + all.subrange(0, i as int),
        decreases page_sizes.len() - i,
    {
        let ghost prior = path_views(files@);
        let mut name = "hugetlb.".to_owned();
        name.append(page_sizes[i].as_str());
        name.append(suffix);
        let file = control_file(dir, name.as_str());
        assert(file@ == all[i as int]);
        files.push(file);
        assert(path_views(files@) =~= prior.push(all[i as int]));
        assert(all.subrange(0, i + 1) =~= all.subrange(0, i as int).push(all[i as int]));
        i += 1;
    }
    assert(all.subrange(0, i as int) =~= all);
}

/// A failure among the first `k` sources is the failure of all of them.
pub proof fn lemma_source_failure_stays(
    paths: Seq<Seq<char>>,
    sources: Seq<SourceView>,
    reads: Seq<FileRead>,
    k: int,
)
    requires
        0 <= k <= sources.len(),
        source_values(paths, sources.subrange(0, k), reads) is Err,
    ensures
        source_values(paths, sources, reads) == source_values(
            paths,
            sources.subrange(0, k),
            reads,
        ),
    decreases sources.len() - k,
{
    if k == sources.len() {
        assert(sources.subrange(0, k) =~= sources);
    } else {
        assert(sources.subrange(0, k + 1).drop_last() =~= sources.subrange(0, k));
        lemma_source_failure_stays(paths, sources, reads, k + 1);
    }
}

/// So many numbers come out as there are sources.
pub proof fn lemma_source_values_len(
    paths: Seq<Seq<char>>,
    sources: Seq<SourceView>,
    reads: Seq<FileRead>,
)
    ensures
        source_values(paths, sources, reads) matches Ok(v) ==> v.len() == sources.len(),
    decreases sources.len(),
{
    if sources.len() > 0 {
        lemma_source_values_len(paths, sources.drop_last(), reads);
    }
}

/// Makes the snapshot from what was read of the files. The sources are taken
/// in order, and the first that fails ends the reading: a file that must be
/// there and is not, a file that cannot be read, a file that holds no number
/// where one is due.
pub(crate) fn read_stats(
    files: &Vec<String>,
    sources: &Vec<Source>,
    which: usize,
    sep: u8,
    page_sizes: &Vec<String>,
    reads: &Vec<FileRead>,
) -> (r: Result<Stats, CgroupError>)
    requires
        sources.len() == 10,
        forall|i: int| 0 <= i < sources.len() ==> (#[trigger] sources[i]).file < files.len(),
        files.len() == which + 1 + page_sizes.len(),
    ensures
        r matches Ok(stats) ==> stats_from(
            path_views(files@),
            source_views(sources@),
            which as int,
            sep,
            path_views(page_sizes@),
            reads@,
        ) == Ok::<StatsView, Failure>(stats@),
        r matches Err(e) ==> stats_from(
            path_views(files@),
            source_views(sources@),
            which as int,
            sep,
            path_views(page_sizes@),
            reads@,
        ) == Err::<StatsView, Failure>(e@),
{
    let ghost paths = path_views(files@);
    let ghost table = source_views(sources@);
    let mut values: Vec<u64> = Vec::new();
    let mut i: usize = 0;
    while i < sources.len()
        invariant
            i <= sources.len(),
            paths == path_views(files@),
            table == source_views(sources@),
            forall|j: int| 0 <= j < sources.len() ==> (#[trigger] sources[j]).file < files.len(),
            source_values(paths, table.subrange(0, i as int), reads@) == Ok::<Seq<u64>, Failure>(
                values@,
            ),
        decreases sources.len() - i,
    {
        let source = &sources[i];
        assert(table.subrange(0, i + 1).drop_last() =~= table.subrange(0, i as int));
        assert(table.subrange(0, i + 1).last() == source@);
        let file = files[source.file].as_str();
        assert(file@ == paths[source.file as int]);
        let taken = match &source.key {
            None => if source.lenient {
                take_optional(file, reads, source.file)
            } else {
                take_required(file, reads, source.file)
            },
            Some(key) => take_key(file, reads, source.file, key.as_slice(), source.lenient),
        };
        match taken {
            Err(e) => {
                proof {
                    lemma_source_failure_stays(paths, table, reads@, i + 1);
                }
                return Err(e);
            },
            Ok(v) => {
                values.push(v);
            },
        }
        i += 1;
    }
    assert(table.subrange(0, i as int) =~= table);
    proof {
        lemma_source_values_len(paths, table, reads@);
    }
    let devices: Vec<DeviceCounter> = if which >= reads.len() {
        Vec::new()
    } else {
        match &reads[which] {
            FileRead::Absent => Vec::new(),
            FileRead::Unreadable(errno) => {
                return Err(CgroupError::Io(IoStage::Read, files[which].clone(), *errno));
            },
            FileRead::Content(bytes) => match read_device_counters(bytes.as_slice(), sep) {
                Some(counters) => counters,
                None => {
                    return Err(CgroupError::Parse(files[which].clone()));
                },
            },
        }
    };
    assert(table_of(paths[which as int], read_at(reads@, which as int), sep) == Ok::<
        Seq<CounterView>,
        Failure,
    >(counter_views(devices@))) by {
        if which >= reads.len() || reads[which as int] is Absent {
            assert(counter_views(devices@) =~= Seq::<CounterView>::empty());
        }
    }
    let ghost sizes = path_views(page_sizes@);
    let mut hugetlb: Vec<HugetlbStats> = Vec::new();
    let mut k: usize = 0;
    assert(hugetlb_views(hugetlb@) =~= Seq::<HugetlbView>::empty());
    while k < page_sizes.len()
        invariant
            k <= page_sizes.len(),
            files.len() == which + 1 + page_sizes.len(),
            paths == path_views(files@),
            table == source_views(sources@),
            sizes == path_views(page_sizes@),
            source_values(paths, table, reads@) == Ok::<Seq<u64>, Failure>(values@),
            table_of(paths[which as int], read_at(reads@, which as int), sep) == Ok::<
                Seq<CounterView>,
                Failure,
            >(counter_views(devices@)),
            hugetlb_from(paths, which + 1, sizes.subrange(0, k as int), reads@) == Ok::<
                Seq<HugetlbView>,
                Failure,
            >(hugetlb_views(hugetlb@)),
        decreases page_sizes.len() - k,
    {
        let at = which + 1 + k;
        let ghost upto = sizes.subrange(0, k + 1);
        assert(upto.drop_last() =~= sizes.subrange(0, k as int));
        assert(upto.last() == page_sizes@[k as int]@);
        assert(files[at as int]@ == paths[at as int]);
        match take_optional(files[at].as_str(), reads, at) {
            Err(e) => {
                proof {
                    lemma_hugetlb_failure_stays(paths, which + 1, sizes, reads@, k + 1);
                }
                return Err(e);
            },
            Ok(usage) => {
                let ghost prior = hugetlb_views(hugetlb@);
                let entry = HugetlbStats { page_size: page_sizes[k].clone(), usage };
                hugetlb.push(entry);
                assert(hugetlb_views(hugetlb@) =~= prior.push(entry@));
            },
        }
        k += 1;
    }
    assert(sizes.subrange(0, k as int) =~= sizes);
    Ok(
        Stats {
            memory: MemoryStats { usage: values[0], limit: values[1], failcnt: values[2] },
            cpu: CpuStats {
                usage: values[3],
                periods: values[4],
                throttled_periods: values[5],
                throttled_time: values[6],
            },
            pids: PidStats { current: values[7], limit: values[8] },
            blkio: BlkioStats { weight: values[9], devices },
            hugetlb,
        },
    )
}

} // verus!
