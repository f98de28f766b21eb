use vstd::prelude::*;
use vstd::slice::slice_subrange;
use crate::decimal::{parse_u64, read_u64};
use crate::pids::{lemma_next_newline_bounds, next_newline, NEWLINE};

verus! {

/// One counter that the kernel keeps for a group and a block device.
#[derive(Debug, Clone, PartialEq, Eq)]
pub struct DeviceCounter {
    /// The major number of the device.
    pub major: u64,
    /// The minor number of the device.
    pub minor: u64,
    /// The name of the counter, as the kernel writes it.
    pub name: Vec<u8>,
    /// What was counted.
    pub value: u64,
}

/// A counter, with its name as the bytes that it is.
pub struct CounterView {
    pub major: u64,
    pub minor: u64,
    pub name: Seq<u8>,
    pub value: u64,
}

impl View for DeviceCounter {
    type V = CounterView;

    open spec fn view(&self) -> CounterView {
        CounterView { major: self.major, minor: self.minor, name: self.name@, value: self.value }
    }
}

/// The views of a list of counters.
pub open spec fn counter_views(counters: Seq<DeviceCounter>) -> Seq<CounterView> {
    counters.map_values(|c: DeviceCounter| c@)
}

/// The place of the first `b` in `s` from `from` up to `end`, or `end` where
/// there is none.
pub open spec fn next_byte(s: Seq<u8>, from: int, end: int, b: u8) -> int
    decreases end - from,
{
    if from >= end {
        end
    } else if s[from] == b {
        from
    } else {
        next_byte(s, from + 1, end, b)
    }
}

/// The byte that is sought lies at or after the place from which it is
/// sought.
pub proof fn lemma_next_byte_bounds(s: Seq<u8>, from: int, end: int, b: u8)
    requires
        from <= end,
    ensures
        from <= next_byte(s, from, end, b) <= end,
        next_byte(s, from, end, b) < end ==> s[next_byte(s, from, end, b)] == b,
    decreases end - from,
{
    if from < end && s[from] != b {
        lemma_next_byte_bounds(s, from + 1, end, b);
    }
}

/// The counters that a line gives for one device from the place `p` on, up
/// to the end of the line: each is a space, a name of one byte or more
/// without a space in it, the separator, and a number. `None` where the line
/// holds anything else.
pub open spec fn pairs_at(s: Seq<u8>, p: int, end: int, sep: u8, major: u64, minor: u64) -> Option<
    Seq<CounterView>,
>
    decreases end - p,
    via pairs_at_ends
{
    if p >= end {
        Some(Seq::empty())
    } else if s[p] != ' ' as u8 {
        None
    } else {
        let name_end = next_byte(s, p + 1, end, sep);
        let value_end = next_byte(s, name_end + 1, end, ' ' as u8);
        if name_end >= end || name_end == p + 1 || next_byte(s, p + 1, name_end, ' ' as u8)
            < name_end {
            None
        } else {
            match (
                parse_u64(s.subrange(name_end + 1, value_end)),
                pairs_at(s, value_end, end, sep, major, minor),
            ) {
                (Some(value), Some(rest)) => Some(
                    seq![CounterView { major, minor, name: s.subrange(p + 1, name_end), value }]
                        + rest,
                ),
                _ => None,
            }
        }
    }
}

#[via_fn]
proof fn pairs_at_ends(s: Seq<u8>, p: int, end: int, sep: u8, major: u64, minor: u64) {
    if p < end {
        lemma_next_byte_bounds(s, p + 1, end, sep);
        let name_end = next_byte(s, p + 1, end, sep);
        if name_end < end {
            lemma_next_byte_bounds(s, name_end + 1, end, ' ' as u8);
        }
    }
}

/// The counters that the line of `s` from `from` to `end` gives: the numbers
/// of a device with a colon between them, then the counters of the device.
/// A line without a colon, such as one that sums up, gives none. `None`
/// where a line with a colon holds anything else.
pub open spec fn line_counters(s: Seq<u8>, from: int, end: int, sep: u8) -> Option<
    Seq<CounterView>,
> {
    let colon = next_byte(s, from, end, ':' as u8);
    if colon >= end {
        Some(Seq::empty())
    } else {
        let head_end = next_byte(s, colon + 1, end, ' ' as u8);
        match (parse_u64(s.subrange(from, colon)), parse_u64(s.subrange(colon + 1, head_end))) {
            (Some(major), Some(minor)) => pairs_at(s, head_end, end, sep, major, minor),
            _ => None,
        }
    }
}

/// The counters that the lines of `s` from `from` on give, in order.
pub open spec fn table_from(s: Seq<u8>, from: int, sep: u8) -> Option<Seq<CounterView>>
    decreases s.len() + 1 - from,
    via table_from_ends
{
    if from < 0 || from >= s.len() {
        Some(Seq::empty())
    } else {
        match (
            line_counters(s, from, next_newline(s, from), sep),
            table_from(s, next_newline(s, from) + 1, sep),
        ) {
            (Some(line), Some(rest)) => Some(line + rest),
            _ => None,
        }
    }
}

#[via_fn]
proof fn table_from_ends(s: Seq<u8>, from: int, sep: u8) {
    if 0 <= from < s.len() {
        lemma_next_newline_bounds(s, from);
    }
}

/// The counters that a table of devices holds. Each line names a device by
/// its two numbers and gives counters for it: after a space a name, the
/// separator and a number, once or more often. With a space for the
/// separator this is the table of the per-controller layout, one counter to
/// a line; with an equals sign it is that of the unified hierarchy.
pub open spec fn device_counters(s: Seq<u8>, sep: u8) -> Option<Seq<CounterView>> {
    table_from(s, 0, sep)
}

fn find_byte(s: &[u8], from: usize, end: usize, b: u8) -> (at: usize)
    requires
        from <= end <= s.len(),
    ensures
        at == next_byte(s@, from as int, end as int, b),
        from <= at <= end,
{
    let mut i: usize = from;
    while i < end && s[i] != b
        invariant
            from <= i <= end <= s.len(),
            next_byte(s@, from as int, end as int, b) == next_byte(s@, i as int, end as int, b),
        decreases end - i,
    {
        i += 1;
    }
    i
}

/// `head`, then `tail`; nothing where either is nothing.
pub open spec fn then_counters(
    head: Option<Seq<CounterView>>,
    tail: Option<Seq<CounterView>>,
) -> Option<Seq<CounterView>> {
    match (head, tail) {
        (Some(h), Some(t)) => Some(h + t),
        _ => None,
    }
}

fn read_line(s: &[u8], from: usize, end: usize, sep: u8, out: &mut Vec<DeviceCounter>) -> (ok:
    bool)
    requires
        from <= end <= s.len(),
    ensures
        ok ==> (line_counters(s@, from as int, end as int, sep) matches Some(line)
            && counter_views(final(out)@) == counter_views(old(out)@) + line),
        !ok ==> line_counters(s@, from as int, end as int, sep) is None,
{
    let ghost before = counter_views(out@);
    let colon = find_byte(s, from, end, ':' as u8);
    if colon >= end {
        assert(counter_views(out@) + Seq::<CounterView>::empty() =~= counter_views(out@));
        return true;
    }
    let head_end = find_byte(s, colon + 1, end, ' ' as u8);
    let major = match read_u64(slice_subrange(s, from, colon)) {
        Some(n) => n,
        None => {
            return false;
        },
    };
    let minor = match read_u64(slice_subrange(s, colon + 1, head_end)) {
        Some(n) => n,
        None => {
            return false;
        },
    };
    let ghost whole = pairs_at(s@, head_end as int, end as int, sep, major, minor);
    let ghost mut done: Seq<CounterView> = Seq::empty();
    let mut p: usize = head_end;
    while p < end
        invariant
            head_end <= p <= end <= s.len(),
            whole == line_counters(s@, from as int, end as int, sep),
            whole == then_counters(Some(done), pairs_at(s@, p as int, end as int, sep, major, minor)),
            counter_views(out@) == before + done,
        decreases end - p,
    {
        if s[p] != ' ' as u8 {
            return false;
        }
        let name_end = find_byte(s, p + 1, end, sep);
        if name_end >= end || name_end == p + 1 || find_byte(s, p + 1, name_end, ' ' as u8)
            < name_end {
            return false;
        }
        let value_end = find_byte(s, name_end + 1, end, ' ' as u8);
        let value = match read_u64(slice_subrange(s, name_end + 1, value_end)) {
            Some(v) => v,
            None => {
                return false;
            },
        };
        let name = slice_to_vec_bytes(slice_subrange(s, p + 1, name_end));
        let ghost prior = counter_views(out@);
        let counter = DeviceCounter { major, minor, name, value };
        out.push(counter);
        proof {
            let rest = pairs_at(s@, value_end as int, end as int, sep, major, minor);
            assert(counter_views(out@) =~= prior.push(counter@));
            if rest is Some {
                assert(done + (seq![counter@] + rest->0) =~= done.push(counter@) + rest->0);
            }
            done = done.push(counter@);
            assert(prior.push(counter@) =~= before + done);
        }
        p = value_end;
    }
    proof {
        assert(done + Seq::<CounterView>::empty() =~= done);
    }
    true
}

fn slice_to_vec_bytes(s: &[u8]) -> (v: Vec<u8>)
    ensures
        v@ == s@,
{
    vstd::slice::slice_to_vec(s)
}

/// Reads the counters that a table of devices holds. `None` where a line
/// that names a device holds anything but counters.
pub fn read_device_counters(content: &[u8], sep: u8) -> (r: Option<Vec<DeviceCounter>>)
    ensures
        r matches Some(counters) ==> device_counters(content@, sep) == Some(
            counter_views(counters@),
        ),
        r is None ==> device_counters(content@, sep) is None,
{
    let mut out: Vec<DeviceCounter> = Vec::new();
    let mut from: usize = 0;
    assert(counter_views(out@) =~= Seq::<CounterView>::empty());
    while from < content.len()
        invariant
            from <= content.len(),
            device_counters(content@, sep) == then_counters(
                Some(counter_views(out@)),
                table_from(content@, from as int, sep),
            ),
        decreases content.len() - from,
    {
        let mut end: usize = from;
        while end < content.len() && content[end] != NEWLINE
            invariant
                from <= end <= content.len(),
                next_newline(content@, from as int) == next_newline(content@, end as int),
            decreases content.len() - end,
        {
            end += 1;
        }
        let ghost prior = counter_views(out@);
        if !read_line(content, from, end, sep, &mut out) {
            return None;
        }
        proof {
            let line = line_counters(content@, from as int, end as int, sep)->0;
            let rest = table_from(content@, end + 1, sep);
            if rest is Some {
                assert(prior + (line + rest->0) =~= prior + line + rest->0);
            }
        }
        from = if end < content.len() { end + 1 } else { end };
    }
    assert(counter_views(out@) + Seq::<CounterView>::empty() =~= counter_views(out@));
    Some(out)
}

} // verus!
