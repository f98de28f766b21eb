use cgroups::decimal::{read_digits, read_i32, read_u64, write_i64, write_u64};
use cgroups::error::{CgroupError, IoStage};
use cgroups::pids::{
    get_all_pids, read_membership, CgroupDir, FileRead, Listing, Pid, CGROUP_PROCS,
};

fn dir(path: &str, procs: Option<&str>, children: Vec<CgroupDir>) -> CgroupDir {
    CgroupDir {
        path: path.to_string(),
        procs: match procs {
            Some(text) => FileRead::Content(text.as_bytes().to_vec()),
            None => FileRead::Absent,
        },
        listing: Listing::Listed,
        children,
    }
}

fn pids(raw: &[i32]) -> Vec<Pid> {
    raw.iter().map(|r| Pid::from_raw(*r)).collect()
}

#[test]
fn pid_holds_its_number() {
    assert_eq!(Pid::from_raw(42).as_raw(), 42);
    assert_eq!(Pid::from_raw(-1), Pid(-1));
    assert_eq!(CGROUP_PROCS, "cgroup.procs");
}

#[test]
fn collect_pids_of_nested_groups() {
    let tree = dir("/A", Some("1\n2\n"), vec![dir("/A/B", Some("3\n"), vec![])]);
    assert_eq!(get_all_pids(&tree), Ok(pids(&[1, 2, 3])));
}

#[test]
fn collect_pids_without_membership_files() {
    let tree = dir("/A", None, vec![dir("/A/B", None, vec![dir("/A/B/C", None, vec![])]), dir("/A/D", None, vec![])]);
    assert_eq!(get_all_pids(&tree), Ok(vec![]));
}

#[test]
fn collect_pids_goes_depth_first_and_keeps_duplicates() {
    let tree = dir(
        "/A",
        Some("1\n"),
        vec![
            dir("/A/B", Some("2\n1\n"), vec![dir("/A/B/C", Some("3"), vec![])]),
            dir("/A/D", Some("4\n"), vec![]),
        ],
    );
    assert_eq!(get_all_pids(&tree), Ok(pids(&[1, 2, 1, 3, 4])));
}

#[test]
fn collect_pids_fails_on_a_malformed_line() {
    let tree = dir("/A", Some("1\n"), vec![dir("/A/B", Some("2\nx\n"), vec![]), dir("/A/C", Some("7\n"), vec![])]);
    assert_eq!(get_all_pids(&tree), Err(CgroupError::Parse("/A/B/cgroup.procs".to_string())));
}

#[test]
fn collect_pids_reports_the_first_failure() {
    let mut unreadable = dir("/A/B", None, vec![]);
    unreadable.procs = FileRead::Unreadable(Some(5));
    let tree = dir("/A", Some("1\n"), vec![unreadable, dir("/A/C", Some("bad"), vec![])]);
    assert_eq!(get_all_pids(&tree), Err(CgroupError::Io(IoStage::Open, "/A/B/cgroup.procs".to_string(), Some(5))));

    let mut unlisted = dir("/A", Some("1\n"), vec![]);
    unlisted.listing = Listing::Unlistable(Some(13));
    assert_eq!(get_all_pids(&unlisted), Err(CgroupError::Io(IoStage::Read, "/A".to_string(), Some(13))));

    // the membership file of a directory comes before its listing
    let mut both = dir("/A", Some("one\n"), vec![]);
    both.listing = Listing::Unlistable(None);
    assert_eq!(get_all_pids(&both), Err(CgroupError::Parse("/A/cgroup.procs".to_string())));
}

#[test]
fn membership_lines() {
    assert_eq!(read_membership(b""), Some(vec![]));
    assert_eq!(read_membership(b"12"), Some(pids(&[12])));
    assert_eq!(read_membership(b"12\n"), Some(pids(&[12])));
    assert_eq!(read_membership(b"12\n34"), Some(pids(&[12, 34])));
    assert_eq!(read_membership(b"12\r\n34\r\n"), Some(pids(&[12, 34])));
    assert_eq!(read_membership(b"+7\n-8\n007\n"), Some(pids(&[7, -8, 7])));
    assert_eq!(read_membership(b"2147483647\n-2147483648\n"), Some(pids(&[2147483647, -2147483648])));
}

#[test]
fn membership_lines_that_are_no_pid() {
    assert_eq!(read_membership(b"\n"), None);
    assert_eq!(read_membership(b"12\n\n34\n"), None);
    assert_eq!(read_membership(b"12 \n"), None);
    assert_eq!(read_membership(b" 12\n"), None);
    assert_eq!(read_membership(b"12\r"), None);
    assert_eq!(read_membership(b"\r\n"), None);
    assert_eq!(read_membership(b"0x10\n"), None);
    assert_eq!(read_membership(b"2147483648\n"), None);
    assert_eq!(read_membership(b"-2147483649\n"), None);
    assert_eq!(read_membership(b"1\n-\n"), None);
    assert_eq!(read_membership(b"1\n+\n"), None);
    assert_eq!(read_membership(&[0x31, 0xff, 0x0a]), None);
}

#[test]
fn reading_numbers() {
    assert_eq!(read_i32(b"0"), Some(0));
    assert_eq!(read_i32(b"-0"), Some(0));
    assert_eq!(read_i32(b"000000000000000000000000000012"), Some(12));
    assert_eq!(read_i32(b""), None);
    assert_eq!(read_i32(b"--1"), None);
    assert_eq!(read_i32(b"99999999999999999999999999999999"), None);
    assert_eq!(read_u64(b"18446744073709551615"), Some(u64::MAX));
    assert_eq!(read_u64(b"18446744073709551616"), None);
    assert_eq!(read_u64(b"+5"), Some(5));
    assert_eq!(read_u64(b"-5"), None);
    assert_eq!(read_u64(b"-0"), None);
    assert_eq!(read_u64(b""), None);
    assert_eq!(read_u64(b"5a"), None);
    assert_eq!(read_digits(b"ab123", 2, 200), Some(123));
    assert_eq!(read_digits(b"ab123", 2, 122), None);
    assert_eq!(read_digits(b"ab123", 5, 200), None);
    assert_eq!(read_digits(b"ab123", 1, 200), None);
}

#[test]
fn writing_numbers() {
    assert_eq!(write_u64(0), b"0".to_vec());
    assert_eq!(write_u64(9), b"9".to_vec());
    assert_eq!(write_u64(10), b"10".to_vec());
    assert_eq!(write_u64(104857600), b"104857600".to_vec());
    assert_eq!(write_u64(u64::MAX), b"18446744073709551615".to_vec());
    assert_eq!(write_i64(-1), b"-1".to_vec());
    assert_eq!(write_i64(0), b"0".to_vec());
    assert_eq!(write_i64(i64::MIN), b"-9223372036854775808".to_vec());
    assert_eq!(write_i64(i64::MAX), b"9223372036854775807".to_vec());
}

#[test]
fn numbers_read_back_as_written() {
    for n in [0u64, 1, 9, 10, 99, 100, 65535, 104857600, u64::MAX - 1, u64::MAX] {
        assert_eq!(read_u64(&write_u64(n)), Some(n));
    }
    for n in [i32::MIN, -100, -1, 0, 1, 64, i32::MAX] {
        assert_eq!(read_i32(&write_i64(n as i64)), Some(n));
    }
}
