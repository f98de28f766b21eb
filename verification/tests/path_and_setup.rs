use cgroups::error::{CgroupError, IoStage, SetupFailure};
use cgroups::path::{control_file, join_safely};
use cgroups::setup::{
    get_cgroup_setup, CgroupSetup, HostProbe, Mount, DEFAULT_CGROUP_ROOT, UNIFIED_PROBE,
};

const CGROUP2: i64 = 0x63677270;
const TMPFS: i64 = 0x01021994;

#[test]
fn join_absolute_suffix_is_plain_concatenation() {
    assert_eq!(join_safely("/sys/fs/cgroup", "/youki/abc"), Ok("/sys/fs/cgroup/youki/abc".to_string()));
}

#[test]
fn join_does_not_normalise() {
    assert_eq!(join_safely("/sys/fs/cgroup", "/a/../../b"), Ok("/sys/fs/cgroup/a/../../b".to_string()));
    assert_eq!(join_safely("/base/", "//x"), Ok("/base///x".to_string()));
}

#[test]
fn join_empty_suffix_gives_base() {
    assert_eq!(join_safely("/sys/fs/cgroup", ""), Ok("/sys/fs/cgroup".to_string()));
    assert_eq!(join_safely("", ""), Ok(String::new()));
}

#[test]
fn join_relative_suffix_is_refused() {
    assert_eq!(join_safely("/sys/fs/cgroup", "youki"), Err(CgroupError::Path("youki".to_string())));
    assert_eq!(join_safely("/sys/fs/cgroup", "../etc"), Err(CgroupError::Path("../etc".to_string())));
    assert_eq!(join_safely("/sys/fs/cgroup", "."), Err(CgroupError::Path(".".to_string())));
    assert_eq!(join_safely("/sys/fs/cgroup", " /x"), Err(CgroupError::Path(" /x".to_string())));
}

#[test]
fn join_handles_text_beyond_ascii() {
    assert_eq!(join_safely("/grüße", "/naïve"), Ok("/grüße/naïve".to_string()));
    assert_eq!(join_safely("/a", "é/x"), Err(CgroupError::Path("é/x".to_string())));
}

#[test]
fn control_file_puts_a_separator_between() {
    assert_eq!(control_file("/sys/fs/cgroup/memory/g", "memory.failcnt"), "/sys/fs/cgroup/memory/g/memory.failcnt");
    assert_eq!(control_file("", "x"), "/x");
}

#[test]
fn the_fixed_paths() {
    assert_eq!(DEFAULT_CGROUP_ROOT, "/sys/fs/cgroup");
    assert_eq!(UNIFIED_PROBE, "/sys/fs/cgroup/unified");
}

#[test]
fn setup_names() {
    assert_eq!(CgroupSetup::Hybrid.to_string(), "hybrid");
    assert_eq!(CgroupSetup::Legacy.to_string(), "legacy");
    assert_eq!(CgroupSetup::Unified.to_string(), "unified");
    assert_eq!(CgroupSetup::Unified.as_str(), "unified");
}

#[test]
fn unified_root_is_unified() {
    let probe = HostProbe { root: Mount::Present(CGROUP2), unified: Mount::Missing };
    assert_eq!(get_cgroup_setup(&probe), Ok(CgroupSetup::Unified));
    // whatever lies at the probe path does not matter then
    let probe = HostProbe { root: Mount::Present(CGROUP2), unified: Mount::Unreadable(None) };
    assert_eq!(get_cgroup_setup(&probe), Ok(CgroupSetup::Unified));
}

#[test]
fn tmpfs_root_without_probe_is_legacy() {
    let probe = HostProbe { root: Mount::Present(TMPFS), unified: Mount::Missing };
    assert_eq!(get_cgroup_setup(&probe), Ok(CgroupSetup::Legacy));
}

#[test]
fn tmpfs_root_with_unified_probe_is_hybrid() {
    let probe = HostProbe { root: Mount::Present(TMPFS), unified: Mount::Present(CGROUP2) };
    assert_eq!(get_cgroup_setup(&probe), Ok(CgroupSetup::Hybrid));
}

#[test]
fn tmpfs_root_with_other_probe_is_legacy() {
    let probe = HostProbe { root: Mount::Present(TMPFS), unified: Mount::Present(TMPFS) };
    assert_eq!(get_cgroup_setup(&probe), Ok(CgroupSetup::Legacy));
    let probe = HostProbe { root: Mount::Present(TMPFS), unified: Mount::Present(0x27e0eb) };
    assert_eq!(get_cgroup_setup(&probe), Ok(CgroupSetup::Legacy));
}

#[test]
fn missing_root_is_a_setup_error() {
    let probe = HostProbe { root: Mount::Missing, unified: Mount::Present(CGROUP2) };
    assert_eq!(get_cgroup_setup(&probe), Err(CgroupError::Setup(SetupFailure::RootMissing)));
}

#[test]
fn unknown_root_is_a_setup_error() {
    // the magic number of a per-controller hierarchy itself
    let probe = HostProbe { root: Mount::Present(0x27e0eb), unified: Mount::Missing };
    assert_eq!(get_cgroup_setup(&probe), Err(CgroupError::Setup(SetupFailure::UnknownFilesystem)));
    let probe = HostProbe { root: Mount::Present(0), unified: Mount::Missing };
    assert_eq!(get_cgroup_setup(&probe), Err(CgroupError::Setup(SetupFailure::UnknownFilesystem)));
    let probe = HostProbe { root: Mount::Present(CGROUP2 + 1), unified: Mount::Missing };
    assert_eq!(get_cgroup_setup(&probe), Err(CgroupError::Setup(SetupFailure::UnknownFilesystem)));
}

#[test]
fn unreadable_paths_are_io_errors() {
    let probe = HostProbe { root: Mount::Unreadable(None), unified: Mount::Missing };
    assert_eq!(
        get_cgroup_setup(&probe),
        Err(CgroupError::Io(IoStage::Stat, "/sys/fs/cgroup".to_string(), None))
    );
    let probe = HostProbe { root: Mount::Unreadable(Some(13)), unified: Mount::Missing };
    assert_eq!(
        get_cgroup_setup(&probe),
        Err(CgroupError::Io(IoStage::Stat, "/sys/fs/cgroup".to_string(), Some(13)))
    );
    let probe = HostProbe { root: Mount::Present(TMPFS), unified: Mount::Unreadable(Some(5)) };
    assert_eq!(
        get_cgroup_setup(&probe),
        Err(CgroupError::Io(IoStage::Stat, "/sys/fs/cgroup/unified".to_string(), Some(5)))
    );
    let probe = HostProbe { root: Mount::Present(TMPFS), unified: Mount::Unreadable(None) };
    assert_eq!(
        get_cgroup_setup(&probe),
        Err(CgroupError::Io(IoStage::Stat, "/sys/fs/cgroup/unified".to_string(), None))
    );
}
