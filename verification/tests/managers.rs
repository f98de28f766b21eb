use cgroups::action::{Action, Outcome};
use cgroups::delegated;
use cgroups::devices::{Access, DeviceRule, DeviceType};
use cgroups::error::{CgroupError, IoStage};
use cgroups::manager::{CgroupManager, FreezerState};
use cgroups::pids::{CgroupDir, FileRead, Listing, Pid};
use cgroups::resources::{
    HugepageLimit, InterfacePriority, LinuxBlockIo, LinuxCpu, LinuxMemory, LinuxNetwork,
    LinuxPids, LinuxResources, RdmaLimit, ThrottleDevice,
};
use cgroups::limits::{page_size_name, read_entry_kilobytes};
use cgroups::stats::{BlkioStats, CpuStats, HugetlbStats, MemoryStats, PidStats, Stats};
use cgroups::table::{read_device_counters, DeviceCounter};
use cgroups::v1;
use cgroups::v2;
use std::collections::HashMap;

const CONTROLLERS: [&str; 11] = [
    "cpu", "cpuacct", "memory", "pids", "devices", "freezer", "blkio", "net_cls", "hugetlb",
    "net_prio", "rdma",
];

fn weight(w: Option<u16>) -> LinuxBlockIo {
    LinuxBlockIo {
        weight: w,
        throttle_read_bps_device: vec![],
        throttle_write_bps_device: vec![],
        throttle_read_iops_device: vec![],
        throttle_write_iops_device: vec![],
    }
}

fn class(c: Option<u32>) -> LinuxNetwork {
    LinuxNetwork { class_id: c, priorities: vec![] }
}

fn write(path: &str, data: &str) -> Action {
    Action::Write(path.to_string(), data.as_bytes().to_vec())
}

fn mkdir(path: &str) -> Action {
    Action::CreateDir(path.to_string())
}

fn v1_dirs(group: &str) -> Vec<String> {
    CONTROLLERS.iter().map(|c| format!("/sys/fs/cgroup/{}{}", c, group)).collect()
}

fn limits() -> LinuxResources {
    let mut r = LinuxResources::unset();
    r.memory = Some(LinuxMemory { limit: Some(100 * 1024 * 1024), reservation: None, swap: None });
    r.cpu = Some(LinuxCpu { shares: None, quota: Some(50000), period: Some(100000) });
    r.pids = Some(LinuxPids { limit: 64 });
    r
}

fn target(action: &Action) -> String {
    action.target().clone()
}

fn under(path: &str, dirs: &[String]) -> bool {
    dirs.iter().any(|d| path == d || path.starts_with(&format!("{}/", d)))
}

fn all_under(plan: &[Action], dirs: &[String]) -> bool {
    plan.iter().all(|a| under(&target(a), dirs))
}

fn writes(plan: &[Action]) -> usize {
    plan.iter().filter(|a| matches!(a, Action::Write(_, _))).count()
}

#[test]
fn managers_refuse_relative_paths() {
    assert_eq!(v1::Manager::new("youki/c1"), Err(CgroupError::Path("youki/c1".to_string())));
    assert_eq!(v2::Manager::new("/sys/fs/cgroup", "../c1"), Err(CgroupError::Path("../c1".to_string())));
    assert_eq!(delegated::Manager::new("/sys/fs/cgroup", "c1"), Err(CgroupError::Path("c1".to_string())));
    assert!(v1::Manager::new("").is_ok());
    assert!(v2::Manager::new("/sys/fs/cgroup", "/c1").is_ok());
}

#[test]
fn legacy_dirs() {
    let m = v1::Manager::new("/youki/c1").unwrap();
    assert_eq!(m.dirs_of(), v1_dirs("/youki/c1"));
    assert_eq!(m.dir_of(v1::Controller::Memory), "/sys/fs/cgroup/memory/youki/c1");
    assert_eq!(m.pids_root(), "/sys/fs/cgroup/devices/youki/c1");
    assert_eq!(v1::Controller::NetCls.as_str(), "net_cls");
}

#[test]
fn legacy_add_task() {
    let m = v1::Manager::new("/c1").unwrap();
    let plan = m.add_task(Pid::from_raw(1234));
    let mut expected: Vec<Action> = v1_dirs("/c1").iter().map(|d| mkdir(d)).collect();
    for d in v1_dirs("/c1") {
        expected.push(write(&format!("{}/cgroup.procs", d), "1234"));
    }
    assert_eq!(plan, expected);
}

#[test]
fn legacy_apply_writes_each_limit_to_its_file() {
    let m = v1::Manager::new("/c1").unwrap();
    let mut r = limits();
    r.cpu = Some(LinuxCpu { shares: Some(1024), quota: Some(50000), period: Some(100000) });
    r.memory = Some(LinuxMemory { limit: Some(104857600), reservation: Some(-1), swap: Some(209715200) });
    r.block_io = Some(weight(Some(500)));
    r.network = Some(class(Some(1048577)));
    let plan = m.apply(&r);
    let mut expected: Vec<Action> = v1_dirs("/c1").iter().map(|d| mkdir(d)).collect();
    expected.extend(vec![
        write("/sys/fs/cgroup/cpu/c1/cpu.shares", "1024"),
        write("/sys/fs/cgroup/cpu/c1/cpu.cfs_period_us", "100000"),
        write("/sys/fs/cgroup/cpu/c1/cpu.cfs_quota_us", "50000"),
        write("/sys/fs/cgroup/memory/c1/memory.limit_in_bytes", "104857600"),
        write("/sys/fs/cgroup/memory/c1/memory.memsw.limit_in_bytes", "209715200"),
        write("/sys/fs/cgroup/memory/c1/memory.soft_limit_in_bytes", "-1"),
        write("/sys/fs/cgroup/pids/c1/pids.max", "64"),
        write("/sys/fs/cgroup/blkio/c1/blkio.weight", "500"),
        write("/sys/fs/cgroup/net_cls/c1/net_cls.classid", "1048577"),
    ]);
    assert_eq!(plan, expected);
}

#[test]
fn legacy_apply_skips_what_is_not_set() {
    let m = v1::Manager::new("/c1").unwrap();
    let mut r = LinuxResources::unset();
    r.cpu = Some(LinuxCpu { shares: None, quota: Some(-1), period: None });
    r.pids = Some(LinuxPids { limit: 0 });
    let plan = m.apply(&r);
    assert_eq!(
        plan[11..].to_vec(),
        vec![
            write("/sys/fs/cgroup/cpu/c1/cpu.cfs_quota_us", "-1"),
            write("/sys/fs/cgroup/pids/c1/pids.max", "max"),
        ]
    );
}

#[test]
fn legacy_device_rules_follow_the_baseline() {
    let m = v1::Manager::new("/c1").unwrap();
    let mut r = LinuxResources::unset();
    r.devices = Some(vec![
        DeviceRule { allow: false, typ: None, major: None, minor: None, access: Access { read: true, write: true, mknod: true } },
        DeviceRule { allow: true, typ: Some(DeviceType::B), major: Some(8), minor: Some(0), access: Access { read: true, write: false, mknod: false } },
    ]);
    let plan = m.apply(&r);
    let lines = plan[11..].to_vec();
    assert_eq!(lines.len(), 10);
    let allow = "/sys/fs/cgroup/devices/c1/devices.allow";
    let deny = "/sys/fs/cgroup/devices/c1/devices.deny";
    assert_eq!(lines[0], write(allow, "c *:* m"));
    assert_eq!(lines[1], write(allow, "b *:* m"));
    assert_eq!(lines[2], write(allow, "c 5:1 rwm"));
    assert_eq!(lines[3], write(allow, "c 136:* rwm"));
    assert_eq!(lines[4], write(allow, "c 5:2 rwm"));
    assert_eq!(lines[5], write(allow, "c 10:200 rwm"));
    assert_eq!(lines[6], write(allow, "c 1:8 rwm"));
    assert_eq!(lines[7], write(allow, "c 1:9 rwm"));
    assert_eq!(lines[8], write(deny, "a *:* rwm"));
    assert_eq!(lines[9], write(allow, "b 8:0 r"));
    // with no rules asked, the rules that every container gets are all
    r.devices = Some(vec![]);
    assert_eq!(m.apply(&r)[11..].to_vec(), lines[..8].to_vec());
}

#[test]
fn legacy_freeze_and_remove() {
    let m = v1::Manager::new("/c1").unwrap();
    assert_eq!(m.freeze(FreezerState::Frozen), Ok(vec![write("/sys/fs/cgroup/freezer/c1/freezer.state", "FROZEN")]));
    assert_eq!(m.freeze(FreezerState::Thawed), Ok(vec![write("/sys/fs/cgroup/freezer/c1/freezer.state", "THAWED")]));
    assert_eq!(m.freeze(FreezerState::Freezing), Err(CgroupError::Unsupported));
    let expected: Vec<Action> = v1_dirs("/c1").into_iter().map(Action::RemoveDir).collect();
    assert_eq!(m.remove(), expected);
}

#[test]
fn unified_plans() {
    let m = v2::Manager::new("/sys/fs/cgroup", "/youki/c1").unwrap();
    let dir = "/sys/fs/cgroup/youki/c1";
    assert_eq!(m.dir_of(), dir);
    assert_eq!(m.pids_root(), dir);
    assert_eq!(
        m.add_task(Pid::from_raw(7)),
        vec![mkdir(dir), write("/sys/fs/cgroup/youki/c1/cgroup.procs", "7")]
    );
    assert_eq!(m.remove(), vec![Action::RemoveDir(dir.to_string())]);
    assert_eq!(m.freeze(FreezerState::Frozen), Ok(vec![write("/sys/fs/cgroup/youki/c1/cgroup.freeze", "1")]));
    assert_eq!(m.freeze(FreezerState::Thawed), Ok(vec![write("/sys/fs/cgroup/youki/c1/cgroup.freeze", "0")]));
    assert_eq!(m.freeze(FreezerState::Freezing), Err(CgroupError::Unsupported));
}

#[test]
fn unified_apply() {
    let m = v2::Manager::new("/sys/fs/cgroup", "/c1").unwrap();
    let mut r = limits();
    r.cpu = Some(LinuxCpu { shares: Some(1024), quota: Some(50000), period: Some(100000) });
    r.memory = Some(LinuxMemory { limit: Some(104857600), reservation: Some(1024), swap: Some(-1) });
    r.block_io = Some(weight(Some(100)));
    r.network = Some(class(Some(1)));
    assert_eq!(
        m.apply(&r),
        vec![
            mkdir("/sys/fs/cgroup/c1"),
            write("/sys/fs/cgroup/c1/cpu.weight", "39"),
            write("/sys/fs/cgroup/c1/cpu.max", "50000 100000"),
            write("/sys/fs/cgroup/c1/memory.max", "104857600"),
            write("/sys/fs/cgroup/c1/memory.swap.max", "max"),
            write("/sys/fs/cgroup/c1/memory.low", "1024"),
            write("/sys/fs/cgroup/c1/pids.max", "64"),
            write("/sys/fs/cgroup/c1/io.weight", "100"),
        ]
    );
}

#[test]
fn unified_cpu_values() {
    assert_eq!(v2::weight_of(2), 1);
    assert_eq!(v2::weight_of(0), 1);
    assert_eq!(v2::weight_of(1024), 39);
    assert_eq!(v2::weight_of(262144), 10000);
    assert_eq!(v2::weight_of(u64::MAX), 10000);
    let m = v2::Manager::new("/sys/fs/cgroup", "/c1").unwrap();
    let cases: Vec<(LinuxCpu, Vec<Action>)> = vec![
        (LinuxCpu { shares: Some(0), quota: None, period: None }, vec![]),
        (LinuxCpu { shares: None, quota: Some(-1), period: None }, vec![write("/sys/fs/cgroup/c1/cpu.max", "max")]),
        (LinuxCpu { shares: None, quota: Some(0), period: Some(1000) }, vec![write("/sys/fs/cgroup/c1/cpu.max", "max 1000")]),
        (LinuxCpu { shares: None, quota: None, period: Some(1000) }, vec![write("/sys/fs/cgroup/c1/cpu.max", "max 1000")]),
        (LinuxCpu { shares: None, quota: Some(20000), period: None }, vec![write("/sys/fs/cgroup/c1/cpu.max", "20000")]),
    ];
    for (cpu, expected) in cases {
        let mut r = LinuxResources::unset();
        r.cpu = Some(cpu);
        assert_eq!(m.apply(&r)[1..].to_vec(), expected);
    }
}

#[test]
fn unified_device_filter() {
    let m = v2::Manager::new("/sys/fs/cgroup", "/c1").unwrap();
    let mut r = LinuxResources::unset();
    r.devices = Some(vec![DeviceRule { allow: false, typ: Some(DeviceType::C), major: Some(1), minor: Some(3), access: Access { read: false, write: true, mknod: false } }]);
    let text = "allow c *:* m\nallow b *:* m\nallow c 5:1 rwm\nallow c 136:* rwm\nallow c 5:2 rwm\nallow c 10:200 rwm\nallow c 1:8 rwm\nallow c 1:9 rwm\ndeny c 1:3 w\n";
    assert_eq!(
        m.apply(&r),
        vec![mkdir("/sys/fs/cgroup/c1"), Action::DeviceFilter("/sys/fs/cgroup/c1".to_string(), text.as_bytes().to_vec())]
    );
    assert_eq!(v2::filter_bytes(&vec![]), Vec::<u8>::new());
}

#[test]
fn delegated_plans() {
    let m = delegated::Manager::new("/sys/fs/cgroup", "/system.slice/youki-c1.scope").unwrap();
    let dir = "/sys/fs/cgroup/system.slice/youki-c1.scope";
    assert_eq!(m.dir_of(), dir);
    assert_eq!(m.add_task(Pid::from_raw(7)), vec![Action::StartScope(dir.to_string(), Pid::from_raw(7))]);
    assert_eq!(m.remove(), vec![Action::StopScope(dir.to_string())]);
    assert_eq!(
        m.apply(&limits()),
        vec![
            Action::UpdateScope(dir.to_string()),
            write(&format!("{}/cpu.max", dir), "50000 100000"),
            write(&format!("{}/memory.max", dir), "104857600"),
            write(&format!("{}/pids.max", dir), "64"),
        ]
    );
    assert_eq!(m.freeze(FreezerState::Frozen), Ok(vec![write(&format!("{}/cgroup.freeze", dir), "1")]));
    assert_eq!(m.freeze(FreezerState::Freezing), Err(CgroupError::Unsupported));
    assert_eq!(m.stats_files(&vec![]), v2::Manager::new("/sys/fs/cgroup", "/system.slice/youki-c1.scope").unwrap().stats_files(&vec![]));
}

#[test]
fn nothing_asked_nothing_written() {
    let unset = LinuxResources::unset();
    let legacy = v1::Manager::new("/c1").unwrap();
    let unified = v2::Manager::new("/sys/fs/cgroup", "/c1").unwrap();
    let scope = delegated::Manager::new("/sys/fs/cgroup", "/c1").unwrap();
    assert_eq!(writes(&legacy.apply(&unset)), 0);
    assert_eq!(writes(&unified.apply(&unset)), 0);
    assert_eq!(writes(&scope.apply(&unset)), 0);
    // and the same plan comes out each time
    assert_eq!(legacy.apply(&unset), legacy.apply(&unset));
    assert_eq!(unified.apply(&unset), vec![mkdir("/sys/fs/cgroup/c1")]);
    // sections that are there but set nothing write nothing either
    let mut hollow = LinuxResources::unset();
    hollow.cpu = Some(LinuxCpu { shares: None, quota: None, period: None });
    hollow.memory = Some(LinuxMemory { limit: None, reservation: None, swap: None });
    hollow.block_io = Some(weight(None));
    hollow.network = Some(class(None));
    hollow.hugepage_limits = Some(vec![]);
    hollow.rdma = Some(vec![]);
    assert_eq!(writes(&legacy.apply(&hollow)), 0);
    assert_eq!(writes(&unified.apply(&hollow)), 0);
    assert!(unset.asks_nothing());
    assert!(!hollow.asks_nothing());
    assert!(!limits().asks_nothing());
}

#[test]
fn plans_stay_under_the_group() {
    let mut r = lists();
    r.memory = limits().memory;
    r.cpu = limits().cpu;
    r.pids = limits().pids;
    r.devices = Some(vec![]);
    let group = "/youki/../c1";
    let legacy = v1::Manager::new(group).unwrap();
    let dirs = v1_dirs(group);
    assert!(all_under(&legacy.add_task(Pid::from_raw(1)), &dirs));
    assert!(all_under(&legacy.apply(&r), &dirs));
    assert!(all_under(&legacy.remove(), &dirs));
    assert!(all_under(&legacy.freeze(FreezerState::Frozen).unwrap(), &dirs));
    assert!(legacy.stats_files(&vec!["2MB".to_string(), "1GB".to_string()]).iter().all(|f| under(f, &dirs)));
    assert!(dirs.iter().all(|d| d.ends_with(group) && d.starts_with("/sys/fs/cgroup/")));

    let dirs = vec![format!("/sys/fs/cgroup{}", group)];
    let unified = v2::Manager::new("/sys/fs/cgroup", group).unwrap();
    assert!(all_under(&unified.add_task(Pid::from_raw(1)), &dirs));
    assert!(all_under(&unified.apply(&r), &dirs));
    assert!(all_under(&unified.remove(), &dirs));
    assert!(all_under(&unified.freeze(FreezerState::Thawed).unwrap(), &dirs));
    assert!(unified.stats_files(&vec!["2MB".to_string()]).iter().all(|f| under(f, &dirs)));
    let scope = delegated::Manager::new("/sys/fs/cgroup", group).unwrap();
    assert!(all_under(&scope.add_task(Pid::from_raw(1)), &dirs));
    assert!(all_under(&scope.apply(&r), &dirs));
    assert!(all_under(&scope.remove(), &dirs));
}

#[test]
fn freeze_then_thaw_does_not_fail() {
    let managers: Vec<Box<dyn Fn(FreezerState) -> Result<Vec<Action>, CgroupError>>> = vec![
        Box::new(|s| v1::Manager::new("/c1").unwrap().freeze(s)),
        Box::new(|s| v2::Manager::new("/sys/fs/cgroup", "/c1").unwrap().freeze(s)),
        Box::new(|s| delegated::Manager::new("/sys/fs/cgroup", "/c1").unwrap().freeze(s)),
    ];
    for freeze in managers {
        let first = freeze(FreezerState::Frozen).unwrap();
        let second = freeze(FreezerState::Thawed).unwrap();
        assert_eq!(writes(&first), 1);
        assert_eq!(writes(&second), 1);
        assert_eq!(freeze(FreezerState::Freezing), Err(CgroupError::Unsupported));
    }
}

#[test]
fn settling_outcomes() {
    let w = write("/d/f", "1");
    assert_eq!(w.settle(Outcome::Done), Ok(()));
    assert_eq!(w.settle(Outcome::Missing), Err(CgroupError::Io(IoStage::Open, "/d/f".to_string(), None)));
    assert_eq!(
        w.settle(Outcome::Unopened(Some(13))),
        Err(CgroupError::Io(IoStage::Open, "/d/f".to_string(), Some(13)))
    );
    assert_eq!(
        w.settle(Outcome::Refused(None)),
        Err(CgroupError::Io(IoStage::Write, "/d/f".to_string(), None))
    );
    let c = mkdir("/d");
    assert_eq!(c.settle(Outcome::Done), Ok(()));
    assert_eq!(c.settle(Outcome::Missing), Err(CgroupError::Io(IoStage::CreateDir, "/d".to_string(), None)));
    assert_eq!(
        c.settle(Outcome::Refused(Some(30))),
        Err(CgroupError::Io(IoStage::CreateDir, "/d".to_string(), Some(30)))
    );
    assert_eq!(
        c.settle(Outcome::Unopened(Some(30))),
        Err(CgroupError::Io(IoStage::CreateDir, "/d".to_string(), Some(30)))
    );
    let r = Action::RemoveDir("/d".to_string());
    assert_eq!(r.settle(Outcome::Missing), Ok(()));
    assert_eq!(
        r.settle(Outcome::Refused(Some(16))),
        Err(CgroupError::Io(IoStage::RemoveDir, "/d".to_string(), Some(16)))
    );
    let s = Action::StopScope("/d".to_string());
    assert_eq!(s.settle(Outcome::Missing), Ok(()));
    assert_eq!(
        s.settle(Outcome::Refused(None)),
        Err(CgroupError::Io(IoStage::Request, "/d".to_string(), None))
    );
    let f = Action::DeviceFilter("/d".to_string(), vec![]);
    assert_eq!(f.settle(Outcome::Missing), Err(CgroupError::Io(IoStage::Write, "/d".to_string(), None)));
    let u = Action::UpdateScope("/d".to_string());
    assert_eq!(
        u.settle(Outcome::Refused(Some(1))),
        Err(CgroupError::Io(IoStage::Request, "/d".to_string(), Some(1)))
    );
    let t = Action::StartScope("/d".to_string(), Pid::from_raw(1));
    assert_eq!(t.settle(Outcome::Missing), Err(CgroupError::Io(IoStage::Request, "/d".to_string(), None)));
    assert_eq!(t.target(), "/d");
}

#[test]
fn a_refused_write_says_what_the_kernel_said() {
    // the kernel refuses a value that is no number with "invalid argument"
    let m = v1::Manager::new("/c1").unwrap();
    let mut r = LinuxResources::unset();
    r.pids = Some(LinuxPids { limit: 64 });
    let plan = m.apply(&r);
    let last = plan.last().unwrap();
    assert_eq!(last, &write("/sys/fs/cgroup/pids/c1/pids.max", "64"));
    for errno in [22, 16, 28, 1, i32::MAX, 0, -1] {
        assert_eq!(
            last.settle(Outcome::Refused(Some(errno))),
            Err(CgroupError::Io(IoStage::Write, "/sys/fs/cgroup/pids/c1/pids.max".to_string(), Some(errno)))
        );
    }
    // the first failure ends the plan: nothing after it is settled as done
    let outcomes = [Outcome::Done, Outcome::Refused(Some(22)), Outcome::Done];
    let three = vec![write("/a", "1"), write("/b", "x"), write("/c", "3")];
    let mut result = Ok(());
    for (action, outcome) in three.iter().zip(outcomes) {
        result = action.settle(outcome);
        if result.is_err() {
            break;
        }
    }
    assert_eq!(result, Err(CgroupError::Io(IoStage::Write, "/b".to_string(), Some(22))));
}

fn rate(major: i64, minor: i64, rate: u64) -> ThrottleDevice {
    ThrottleDevice { major, minor, rate }
}

fn lists() -> LinuxResources {
    let mut r = LinuxResources::unset();
    r.block_io = Some(LinuxBlockIo {
        weight: None,
        throttle_read_bps_device: vec![rate(8, 0, 1048576), rate(8, 16, 2097152)],
        throttle_write_bps_device: vec![rate(8, 0, 524288)],
        throttle_read_iops_device: vec![],
        throttle_write_iops_device: vec![rate(253, 1, 100)],
    });
    r.hugepage_limits = Some(vec![
        HugepageLimit { page_size: "2MB".to_string(), limit: 4194304 },
        HugepageLimit { page_size: "1GB".to_string(), limit: -1 },
    ]);
    r.network = Some(LinuxNetwork {
        class_id: None,
        priorities: vec![
            InterfacePriority { name: "eth0".to_string(), priority: 2 },
            InterfacePriority { name: "lo".to_string(), priority: 0 },
        ],
    });
    r.rdma = Some(vec![
        RdmaLimit { device: "mlx4_0".to_string(), hca_handles: Some(2), hca_objects: Some(2000) },
        RdmaLimit { device: "ocrdma1".to_string(), hca_handles: None, hca_objects: Some(3) },
        RdmaLimit { device: "bare".to_string(), hca_handles: None, hca_objects: None },
    ]);
    r
}

#[test]
fn legacy_lists_are_written_item_by_item() {
    let m = v1::Manager::new("/c1").unwrap();
    assert_eq!(
        m.apply(&lists())[11..].to_vec(),
        vec![
            write("/sys/fs/cgroup/blkio/c1/blkio.throttle.read_bps_device", "8:0 1048576"),
            write("/sys/fs/cgroup/blkio/c1/blkio.throttle.read_bps_device", "8:16 2097152"),
            write("/sys/fs/cgroup/blkio/c1/blkio.throttle.write_bps_device", "8:0 524288"),
            write("/sys/fs/cgroup/blkio/c1/blkio.throttle.write_iops_device", "253:1 100"),
            write("/sys/fs/cgroup/hugetlb/c1/hugetlb.2MB.limit_in_bytes", "4194304"),
            write("/sys/fs/cgroup/hugetlb/c1/hugetlb.1GB.limit_in_bytes", "-1"),
            write("/sys/fs/cgroup/net_prio/c1/net_prio.ifpriomap", "eth0 2"),
            write("/sys/fs/cgroup/net_prio/c1/net_prio.ifpriomap", "lo 0"),
            write("/sys/fs/cgroup/rdma/c1/rdma.max", "mlx4_0 hca_handle=2 hca_object=2000"),
            write("/sys/fs/cgroup/rdma/c1/rdma.max", "ocrdma1 hca_object=3"),
            write("/sys/fs/cgroup/rdma/c1/rdma.max", "bare"),
        ]
    );
}

#[test]
fn unified_lists_are_written_item_by_item() {
    let m = v2::Manager::new("/sys/fs/cgroup", "/c1").unwrap();
    assert_eq!(
        m.apply(&lists())[1..].to_vec(),
        vec![
            write("/sys/fs/cgroup/c1/io.max", "8:0 rbps=1048576"),
            write("/sys/fs/cgroup/c1/io.max", "8:16 rbps=2097152"),
            write("/sys/fs/cgroup/c1/io.max", "8:0 wbps=524288"),
            write("/sys/fs/cgroup/c1/io.max", "253:1 wiops=100"),
            write("/sys/fs/cgroup/c1/hugetlb.2MB.max", "4194304"),
            write("/sys/fs/cgroup/c1/hugetlb.1GB.max", "max"),
            write("/sys/fs/cgroup/c1/rdma.max", "mlx4_0 hca_handle=2 hca_object=2000"),
            write("/sys/fs/cgroup/c1/rdma.max", "ocrdma1 hca_object=3"),
            write("/sys/fs/cgroup/c1/rdma.max", "bare"),
        ]
    );
}

#[test]
fn names_beyond_ascii_are_written_as_they_are() {
    let m = v1::Manager::new("/c1").unwrap();
    let mut r = LinuxResources::unset();
    r.network = Some(LinuxNetwork {
        class_id: Some(7),
        priorities: vec![InterfacePriority { name: "häßlich".to_string(), priority: 4294967295 }],
    });
    assert_eq!(
        m.apply(&r)[11..].to_vec(),
        vec![
            write("/sys/fs/cgroup/net_cls/c1/net_cls.classid", "7"),
            write("/sys/fs/cgroup/net_prio/c1/net_prio.ifpriomap", "häßlich 4294967295"),
        ]
    );
}

/// A stand-in for the kernel: it keeps what is written to a file and shows
/// it again with a line end after it.
fn carry_out(plan: &[Action], files: &mut HashMap<String, Vec<u8>>) {
    for action in plan {
        if let Action::Write(path, data) = action {
            let mut shown = data.clone();
            shown.push(b'\n');
            files.insert(path.clone(), shown);
        }
    }
}

fn read_all(paths: &[String], files: &HashMap<String, Vec<u8>>) -> Vec<FileRead> {
    paths
        .iter()
        .map(|p| match files.get(p) {
            Some(bytes) => FileRead::Content(bytes.clone()),
            None => FileRead::Absent,
        })
        .collect()
}

#[test]
fn applied_limits_show_in_the_legacy_snapshot() {
    let m = v1::Manager::new("/c1").unwrap();
    let mut files: HashMap<String, Vec<u8>> = HashMap::new();
    files.insert("/sys/fs/cgroup/memory/c1/memory.usage_in_bytes".to_string(), b"4096\n".to_vec());
    files.insert("/sys/fs/cgroup/memory/c1/memory.failcnt".to_string(), b"3\n".to_vec());
    files.insert("/sys/fs/cgroup/cpuacct/c1/cpuacct.usage".to_string(), b"123456789\n".to_vec());
    files.insert(
        "/sys/fs/cgroup/cpu/c1/cpu.stat".to_string(),
        b"nr_periods 10\nnr_throttled 2\nthrottled_time 5000\n".to_vec(),
    );
    files.insert("/sys/fs/cgroup/pids/c1/pids.current".to_string(), b"5\n".to_vec());
    carry_out(&m.apply(&limits()), &mut files);
    let stats = m.stats(&vec![], &read_all(&m.stats_files(&vec![]), &files)).unwrap();
    assert_eq!(stats.memory.limit, 104857600);
    assert_eq!(stats.pids.limit, 64);
    assert_eq!(
        stats,
        Stats {
            memory: MemoryStats { usage: 4096, limit: 104857600, failcnt: 3 },
            cpu: CpuStats { usage: 123456789, periods: 10, throttled_periods: 2, throttled_time: 5000 },
            pids: PidStats { current: 5, limit: 64 },
            blkio: BlkioStats { weight: 0, devices: vec![] },
            hugetlb: vec![],
        }
    );
}

#[test]
fn applied_limits_show_in_the_unified_snapshot() {
    let m = v2::Manager::new("/sys/fs/cgroup", "/c1").unwrap();
    let mut files: HashMap<String, Vec<u8>> = HashMap::new();
    files.insert("/sys/fs/cgroup/c1/memory.current".to_string(), b"8192\n".to_vec());
    files.insert(
        "/sys/fs/cgroup/c1/memory.events".to_string(),
        b"low 0\nhigh 0\nmax 4\noom 1\noom_kill 1\n".to_vec(),
    );
    files.insert(
        "/sys/fs/cgroup/c1/cpu.stat".to_string(),
        b"usage_usec 777\nuser_usec 700\nsystem_usec 77\n".to_vec(),
    );
    files.insert("/sys/fs/cgroup/c1/pids.current".to_string(), b"1\n".to_vec());
    files.insert("/sys/fs/cgroup/c1/io.weight".to_string(), b"default 100\n".to_vec());
    carry_out(&m.apply(&limits()), &mut files);
    let stats = m.stats(&vec![], &read_all(&m.stats_files(&vec![]), &files)).unwrap();
    assert_eq!(stats.memory.limit, 104857600);
    assert_eq!(stats.pids.limit, 64);
    assert_eq!(
        stats,
        Stats {
            memory: MemoryStats { usage: 8192, limit: 104857600, failcnt: 4 },
            cpu: CpuStats { usage: 777, periods: 0, throttled_periods: 0, throttled_time: 0 },
            pids: PidStats { current: 1, limit: 64 },
            blkio: BlkioStats { weight: 100, devices: vec![] },
            hugetlb: vec![],
        }
    );
}

#[test]
fn snapshot_files() {
    let m = v1::Manager::new("/c1").unwrap();
    assert_eq!(
        m.stats_files(&vec![]),
        vec![
            "/sys/fs/cgroup/memory/c1/memory.usage_in_bytes",
            "/sys/fs/cgroup/memory/c1/memory.limit_in_bytes",
            "/sys/fs/cgroup/memory/c1/memory.failcnt",
            "/sys/fs/cgroup/cpuacct/c1/cpuacct.usage",
            "/sys/fs/cgroup/cpu/c1/cpu.stat",
            "/sys/fs/cgroup/pids/c1/pids.current",
            "/sys/fs/cgroup/pids/c1/pids.max",
            "/sys/fs/cgroup/blkio/c1/blkio.weight",
            "/sys/fs/cgroup/blkio/c1/blkio.throttle.io_service_bytes",
        ]
    );
    let m = v2::Manager::new("/sys/fs/cgroup", "/c1").unwrap();
    assert_eq!(
        m.stats_files(&vec![]),
        vec![
            "/sys/fs/cgroup/c1/memory.current",
            "/sys/fs/cgroup/c1/memory.max",
            "/sys/fs/cgroup/c1/memory.events",
            "/sys/fs/cgroup/c1/cpu.stat",
            "/sys/fs/cgroup/c1/pids.current",
            "/sys/fs/cgroup/c1/pids.max",
            "/sys/fs/cgroup/c1/io.weight",
            "/sys/fs/cgroup/c1/io.stat",
        ]
    );
}

fn content(text: &str) -> FileRead {
    FileRead::Content(text.as_bytes().to_vec())
}

fn legacy_reads() -> Vec<FileRead> {
    vec![
        content("1\n"),
        content("max\n"),
        content("0"),
        content("9\n"),
        content("nr_periods 1\nnr_throttled 2\nthrottled_time 3\n"),
        content("4\n"),
        content("max\n"),
        content("500\n"),
        content("8:0 Read 4096\n8:0 Total 4096\nTotal 4096\n"),
    ]
}

fn counter(major: u64, minor: u64, name: &str, value: u64) -> DeviceCounter {
    DeviceCounter { major, minor, name: name.as_bytes().to_vec(), value }
}

#[test]
fn tables_of_devices() {
    assert_eq!(read_device_counters(b"", b' '), Some(vec![]));
    assert_eq!(read_device_counters(b"Total 0\n", b' '), Some(vec![]));
    assert_eq!(
        read_device_counters(b"8:0 Read 1\n8:0 Write 2\n253:7 Sync 3\nTotal 6", b' '),
        Some(vec![counter(8, 0, "Read", 1), counter(8, 0, "Write", 2), counter(253, 7, "Sync", 3)])
    );
    assert_eq!(
        read_device_counters(b"8:0 rbytes=1 wbytes=2 rios=3\n8:16 dios=0\n", b'='),
        Some(vec![
            counter(8, 0, "rbytes", 1),
            counter(8, 0, "wbytes", 2),
            counter(8, 0, "rios", 3),
            counter(8, 16, "dios", 0),
        ])
    );
    // a device without counters
    assert_eq!(read_device_counters(b"8:0\n", b'='), Some(vec![]));
    // what is no table
    assert_eq!(read_device_counters(b"8:x Read 1\n", b' '), None);
    assert_eq!(read_device_counters(b":0 Read 1\n", b' '), None);
    assert_eq!(read_device_counters(b"8:0 Read\n", b' '), None);
    assert_eq!(read_device_counters(b"8:0 Read one\n", b' '), None);
    assert_eq!(read_device_counters(b"8:0 rbytes=1 wbytes\n", b'='), None);
    assert_eq!(read_device_counters(b"8:0 rbytes=1  wbytes=2\n", b'='), None);
    assert_eq!(read_device_counters(b"8:0 rbytes=-1\n", b'='), None);
    assert_eq!(read_device_counters(b"8:0 rbytes=1 \n", b'='), None);
    assert_eq!(read_device_counters(b"8:0 =1\n", b'='), None);
    assert_eq!(read_device_counters(b"8:0  1\n", b' '), None);
    assert_eq!(read_device_counters(b"8:0 Read 1 Write 2\n", b' '), Some(vec![counter(8, 0, "Read", 1), counter(8, 0, "Write", 2)]));
    assert_eq!(read_device_counters(b"8:0 Read 1\r\n", b' '), None);
}

#[test]
fn huge_pages_in_the_snapshots() {
    let sizes = vec!["2MB".to_string(), "1GB".to_string()];
    let m = v1::Manager::new("/c1").unwrap();
    let files = m.stats_files(&sizes);
    assert_eq!(files.len(), 11);
    assert_eq!(files[9], "/sys/fs/cgroup/hugetlb/c1/hugetlb.2MB.usage_in_bytes");
    assert_eq!(files[10], "/sys/fs/cgroup/hugetlb/c1/hugetlb.1GB.usage_in_bytes");
    let mut reads = legacy_reads();
    reads.push(content("4194304\n"));
    assert_eq!(
        m.stats(&sizes, &reads).unwrap().hugetlb,
        vec![
            HugetlbStats { page_size: "2MB".to_string(), usage: 4194304 },
            HugetlbStats { page_size: "1GB".to_string(), usage: 0 },
        ]
    );
    // a host without the controller
    assert_eq!(
        m.stats(&sizes, &legacy_reads()).unwrap().hugetlb,
        vec![
            HugetlbStats { page_size: "2MB".to_string(), usage: 0 },
            HugetlbStats { page_size: "1GB".to_string(), usage: 0 },
        ]
    );
    reads.push(content("many\n"));
    assert_eq!(
        m.stats(&sizes, &reads),
        Err(CgroupError::Parse("/sys/fs/cgroup/hugetlb/c1/hugetlb.1GB.usage_in_bytes".to_string()))
    );
    reads[9] = FileRead::Unreadable(None);
    assert_eq!(
        m.stats(&sizes, &reads),
        Err(CgroupError::Io(IoStage::Read, "/sys/fs/cgroup/hugetlb/c1/hugetlb.2MB.usage_in_bytes".to_string(), None))
    );
    let m = v2::Manager::new("/sys/fs/cgroup", "/c1").unwrap();
    assert_eq!(m.stats_files(&sizes)[8..].to_vec(), vec!["/sys/fs/cgroup/c1/hugetlb.2MB.current", "/sys/fs/cgroup/c1/hugetlb.1GB.current"]);
}

#[test]
fn names_of_page_sizes() {
    assert_eq!(page_size_name(0), "0KB");
    assert_eq!(page_size_name(64), "64KB");
    assert_eq!(page_size_name(1023), "1023KB");
    assert_eq!(page_size_name(1024), "1MB");
    assert_eq!(page_size_name(2048), "2MB");
    assert_eq!(page_size_name(3000), "2MB");
    assert_eq!(page_size_name(524288), "512MB");
    assert_eq!(page_size_name(1048575), "1023MB");
    assert_eq!(page_size_name(1048576), "1GB");
    assert_eq!(page_size_name(16777216), "16GB");
    assert_eq!(page_size_name(u64::MAX), "17592186044415GB");
    assert_eq!(read_entry_kilobytes(b"hugepages-2048kB"), Some(2048));
    assert_eq!(read_entry_kilobytes(b"hugepages-1048576kB"), Some(1048576));
    assert_eq!(read_entry_kilobytes(b"hugepages-0kB"), Some(0));
    assert_eq!(read_entry_kilobytes(b"hugepages-18446744073709551615kB"), Some(u64::MAX));
    assert_eq!(read_entry_kilobytes(b"hugepages-18446744073709551616kB"), None);
    assert_eq!(read_entry_kilobytes(b"hugepages-kB"), None);
    assert_eq!(read_entry_kilobytes(b"hugepages-2048KB"), None);
    assert_eq!(read_entry_kilobytes(b"hugepages-+2048kB"), None);
    assert_eq!(read_entry_kilobytes(b"hugepages-20 48kB"), None);
    assert_eq!(read_entry_kilobytes(b"Hugepages-2048kB"), None);
    assert_eq!(read_entry_kilobytes(b"hugepages2048kB"), None);
    assert_eq!(read_entry_kilobytes(b""), None);
    assert_eq!(read_entry_kilobytes(b"kB"), None);
}

#[test]
fn device_counters_in_the_snapshots() {
    let m = v1::Manager::new("/c1").unwrap();
    let mut reads = legacy_reads();
    reads[8] = content("8:0 Read 1\nbroken:line\n");
    assert_eq!(
        m.stats(&vec![], &reads),
        Err(CgroupError::Parse("/sys/fs/cgroup/blkio/c1/blkio.throttle.io_service_bytes".to_string()))
    );
    reads[8] = FileRead::Unreadable(None);
    assert_eq!(
        m.stats(&vec![], &reads),
        Err(CgroupError::Io(IoStage::Read, "/sys/fs/cgroup/blkio/c1/blkio.throttle.io_service_bytes".to_string(), None))
    );
    reads[8] = FileRead::Absent;
    assert_eq!(m.stats(&vec![], &reads).unwrap().blkio.devices, vec![]);

    let m = v2::Manager::new("/sys/fs/cgroup", "/c1").unwrap();
    let reads = vec![
        content("1\n"),
        content("max\n"),
        content("max 0\n"),
        content("usage_usec 5\nnr_periods 1\nnr_throttled 2\nthrottled_usec 3\n"),
        content("1\n"),
        content("10\n"),
        FileRead::Absent,
        content("8:0 rbytes=4096 wbytes=0\n"),
    ];
    let stats = m.stats(&vec![], &reads).unwrap();
    assert_eq!(stats.cpu, CpuStats { usage: 5, periods: 1, throttled_periods: 2, throttled_time: 3 });
    assert_eq!(
        stats.blkio,
        BlkioStats { weight: 0, devices: vec![counter(8, 0, "rbytes", 4096), counter(8, 0, "wbytes", 0)] }
    );
}

#[test]
fn legacy_snapshot_values_and_failures() {
    let m = v1::Manager::new("/c1").unwrap();
    let stats = m.stats(&vec![], &legacy_reads()).unwrap();
    assert_eq!(stats.memory, MemoryStats { usage: 1, limit: u64::MAX, failcnt: 0 });
    assert_eq!(stats.cpu, CpuStats { usage: 9, periods: 1, throttled_periods: 2, throttled_time: 3 });
    assert_eq!(stats.pids, PidStats { current: 4, limit: u64::MAX });
    assert_eq!(stats.blkio, BlkioStats { weight: 500, devices: vec![counter(8, 0, "Read", 4096), counter(8, 0, "Total", 4096)] });

    // the section that a host may lack is filled with zero
    let mut reads = legacy_reads();
    reads[7] = FileRead::Absent;
    assert_eq!(m.stats(&vec![], &reads).unwrap().blkio.weight, 0);
    reads.pop();
    reads.pop();
    assert_eq!(m.stats(&vec![], &reads).unwrap().blkio, BlkioStats { weight: 0, devices: vec![] });
    // but it must be well-formed where it is there
    let mut reads = legacy_reads();
    reads[7] = content("heavy\n");
    assert_eq!(m.stats(&vec![], &reads), Err(CgroupError::Parse("/sys/fs/cgroup/blkio/c1/blkio.weight".to_string())));
    reads[7] = FileRead::Unreadable(Some(5));
    assert_eq!(m.stats(&vec![], &reads), Err(CgroupError::Io(IoStage::Read, "/sys/fs/cgroup/blkio/c1/blkio.weight".to_string(), Some(5))));

    let mut reads = legacy_reads();
    reads[4] = content("nr_periods 1\nthrottled_time 3\n");
    assert_eq!(m.stats(&vec![], &reads), Err(CgroupError::Parse("/sys/fs/cgroup/cpu/c1/cpu.stat".to_string())));
    reads[4] = content("nr_periods 1\nnr_throttled x\nthrottled_time 3\n");
    assert_eq!(m.stats(&vec![], &reads), Err(CgroupError::Parse("/sys/fs/cgroup/cpu/c1/cpu.stat".to_string())));
    reads[4] = FileRead::Absent;
    assert_eq!(m.stats(&vec![], &reads), Err(CgroupError::Io(IoStage::Open, "/sys/fs/cgroup/cpu/c1/cpu.stat".to_string(), None)));
    reads[1] = content("lots\n");
    assert_eq!(m.stats(&vec![], &reads), Err(CgroupError::Parse("/sys/fs/cgroup/memory/c1/memory.limit_in_bytes".to_string())));
    reads[0] = FileRead::Unreadable(None);
    assert_eq!(m.stats(&vec![], &reads), Err(CgroupError::Io(IoStage::Read, "/sys/fs/cgroup/memory/c1/memory.usage_in_bytes".to_string(), None)));
}

#[test]
fn removal_can_be_repeated_and_leaves_no_stats() {
    let legacy = v1::Manager::new("/c1").unwrap();
    let unified = v2::Manager::new("/sys/fs/cgroup", "/c1").unwrap();
    let scope = delegated::Manager::new("/sys/fs/cgroup", "/c1").unwrap();
    for plan in [legacy.remove(), unified.remove(), scope.remove()] {
        // the first time everything is there, the second time nothing is
        for action in &plan {
            assert_eq!(action.settle(Outcome::Done), Ok(()));
        }
        for action in &plan {
            assert_eq!(action.settle(Outcome::Missing), Ok(()));
        }
    }
    let gone: HashMap<String, Vec<u8>> = HashMap::new();
    let sizes = vec!["2MB".to_string()];
    assert_eq!(
        legacy.stats(&sizes, &read_all(&legacy.stats_files(&sizes), &gone)),
        Err(CgroupError::Io(IoStage::Open, "/sys/fs/cgroup/memory/c1/memory.usage_in_bytes".to_string(), None))
    );
    assert_eq!(
        unified.stats(&sizes, &read_all(&unified.stats_files(&sizes), &gone)),
        Err(CgroupError::Io(IoStage::Open, "/sys/fs/cgroup/c1/memory.current".to_string(), None))
    );
    assert_eq!(
        scope.stats(&sizes, &vec![]),
        Err(CgroupError::Io(IoStage::Open, "/sys/fs/cgroup/c1/memory.current".to_string(), None))
    );
}

#[test]
fn an_added_task_is_found() {
    let m = v2::Manager::new("/sys/fs/cgroup", "/c1").unwrap();
    let pid = Pid::from_raw(4242);
    let mut files: HashMap<String, Vec<u8>> = HashMap::new();
    carry_out(&m.add_task(pid), &mut files);
    let root = m.pids_root();
    let tree = CgroupDir {
        procs: match files.get(&format!("{}/cgroup.procs", root)) {
            Some(bytes) => FileRead::Content(bytes.clone()),
            None => FileRead::Absent,
        },
        path: root,
        listing: Listing::Listed,
        children: vec![],
    };
    assert_eq!(m.get_all_pids(&tree), Ok(vec![pid]));

    let m = v1::Manager::new("/c1").unwrap();
    let mut files: HashMap<String, Vec<u8>> = HashMap::new();
    carry_out(&m.add_task(pid), &mut files);
    let root = m.pids_root();
    let tree = CgroupDir {
        procs: FileRead::Content(files.get(&format!("{}/cgroup.procs", root)).unwrap().clone()),
        path: root,
        listing: Listing::Listed,
        children: vec![],
    };
    assert!(m.get_all_pids(&tree).unwrap().contains(&pid));
}
