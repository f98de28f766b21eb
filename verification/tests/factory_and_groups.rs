use cgroups::error::{CgroupError, IoStage, SetupFailure};
use cgroups::factory::{booted, create_cgroup_manager, AnyManager, Backend, InitSystem};
use cgroups::manager::{CgroupManager, FreezerState};
use cgroups::pids::Pid;
use cgroups::resources::LinuxResources;
use cgroups::setup::{HostProbe, Mount};
use cgroups::stats::{read_keyed_value, read_single_value, Keyed};
use cgroups::test_group::{
    among, compare, report_line, run_one, Rank, TestGroup, TestResult, Testable, TestableGroup,
};
use cgroups::action::Action;

const CGROUP2: i64 = 0x63677270;
const TMPFS: i64 = 0x01021994;

fn unified() -> HostProbe {
    HostProbe { root: Mount::Present(CGROUP2), unified: Mount::Missing }
}

fn legacy() -> HostProbe {
    HostProbe { root: Mount::Present(TMPFS), unified: Mount::Missing }
}

fn hybrid() -> HostProbe {
    HostProbe { root: Mount::Present(TMPFS), unified: Mount::Present(CGROUP2) }
}

const RUNNING: InitSystem = InitSystem::Present { running: true };
const IDLE: InitSystem = InitSystem::Present { running: false };

#[test]
fn booted_tells_what_it_can() {
    assert_eq!(booted(InitSystem::Absent), Err(CgroupError::Config));
    assert_eq!(booted(RUNNING), Ok(true));
    assert_eq!(booted(IDLE), Ok(false));
}

#[test]
fn legacy_and_hybrid_hosts_get_the_legacy_backend() {
    for probe in [legacy(), hybrid()] {
        for prefer in [false, true] {
            for init in [InitSystem::Absent, IDLE, RUNNING] {
                let m = create_cgroup_manager("/c1", prefer, &probe, init).unwrap();
                assert_eq!(m.kind(), Backend::Legacy);
                assert_eq!(m.pids_root(), "/sys/fs/cgroup/devices/c1");
            }
        }
    }
}

#[test]
fn unified_hosts_get_what_was_preferred() {
    for init in [InitSystem::Absent, IDLE, RUNNING] {
        let m = create_cgroup_manager("/c1", false, &unified(), init).unwrap();
        assert_eq!(m.kind(), Backend::Unified);
        assert_eq!(m.remove(), vec![Action::RemoveDir("/sys/fs/cgroup/c1".to_string())]);
    }
    let m = create_cgroup_manager("/c1", true, &unified(), RUNNING).unwrap();
    assert_eq!(m.kind(), Backend::Systemd);
    assert_eq!(m.remove(), vec![Action::StopScope("/sys/fs/cgroup/c1".to_string())]);
    assert!(matches!(m, AnyManager::Systemd(_)));
}

#[test]
fn a_preference_that_cannot_be_met_is_an_error() {
    assert_eq!(create_cgroup_manager("/c1", true, &unified(), InitSystem::Absent), Err(CgroupError::Config));
    assert_eq!(create_cgroup_manager("/c1", true, &unified(), IDLE), Err(CgroupError::Unsupported));
    // the init system is asked before the path is looked at
    assert_eq!(create_cgroup_manager("c1", true, &unified(), IDLE), Err(CgroupError::Unsupported));
}

#[test]
fn factory_errors() {
    let nothing = HostProbe { root: Mount::Missing, unified: Mount::Missing };
    assert_eq!(
        create_cgroup_manager("/c1", false, &nothing, RUNNING),
        Err(CgroupError::Setup(SetupFailure::RootMissing))
    );
    let odd = HostProbe { root: Mount::Present(0xef53), unified: Mount::Missing };
    assert_eq!(
        create_cgroup_manager("c1", true, &odd, InitSystem::Absent),
        Err(CgroupError::Setup(SetupFailure::UnknownFilesystem))
    );
    let closed = HostProbe { root: Mount::Unreadable(None), unified: Mount::Missing };
    assert_eq!(
        create_cgroup_manager("/c1", false, &closed, RUNNING),
        Err(CgroupError::Io(IoStage::Stat, "/sys/fs/cgroup".to_string(), None))
    );
    for (probe, prefer) in [(legacy(), false), (hybrid(), true), (unified(), false), (unified(), true)] {
        assert_eq!(
            create_cgroup_manager("c1/x", prefer, &probe, RUNNING),
            Err(CgroupError::Path("c1/x".to_string()))
        );
    }
}

#[test]
fn every_backend_answers_through_the_one_interface() {
    let made = vec![
        create_cgroup_manager("/c1", false, &legacy(), RUNNING).unwrap(),
        create_cgroup_manager("/c1", false, &unified(), RUNNING).unwrap(),
        create_cgroup_manager("/c1", true, &unified(), RUNNING).unwrap(),
    ];
    for m in made {
        let root = m.pids_root();
        assert!(root.ends_with("/c1"));
        assert!(m.add_task(Pid::from_raw(1)).iter().all(|a| a.target().starts_with(&root[..14])));
        assert!(m.apply(&LinuxResources::unset()).iter().all(|a| !matches!(a, Action::Write(_, _))));
        assert_eq!(m.freeze(FreezerState::Freezing), Err(CgroupError::Unsupported));
        assert_eq!(m.freeze(FreezerState::Frozen).unwrap().len(), 1);
        assert!(m.stats(&vec![], &vec![]).is_err());
        assert!(!m.stats_files(&vec![]).is_empty());
    }
}

#[test]
fn files_of_one_value() {
    assert_eq!(read_single_value(b"123\n"), Some(123));
    assert_eq!(read_single_value(b"123"), Some(123));
    assert_eq!(read_single_value(b"max\n"), Some(u64::MAX));
    assert_eq!(read_single_value(b"max"), Some(u64::MAX));
    assert_eq!(read_single_value(b"0\n"), Some(0));
    assert_eq!(read_single_value(b""), None);
    assert_eq!(read_single_value(b"\n"), None);
    assert_eq!(read_single_value(b"123\n\n"), None);
    assert_eq!(read_single_value(b"-1\n"), None);
    assert_eq!(read_single_value(b"maxi\n"), None);
    assert_eq!(read_single_value(b"Max\n"), None);
    assert_eq!(read_single_value(b"12 34\n"), None);
}

#[test]
fn files_of_keys_and_values() {
    let text = b"usage_usec 100\nuser_usec 60\nsystem_usec 40\nnr_periods 0\nbad x\nusage_usec 5\nlast 9";
    assert_eq!(read_keyed_value(text, b"usage_usec"), Keyed::Found(100));
    assert_eq!(read_keyed_value(text, b"system_usec"), Keyed::Found(40));
    assert_eq!(read_keyed_value(text, b"nr_periods"), Keyed::Found(0));
    assert_eq!(read_keyed_value(text, b"last"), Keyed::Found(9));
    assert_eq!(read_keyed_value(text, b"bad"), Keyed::Malformed);
    assert_eq!(read_keyed_value(text, b"usage"), Keyed::Missing);
    assert_eq!(read_keyed_value(text, b"usec"), Keyed::Missing);
    assert_eq!(read_keyed_value(text, b"nr_throttled"), Keyed::Missing);
    assert_eq!(read_keyed_value(b"", b"k"), Keyed::Missing);
    assert_eq!(read_keyed_value(b"k \n", b"k"), Keyed::Malformed);
    assert_eq!(read_keyed_value(b"k\n", b"k"), Keyed::Missing);
    assert_eq!(read_keyed_value(b"k\t1\n", b"k"), Keyed::Missing);
    assert_eq!(read_keyed_value(b"k  1\n", b"k"), Keyed::Malformed);
    assert_eq!(read_keyed_value(b"k 1 \n", b"k"), Keyed::Malformed);
    assert_eq!(read_keyed_value(b"k 1\r\n", b"k"), Keyed::Malformed);
    assert_eq!(read_keyed_value(b"k 18446744073709551616\n", b"k"), Keyed::Malformed);
    assert_eq!(read_keyed_value(b" 7\n", b""), Keyed::Found(7));
}

struct Probe {
    name: String,
    able: bool,
    outcome: TestResult,
}

impl Testable for Probe {
    fn get_name(&self) -> String {
        self.name.clone()
    }

    fn can_run(&self) -> bool {
        self.able
    }

    fn run(&self) -> TestResult {
        self.outcome.clone()
    }
}

fn probe(name: &str, able: bool, outcome: TestResult) -> Probe {
    Probe { name: name.to_string(), able, outcome }
}

fn passed(name: &str) -> (String, TestResult) {
    (name.to_string(), TestResult::Passed)
}

#[test]
fn a_new_group_is_empty() {
    let group: TestGroup<Probe> = TestGroup::new("lifecycle");
    assert_eq!(group.get_name(), "lifecycle");
    assert_eq!(group.run_all(), vec![]);
    assert_eq!(group.run_selected(&["a"]), vec![]);
}

#[test]
fn a_group_runs_its_tests_in_the_order_of_their_names() {
    let mut group = TestGroup::new("g");
    group.add(vec![
        probe("delete", true, TestResult::Passed),
        probe("create", true, TestResult::Passed),
        probe("start", false, TestResult::Passed),
        probe("kill", true, TestResult::Failed("no such process".to_string())),
    ]);
    group.add(vec![probe("Zed", true, TestResult::Passed), probe("", true, TestResult::Passed)]);
    assert_eq!(
        group.run_all(),
        vec![
            passed(""),
            passed("Zed"),
            passed("create"),
            passed("delete"),
            ("kill".to_string(), TestResult::Failed("no such process".to_string())),
            ("start".to_string(), TestResult::Skip),
        ]
    );
}

#[test]
fn a_test_takes_the_place_of_one_of_the_same_name() {
    let mut group = TestGroup::new("g");
    group.add(vec![
        probe("a", true, TestResult::Passed),
        probe("b", true, TestResult::Passed),
        probe("a", true, TestResult::Failed("second".to_string())),
    ]);
    group.add(vec![probe("b", false, TestResult::Passed)]);
    group.add_one(probe("c", true, TestResult::Passed));
    group.add(vec![]);
    assert_eq!(
        group.run_all(),
        vec![
            ("a".to_string(), TestResult::Failed("second".to_string())),
            ("b".to_string(), TestResult::Skip),
            passed("c"),
        ]
    );
}

#[test]
fn a_group_runs_what_was_selected() {
    let mut group = TestGroup::new("g");
    group.add(vec![
        probe("a", true, TestResult::Passed),
        probe("b", true, TestResult::Passed),
        probe("c", false, TestResult::Passed),
        probe("d", true, TestResult::Passed),
    ]);
    assert_eq!(group.run_selected(&["d", "a", "x", "a"]), vec![passed("a"), passed("d")]);
    assert_eq!(group.run_selected(&["c"]), vec![("c".to_string(), TestResult::Skip)]);
    assert_eq!(group.run_selected(&[]), vec![]);
    assert_eq!(group.run_selected(&["A", "ab", ""]), vec![]);
    let through_the_trait: &dyn TestableGroup = &group;
    assert_eq!(through_the_trait.get_name(), "g");
    assert_eq!(through_the_trait.run_all().len(), 4);
    assert_eq!(through_the_trait.run_selected(&["b"]), vec![passed("b")]);
}

#[test]
fn what_is_reported_of_one_test() {
    assert_eq!(report_line("a", None), ("a".to_string(), TestResult::Skip));
    assert_eq!(report_line("a", Some(TestResult::Passed)), passed("a"));
    assert_eq!(
        report_line("", Some(TestResult::Failed("why".to_string()))),
        (String::new(), TestResult::Failed("why".to_string()))
    );
    // a test is reported under the name that is given, whatever it calls itself
    assert_eq!(run_one("x", &probe("y", true, TestResult::Passed)), passed("x"));
    assert_eq!(run_one("x", &probe("y", false, TestResult::Passed)), ("x".to_string(), TestResult::Skip));
}

#[test]
fn the_order_of_texts() {
    assert_eq!(compare("a", "b"), Rank::Before);
    assert_eq!(compare("b", "a"), Rank::After);
    assert_eq!(compare("a", "a"), Rank::Same);
    assert_eq!(compare("", ""), Rank::Same);
    assert_eq!(compare("", "a"), Rank::Before);
    assert_eq!(compare("a", "ab"), Rank::Before);
    assert_eq!(compare("ab", "a"), Rank::After);
    assert_eq!(compare("Z", "a"), Rank::Before);
    assert_eq!(compare("z", "é"), Rank::Before);
    assert_eq!(compare("é", "e"), Rank::After);
    for (a, b) in [("x", "y"), ("abc", "abd"), ("", "z"), ("ß", "ss"), ("10", "9")] {
        let expected = match a.cmp(b) {
            std::cmp::Ordering::Less => Rank::Before,
            std::cmp::Ordering::Equal => Rank::Same,
            std::cmp::Ordering::Greater => Rank::After,
        };
        assert_eq!(compare(a, b), expected);
    }
    assert!(among("b", &["a", "b"]));
    assert!(!among("c", &["a", "b"]));
    assert!(!among("a", &[]));
}
