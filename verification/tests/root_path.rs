use cgroups::root_path::{determine_root_path, run_dir_under, Attempt, Verdict, DEFAULT_ROOT};

fn text(s: &str) -> Option<String> {
    Some(s.to_string())
}

#[test]
fn a_given_root_is_taken() {
    for rootless in [false, true] {
        assert_eq!(
            determine_root_path(text("/var/lib/state"), rootless, text("/run/user/7"), text("/home/u"), 7),
            vec![Attempt::Take("/var/lib/state".to_string())]
        );
    }
    assert_eq!(determine_root_path(text(""), true, None, None, 0), vec![Attempt::Take(String::new())]);
}

#[test]
fn the_superuser_gets_the_default_root() {
    assert_eq!(DEFAULT_ROOT, "/run/youki");
    assert_eq!(
        determine_root_path(None, false, text("/run/user/7"), text("/home/u"), 7),
        vec![Attempt::Create("/run/youki".to_string())]
    );
}

#[test]
fn a_user_gets_the_named_runtime_directory() {
    assert_eq!(
        determine_root_path(None, true, text("/run/user/1000"), text("/home/u"), 1000),
        vec![Attempt::Take("/run/user/1000".to_string())]
    );
}

#[test]
fn a_user_without_a_runtime_directory_tries_the_usual_places() {
    assert_eq!(
        determine_root_path(None, true, None, text("/home/u"), 1000),
        vec![
            Attempt::CreateOwned("/run/user/1000".to_string(), 0o700),
            Attempt::CreateUnderHome("/home/u".to_string(), 0o700),
            Attempt::CreateOwned("/tmp/youki/1000".to_string(), 0o700),
        ]
    );
    assert_eq!(
        determine_root_path(None, true, None, None, 0),
        vec![
            Attempt::CreateOwned("/run/user/0".to_string(), 448),
            Attempt::CreateOwned("/tmp/youki/0".to_string(), 448),
        ]
    );
    assert_eq!(
        determine_root_path(None, true, None, None, u32::MAX),
        vec![
            Attempt::CreateOwned("/run/user/4294967295".to_string(), 0o700),
            Attempt::CreateOwned("/tmp/youki/4294967295".to_string(), 0o700),
        ]
    );
}

#[test]
fn the_run_directory_below_home() {
    assert_eq!(run_dir_under("/home/u"), "/home/u/.youki/run");
    assert_eq!(run_dir_under(""), "/.youki/run");
}

#[test]
fn what_follows_from_an_attempt() {
    let take = Attempt::Take("/a".to_string());
    assert_eq!(take.settle(true), Verdict::Found);
    assert_eq!(take.settle(false), Verdict::Found);
    let create = Attempt::Create("/a".to_string());
    assert_eq!(create.settle(true), Verdict::Found);
    assert_eq!(create.settle(false), Verdict::Failed);
    for attempt in [Attempt::CreateOwned("/a".to_string(), 0o700), Attempt::CreateUnderHome("/a".to_string(), 0o700)] {
        assert_eq!(attempt.settle(true), Verdict::Found);
        assert_eq!(attempt.settle(false), Verdict::Next);
    }
}
