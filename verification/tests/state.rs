use container_runtime::state::{
    check_deletable, container_dir, default_network_mode, default_security_profile,
    refresh_liveness, refresh_liveness_at, require_created, running_cgroup_path, running_pid,
    sort_by_id, stat_shows_alive, state_after_start_at, state_file, validate_id, ContainerState,
    ContainerStatus, StateError, DEFAULT_STATE_ROOT,
};

#[test]
fn rejects_invalid_container_ids() {
    assert!(validate_id("").is_err());
    assert!(validate_id("../demo").is_err());
    assert!(validate_id("demo/one").is_err());
    assert!(validate_id("demo one").is_err());
    assert!(validate_id("demo_01.2-3").is_ok());
}

#[test]
fn invalid_ids_give_their_errors() {
    assert_eq!(validate_id(""), Err(StateError::EmptyId));
    assert_eq!(validate_id("démo"), Err(StateError::InvalidId));
    assert_eq!(
        StateError::EmptyId.message(),
        "container id must not be empty"
    );
    assert_eq!(
        StateError::InvalidId.message(),
        "container id may only contain ASCII letters, numbers, '.', '_' and '-'"
    );
    assert!(ContainerState::created("a/b", "/tmp/bundle", "none", "default").is_err());
}

#[test]
fn created_state_records_the_container() {
    let state = ContainerState::created_at("demo-created", "/tmp/bundle", "none", "default", 100)
        .expect("created state should be valid");
    assert_eq!(state.status, ContainerStatus::Created);
    assert_eq!(state.pid, None);
    assert_eq!(state.network_mode, "none");
    assert_eq!(state.security_profile, "default");
    assert_eq!(state.created_at_unix, 100);
    assert_eq!(state.updated_at_unix, 100);
    assert_eq!(require_created(&state, "demo-created"), Ok(()));

    let now = ContainerState::created("demo", "/tmp/bundle", "bridge", "default")
        .expect("clock after 1970");
    assert_eq!(now.created_at_unix, now.updated_at_unix);
    assert!(now.created_at_unix > 1_600_000_000);
}

#[test]
fn lifecycle_moves_from_running_to_stopped() {
    let mut state = ContainerState::running_at(
        "demo",
        "/tmp/bundle",
        1234,
        Some("/sys/fs/cgroup/container-runtime/crun-1234".to_string()),
        "bridge",
        "default",
        10,
    )
    .expect("state should be valid");
    assert_eq!(state.pid, Some(1234));
    assert_eq!(state.status, ContainerStatus::Running);
    assert_eq!(
        state.cgroup_path.as_deref(),
        Some("/sys/fs/cgroup/container-runtime/crun-1234")
    );
    assert_eq!(running_pid(&state, "demo"), Ok(1234));
    assert_eq!(
        running_cgroup_path(&state, "demo").as_deref(),
        Ok("/sys/fs/cgroup/container-runtime/crun-1234")
    );
    let refused = check_deletable(&state, "demo").unwrap_err();
    assert_eq!(
        refused.message(),
        "container demo is running; stop it before delete"
    );

    state.mark_stopped_at(Some(0), None, 20);
    assert_eq!(state.status, ContainerStatus::Stopped);
    assert_eq!(state.pid, None);
    assert_eq!(state.cgroup_path, None);
    assert_eq!(state.exit_code, Some(0));
    assert_eq!(state.created_at_unix, 10);
    assert_eq!(state.updated_at_unix, 20);
    assert_eq!(check_deletable(&state, "demo"), Ok(()));
    assert_eq!(
        running_pid(&state, "demo").unwrap_err().message(),
        "container demo is not running"
    );
    assert_eq!(
        require_created(&state, "demo").unwrap_err().message(),
        "container demo is not created"
    );

    state.mark_running_at(99, None, 30);
    assert_eq!(state.status, ContainerStatus::Running);
    assert_eq!(state.exit_code, None);
    assert_eq!(state.signal, None);
    assert_eq!(
        running_cgroup_path(&state, "demo").unwrap_err().message(),
        "container demo has no cgroup path"
    );
    state.mark_running(100, None).expect("clock after 1970");
    assert_eq!(state.pid, Some(100));
    state.mark_stopped(None, Some("SIGKILL".to_string())).expect("clock after 1970");
    assert_eq!(state.signal.as_deref(), Some("SIGKILL"));
}

#[test]
fn start_marks_an_existing_record_or_makes_a_new_one() {
    let created = ContainerState::created_at("c1", "/b", "host", "unconfined", 5).unwrap();
    let started = state_after_start_at(Some(created), "c1", "/b", 77, None, "bridge", "default", 9)
        .unwrap();
    assert_eq!(started.network_mode, "host");
    assert_eq!(started.created_at_unix, 5);
    assert_eq!(started.updated_at_unix, 9);
    assert_eq!(started.pid, Some(77));

    let fresh = state_after_start_at(None, "c2", "/b", 78, None, "bridge", "default", 9).unwrap();
    assert_eq!(fresh.created_at_unix, 9);
    assert_eq!(fresh.status, ContainerStatus::Running);
    assert!(state_after_start_at(None, "", "/b", 78, None, "bridge", "default", 9).is_err());
}

#[test]
fn load_current_marks_missing_running_pid_as_stale() {
    let mut state = ContainerState::running(
        "stale",
        "/tmp/bundle",
        -1,
        Some("/sys/fs/cgroup/container-runtime/crun-stale".to_string()),
        "bridge",
        "default",
    )
    .expect("running state should be valid");
    let probe = state.liveness_probe();
    assert_eq!(probe, Some(-1));

    let changed = refresh_liveness(&mut state, false).expect("state should refresh");

    assert!(changed);
    assert_eq!(state.status, ContainerStatus::Stopped);
    assert_eq!(state.pid, None);
    assert_eq!(state.cgroup_path, None);
    assert_eq!(state.signal.as_deref(), Some("STALE"));
}

#[test]
fn refreshing_is_idempotent() {
    let mut state =
        ContainerState::running_at("live", "/b", 10, None, "none", "default", 1).unwrap();
    assert!(!refresh_liveness_at(&mut state, true, 2));
    assert_eq!(state.status, ContainerStatus::Running);
    assert!(refresh_liveness_at(&mut state, false, 3));
    assert_eq!(state.updated_at_unix, 3);
    let before = state.clone();
    assert!(!refresh_liveness_at(&mut state, false, 4));
    assert_eq!(state, before);
    assert_eq!(state.liveness_probe(), None);
}

#[test]
fn reads_liveness_from_proc_stat() {
    assert!(stat_shows_alive("1234 (sh) S 1 1234 1234 0 -1"));
    assert!(!stat_shows_alive("1234 (sh) Z 1 1234 1234 0 -1"));
    assert!(!stat_shows_alive("1234 (a) b) Z 1"));
    assert!(stat_shows_alive("1234 (a) Z) R 1"));
    assert!(stat_shows_alive("garbage"));
    assert!(stat_shows_alive(""));
    assert!(stat_shows_alive("1 (x) "));
}

#[test]
fn lists_container_states_sorted_by_id() {
    let beta = ContainerState::created("beta", "/tmp/beta", "bridge", "default")
        .expect("beta state should be valid");
    let alpha = ContainerState::created("alpha", "/tmp/alpha", "none", "default")
        .expect("alpha state should be valid");

    let states = sort_by_id(vec![beta, alpha]);
    let ids = states
        .iter()
        .map(|state| state.id.as_str())
        .collect::<Vec<_>>();

    assert_eq!(ids, vec!["alpha", "beta"]);
}

#[test]
fn sorting_orders_by_character() {
    let make = |id: &str| ContainerState::created_at(id, "/b", "none", "default", 0).unwrap();
    let states = sort_by_id(vec![make("b"), make("a-2"), make("a"), make("B"), make("a.1")]);
    let ids: Vec<&str> = states.iter().map(|s| s.id.as_str()).collect();
    assert_eq!(ids, ["B", "a", "a-2", "a.1", "b"]);
    assert!(sort_by_id(Vec::new()).is_empty());
}

#[test]
fn state_paths_sit_under_the_root() {
    assert_eq!(container_dir(DEFAULT_STATE_ROOT, "demo"), "/run/crun-rs/demo");
    assert_eq!(state_file(DEFAULT_STATE_ROOT, "demo"), "/run/crun-rs/demo/state.json");
    assert_eq!(container_dir("/tmp/root/", "x"), "/tmp/root/x");
    assert_eq!(container_dir("", "x"), "x");
    assert_eq!(default_network_mode(), "bridge");
    assert_eq!(default_security_profile(), "default");
}

#[test]
fn sorting_keeps_equal_ids_in_their_order() {
    let make = |id: &str, bundle: &str| {
        ContainerState::created_at(id, bundle, "none", "default", 0).unwrap()
    };
    let states = sort_by_id(vec![
        make("b", "/1"),
        make("a", "/2"),
        make("b", "/3"),
        make("a", "/4"),
    ]);
    let order: Vec<(&str, &str)> = states
        .iter()
        .map(|s| (s.id.as_str(), s.bundle.as_str()))
        .collect();
    assert_eq!(order, [("a", "/2"), ("a", "/4"), ("b", "/1"), ("b", "/3")]);
}

#[test]
fn running_record_without_pid_is_stale_and_has_no_pid() {
    let mut state = ContainerState::running_at("nopid", "/b", 1, None, "none", "default", 1).unwrap();
    state.pid = None;
    assert_eq!(
        running_pid(&state, "nopid").unwrap_err().message(),
        "container nopid has no pid"
    );
    assert_eq!(state.liveness_probe(), None);
    assert!(refresh_liveness_at(&mut state, true, 2));
    assert_eq!(state.signal.as_deref(), Some("STALE"));
    assert_eq!(
        StateError::ClockBeforeEpoch.message(),
        "system clock is before UNIX_EPOCH"
    );
}

#[test]
fn created_records_can_be_started_and_deleted() {
    let mut state = ContainerState::created_at("demo", "/tmp/bundle", "none", "default", 5)
        .expect("created state should be valid");
    assert_eq!(require_created(&state, "demo"), Ok(()));
    assert_eq!(check_deletable(&state, "demo"), Ok(()));

    state.mark_running_at(42, None, 6);
    assert!(require_created(&state, "demo").is_err());
    assert!(check_deletable(&state, "demo").is_err());

    state.mark_stopped_at(None, Some("SIGKILL".to_string()), 7);
    assert!(require_created(&state, "demo").is_err());
    assert_eq!(check_deletable(&state, "demo"), Ok(()));
}
