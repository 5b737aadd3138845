use container_runtime::cgroup::CgroupStats;
use container_runtime::report::{ps_header, ps_row, state_lines, stats_lines};
use container_runtime::state::ContainerState;

#[test]
fn state_report_lists_every_field() {
    let mut state = ContainerState::running_at(
        "demo",
        "/tmp/bundle",
        1234,
        Some("/sys/fs/cgroup/container-runtime/crun-1234".to_string()),
        "bridge",
        "default",
        100,
    )
    .unwrap();
    assert_eq!(
        state_lines(&state),
        [
            "id: demo",
            "status: Running",
            "pid: 1234",
            "bundle: /tmp/bundle",
            "cgroup_path: /sys/fs/cgroup/container-runtime/crun-1234",
            "network_mode: bridge",
            "security_profile: default",
            "created_at_unix: 100",
            "updated_at_unix: 100",
        ]
    );
    state.mark_stopped_at(Some(-2), Some("SIGKILL".to_string()), 105);
    let lines = state_lines(&state);
    assert_eq!(lines[1], "status: Stopped");
    assert_eq!(lines[2], "pid: -");
    assert_eq!(lines[4], "cgroup_path: -");
    assert_eq!(lines[8], "updated_at_unix: 105");
    assert_eq!(lines[9], "exit_code: -2");
    assert_eq!(lines[10], "signal: SIGKILL");
}

#[test]
fn container_list_is_a_padded_table() {
    assert_eq!(
        ps_header(),
        format!(
            "{:<24} {:<10} {:<8} {:<8} {:<11} BUNDLE",
            "ID", "STATUS", "PID", "NET", "SECURITY"
        )
    );
    let state = ContainerState::created_at("alpha", "/tmp/alpha", "none", "default", 0).unwrap();
    assert_eq!(
        ps_row(&state),
        format!(
            "{:<24} {:<10} {:<8} {:<8} {:<11} {}",
            "alpha", "created", "-", "none", "default", "/tmp/alpha"
        )
    );
    let long = "a-very-long-container-identifier-x";
    let state = ContainerState::running_at(long, "/b", 99, None, "bridge", "unconfined", 0).unwrap();
    assert_eq!(
        ps_row(&state),
        format!(
            "{:<24} {:<10} {:<8} {:<8} {:<11} {}",
            long, "running", "99", "bridge", "unconfined", "/b"
        )
    );
}

#[test]
fn stats_report_shows_what_is_known() {
    let stats = CgroupStats {
        path: "/sys/fs/cgroup/container-runtime/crun-1".to_string(),
        memory_current: Some(1024),
        memory_max: Some("max".to_string()),
        cpu_usage_usec: None,
        cpu_user_usec: Some(70),
        cpu_system_usec: None,
        pids_current: Some(2),
        pids_max: None,
    };
    assert_eq!(
        stats_lines("demo", &stats),
        [
            "id: demo",
            "cgroup_path: /sys/fs/cgroup/container-runtime/crun-1",
            "memory_current: 1024",
            "memory_max: max",
            "cpu_user_usec: 70",
            "pids_current: 2",
        ]
    );
}
