use container_runtime::cgroup::{
    cgroup_name_for_pid, keyed_u64, procs_empty, Cgroup, CgroupConfig, CgroupError, CgroupStats,
    CGROUP_ROOT,
};

fn some(text: &str) -> Option<String> {
    Some(text.to_string())
}

#[test]
fn reads_cgroup_stats_from_files() {
    let stats = CgroupStats::from_contents(
        "/tmp/crun-rs-cgroup-test",
        &some("1024\n"),
        &some("268435456\n"),
        &some("usage_usec 100\nuser_usec 70\nsystem_usec 30\n"),
        &some("2\n"),
        &some("max\n"),
    );
    assert_eq!(stats.memory_current, Some(1024));
    assert_eq!(stats.memory_max.as_deref(), Some("268435456"));
    assert_eq!(stats.cpu_usage_usec, Some(100));
    assert_eq!(stats.cpu_user_usec, Some(70));
    assert_eq!(stats.cpu_system_usec, Some(30));
    assert_eq!(stats.pids_current, Some(2));
    assert_eq!(stats.pids_max.as_deref(), Some("max"));
    assert_eq!(stats.path, "/tmp/crun-rs-cgroup-test");
}

#[test]
fn missing_files_give_no_statistics() {
    let stats = CgroupStats::from_contents("/x", &None, &None, &None, &None, &some("max"));
    assert_eq!(stats.memory_current, None);
    assert_eq!(stats.memory_max, None);
    assert_eq!(stats.cpu_usage_usec, None);
    assert_eq!(stats.pids_current, None);
    assert_eq!(stats.pids_max.as_deref(), Some("max"));
    let stats = CgroupStats::from_contents("/x", &some("max\n"), &None, &None, &some("-1"), &None);
    assert_eq!(stats.memory_current, None);
    assert_eq!(stats.pids_current, None);
}

#[test]
fn keyed_files_keep_the_last_valid_value() {
    let content = "usage_usec 1\nusage_usec x\n  user_usec\t 7 extra\nusage_usec 5\r\nusage_usec";
    assert_eq!(keyed_u64(content, "usage_usec"), Some(5));
    assert_eq!(keyed_u64(content, "user_usec"), Some(7));
    assert_eq!(keyed_u64(content, "system_usec"), None);
    assert_eq!(keyed_u64("", "usage_usec"), None);
    assert_eq!(keyed_u64("usage_usec +9", "usage_usec"), Some(9));
    assert_eq!(keyed_u64("usage_usec 18446744073709551616", "usage_usec"), None);
}

#[test]
fn limits_become_cgroup_files() {
    let writes = Cgroup::limit_writes(&CgroupConfig {
        memory_limit: Some(268435456),
        cpu_quota: Some(50000),
        cpu_period: None,
    })
    .expect("valid limits");
    let pairs: Vec<(&str, &str)> = writes
        .iter()
        .map(|w| (w.file.as_str(), w.content.as_str()))
        .collect();
    assert_eq!(
        pairs,
        [("memory.max", "268435456"), ("cpu.max", "50000 100000")]
    );

    let writes = Cgroup::limit_writes(&CgroupConfig {
        memory_limit: None,
        cpu_quota: Some(-1),
        cpu_period: Some(250000),
    })
    .expect("valid limits");
    assert_eq!(writes[0].content, "-1 250000");
    assert_eq!(writes.len(), 1);

    let error = Cgroup::limit_writes(&CgroupConfig {
        memory_limit: Some(0),
        cpu_quota: Some(1),
        cpu_period: None,
    })
    .unwrap_err();
    assert_eq!(error, CgroupError::MemoryLimitNotPositive(0));
    assert_eq!(error.message(), "memory_limit must > 0, got 0");
    assert!(Cgroup::limit_writes(&CgroupConfig {
        memory_limit: None,
        cpu_quota: None,
        cpu_period: Some(1),
    })
    .unwrap()
    .is_empty());
}

#[test]
fn cgroups_are_named_after_the_process() {
    let name = cgroup_name_for_pid(4321);
    assert_eq!(name, "crun-4321");
    let cgroup = Cgroup::for_id(&name);
    assert_eq!(cgroup.path(), "/sys/fs/cgroup/container-runtime/crun-4321");
    assert!(cgroup.path().starts_with(CGROUP_ROOT));
    assert!(procs_empty(" \n"));
    assert!(!procs_empty("12\n"));
}
