use container_runtime::container::{
    check_process_args, child_error_message, child_network_setup, env_pair, process_exit_status, ProcessExit,
    WaitOutcome,
};
use container_runtime::container_exec::{
    check_exec_args, exec_cwd, helper_exit_code, join_order, namespace_path, ExecExit,
};
use container_runtime::namespace::NamespaceFlags;
use container_runtime::network::NetworkMode;

#[test]
fn maps_process_exit_code_to_cli_status() {
    assert_eq!(process_exit_status(Some(0), None), 0);
    assert_eq!(process_exit_status(Some(42), None), 42);
}

#[test]
fn clamps_process_exit_code_to_shell_range() {
    assert_eq!(process_exit_status(Some(300), None), 255);
    assert_eq!(process_exit_status(Some(-1), None), 1);
}

#[test]
fn maps_signal_and_missing_status_to_nonzero_cli_status() {
    assert_eq!(process_exit_status(None, Some("SIGKILL")), 128);
    assert_eq!(process_exit_status(None, None), 1);
}

#[test]
fn records_how_a_process_ended() {
    let exit = ProcessExit::from_wait(7, WaitOutcome::Exited(3), None);
    assert_eq!((exit.pid, exit.code, exit.signal), (7, Some(3), None));

    let exit = ProcessExit::from_wait(
        7,
        WaitOutcome::Signaled("SIGKILL".to_string()),
        Some("boom".to_string()),
    );
    assert_eq!(exit.code, None);
    assert_eq!(exit.signal.as_deref(), Some("SIGKILL"));
    assert_eq!(exit.error.as_deref(), Some("boom"));

    let exit = ExecExit::from_wait(WaitOutcome::Other("StillAlive".to_string()));
    assert_eq!(exit.code, None);
    assert_eq!(exit.signal.as_deref(), Some("StillAlive"));
}

#[test]
fn helper_exit_code_follows_the_command() {
    assert_eq!(helper_exit_code(&ExecExit { code: Some(5), signal: None }), 5);
    assert_eq!(
        helper_exit_code(&ExecExit { code: None, signal: Some("SIGTERM".to_string()) }),
        128
    );
    assert_eq!(helper_exit_code(&ExecExit { code: None, signal: None }), 1);
}

#[test]
fn child_errors_are_trimmed_and_empty_ones_dropped() {
    assert_eq!(child_error_message("  \n"), None);
    assert_eq!(child_error_message(""), None);
    assert_eq!(
        child_error_message(" failed to exec process\n").as_deref(),
        Some("failed to exec process")
    );
}

#[test]
fn environment_entries_split_at_the_first_equals() {
    assert_eq!(
        env_pair("PATH=/bin:/usr/bin"),
        Some(("PATH".to_string(), "/bin:/usr/bin".to_string()))
    );
    assert_eq!(env_pair("A=b=c"), Some(("A".to_string(), "b=c".to_string())));
    assert_eq!(env_pair("EMPTY="), Some(("EMPTY".to_string(), String::new())));
    assert_eq!(env_pair("NOVALUE"), None);
}

#[test]
fn exec_paths_and_order() {
    assert_eq!(exec_cwd(None), "/");
    assert_eq!(exec_cwd(Some("/tmp")), "/tmp");
    assert_eq!(namespace_path(1234, "net"), "/proc/1234/ns/net");
    let order: Vec<&str> = join_order().iter().map(|(name, _)| *name).collect();
    assert_eq!(order, ["mnt", "uts", "ipc", "net", "pid"]);
    assert_eq!(join_order()[4].1, NamespaceFlags::pid());
}

#[test]
fn child_sets_up_networking_only_in_its_own_namespace() {
    let own = NamespaceFlags::network();
    assert_eq!(child_network_setup(own, NetworkMode::Bridge), (true, true));
    assert_eq!(child_network_setup(own, NetworkMode::NoNetwork), (true, false));
    assert_eq!(
        child_network_setup(NamespaceFlags::empty(), NetworkMode::Host),
        (false, false)
    );
}

#[test]
fn refuses_a_process_without_a_command() {
    assert_eq!(check_process_args(&[]), Err("process args is empty".to_string()));
    assert_eq!(check_process_args(&["/bin/sh".to_string()]), Ok(()));
}

#[test]
fn refuses_an_exec_without_a_command() {
    assert_eq!(check_exec_args(&[]), Err("exec args is empty".to_string()));
    assert_eq!(
        check_exec_args(&["ls".to_string(), "-l".to_string()]),
        Ok(())
    );
}
