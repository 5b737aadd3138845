use container_runtime::network::{
    cleanup_nat, cleanup_veth_host, parse_network_mode, setup_loopback, setup_nat,
    setup_veth_child, setup_veth_parent, BridgeNetwork, CommandOutcome, NetAction, NetworkError,
    NetworkMode, VethPair,
};

fn args_of(action: &NetAction) -> Vec<String> {
    match action {
        NetAction::Run(command) => command.args.clone(),
        NetAction::Finish(_) => panic!("expected a command"),
    }
}

#[test]
fn generates_short_veth_names_from_pid() {
    let veth = VethPair::for_pid(12345);

    assert_eq!(veth.host_name, "vethh12345");
    assert_eq!(veth.peer_name, "vethp12345");
    assert!(veth.host_name.len() <= 15);
    assert!(veth.peer_name.len() <= 15);
}

#[test]
fn generates_bridge_network_from_pid() {
    let network = BridgeNetwork::for_pid(12345);

    assert_eq!(network.veth.host_name, "vethh12345");
    assert_eq!(network.veth.peer_name, "vethp12345");
    assert_eq!(network.subnet, "10.88.165.0/24");
    assert_eq!(network.host_cidr, "10.88.165.1/24");
    assert_eq!(network.container_cidr, "10.88.165.2/24");
    assert_eq!(network.gateway, "10.88.165.1");
}

#[test]
fn formats_network_modes_for_state() {
    assert_eq!(NetworkMode::Host.as_str(), "host");
    assert_eq!(NetworkMode::NoNetwork.as_str(), "none");
    assert_eq!(NetworkMode::Bridge.as_str(), "bridge");
}

#[test]
fn bridge_network_for_negative_and_small_pids() {
    let network = BridgeNetwork::for_pid(-7);
    assert_eq!(network.veth.host_name, "vethh-7");
    assert_eq!(network.subnet, "10.88.27.0/24");

    let network = BridgeNetwork::for_pid(0);
    assert_eq!(network.subnet, "10.88.20.0/24");
    assert_eq!(network.gateway, "10.88.20.1");

    let network = BridgeNetwork::for_pid(199);
    assert_eq!(network.container_cidr, "10.88.219.2/24");
}

#[test]
fn veth_names_fit_for_the_largest_pid() {
    let veth = VethPair::for_pid(i32::MAX);
    assert_eq!(veth.host_name, "vethh2147483647");
    assert_eq!(veth.host_name.len(), 15);
}

#[test]
fn network_modes_read_back_from_their_names() {
    for mode in [NetworkMode::Host, NetworkMode::NoNetwork, NetworkMode::Bridge] {
        assert_eq!(parse_network_mode(mode.as_str()), Ok(mode));
    }
    let error = parse_network_mode("wifi").expect_err("unknown mode");
    assert_eq!(error, NetworkError::InvalidMode("wifi".to_string()));
    assert_eq!(error.message(), "invalid network mode in state: wifi");
}

#[test]
fn loopback_step_runs_one_command_then_finishes() {
    let first = setup_loopback(0, None);
    assert_eq!(args_of(&first), ["link", "set", "lo", "up"]);
    assert_eq!(setup_loopback(1, Some(CommandOutcome::Succeeded)), NetAction::Finish(Ok(())));
    match setup_loopback(1, Some(CommandOutcome::Failed)) {
        NetAction::Finish(Err(error)) => {
            assert_eq!(error.message(), "ip command failed: link set lo up")
        }
        other => panic!("unexpected {other:?}"),
    }
    match setup_loopback(1, Some(CommandOutcome::NotStarted)) {
        NetAction::Finish(Err(error)) => {
            assert_eq!(error.message(), "failed to execute ip link set lo up")
        }
        other => panic!("unexpected {other:?}"),
    }
}

#[test]
fn veth_child_step_configures_eth0_in_order() {
    let network = BridgeNetwork::for_pid(12345);
    assert_eq!(
        args_of(&setup_veth_child(&network, 0, None)),
        ["link", "set", "vethp12345", "name", "eth0"]
    );
    assert_eq!(
        args_of(&setup_veth_child(&network, 1, Some(CommandOutcome::Succeeded))),
        ["addr", "add", "10.88.165.2/24", "dev", "eth0"]
    );
    assert_eq!(
        args_of(&setup_veth_child(&network, 2, Some(CommandOutcome::Succeeded))),
        ["link", "set", "eth0", "up"]
    );
    assert_eq!(
        args_of(&setup_veth_child(&network, 3, Some(CommandOutcome::Succeeded))),
        ["route", "add", "default", "via", "10.88.165.1"]
    );
    assert_eq!(
        setup_veth_child(&network, 4, Some(CommandOutcome::Succeeded)),
        NetAction::Finish(Ok(()))
    );
    assert!(matches!(
        setup_veth_child(&network, 2, Some(CommandOutcome::Failed)),
        NetAction::Finish(Err(NetworkError::CommandFailed(_)))
    ));
}

#[test]
fn veth_parent_step_ignores_the_stale_delete() {
    let network = BridgeNetwork::for_pid(42);
    match setup_veth_parent(42, &network, 0, None) {
        NetAction::Run(command) => {
            assert_eq!(command.args, ["link", "delete", "vethh42"]);
            assert!(command.quiet);
            assert!(!command.checked);
        }
        other => panic!("unexpected {other:?}"),
    }
    assert_eq!(
        args_of(&setup_veth_parent(42, &network, 1, Some(CommandOutcome::Failed))),
        ["link", "add", "vethh42", "type", "veth", "peer", "name", "vethp42"]
    );
    assert_eq!(
        args_of(&setup_veth_parent(42, &network, 2, Some(CommandOutcome::Succeeded))),
        ["link", "set", "vethp42", "netns", "42"]
    );
    assert_eq!(
        args_of(&setup_veth_parent(42, &network, 3, Some(CommandOutcome::Succeeded))),
        ["addr", "add", "10.88.62.1/24", "dev", "vethh42"]
    );
    assert_eq!(
        args_of(&setup_veth_parent(42, &network, 4, Some(CommandOutcome::Succeeded))),
        ["link", "set", "vethh42", "up"]
    );
    assert_eq!(
        setup_veth_parent(42, &network, 5, Some(CommandOutcome::Succeeded)),
        NetAction::Finish(Ok(()))
    );
}

#[test]
fn nat_steps_append_and_remove_the_masquerade_rule() {
    let first = setup_nat("10.88.62.0/24", 0, None);
    assert_eq!(
        args_of(&first),
        ["-t", "nat", "-D", "POSTROUTING", "-s", "10.88.62.0/24", "-j", "MASQUERADE"]
    );
    assert_eq!(
        args_of(&setup_nat("10.88.62.0/24", 1, Some(CommandOutcome::Failed))),
        ["-t", "nat", "-A", "POSTROUTING", "-s", "10.88.62.0/24", "-j", "MASQUERADE"]
    );
    assert_eq!(
        args_of(&setup_nat("10.88.62.0/24", 2, Some(CommandOutcome::Succeeded))),
        ["-P", "FORWARD", "ACCEPT"]
    );
    match setup_nat("10.88.62.0/24", 2, Some(CommandOutcome::Failed)) {
        NetAction::Finish(Err(error)) => assert_eq!(
            error.message(),
            "iptables command failed: -t nat -A POSTROUTING -s 10.88.62.0/24 -j MASQUERADE"
        ),
        other => panic!("unexpected {other:?}"),
    }

    assert_eq!(
        args_of(&cleanup_nat("10.88.62.0/24", None)),
        ["-t", "nat", "-D", "POSTROUTING", "-s", "10.88.62.0/24", "-j", "MASQUERADE"]
    );
    assert!(matches!(
        cleanup_nat("10.88.62.0/24", Some(CommandOutcome::Succeeded)),
        NetAction::Run(_)
    ));
    assert_eq!(
        cleanup_nat("10.88.62.0/24", Some(CommandOutcome::Failed)),
        NetAction::Finish(Ok(()))
    );
}

#[test]
fn veth_host_cleanup_deletes_only_what_exists() {
    assert_eq!(args_of(&cleanup_veth_host("vethh1", 0, None)), ["link", "show", "vethh1"]);
    assert_eq!(
        cleanup_veth_host("vethh1", 1, Some(CommandOutcome::Failed)),
        NetAction::Finish(Ok(()))
    );
    assert_eq!(
        args_of(&cleanup_veth_host("vethh1", 1, Some(CommandOutcome::Succeeded))),
        ["link", "delete", "vethh1"]
    );
    assert_eq!(
        cleanup_veth_host("vethh1", 2, Some(CommandOutcome::Succeeded)),
        NetAction::Finish(Ok(()))
    );
    assert!(matches!(
        cleanup_veth_host("vethh1", 2, Some(CommandOutcome::Failed)),
        NetAction::Finish(Err(NetworkError::CommandFailed(_)))
    ));
}
