use container_runtime::namespace::{
    apply_network_mode, namespace_flags, split_pid_namespace, NamespaceFlags,
};
use container_runtime::network::NetworkMode;
use nix::sched::CloneFlags;

fn names(values: &[&str]) -> Vec<String> {
    values.iter().map(|value| value.to_string()).collect()
}

fn clone_flags(flags: NamespaceFlags) -> CloneFlags {
    CloneFlags::from_bits_retain(flags.bits())
}

#[test]
fn maps_supported_namespaces_to_clone_flags() {
    let flags = clone_flags(namespace_flags(&names(&[
        "pid", "mount", "uts", "ipc", "network", "user",
    ])));

    assert!(flags.contains(CloneFlags::CLONE_NEWPID));
    assert!(flags.contains(CloneFlags::CLONE_NEWNS));
    assert!(flags.contains(CloneFlags::CLONE_NEWUTS));
    assert!(flags.contains(CloneFlags::CLONE_NEWIPC));
    assert!(flags.contains(CloneFlags::CLONE_NEWNET));
    assert!(flags.contains(CloneFlags::CLONE_NEWUSER));
}

#[test]
fn ignores_unknown_namespaces() {
    let flags = clone_flags(namespace_flags(&names(&["pid", "unsupported"])));

    assert!(flags.contains(CloneFlags::CLONE_NEWPID));
    assert!(!flags.contains(CloneFlags::CLONE_NEWNS));
}

#[test]
fn library_flags_are_the_clone_flags() {
    assert_eq!(NamespaceFlags::pid().bits(), CloneFlags::CLONE_NEWPID.bits());
    assert_eq!(NamespaceFlags::mount().bits(), CloneFlags::CLONE_NEWNS.bits());
    assert_eq!(NamespaceFlags::uts().bits(), CloneFlags::CLONE_NEWUTS.bits());
    assert_eq!(NamespaceFlags::ipc().bits(), CloneFlags::CLONE_NEWIPC.bits());
    assert_eq!(NamespaceFlags::network().bits(), CloneFlags::CLONE_NEWNET.bits());
    assert_eq!(NamespaceFlags::user().bits(), CloneFlags::CLONE_NEWUSER.bits());
    assert!(namespace_flags(&names(&[])).is_empty());
    assert_eq!(
        namespace_flags(&names(&["uts", "uts", "Pid"])),
        NamespaceFlags::uts()
    );
}

#[test]
fn network_mode_decides_the_network_namespace() {
    let base = namespace_flags(&names(&["pid", "network"]));
    let host = apply_network_mode(base, NetworkMode::Host);
    assert!(!host.contains(NamespaceFlags::network()));
    assert!(host.contains(NamespaceFlags::pid()));

    let plain = namespace_flags(&names(&["mount"]));
    let bridged = apply_network_mode(plain, NetworkMode::Bridge);
    assert!(bridged.contains(NamespaceFlags::network()));
    assert!(bridged.contains(NamespaceFlags::mount()));
    let isolated = apply_network_mode(plain, NetworkMode::NoNetwork);
    assert_eq!(isolated, bridged);
}

#[test]
fn pid_namespace_goes_to_the_parent() {
    let flags = namespace_flags(&names(&["pid", "mount", "network"]));
    let (parent, child) = split_pid_namespace(flags);
    assert_eq!(parent, NamespaceFlags::pid());
    assert!(!child.contains(NamespaceFlags::pid()));
    assert!(child.contains(NamespaceFlags::mount()));
    assert!(child.contains(NamespaceFlags::network()));
    let (parent, _) = split_pid_namespace(namespace_flags(&names(&["uts"])));
    assert!(parent.is_empty());
}
