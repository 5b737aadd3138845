use container_runtime::security::{
    empty_capability_data, host_impacting_syscalls, parse_security_profile, seccomp_filter,
    DeniedSyscall, SecurityProfile, SockFilter, BPF_JUMP_AT_LEAST, BPF_JUMP_EQUAL, BPF_LOAD_WORD,
    BPF_RETURN,
    CAPABILITY_U32S, LINUX_CAPABILITY_VERSION_3, SECCOMP_DATA_ARCH, SECCOMP_DATA_NR,
    SECCOMP_DENY, SECCOMP_RET_ALLOW, SECCOMP_RET_ERRNO, SECCOMP_RET_KILL_PROCESS, X32_SYSCALL_BIT,
};

#[test]
fn formats_security_profiles_for_state() {
    assert_eq!(SecurityProfile::Default.as_str(), "default");
    assert_eq!(SecurityProfile::Unconfined.as_str(), "unconfined");
}

#[test]
fn empty_capability_data_clears_all_sets() {
    let data = empty_capability_data();

    assert_eq!(data.len(), 2);
    assert!(data
        .iter()
        .all(|item| item.effective == 0 && item.permitted == 0 && item.inheritable == 0));
}

#[test]
fn security_profiles_read_back_from_their_names() {
    for profile in [SecurityProfile::Default, SecurityProfile::Unconfined] {
        assert_eq!(parse_security_profile(profile.as_str()), Ok(profile));
    }
    let error = parse_security_profile("strict").expect_err("unknown profile");
    assert_eq!(error.message(), "invalid security profile in state: strict");
    assert!(SecurityProfile::Default.hardens());
    assert!(!SecurityProfile::Unconfined.hardens());
}

#[test]
fn capability_constants_match_version_three() {
    assert_eq!(LINUX_CAPABILITY_VERSION_3, 0x2008_0522);
    assert_eq!(CAPABILITY_U32S, 2);
}

#[test]
fn default_profile_denies_host_impacting_syscalls() {
    let denied = SecurityProfile::Default.denied_syscalls();
    for call in [
        DeniedSyscall::Mount,
        DeniedSyscall::Ptrace,
        DeniedSyscall::Bpf,
        DeniedSyscall::Keyctl,
        DeniedSyscall::InitModule,
        DeniedSyscall::FinitModule,
        DeniedSyscall::DeleteModule,
        DeniedSyscall::Reboot,
    ] {
        assert!(denied.contains(&call), "{call:?}");
    }
    assert_eq!(denied, host_impacting_syscalls());
    assert_eq!(denied.len(), 13);
}

#[test]
fn unconfined_profile_denies_nothing() {
    assert!(SecurityProfile::Unconfined.denied_syscalls().is_empty());
    assert!(!SecurityProfile::Unconfined.hardens());
    assert!(SecurityProfile::Default.hardens());
}

#[test]
fn seccomp_constants_match_the_kernel_abi() {
    assert_eq!(u32::from(BPF_LOAD_WORD), nix::libc::BPF_LD | nix::libc::BPF_W | nix::libc::BPF_ABS);
    assert_eq!(u32::from(BPF_JUMP_EQUAL), nix::libc::BPF_JMP | nix::libc::BPF_JEQ | nix::libc::BPF_K);
    assert_eq!(u32::from(BPF_JUMP_AT_LEAST), nix::libc::BPF_JMP | nix::libc::BPF_JGE | nix::libc::BPF_K);
    assert_eq!(u32::from(BPF_RETURN), nix::libc::BPF_RET | nix::libc::BPF_K);
    assert_eq!(SECCOMP_RET_ALLOW, nix::libc::SECCOMP_RET_ALLOW);
    assert_eq!(SECCOMP_RET_ERRNO, nix::libc::SECCOMP_RET_ERRNO);
    assert_eq!(SECCOMP_RET_KILL_PROCESS, nix::libc::SECCOMP_RET_KILL_PROCESS);
    assert_eq!(SECCOMP_DENY, nix::libc::SECCOMP_RET_ERRNO | nix::libc::EPERM as u32);
}

#[test]
fn seccomp_filter_checks_arch_then_each_number() {
    let arch = 0xC000_003E;
    let prog = seccomp_filter(arch, &[165, 101]);
    let stmt = |code, k| SockFilter { code, jt: 0, jf: 0, k };
    let jump = |k, jt, jf| SockFilter { code: BPF_JUMP_EQUAL, jt, jf, k };
    let at_least = |k, jt, jf| SockFilter { code: BPF_JUMP_AT_LEAST, jt, jf, k };
    assert_eq!(
        prog,
        vec![
            stmt(BPF_LOAD_WORD, SECCOMP_DATA_ARCH),
            jump(arch, 1, 0),
            stmt(BPF_RETURN, SECCOMP_RET_KILL_PROCESS),
            stmt(BPF_LOAD_WORD, SECCOMP_DATA_NR),
            at_least(X32_SYSCALL_BIT, 0, 1),
            stmt(BPF_RETURN, SECCOMP_RET_KILL_PROCESS),
            jump(165, 0, 1),
            stmt(BPF_RETURN, SECCOMP_DENY),
            jump(101, 0, 1),
            stmt(BPF_RETURN, SECCOMP_DENY),
            stmt(BPF_RETURN, SECCOMP_RET_ALLOW),
        ]
    );
}

#[test]
fn seccomp_filter_without_denials_allows_all() {
    let prog = seccomp_filter(7, &[]);
    assert_eq!(prog.len(), 7);
    assert_eq!(prog[6], SockFilter { code: BPF_RETURN, jt: 0, jf: 0, k: SECCOMP_RET_ALLOW });
}
