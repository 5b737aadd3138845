//! Security profiles: how much the runtime hardens a container's process
//! before it runs.
use vstd::prelude::*;

use crate::text::text_eq;

verus! {

/// The capability version that `capset(2)` is given: `_LINUX_CAPABILITY_VERSION_3`.
pub const LINUX_CAPABILITY_VERSION_3: u32 = 0x2008_0522;

/// The number of capability words that version 3 of `capset(2)` takes.
pub const CAPABILITY_U32S: usize = 2;

/// One word of capability sets, as `capset(2)` takes it.
#[derive(Clone, Copy, Debug, PartialEq, Eq, Structural)]
pub struct CapUserData {
    pub effective: u32,
    pub permitted: u32,
    pub inheritable: u32,
}

/// How a container's process is hardened.
#[derive(Debug, Clone, Copy, PartialEq, Eq, Structural)]
pub enum SecurityProfile {
    /// `no_new_privs`, no capabilities, and the seccomp denylist of
    /// `SecurityProfile::denied_syscalls`.
    Default,
    /// No hardening at all.
    Unconfined,
}

/// The name under which a security profile is stored and shown.
pub open spec fn security_profile_name(profile: SecurityProfile) -> Seq<char> {
    match profile {
        SecurityProfile::Default => "default"@,
        SecurityProfile::Unconfined => "unconfined"@,
    }
}

/// The profile that `value` names, if any (the inverse of `as_str`).
pub open spec fn security_profile_named(value: Seq<char>) -> Option<SecurityProfile> {
    if value == "default"@ {
        Some(SecurityProfile::Default)
    } else if value == "unconfined"@ {
        Some(SecurityProfile::Unconfined)
    } else {
        None
    }
}

impl SecurityProfile {
    pub fn as_str(self) -> (r: &'static str)
        ensures
            r@ == security_profile_name(self),
    {
        match self {
            SecurityProfile::Default => "default",
            SecurityProfile::Unconfined => "unconfined",
        }
    }

    /// Whether the profile asks for `no_new_privs`, dropped capabilities and
    /// the seccomp denylist.
    pub fn hardens(self) -> (r: bool)
        ensures
            r == (self == SecurityProfile::Default),
    {
        match self {
            SecurityProfile::Default => true,
            SecurityProfile::Unconfined => false,
        }
    }

    /// The system calls that the profile refuses: the host-impacting list for
    /// `Default`, none for `Unconfined`.
    pub fn denied_syscalls(self) -> (r: Vec<DeniedSyscall>)
        ensures
            r@ == profile_denylist(self),
    {
        match self {
            SecurityProfile::Default => host_impacting_syscalls(),
            SecurityProfile::Unconfined => Vec::new(),
        }
    }
}

/// A stored security profile that names none of the profiles.
#[derive(Debug, Clone, PartialEq, Eq)]
pub struct InvalidSecurityProfile {
    pub value: String,
}

/// The text of an unknown-profile error.
pub open spec fn invalid_security_profile_text(e: InvalidSecurityProfile) -> Seq<char> {
    "invalid security profile in state: "@ + e.value@
}

impl InvalidSecurityProfile {
    /// The text that the runtime shows for this error.
    pub fn message(&self) -> (r: String)
        ensures
            r@ == invalid_security_profile_text(*self),
    {
        let mut s = String::new();
        crate::text::push_str(&mut s, "invalid security profile in state: ");
        crate::text::push_str(&mut s, self.value.as_str());
        assert(s@ =~= invalid_security_profile_text(*self));
        s
    }
}

/// Reads a security profile back from its stored name.
pub fn parse_security_profile(value: &str) -> (r: Result<SecurityProfile, InvalidSecurityProfile>)
    ensures
        match security_profile_named(value@) {
            Some(p) => r == Ok::<SecurityProfile, InvalidSecurityProfile>(p),
            None => r matches Err(e) && e.value@ == value@,
        },
{
    if text_eq(value, "default") {
        Ok(SecurityProfile::Default)
    } else if text_eq(value, "unconfined") {
        Ok(SecurityProfile::Unconfined)
    } else {
        Err(InvalidSecurityProfile { value: crate::text::owned(value) })
    }
}

/// Every profile reads back from its own name.
pub proof fn lemma_security_profile_name_round_trip(profile: SecurityProfile)
    ensures
        security_profile_named(security_profile_name(profile)) == Some(profile),
{
    reveal_strlit("default");
    reveal_strlit("unconfined");
    assert("default"@.len() != "unconfined"@.len());
}

/// The capability words that clear every capability set: effective,
/// permitted and inheritable are all empty in each word.
pub fn empty_capability_data() -> (r: [CapUserData; CAPABILITY_U32S])
    ensures
        forall|i: int|
            0 <= i < CAPABILITY_U32S ==> #[trigger] r[i] == (CapUserData {
                effective: 0,
                permitted: 0,
                inheritable: 0,
            }),
{
    let empty = CapUserData { effective: 0, permitted: 0, inheritable: 0 };
    [empty, empty]
}

// ---------------------------------------------------------------------------
// Seccomp denylist
// ---------------------------------------------------------------------------

/// A system call that the default profile refuses inside the container.
#[derive(Debug, Clone, Copy, PartialEq, Eq, Structural)]
pub enum DeniedSyscall {
    Mount,
    Umount2,
    Ptrace,
    Bpf,
    Keyctl,
    AddKey,
    RequestKey,
    InitModule,
    FinitModule,
    DeleteModule,
    Reboot,
    KexecLoad,
    KexecFileLoad,
}

/// The system calls that can reach past the container into the host:
/// mounting, tracing, BPF, the kernel keyring, module loading, and reboot
/// or kexec.
pub open spec fn host_impacting_list() -> Seq<DeniedSyscall> {
    seq![
        DeniedSyscall::Mount,
        DeniedSyscall::Umount2,
        DeniedSyscall::Ptrace,
        DeniedSyscall::Bpf,
        DeniedSyscall::Keyctl,
        DeniedSyscall::AddKey,
        DeniedSyscall::RequestKey,
        DeniedSyscall::InitModule,
        DeniedSyscall::FinitModule,
        DeniedSyscall::DeleteModule,
        DeniedSyscall::Reboot,
        DeniedSyscall::KexecLoad,
        DeniedSyscall::KexecFileLoad,
    ]
}

/// The denylist of a profile.
pub open spec fn profile_denylist(profile: SecurityProfile) -> Seq<DeniedSyscall> {
    match profile {
        SecurityProfile::Default => host_impacting_list(),
        SecurityProfile::Unconfined => Seq::empty(),
    }
}

/// The host-impacting system calls, in a fixed order.
pub fn host_impacting_syscalls() -> (r: Vec<DeniedSyscall>)
    ensures
        r@ == host_impacting_list(),
{
    let r = vec![
        DeniedSyscall::Mount,
        DeniedSyscall::Umount2,
        DeniedSyscall::Ptrace,
        DeniedSyscall::Bpf,
        DeniedSyscall::Keyctl,
        DeniedSyscall::AddKey,
        DeniedSyscall::RequestKey,
        DeniedSyscall::InitModule,
        DeniedSyscall::FinitModule,
        DeniedSyscall::DeleteModule,
        DeniedSyscall::Reboot,
        DeniedSyscall::KexecLoad,
        DeniedSyscall::KexecFileLoad,
    ];
    assert(r@ =~= host_impacting_list());
    r
}

/// One classic-BPF instruction, laid out as the kernel's `struct sock_filter`.
#[derive(Clone, Copy, Debug, PartialEq, Eq, Structural)]
pub struct SockFilter {
    pub code: u16,
    pub jt: u8,
    pub jf: u8,
    pub k: u32,
}

/// `BPF_LD | BPF_W | BPF_ABS`: load the 32-bit word at offset `k` of the
/// `seccomp_data`.
pub const BPF_LOAD_WORD: u16 = 0x20;

/// `BPF_JMP | BPF_JEQ | BPF_K`: skip `jt` instructions if the accumulator
/// equals `k`, else `jf`.
pub const BPF_JUMP_EQUAL: u16 = 0x15;

/// `BPF_JMP | BPF_JGE | BPF_K`: skip `jt` instructions if the accumulator is
/// at least `k`, else `jf`.
pub const BPF_JUMP_AT_LEAST: u16 = 0x35;

/// `BPF_RET | BPF_K`: end the filter with the action `k`.
pub const BPF_RETURN: u16 = 0x06;

/// Offset of the system-call number in `struct seccomp_data`.
pub const SECCOMP_DATA_NR: u32 = 0;

/// Offset of the audit architecture in `struct seccomp_data`.
pub const SECCOMP_DATA_ARCH: u32 = 4;

/// `__X32_SYSCALL_BIT`: system calls numbered from here up are the x32 ABI's,
/// which x86-64 reports under its own architecture. No other ABI numbers its
/// calls this high, so the filter refuses the whole range.
pub const X32_SYSCALL_BIT: u32 = 0x4000_0000;

/// `SECCOMP_RET_ALLOW`: let the system call run.
pub const SECCOMP_RET_ALLOW: u32 = 0x7fff_0000;

/// `SECCOMP_RET_ERRNO`: fail the system call with the errno in the low bits.
pub const SECCOMP_RET_ERRNO: u32 = 0x0005_0000;

/// `SECCOMP_RET_KILL_PROCESS`: kill the whole process.
pub const SECCOMP_RET_KILL_PROCESS: u32 = 0x8000_0000;

/// `EPERM`, the errno that a refused system call fails with.
pub const EPERM: u32 = 1;

/// The action for a refused system call: fail with `EPERM`.
pub const SECCOMP_DENY: u32 = SECCOMP_RET_ERRNO | EPERM;

/// An instruction without jumps.
pub open spec fn bpf_stmt(code: u16, k: u32) -> SockFilter {
    SockFilter { code, jt: 0, jf: 0, k }
}

/// A conditional jump against the constant `k`.
pub open spec fn bpf_jump(code: u16, k: u32, jt: u8, jf: u8) -> SockFilter {
    SockFilter { code, jt, jf, k }
}

/// What a seccomp filter for architecture `arch` that refuses the system
/// calls numbered `denied` is, instruction by instruction: check the
/// architecture (kill on any other), load the number, kill on an x32 number,
/// one equality test and `EPERM` return per refused number, and allow
/// everything else.
pub open spec fn is_seccomp_program(prog: Seq<SockFilter>, arch: u32, denied: Seq<u32>) -> bool {
    &&& prog.len() == 7 + 2 * denied.len()
    &&& prog[0] == bpf_stmt(BPF_LOAD_WORD, SECCOMP_DATA_ARCH)
    &&& prog[1] == bpf_jump(BPF_JUMP_EQUAL, arch, 1, 0)
    &&& prog[2] == bpf_stmt(BPF_RETURN, SECCOMP_RET_KILL_PROCESS)
    &&& prog[3] == bpf_stmt(BPF_LOAD_WORD, SECCOMP_DATA_NR)
    &&& prog[4] == bpf_jump(BPF_JUMP_AT_LEAST, X32_SYSCALL_BIT, 0, 1)
    &&& prog[5] == bpf_stmt(BPF_RETURN, SECCOMP_RET_KILL_PROCESS)
    &&& forall|i: int|
        0 <= i < denied.len() ==> #[trigger] prog[6 + 2 * i] == bpf_jump(
            BPF_JUMP_EQUAL,
            denied[i],
            0,
            1,
        ) && prog[7 + 2 * i] == bpf_stmt(BPF_RETURN, SECCOMP_DENY)
    &&& prog[6 + 2 * denied.len() as int] == bpf_stmt(BPF_RETURN, SECCOMP_RET_ALLOW)
}

/// Builds the seccomp filter that refuses, with `EPERM`, the system calls
/// numbered `denied` on the architecture whose audit value is `arch`.
pub fn seccomp_filter(arch: u32, denied: &[u32]) -> (r: Vec<SockFilter>)
    ensures
        is_seccomp_program(r@, arch, denied@),
{
    let mut prog: Vec<SockFilter> = Vec::new();
    prog.push(SockFilter { code: BPF_LOAD_WORD, jt: 0, jf: 0, k: SECCOMP_DATA_ARCH });
    prog.push(SockFilter { code: BPF_JUMP_EQUAL, jt: 1, jf: 0, k: arch });
    prog.push(SockFilter { code: BPF_RETURN, jt: 0, jf: 0, k: SECCOMP_RET_KILL_PROCESS });
    prog.push(SockFilter { code: BPF_LOAD_WORD, jt: 0, jf: 0, k: SECCOMP_DATA_NR });
    prog.push(SockFilter { code: BPF_JUMP_AT_LEAST, jt: 0, jf: 1, k: X32_SYSCALL_BIT });
    prog.push(SockFilter { code: BPF_RETURN, jt: 0, jf: 0, k: SECCOMP_RET_KILL_PROCESS });
    let mut i: usize = 0;
    while i < denied.len()
        invariant
            i <= denied@.len(),
            prog@.len() == 6 + 2 * i,
            prog@[0] == bpf_stmt(BPF_LOAD_WORD, SECCOMP_DATA_ARCH),
            prog@[1] == bpf_jump(BPF_JUMP_EQUAL, arch, 1, 0),
            prog@[2] == bpf_stmt(BPF_RETURN, SECCOMP_RET_KILL_PROCESS),
            prog@[3] == bpf_stmt(BPF_LOAD_WORD, SECCOMP_DATA_NR),
            prog@[4] == bpf_jump(BPF_JUMP_AT_LEAST, X32_SYSCALL_BIT, 0, 1),
            prog@[5] == bpf_stmt(BPF_RETURN, SECCOMP_RET_KILL_PROCESS),
            forall|j: int|
                0 <= j < i ==> #[trigger] prog@[6 + 2 * j] == bpf_jump(
                    BPF_JUMP_EQUAL,
                    denied@[j],
                    0,
                    1,
                ) && prog@[7 + 2 * j] == bpf_stmt(BPF_RETURN, SECCOMP_DENY),
        decreases denied@.len() - i,
    {
        let ghost before = prog@;
        prog.push(SockFilter { code: BPF_JUMP_EQUAL, jt: 0, jf: 1, k: denied[i] });
        prog.push(SockFilter { code: BPF_RETURN, jt: 0, jf: 0, k: SECCOMP_DENY });
        assert forall|j: int| 0 <= j < i + 1 implies #[trigger] prog@[6 + 2 * j] == bpf_jump(
            BPF_JUMP_EQUAL,
            denied@[j],
            0,
            1,
        ) && prog@[7 + 2 * j] == bpf_stmt(BPF_RETURN, SECCOMP_DENY) by {
            if j < i {
                assert(before[6 + 2 * j] == bpf_jump(BPF_JUMP_EQUAL, denied@[j], 0, 1));
            }
        }
        i = i + 1;
    }
    let ghost before = prog@;
    prog.push(SockFilter { code: BPF_RETURN, jt: 0, jf: 0, k: SECCOMP_RET_ALLOW });
    assert forall|j: int| 0 <= j < denied@.len() implies #[trigger] prog@[6 + 2 * j] == bpf_jump(
        BPF_JUMP_EQUAL,
        denied@[j],
        0,
        1,
    ) && prog@[7 + 2 * j] == bpf_stmt(BPF_RETURN, SECCOMP_DENY) by {
        assert(before[6 + 2 * j] == bpf_jump(BPF_JUMP_EQUAL, denied@[j], 0, 1));
    }
    prog
}

/// Runs a classic-BPF program, as far as seccomp filters of this kind use
/// it, on a system call numbered `nr` made under architecture `arch`: the
/// action it returns, or `None` where it runs off its end or meets an
/// instruction outside that set.
pub open spec fn run_filter(prog: Seq<SockFilter>, pc: int, acc: u32, arch: u32, nr: u32) -> Option<
    u32,
>
    decreases prog.len() - pc,
{
    if pc < 0 || pc >= prog.len() {
        None
    } else {
        let ins = prog[pc];
        if ins.code == BPF_LOAD_WORD {
            let loaded: u32 = if ins.k == SECCOMP_DATA_NR {
                nr
            } else if ins.k == SECCOMP_DATA_ARCH {
                arch
            } else {
                0
            };
            run_filter(prog, pc + 1, loaded, arch, nr)
        } else if ins.code == BPF_JUMP_EQUAL || ins.code == BPF_JUMP_AT_LEAST {
            let taken = if ins.code == BPF_JUMP_EQUAL {
                acc == ins.k
            } else {
                acc >= ins.k
            };
            let skip: int = if taken {
                ins.jt as int
            } else {
                ins.jf as int
            };
            if pc + 1 + skip > prog.len() {
                None
            } else {
                run_filter(prog, pc + 1 + skip, acc, arch, nr)
            }
        } else if ins.code == BPF_RETURN {
            Some(ins.k)
        } else {
            None
        }
    }
}

proof fn lemma_deny_rules_from(prog: Seq<SockFilter>, arch: u32, denied: Seq<u32>, nr: u32, i: int)
    requires
        is_seccomp_program(prog, arch, denied),
        0 <= i <= denied.len(),
        forall|j: int| 0 <= j < i ==> denied[j] != nr,
    ensures
        run_filter(prog, 6 + 2 * i, nr, arch, nr) == if denied.contains(nr) {
            Some(SECCOMP_DENY)
        } else {
            Some(SECCOMP_RET_ALLOW)
        },
    decreases denied.len() - i,
{
    if i == denied.len() {
        assert(!denied.contains(nr));
    } else {
        assert(prog[6 + 2 * i] == bpf_jump(BPF_JUMP_EQUAL, denied[i], 0, 1));
        assert(prog[7 + 2 * i] == bpf_stmt(BPF_RETURN, SECCOMP_DENY));
        if denied[i] == nr {
            assert(denied.contains(nr));
            assert(run_filter(prog, 7 + 2 * i, nr, arch, nr) == Some(SECCOMP_DENY));
        } else {
            lemma_deny_rules_from(prog, arch, denied, nr, i + 1);
            assert(6 + 2 * i + 1 + 1 == 6 + 2 * (i + 1));
        }
    }
}

/// The filter that `seccomp_filter` builds kills a process that calls
/// under another architecture or with an x32 number, fails each listed
/// system call with `EPERM`, and lets every other one through.
pub proof fn lemma_seccomp_filter_denies_exactly(
    prog: Seq<SockFilter>,
    arch: u32,
    denied: Seq<u32>,
    call_arch: u32,
    nr: u32,
)
    requires
        is_seccomp_program(prog, arch, denied),
    ensures
        run_filter(prog, 0, 0, call_arch, nr) == if call_arch != arch || nr >= X32_SYSCALL_BIT {
            Some(SECCOMP_RET_KILL_PROCESS)
        } else if denied.contains(nr) {
            Some(SECCOMP_DENY)
        } else {
            Some(SECCOMP_RET_ALLOW)
        },
{
    assert(run_filter(prog, 0, 0, call_arch, nr) == run_filter(prog, 1, call_arch, call_arch, nr));
    if call_arch == arch {
        assert(run_filter(prog, 1, call_arch, call_arch, nr) == run_filter(
            prog,
            3,
            call_arch,
            call_arch,
            nr,
        ));
        assert(run_filter(prog, 3, call_arch, call_arch, nr) == run_filter(prog, 4, nr, call_arch, nr));
        if nr >= X32_SYSCALL_BIT {
            assert(run_filter(prog, 5, nr, call_arch, nr) == Some(SECCOMP_RET_KILL_PROCESS));
        } else {
            lemma_deny_rules_from(prog, arch, denied, nr, 0);
            assert(run_filter(prog, 4, nr, call_arch, nr) == run_filter(prog, 6, nr, call_arch, nr));
        }
    } else {
        assert(run_filter(prog, 2, call_arch, call_arch, nr) == Some(SECCOMP_RET_KILL_PROCESS));
    }
}

} // verus!
