//! Running a container's process: the settings it runs with, how its end
//! is recorded, and the decisions taken around it.
use vstd::prelude::*;

use crate::cgroup::CgroupConfig;
use crate::namespace::NamespaceFlags;
use crate::network::NetworkMode;
use crate::security::SecurityProfile;
use crate::state::opt_view;
use crate::text::{chars_of, string_of, trim, trim_bounds};

verus! {

/// How a container's process ended.
#[derive(Debug, Clone)]
pub struct ProcessExit {
    pub pid: i32,
    /// The exit code, when the process exited.
    pub code: Option<i32>,
    /// The signal (or other end) when it did not exit normally.
    pub signal: Option<String>,
    /// The error that the process reported before it could run the command.
    pub error: Option<String>,
}

/// What a container's process is started with.
pub struct ProcessConfig<'a> {
    pub args: &'a [String],
    pub env: &'a [String],
    pub cwd: Option<&'a str>,
    pub rootfs: &'a str,
    pub readonly_rootfs: bool,
    pub flags: NamespaceFlags,
    pub cgroup_config: Option<CgroupConfig>,
    pub network_mode: NetworkMode,
    pub security_profile: SecurityProfile,
}

/// A container's process once it has been started.
#[derive(Debug, Clone)]
pub struct StartedProcess {
    pub pid: i32,
    pub cgroup_path: Option<String>,
}

/// How a waited-for process ended, as `waitpid(2)` reports it, with the
/// signal or the other status already named.
#[derive(Debug, Clone, PartialEq, Eq)]
pub enum WaitOutcome {
    Exited(i32),
    Signaled(String),
    Other(String),
}

/// What a wait outcome records: an exit gives a code, a signal or any other
/// end gives its name.
pub open spec fn exit_fields(outcome: WaitOutcome) -> (Option<i32>, Option<Seq<char>>) {
    match outcome {
        WaitOutcome::Exited(code) => (Some(code), None),
        WaitOutcome::Signaled(name) => (None, Some(name@)),
        WaitOutcome::Other(name) => (None, Some(name@)),
    }
}

impl ProcessExit {
    /// The end of the process `pid`, from how its wait ended and the error it
    /// reported.
    pub fn from_wait(pid: i32, outcome: WaitOutcome, error: Option<String>) -> (r: ProcessExit)
        ensures
            r.pid == pid,
            (r.code, opt_view(r.signal)) == exit_fields(outcome),
            r.error == error,
    {
        match outcome {
            WaitOutcome::Exited(code) => ProcessExit { pid, code: Some(code), signal: None, error },
            WaitOutcome::Signaled(name) => ProcessExit {
                pid,
                code: None,
                signal: Some(name),
                error,
            },
            WaitOutcome::Other(name) => ProcessExit { pid, code: None, signal: Some(name), error },
        }
    }
}

/// The error that a child wrote to its error pipe: the text trimmed, and
/// nothing when that leaves nothing.
pub fn child_error_message(message: &str) -> (r: Option<String>)
    ensures
        trim(message@).len() == 0 ==> r is None,
        trim(message@).len() > 0 ==> (r matches Some(m) && m@ == trim(message@)),
{
    let v = chars_of(message);
    assert(v@.subrange(0, v@.len() as int) =~= message@);
    let (a, b) = trim_bounds(&v, 0, v.len());
    if a == b {
        None
    } else {
        Some(string_of(&v, a, b))
    }
}

/// An environment entry `KEY=VALUE` split at its first `=`; entries without
/// `=` are skipped.
pub fn env_pair(item: &str) -> (r: Option<(String, String)>)
    ensures
        (forall|i: int| 0 <= i < item@.len() ==> item@[i] != '=') ==> r is None,
        r matches Some(kv) ==> exists|i: int|
            0 <= i < item@.len() && item@[i] == '=' && (forall|j: int|
                0 <= j < i ==> item@[j] != '=') && kv.0@ == item@.subrange(0, i) && kv.1@
                == item@.subrange(i + 1, item@.len() as int),
        (exists|i: int| 0 <= i < item@.len() && item@[i] == '=') ==> r is Some,
{
    let v = chars_of(item);
    let mut i: usize = 0;
    while i < v.len()
        invariant
            v@ == item@,
            i <= v@.len(),
            forall|j: int| 0 <= j < i ==> v@[j] != '=',
        decreases v@.len() - i,
    {
        if v[i] == '=' {
            let key = string_of(&v, 0, i);
            let value = string_of(&v, i + 1, v.len());
            return Some((key, value));
        }
        i += 1;
    }
    None
}

/// The status that the runtime exits with for a process that ended with
/// `code` or `signal`.
pub open spec fn exit_status_spec(code: Option<i32>, signal_given: bool) -> i32 {
    match code {
        Some(c) => if 0 <= c <= 255 {
            c
        } else if c < 0 {
            1
        } else {
            255
        },
        None => if signal_given {
            128
        } else {
            1
        },
    }
}

/// The runtime's own exit status for a process that ended: its exit code
/// when that is a shell status (0 to 255), 1 for a negative code, 255 for a
/// larger one, 128 for a signal, and 1 when nothing is known.
pub fn process_exit_status(code: Option<i32>, signal: Option<&str>) -> (r: i32)
    ensures
        r == exit_status_spec(code, signal is Some),
{
    match code {
        Some(c) => {
            if 0 <= c && c <= 255 {
                c
            } else if c < 0 {
                1
            } else {
                255
            }
        },
        None => match signal {
            Some(_) => 128,
            None => 1,
        },
    }
}

/// The runtime's exit status is always a shell status, and an exit code
/// that is one already is kept.
pub proof fn lemma_exit_status_in_shell_range(code: Option<i32>, signal_given: bool)
    ensures
        0 <= exit_status_spec(code, signal_given) <= 255,
        forall|c: i32| code == Some(c) && 0 <= c <= 255 ==> exit_status_spec(code, signal_given) == c,
        code is None ==> exit_status_spec(code, signal_given) != 0,
{
}


/// What the container's process sets up itself, given the namespaces it
/// unshares and the network mode: the loopback interface when it has a
/// network namespace of its own, and the container end of the veth pair as
/// well in bridge mode.
pub fn child_network_setup(child_flags: NamespaceFlags, network_mode: NetworkMode) -> (r: (
    bool,
    bool,
))
    ensures
        r.0 == (child_flags@ & crate::namespace::newnet_bit() == crate::namespace::newnet_bit()),
        r.1 == (r.0 && network_mode == NetworkMode::Bridge),
{
    let loopback = child_flags.contains(NamespaceFlags::network());
    (loopback, loopback && network_mode == NetworkMode::Bridge)
}

/// Checks that a container process names a command: its argument list, whose
/// first item is the program, must not be empty.
pub fn check_process_args(args: &[String]) -> (r: Result<(), String>)
    ensures
        args@.len() > 0 <==> r is Ok,
        r matches Err(m) ==> m@ == "process args is empty"@,
{
    if args.len() == 0 {
        Err(crate::text::owned("process args is empty"))
    } else {
        Ok(())
    }
}

} // verus!
