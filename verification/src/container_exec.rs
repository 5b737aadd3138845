//! Running a command inside a running container: joining its namespaces and
//! reporting how the command ended.
use vstd::prelude::*;

use crate::container::{exit_fields, WaitOutcome};
use crate::namespace::NamespaceFlags;
use crate::state::opt_view;
use crate::text::{push_signed_decimal, push_str, signed_decimal};

verus! {

/// What a command run in a container is started with.
#[derive(Debug, Clone)]
pub struct ExecConfig<'a> {
    pub target_pid: i32,
    pub args: &'a [String],
    pub env: &'a [String],
    pub cwd: Option<&'a str>,
    pub cgroup_path: Option<&'a str>,
}

/// How a command run in a container ended.
#[derive(Debug, Clone)]
pub struct ExecExit {
    pub code: Option<i32>,
    pub signal: Option<String>,
}

impl ExecExit {
    /// The end of the command, from how its wait ended.
    pub fn from_wait(outcome: WaitOutcome) -> (r: ExecExit)
        ensures
            (r.code, opt_view(r.signal)) == exit_fields(outcome),
    {
        match outcome {
            WaitOutcome::Exited(code) => ExecExit { code: Some(code), signal: None },
            WaitOutcome::Signaled(name) => ExecExit { code: None, signal: Some(name) },
            WaitOutcome::Other(name) => ExecExit { code: None, signal: Some(name) },
        }
    }
}

/// The status that the helper process, which has joined the container's
/// namespaces, exits with once the command ended: the command's exit code,
/// 128 for a signal, 1 when nothing is known.
pub fn helper_exit_code(exit: &ExecExit) -> (r: i32)
    ensures
        r == match exit.code {
            Some(c) => c,
            None => if exit.signal is Some {
                128
            } else {
                1
            },
        },
{
    match (exit.code, &exit.signal) {
        (Some(code), _) => code,
        (None, Some(_)) => 128,
        (None, None) => 1,
    }
}

/// The directory a command starts in: the configured one, or `/`.
pub fn exec_cwd<'a>(cwd: Option<&'a str>) -> (r: &'a str)
    ensures
        r@ == match cwd {
            Some(c) => c@,
            None => "/"@,
        },
{
    match cwd {
        Some(c) => c,
        None => "/",
    }
}

/// The namespaces that a command joins, in the order it joins them: mount,
/// UTS, IPC, network, and PID, by their names under `/proc/<pid>/ns`.
pub open spec fn join_order_view(order: Seq<(&str, NamespaceFlags)>) -> bool {
    &&& order.len() == 5
    &&& order[0].0@ == "mnt"@ && order[0].1@ == crate::namespace::newns_bit()
    &&& order[1].0@ == "uts"@ && order[1].1@ == crate::namespace::newuts_bit()
    &&& order[2].0@ == "ipc"@ && order[2].1@ == crate::namespace::newipc_bit()
    &&& order[3].0@ == "net"@ && order[3].1@ == crate::namespace::newnet_bit()
    &&& order[4].0@ == "pid"@ && order[4].1@ == crate::namespace::newpid_bit()
}

/// The namespaces that a command joins, in order.
pub fn join_order() -> (r: Vec<(&'static str, NamespaceFlags)>)
    ensures
        join_order_view(r@),
{
    let mut r = Vec::new();
    r.push(("mnt", NamespaceFlags::mount()));
    r.push(("uts", NamespaceFlags::uts()));
    r.push(("ipc", NamespaceFlags::ipc()));
    r.push(("net", NamespaceFlags::network()));
    r.push(("pid", NamespaceFlags::pid()));
    r
}

/// The file of namespace `namespace` of process `pid`:
/// `/proc/<pid>/ns/<namespace>`.
pub fn namespace_path(pid: i32, namespace: &str) -> (r: String)
    ensures
        r@ == "/proc/"@ + signed_decimal(pid as int) + "/ns/"@ + namespace@,
{
    let mut s = String::new();
    push_str(&mut s, "/proc/");
    push_signed_decimal(&mut s, pid as i64);
    push_str(&mut s, "/ns/");
    push_str(&mut s, namespace);
    assert(s@ =~= "/proc/"@ + signed_decimal(pid as int) + "/ns/"@ + namespace@);
    s
}

/// Checks that a command run in a container names a command: its argument list, whose
/// first item is the program, must not be empty.
pub fn check_exec_args(args: &[String]) -> (r: Result<(), String>)
    ensures
        args@.len() > 0 <==> r is Ok,
        r matches Err(m) ==> m@ == "exec args is empty"@,
{
    if args.len() == 0 {
        Err(crate::text::owned("exec args is empty"))
    } else {
        Ok(())
    }
}

} // verus!
