//! Container networking: the modes, the names and addresses of a bridge
//! network, and the `ip`/`iptables` commands that set it up and tear it down.
use vstd::prelude::*;

use crate::text::{push_decimal, push_signed_decimal, push_str, text_eq, decimal, signed_decimal};

verus! {

/// How a container is attached to the network.
#[derive(Debug, Clone, Copy, PartialEq, Eq, Structural)]
pub enum NetworkMode {
    /// The host's network namespace.
    Host,
    /// A private network namespace with loopback only.
    NoNetwork,
    /// A private network namespace joined to the host by a veth pair and NAT.
    Bridge,
}

/// The name under which a network mode is stored and shown.
pub open spec fn network_mode_name(mode: NetworkMode) -> Seq<char> {
    match mode {
        NetworkMode::Host => "host"@,
        NetworkMode::NoNetwork => "none"@,
        NetworkMode::Bridge => "bridge"@,
    }
}

impl NetworkMode {
    pub fn as_str(self) -> (r: &'static str)
        ensures
            r@ == network_mode_name(self),
    {
        match self {
            NetworkMode::Host => "host",
            NetworkMode::NoNetwork => "none",
            NetworkMode::Bridge => "bridge",
        }
    }
}

/// Why a network step failed.
#[derive(Debug, Clone, PartialEq, Eq)]
pub enum NetworkError {
    /// A stored network mode that names none of the modes.
    InvalidMode(String),
    /// A command ran and reported failure.
    CommandFailed(NetCommand),
    /// A command could not be started at all.
    CommandNotStarted(NetCommand),
}

/// The mode that `value` names, if any (the inverse of `as_str`).
pub open spec fn network_mode_named(value: Seq<char>) -> Option<NetworkMode> {
    if value == "host"@ {
        Some(NetworkMode::Host)
    } else if value == "none"@ {
        Some(NetworkMode::NoNetwork)
    } else if value == "bridge"@ {
        Some(NetworkMode::Bridge)
    } else {
        None
    }
}

/// Every mode reads back from its own name.
pub proof fn lemma_network_mode_name_round_trip(mode: NetworkMode)
    ensures
        network_mode_named(network_mode_name(mode)) == Some(mode),
{
    reveal_strlit("host");
    reveal_strlit("none");
    reveal_strlit("bridge");
    assert("none"@[0] != "host"@[0]);
    assert("bridge"@.len() != "host"@.len());
    assert("bridge"@.len() != "none"@.len());
}

/// Reads a network mode back from its stored name.
pub fn parse_network_mode(value: &str) -> (r: Result<NetworkMode, NetworkError>)
    ensures
        match network_mode_named(value@) {
            Some(mode) => r == Ok::<NetworkMode, NetworkError>(mode),
            None => r matches Err(NetworkError::InvalidMode(v)) && v@ == value@,
        },
{
    if text_eq(value, "host") {
        Ok(NetworkMode::Host)
    } else if text_eq(value, "none") {
        Ok(NetworkMode::NoNetwork)
    } else if text_eq(value, "bridge") {
        Ok(NetworkMode::Bridge)
    } else {
        Err(NetworkError::InvalidMode(crate::text::owned(value)))
    }
}


/// The name of the interface that the container sees.
pub const CONTAINER_IFACE: &'static str = "eth0";

// ---------------------------------------------------------------------------
// Names and addresses
// ---------------------------------------------------------------------------

/// The two ends of a veth pair: one stays on the host, one moves into the
/// container.
#[derive(Debug, Clone, PartialEq, Eq)]
pub struct VethPair {
    pub host_name: String,
    pub peer_name: String,
}

/// The addresses of a container's bridge network.
#[derive(Debug, Clone, PartialEq, Eq)]
pub struct BridgeNetwork {
    pub veth: VethPair,
    pub subnet: String,
    pub host_cidr: String,
    pub container_cidr: String,
    pub gateway: String,
}

/// The third octet of the `10.88.x.0/24` subnet of the container with `pid`:
/// between 20 and 219.
pub open spec fn bridge_octet_of(pid: int) -> int {
    (if pid < 0 {
        -pid
    } else {
        pid
    }) % 200 + 20
}

/// `10.88.<octet>.` followed by `tail`.
pub open spec fn bridge_address(pid: int, tail: Seq<char>) -> Seq<char> {
    "10.88."@ + decimal(bridge_octet_of(pid) as nat) + tail
}

pub fn bridge_octet(pid: i32) -> (r: u8)
    ensures
        r as int == bridge_octet_of(pid as int),
        20 <= r <= 219,
{
    let magnitude: u32 = if pid < 0 {
        (0i64 - (pid as i64)) as u32
    } else {
        pid as u32
    };
    ((magnitude % 200) + 20) as u8
}

impl VethPair {
    pub fn for_pid(pid: i32) -> (r: VethPair)
        ensures
            r.host_name@ == "vethh"@ + signed_decimal(pid as int),
            r.peer_name@ == "vethp"@ + signed_decimal(pid as int),
    {
        let mut host_name = String::new();
        push_str(&mut host_name, "vethh");
        push_signed_decimal(&mut host_name, pid as i64);
        let mut peer_name = String::new();
        push_str(&mut peer_name, "vethp");
        push_signed_decimal(&mut peer_name, pid as i64);
        assert(host_name@ =~= "vethh"@ + signed_decimal(pid as int));
        assert(peer_name@ =~= "vethp"@ + signed_decimal(pid as int));
        VethPair { host_name, peer_name }
    }
}

fn bridge_text(octet: u8, tail: &str) -> (r: String)
    ensures
        r@ == "10.88."@ + decimal(octet as nat) + tail@,
{
    let mut s = String::new();
    push_str(&mut s, "10.88.");
    push_decimal(&mut s, octet as u64);
    push_str(&mut s, tail);
    assert(s@ =~= "10.88."@ + decimal(octet as nat) + tail@);
    s
}

impl BridgeNetwork {
    pub fn for_pid(pid: i32) -> (r: BridgeNetwork)
        ensures
            r.veth.host_name@ == "vethh"@ + signed_decimal(pid as int),
            r.veth.peer_name@ == "vethp"@ + signed_decimal(pid as int),
            r.subnet@ == bridge_address(pid as int, ".0/24"@),
            r.host_cidr@ == bridge_address(pid as int, ".1/24"@),
            r.container_cidr@ == bridge_address(pid as int, ".2/24"@),
            r.gateway@ == bridge_address(pid as int, ".1"@),
    {
        let octet = bridge_octet(pid);
        BridgeNetwork {
            veth: VethPair::for_pid(pid),
            subnet: bridge_text(octet, ".0/24"),
            host_cidr: bridge_text(octet, ".1/24"),
            container_cidr: bridge_text(octet, ".2/24"),
            gateway: bridge_text(octet, ".1"),
        }
    }
}

spec fn ten_pow(k: nat) -> nat
    decreases k,
{
    if k == 0 {
        1
    } else {
        10 * ten_pow((k - 1) as nat)
    }
}

proof fn lemma_decimal_len(n: nat, k: nat)
    requires
        n < ten_pow(k),
        k >= 1,
    ensures
        decimal(n).len() <= k,
    decreases k,
{
    if n >= 10 {
        if k == 1 {
            reveal_with_fuel(ten_pow, 2);
            assert(ten_pow(1) == 10);
        }
        assert(k >= 2);
        assert(ten_pow(k) == 10 * ten_pow((k - 1) as nat));
        assert(n / 10 < ten_pow((k - 1) as nat));
        lemma_decimal_len(n / 10, (k - 1) as nat);
    }
}

/// Interface names on Linux hold at most 15 bytes; the veth names fit for
/// every pid down to -999999999 (the names of more negative pids do not).
pub proof fn lemma_veth_names_fit(pid: int)
    requires
        -999_999_999 <= pid <= 0x7fff_ffff,
    ensures
        ("vethh"@ + signed_decimal(pid)).len() <= 15,
        ("vethp"@ + signed_decimal(pid)).len() <= 15,
{
    reveal_strlit("vethh");
    reveal_strlit("vethp");
    reveal_with_fuel(ten_pow, 11);
    if pid < 0 {
        lemma_decimal_len((-pid) as nat, 9);
    } else {
        lemma_decimal_len(pid as nat, 10);
    }
}

/// The subnet, the two interface addresses and the gateway of a bridge
/// network all lie in one `/24`, with the host at `.1` and the container at
/// `.2`.
pub proof fn lemma_bridge_addresses_share_subnet(pid: int)
    ensures
        20 <= bridge_octet_of(pid) <= 219,
        bridge_address(pid, ".1/24"@) == bridge_address(pid, ".1"@) + "/24"@,
{
    assert(bridge_address(pid, ".1/24"@) =~= bridge_address(pid, ".1"@) + "/24"@) by {
        reveal_strlit(".1/24");
        reveal_strlit(".1");
        reveal_strlit("/24");
        assert(".1/24"@ =~= ".1"@ + "/24"@);
    }
}

// ---------------------------------------------------------------------------
// Commands
// ---------------------------------------------------------------------------

/// A command of a network step: the program (`ip` or `iptables`), its
/// arguments, whether its output is silenced, and whether its failure ends
/// the step.
#[derive(Debug, Clone, PartialEq, Eq)]
pub struct NetCommand {
    pub program: String,
    pub args: Vec<String>,
    pub quiet: bool,
    pub checked: bool,
}

/// How a command that a step asked for ended.
#[derive(Debug, Clone, Copy, PartialEq, Eq, Structural)]
pub enum CommandOutcome {
    Succeeded,
    Failed,
    NotStarted,
}

/// What a network step asks for next.
#[derive(Debug, PartialEq, Eq)]
pub enum NetAction {
    /// Run this command and report how it ended.
    Run(NetCommand),
    /// The step is over, with this result.
    Finish(Result<(), NetworkError>),
}

/// The arguments of a command, as character sequences.
pub open spec fn args_view(args: Seq<String>) -> Seq<Seq<char>> {
    args.map_values(|a: String| a@)
}

/// Whether `c` runs `program` with `args`, silenced or not, checked or not.
pub open spec fn is_command(
    c: NetCommand,
    program: Seq<char>,
    args: Seq<Seq<char>>,
    quiet: bool,
    checked: bool,
) -> bool {
    &&& c.program@ == program
    &&& args_view(c.args@) == args
    &&& c.quiet == quiet
    &&& c.checked == checked
}

fn strings(parts: Vec<&str>) -> (r: Vec<String>)
    ensures
        r@.len() == parts@.len(),
        forall|i: int| 0 <= i < parts@.len() ==> #[trigger] r@[i]@ == parts@[i]@,
{
    let mut r: Vec<String> = Vec::new();
    let mut i: usize = 0;
    while i < parts.len()
        invariant
            i <= parts@.len(),
            r@.len() == i,
            forall|j: int| 0 <= j < i ==> #[trigger] r@[j]@ == parts@[j]@,
        decreases parts@.len() - i,
    {
        r.push(crate::text::owned(parts[i]));
        i += 1;
    }
    r
}

fn command(program: &str, parts: Vec<&str>, quiet: bool, checked: bool) -> (r: NetCommand)
    ensures
        r.program@ == program@,
        args_view(r.args@) == parts@.map_values(|p: &str| p@),
        r.quiet == quiet,
        r.checked == checked,
{
    let args = strings(parts);
    assert(args_view(args@) =~= parts@.map_values(|p: &str| p@));
    NetCommand { program: crate::text::owned(program), args, quiet, checked }
}

/// The next action of a step that runs `commands` in order and ends at the
/// first checked command that does not succeed. `done` commands have run so
/// far; `last` is how the latest of them ended.
pub open spec fn sequence_action(
    commands: Seq<NetCommand>,
    done: int,
    last: Option<CommandOutcome>,
) -> NetAction {
    if 0 < done <= commands.len() && commands[done - 1].checked && last == Some(
        CommandOutcome::Failed,
    ) {
        NetAction::Finish(Err(NetworkError::CommandFailed(commands[done - 1])))
    } else if 0 < done <= commands.len() && commands[done - 1].checked && last == Some(
        CommandOutcome::NotStarted,
    ) {
        NetAction::Finish(Err(NetworkError::CommandNotStarted(commands[done - 1])))
    } else if 0 <= done < commands.len() {
        NetAction::Run(commands[done])
    } else {
        NetAction::Finish(Ok(()))
    }
}

fn sequence_step(commands: Vec<NetCommand>, done: usize, last: Option<CommandOutcome>) -> (r:
    NetAction)
    ensures
        r == sequence_action(commands@, done as int, last),
{
    let mut commands = commands;
    let n = commands.len();
    if 0 < done && done <= n {
        let checked = commands[done - 1].checked;
        if checked {
            match last {
                Some(CommandOutcome::Failed) => {
                    let c = commands.remove(done - 1);
                    return NetAction::Finish(Err(NetworkError::CommandFailed(c)));
                },
                Some(CommandOutcome::NotStarted) => {
                    let c = commands.remove(done - 1);
                    return NetAction::Finish(Err(NetworkError::CommandNotStarted(c)));
                },
                _ => {},
            }
        }
    }
    if done < n {
        let c = commands.remove(done);
        NetAction::Run(c)
    } else {
        NetAction::Finish(Ok(()))
    }
}

/// The commands that bring the loopback interface up.
pub open spec fn loopback_commands(c: Seq<NetCommand>) -> bool {
    &&& c.len() == 1
    &&& is_command(c[0], "ip"@, seq!["link"@, "set"@, "lo"@, "up"@], false, true)
}

fn loopback_command_list() -> (r: Vec<NetCommand>)
    ensures
        loopback_commands(r@),
{
    let mut r = Vec::new();
    let c = command("ip", vec!["link", "set", "lo", "up"], false, true);
    assert(args_view(c.args@) =~= seq!["link"@, "set"@, "lo"@, "up"@]);
    r.push(c);
    r
}

/// The next action in bringing the loopback interface up.
pub fn setup_loopback(done: usize, last: Option<CommandOutcome>) -> (r: NetAction)
    ensures
        exists|c: Seq<NetCommand>| loopback_commands(c) && r == sequence_action(c, done as int, last),
{
    let commands = loopback_command_list();
    let ghost c = commands@;
    sequence_step(commands, done, last)
}

/// The commands that configure the container's end of the veth pair: rename
/// it to `eth0`, give it the container address, bring it up, and route
/// through the host.
pub open spec fn veth_child_commands(network: BridgeNetwork, c: Seq<NetCommand>) -> bool {
    &&& c.len() == 4
    &&& is_command(
        c[0],
        "ip"@,
        seq!["link"@, "set"@, network.veth.peer_name@, "name"@, "eth0"@],
        false,
        true,
    )
    &&& is_command(
        c[1],
        "ip"@,
        seq!["addr"@, "add"@, network.container_cidr@, "dev"@, "eth0"@],
        false,
        true,
    )
    &&& is_command(c[2], "ip"@, seq!["link"@, "set"@, "eth0"@, "up"@], false, true)
    &&& is_command(
        c[3],
        "ip"@,
        seq!["route"@, "add"@, "default"@, "via"@, network.gateway@],
        false,
        true,
    )
}

fn veth_child_command_list(network: &BridgeNetwork) -> (r: Vec<NetCommand>)
    ensures
        veth_child_commands(*network, r@),
{
    let peer = network.veth.peer_name.as_str();
    let cidr = network.container_cidr.as_str();
    let gateway = network.gateway.as_str();
    let c0 = command("ip", vec!["link", "set", peer, "name", CONTAINER_IFACE], false, true);
    assert(args_view(c0.args@) =~= seq!["link"@, "set"@, peer@, "name"@, "eth0"@]);
    let c1 = command("ip", vec!["addr", "add", cidr, "dev", CONTAINER_IFACE], false, true);
    assert(args_view(c1.args@) =~= seq!["addr"@, "add"@, cidr@, "dev"@, "eth0"@]);
    let c2 = command("ip", vec!["link", "set", CONTAINER_IFACE, "up"], false, true);
    assert(args_view(c2.args@) =~= seq!["link"@, "set"@, "eth0"@, "up"@]);
    let c3 = command("ip", vec!["route", "add", "default", "via", gateway], false, true);
    assert(args_view(c3.args@) =~= seq!["route"@, "add"@, "default"@, "via"@, gateway@]);
    let mut r = Vec::new();
    r.push(c0);
    r.push(c1);
    r.push(c2);
    r.push(c3);
    r
}

/// The next action in configuring the container's end of the veth pair.
pub fn setup_veth_child(network: &BridgeNetwork, done: usize, last: Option<CommandOutcome>) -> (r:
    NetAction)
    ensures
        exists|c: Seq<NetCommand>|
            veth_child_commands(*network, c) && r == sequence_action(c, done as int, last),
{
    let commands = veth_child_command_list(network);
    let ghost c = commands@;
    sequence_step(commands, done, last)
}


/// The commands that create the veth pair on the host side: drop a stale
/// host end (whatever happens), create the pair, move the peer into the
/// container's network namespace, address the host end and bring it up.
pub open spec fn veth_parent_commands(child_pid: i32, network: BridgeNetwork, c: Seq<NetCommand>) -> bool {
    let host = network.veth.host_name@;
    let peer = network.veth.peer_name@;
    &&& c.len() == 5
    &&& is_command(c[0], "ip"@, seq!["link"@, "delete"@, host], true, false)
    &&& is_command(
        c[1],
        "ip"@,
        seq!["link"@, "add"@, host, "type"@, "veth"@, "peer"@, "name"@, peer],
        false,
        true,
    )
    &&& is_command(
        c[2],
        "ip"@,
        seq!["link"@, "set"@, peer, "netns"@, signed_decimal(child_pid as int)],
        false,
        true,
    )
    &&& is_command(
        c[3],
        "ip"@,
        seq!["addr"@, "add"@, network.host_cidr@, "dev"@, host],
        false,
        true,
    )
    &&& is_command(c[4], "ip"@, seq!["link"@, "set"@, host, "up"@], false, true)
}

fn veth_parent_command_list(child_pid: i32, network: &BridgeNetwork) -> (r: Vec<NetCommand>)
    ensures
        veth_parent_commands(child_pid, *network, r@),
{
    let host = network.veth.host_name.as_str();
    let peer = network.veth.peer_name.as_str();
    let cidr = network.host_cidr.as_str();
    let mut pid_text = String::new();
    push_signed_decimal(&mut pid_text, child_pid as i64);
    assert(pid_text@ =~= signed_decimal(child_pid as int));
    let pid = pid_text.as_str();
    let c0 = command("ip", vec!["link", "delete", host], true, false);
    assert(args_view(c0.args@) =~= seq!["link"@, "delete"@, host@]);
    let c1 = command("ip", vec!["link", "add", host, "type", "veth", "peer", "name", peer], false, true);
    assert(args_view(c1.args@) =~= seq![
        "link"@,
        "add"@,
        host@,
        "type"@,
        "veth"@,
        "peer"@,
        "name"@,
        peer@,
    ]);
    let c2 = command("ip", vec!["link", "set", peer, "netns", pid], false, true);
    assert(args_view(c2.args@) =~= seq!["link"@, "set"@, peer@, "netns"@, pid@]);
    let c3 = command("ip", vec!["addr", "add", cidr, "dev", host], false, true);
    assert(args_view(c3.args@) =~= seq!["addr"@, "add"@, cidr@, "dev"@, host@]);
    let c4 = command("ip", vec!["link", "set", host, "up"], false, true);
    assert(args_view(c4.args@) =~= seq!["link"@, "set"@, host@, "up"@]);
    let mut r = Vec::new();
    r.push(c0);
    r.push(c1);
    r.push(c2);
    r.push(c3);
    r.push(c4);
    r
}

/// The next action in creating the host side of the veth pair for the
/// container process `child_pid`.
pub fn setup_veth_parent(
    child_pid: i32,
    network: &BridgeNetwork,
    done: usize,
    last: Option<CommandOutcome>,
) -> (r: NetAction)
    ensures
        exists|c: Seq<NetCommand>|
            veth_parent_commands(child_pid, *network, c) && r == sequence_action(c, done as int, last),
{
    let commands = veth_parent_command_list(child_pid, network);
    let ghost c = commands@;
    sequence_step(commands, done, last)
}

/// The arguments of the NAT rule for `subnet`, with `op` (`-A` to append,
/// `-D` to delete).
pub open spec fn nat_rule_args(op: Seq<char>, subnet: Seq<char>) -> Seq<Seq<char>> {
    seq!["-t"@, "nat"@, op, "POSTROUTING"@, "-s"@, subnet, "-j"@, "MASQUERADE"@]
}

fn nat_rule_command(op: &str, subnet: &str, quiet: bool, checked: bool) -> (r: NetCommand)
    ensures
        is_command(r, "iptables"@, nat_rule_args(op@, subnet@), quiet, checked),
{
    let c = command(
        "iptables",
        vec!["-t", "nat", op, "POSTROUTING", "-s", subnet, "-j", "MASQUERADE"],
        quiet,
        checked,
    );
    assert(args_view(c.args@) =~= nat_rule_args(op@, subnet@));
    c
}

/// The commands that set up NAT for `subnet` once forwarding is on: drop a
/// stale rule (whatever happens), append the masquerading rule, accept
/// forwarded traffic.
pub open spec fn nat_commands(subnet: Seq<char>, c: Seq<NetCommand>) -> bool {
    &&& c.len() == 3
    &&& is_command(c[0], "iptables"@, nat_rule_args("-D"@, subnet), true, false)
    &&& is_command(c[1], "iptables"@, nat_rule_args("-A"@, subnet), false, true)
    &&& is_command(c[2], "iptables"@, seq!["-P"@, "FORWARD"@, "ACCEPT"@], false, true)
}

/// The next action in setting up NAT for `subnet` (after IPv4 forwarding has
/// been turned on).
pub fn setup_nat(subnet: &str, done: usize, last: Option<CommandOutcome>) -> (r: NetAction)
    ensures
        exists|c: Seq<NetCommand>| nat_commands(subnet@, c) && r == sequence_action(c, done as int, last),
{
    let c0 = nat_rule_command("-D", subnet, true, false);
    let c1 = nat_rule_command("-A", subnet, false, true);
    let c2 = command("iptables", vec!["-P", "FORWARD", "ACCEPT"], false, true);
    assert(args_view(c2.args@) =~= seq!["-P"@, "FORWARD"@, "ACCEPT"@]);
    let mut commands = Vec::new();
    commands.push(c0);
    commands.push(c1);
    commands.push(c2);
    let ghost c = commands@;
    sequence_step(commands, done, last)
}

/// The next action in removing NAT for `subnet`: delete its rule again and
/// again until deleting fails, then stop with success.
pub fn cleanup_nat(subnet: &str, last: Option<CommandOutcome>) -> (r: NetAction)
    ensures
        match last {
            None | Some(CommandOutcome::Succeeded) => r matches NetAction::Run(c) && is_command(
                c,
                "iptables"@,
                nat_rule_args("-D"@, subnet@),
                true,
                false,
            ),
            _ => r == NetAction::Finish(Ok(())),
        },
{
    match last {
        None | Some(CommandOutcome::Succeeded) => NetAction::Run(
            nat_rule_command("-D", subnet, true, false),
        ),
        _ => NetAction::Finish(Ok(())),
    }
}

/// The next action in removing the host end `host_name` of a veth pair: if
/// `ip link show` finds it, delete it, and the deletion decides the result;
/// if not, there is nothing to do.
pub fn cleanup_veth_host(host_name: &str, done: usize, last: Option<CommandOutcome>) -> (r: NetAction)
    ensures
        done == 0 ==> (r matches NetAction::Run(c) && is_command(
            c,
            "ip"@,
            seq!["link"@, "show"@, host_name@],
            true,
            true,
        )),
        done == 1 && last == Some(CommandOutcome::Succeeded) ==> (r matches NetAction::Run(c)
            && is_command(c, "ip"@, seq!["link"@, "delete"@, host_name@], true, true)),
        done == 1 && last != Some(CommandOutcome::Succeeded) ==> r == NetAction::Finish(Ok(())),
        done >= 2 && last == Some(CommandOutcome::Failed) ==> (r matches NetAction::Finish(
            Err(NetworkError::CommandFailed(c)),
        ) && is_command(c, "ip"@, seq!["link"@, "delete"@, host_name@], true, true)),
        done >= 2 && last == Some(CommandOutcome::NotStarted) ==> (r matches NetAction::Finish(
            Err(NetworkError::CommandNotStarted(c)),
        ) && is_command(c, "ip"@, seq!["link"@, "delete"@, host_name@], true, true)),
        done >= 2 && (last == Some(CommandOutcome::Succeeded) || last is None) ==> r
            == NetAction::Finish(Ok(())),
{
    if done == 0 {
        let c = command("ip", vec!["link", "show", host_name], true, true);
        assert(args_view(c.args@) =~= seq!["link"@, "show"@, host_name@]);
        return NetAction::Run(c);
    }
    let delete = command("ip", vec!["link", "delete", host_name], true, true);
    assert(args_view(delete.args@) =~= seq!["link"@, "delete"@, host_name@]);
    if done == 1 {
        match last {
            Some(CommandOutcome::Succeeded) => NetAction::Run(delete),
            _ => NetAction::Finish(Ok(())),
        }
    } else {
        match last {
            Some(CommandOutcome::Failed) => NetAction::Finish(
                Err(NetworkError::CommandFailed(delete)),
            ),
            Some(CommandOutcome::NotStarted) => NetAction::Finish(
                Err(NetworkError::CommandNotStarted(delete)),
            ),
            _ => NetAction::Finish(Ok(())),
        }
    }
}

// ---------------------------------------------------------------------------
// Messages
// ---------------------------------------------------------------------------

/// The words of `args` joined by single spaces.
pub open spec fn join_words(args: Seq<Seq<char>>) -> Seq<char>
    decreases args.len(),
{
    if args.len() == 0 {
        Seq::empty()
    } else if args.len() == 1 {
        args[0]
    } else {
        join_words(args.drop_last()) + " "@ + args.last()
    }
}

/// The text of a network error.
pub open spec fn network_error_text(e: NetworkError) -> Seq<char> {
    match e {
        NetworkError::InvalidMode(v) => "invalid network mode in state: "@ + v@,
        NetworkError::CommandFailed(c) => c.program@ + " command failed: "@ + join_words(
            args_view(c.args@),
        ),
        NetworkError::CommandNotStarted(c) => "failed to execute "@ + c.program@ + " "@
            + join_words(args_view(c.args@)),
    }
}

fn push_joined(s: &mut String, args: &Vec<String>)
    ensures
        final(s)@ == old(s)@ + join_words(args_view(args@)),
{
    let ghost start = s@;
    let mut i: usize = 0;
    while i < args.len()
        invariant
            i <= args@.len(),
            s@ == start + join_words(args_view(args@).subrange(0, i as int)),
        decreases args@.len() - i,
    {
        let ghost before = s@;
        if i > 0 {
            push_str(s, " ");
        }
        push_str(s, args[i].as_str());
        proof {
            let w = args_view(args@).subrange(0, i + 1);
            assert(w.drop_last() =~= args_view(args@).subrange(0, i as int));
            assert(w.last() == args@[i as int]@);
            if i == 0 {
                assert(w.len() == 1);
                assert(args_view(args@).subrange(0, 0) =~= Seq::<Seq<char>>::empty());
            }
            assert(s@ =~= start + join_words(w));
        }
        i += 1;
    }
    assert(args_view(args@).subrange(0, i as int) =~= args_view(args@));
}

impl NetworkError {
    /// The text that the runtime shows for this error.
    pub fn message(&self) -> (r: String)
        ensures
            r@ == network_error_text(*self),
    {
        let mut s = String::new();
        match self {
            NetworkError::InvalidMode(v) => {
                push_str(&mut s, "invalid network mode in state: ");
                push_str(&mut s, v.as_str());
            },
            NetworkError::CommandFailed(c) => {
                push_str(&mut s, c.program.as_str());
                push_str(&mut s, " command failed: ");
                push_joined(&mut s, &c.args);
            },
            NetworkError::CommandNotStarted(c) => {
                push_str(&mut s, "failed to execute ");
                push_str(&mut s, c.program.as_str());
                push_str(&mut s, " ");
                push_joined(&mut s, &c.args);
            },
        }
        assert(s@ =~= network_error_text(*self));
        s
    }
}

} // verus!
