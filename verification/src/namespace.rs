//! Linux namespaces: from the names in a configuration to clone flags.
use vstd::prelude::*;

use crate::network::NetworkMode;
use crate::text::text_eq;

verus! {

/// nix's `CloneFlags::CLONE_NEWNS` (libc `CLONE_NEWNS`), a new mount namespace:
/// `0x20000`.
#[verifier::external_body]
fn clone_newns() -> (r: i32)
    ensures
        r == 0x20000,
{
    nix::sched::CloneFlags::CLONE_NEWNS.bits()
}

/// nix's `CloneFlags::CLONE_NEWUTS` (libc `CLONE_NEWUTS`): `0x0400_0000`.
#[verifier::external_body]
fn clone_newuts() -> (r: i32)
    ensures
        r == 0x0400_0000,
{
    nix::sched::CloneFlags::CLONE_NEWUTS.bits()
}

/// nix's `CloneFlags::CLONE_NEWIPC` (libc `CLONE_NEWIPC`): `0x0800_0000`.
#[verifier::external_body]
fn clone_newipc() -> (r: i32)
    ensures
        r == 0x0800_0000,
{
    nix::sched::CloneFlags::CLONE_NEWIPC.bits()
}

/// nix's `CloneFlags::CLONE_NEWUSER` (libc `CLONE_NEWUSER`): `0x1000_0000`.
#[verifier::external_body]
fn clone_newuser() -> (r: i32)
    ensures
        r == 0x1000_0000,
{
    nix::sched::CloneFlags::CLONE_NEWUSER.bits()
}

/// nix's `CloneFlags::CLONE_NEWPID` (libc `CLONE_NEWPID`): `0x2000_0000`.
#[verifier::external_body]
fn clone_newpid() -> (r: i32)
    ensures
        r == 0x2000_0000,
{
    nix::sched::CloneFlags::CLONE_NEWPID.bits()
}

/// nix's `CloneFlags::CLONE_NEWNET` (libc `CLONE_NEWNET`): `0x4000_0000`.
#[verifier::external_body]
fn clone_newnet() -> (r: i32)
    ensures
        r == 0x4000_0000,
{
    nix::sched::CloneFlags::CLONE_NEWNET.bits()
}

/// The bit of `CLONE_NEWNS`.
pub open spec fn newns_bit() -> i32 {
    0x20000
}

/// The bit of `CLONE_NEWUTS`.
pub open spec fn newuts_bit() -> i32 {
    0x0400_0000
}

/// The bit of `CLONE_NEWIPC`.
pub open spec fn newipc_bit() -> i32 {
    0x0800_0000
}

/// The bit of `CLONE_NEWUSER`.
pub open spec fn newuser_bit() -> i32 {
    0x1000_0000
}

/// The bit of `CLONE_NEWPID`.
pub open spec fn newpid_bit() -> i32 {
    0x2000_0000
}

/// The bit of `CLONE_NEWNET`.
pub open spec fn newnet_bit() -> i32 {
    0x4000_0000
}

/// A set of clone flags, held as the bits that `clone(2)` and `unshare(2)`
/// take.
#[derive(Debug, Clone, Copy, PartialEq, Eq, Structural)]
pub struct NamespaceFlags {
    bits: i32,
}

impl View for NamespaceFlags {
    type V = i32;

    closed spec fn view(&self) -> i32 {
        self.bits
    }
}

impl NamespaceFlags {
    /// No flags.
    pub fn empty() -> (r: NamespaceFlags)
        ensures
            r@ == 0,
    {
        NamespaceFlags { bits: 0 }
    }

    /// The flags whose bits are `bits`.
    pub fn from_bits(bits: i32) -> (r: NamespaceFlags)
        ensures
            r@ == bits,
    {
        NamespaceFlags { bits }
    }

    /// The bits of these flags.
    pub fn bits(&self) -> (r: i32)
        ensures
            r == self@,
    {
        self.bits
    }

    /// A new mount namespace.
    pub fn mount() -> (r: NamespaceFlags)
        ensures
            r@ == newns_bit(),
    {
        NamespaceFlags { bits: clone_newns() }
    }

    /// A new UTS namespace.
    pub fn uts() -> (r: NamespaceFlags)
        ensures
            r@ == newuts_bit(),
    {
        NamespaceFlags { bits: clone_newuts() }
    }

    /// A new IPC namespace.
    pub fn ipc() -> (r: NamespaceFlags)
        ensures
            r@ == newipc_bit(),
    {
        NamespaceFlags { bits: clone_newipc() }
    }

    /// A new user namespace.
    pub fn user() -> (r: NamespaceFlags)
        ensures
            r@ == newuser_bit(),
    {
        NamespaceFlags { bits: clone_newuser() }
    }

    /// A new PID namespace.
    pub fn pid() -> (r: NamespaceFlags)
        ensures
            r@ == newpid_bit(),
    {
        NamespaceFlags { bits: clone_newpid() }
    }

    /// A new network namespace.
    pub fn network() -> (r: NamespaceFlags)
        ensures
            r@ == newnet_bit(),
    {
        NamespaceFlags { bits: clone_newnet() }
    }

    /// Whether every flag of `other` is among these.
    pub fn contains(&self, other: NamespaceFlags) -> (r: bool)
        ensures
            r == (self@ & other@ == other@),
    {
        self.bits & other.bits == other.bits
    }

    /// Whether there is no flag at all.
    pub fn is_empty(&self) -> (r: bool)
        ensures
            r == (self@ == 0),
    {
        self.bits == 0
    }

    /// Adds the flags of `other`.
    pub fn insert(&mut self, other: NamespaceFlags)
        ensures
            final(self)@ == old(self)@ | other@,
    {
        self.bits = self.bits | other.bits;
    }

    /// Takes the flags of `other` away.
    pub fn remove(&mut self, other: NamespaceFlags)
        ensures
            final(self)@ == old(self)@ & !other@,
    {
        self.bits = self.bits & !other.bits;
    }

    /// The flags in both sets.
    pub fn intersection(&self, other: NamespaceFlags) -> (r: NamespaceFlags)
        ensures
            r@ == self@ & other@,
    {
        NamespaceFlags { bits: self.bits & other.bits }
    }
}

/// The flag that a namespace name in a configuration asks for; names that the
/// runtime does not know ask for none.
pub open spec fn namespace_bit(name: Seq<char>) -> i32 {
    if name == "pid"@ {
        newpid_bit()
    } else if name == "mount"@ {
        newns_bit()
    } else if name == "uts"@ {
        newuts_bit()
    } else if name == "ipc"@ {
        newipc_bit()
    } else if name == "network"@ {
        newnet_bit()
    } else if name == "user"@ {
        newuser_bit()
    } else {
        0
    }
}

/// The flags that a list of namespace names asks for.
pub open spec fn namespace_bits(names: Seq<Seq<char>>) -> i32
    decreases names.len(),
{
    if names.len() == 0 {
        0
    } else {
        namespace_bits(names.drop_last()) | namespace_bit(names.last())
    }
}

/// The names of a list of strings, as character sequences.
pub open spec fn names_view(names: Seq<String>) -> Seq<Seq<char>> {
    names.map_values(|s: String| s@)
}

/// The clone flags for the namespaces that `namespaces` names.
pub fn namespace_flags(namespaces: &[String]) -> (r: NamespaceFlags)
    ensures
        r@ == namespace_bits(names_view(namespaces@)),
{
    let mut flags = NamespaceFlags::empty();
    let mut i: usize = 0;
    while i < namespaces.len()
        invariant
            i <= namespaces@.len(),
            flags@ == namespace_bits(names_view(namespaces@).subrange(0, i as int)),
        decreases namespaces@.len() - i,
    {
        let namespace = namespaces[i].as_str();
        if text_eq(namespace, "pid") {
            flags.insert(NamespaceFlags::pid());
        } else if text_eq(namespace, "mount") {
            flags.insert(NamespaceFlags::mount());
        } else if text_eq(namespace, "uts") {
            flags.insert(NamespaceFlags::uts());
        } else if text_eq(namespace, "ipc") {
            flags.insert(NamespaceFlags::ipc());
        } else if text_eq(namespace, "network") {
            flags.insert(NamespaceFlags::network());
        } else if text_eq(namespace, "user") {
            flags.insert(NamespaceFlags::user());
        } else {
            let ghost b = flags@;
            assert(b | 0 == b) by (bit_vector);
        }
        proof {
            let s = names_view(namespaces@).subrange(0, i + 1);
            assert(s.drop_last() =~= names_view(namespaces@).subrange(0, i as int));
            assert(s.last() == namespaces@[i as int]@);
        }
        i += 1;
    }
    assert(names_view(namespaces@).subrange(0, i as int) =~= names_view(namespaces@));
    flags
}

/// The flags after the network mode has had its say: the host mode shares the
/// host's network namespace, the others get one of their own.
pub open spec fn with_network_mode(bits: i32, mode: NetworkMode) -> i32 {
    match mode {
        NetworkMode::Host => bits & !newnet_bit(),
        _ => bits | newnet_bit(),
    }
}

/// Applies the network mode to the clone flags.
pub fn apply_network_mode(flags: NamespaceFlags, network_mode: NetworkMode) -> (r: NamespaceFlags)
    ensures
        r@ == with_network_mode(flags@, network_mode),
{
    let mut flags = flags;
    match network_mode {
        NetworkMode::Host => flags.remove(NamespaceFlags::network()),
        NetworkMode::NoNetwork | NetworkMode::Bridge => flags.insert(NamespaceFlags::network()),
    }
    flags
}

/// The flags split between the two processes that set a container up: the
/// parent unshares the PID namespace (so that its child is born in it), the
/// child unshares every other namespace.
pub fn split_pid_namespace(flags: NamespaceFlags) -> (r: (NamespaceFlags, NamespaceFlags))
    ensures
        r.0@ == flags@ & newpid_bit(),
        r.1@ == flags@ & !newpid_bit(),
{
    let parent = flags.intersection(NamespaceFlags::pid());
    let mut child = flags;
    child.remove(NamespaceFlags::pid());
    (parent, child)
}


/// The namespaces of a concatenated list are those of its two parts.
pub proof fn lemma_namespace_bits_concat(a: Seq<Seq<char>>, b: Seq<Seq<char>>)
    ensures
        namespace_bits(a + b) == namespace_bits(a) | namespace_bits(b),
    decreases b.len(),
{
    if b.len() == 0 {
        assert(a + b =~= a);
        let x = namespace_bits(a);
        assert(x | 0 == x) by (bit_vector);
    } else {
        lemma_namespace_bits_concat(a, b.drop_last());
        assert((a + b).drop_last() =~= a + b.drop_last());
        assert((a + b).last() == b.last());
        let x = namespace_bits(a);
        let y = namespace_bits(b.drop_last());
        let z = namespace_bit(b.last());
        assert((x | y) | z == x | (y | z)) by (bit_vector);
    }
}

proof fn lemma_supported_bit_meets(x: i32, b: i32)
    requires
        x == 0 || x == newpid_bit() || x == newns_bit() || x == newuts_bit() || x == newipc_bit() || x == newnet_bit()
            || x == newuser_bit(),
        b == newpid_bit() || b == newns_bit() || b == newuts_bit() || b == newipc_bit() || b == newnet_bit() || b
            == newuser_bit(),
    ensures
        (x & b != 0) == (x == b),
{
    assert(0i32 & 0x2000_0000i32 == 0) by (bit_vector);
    assert(0i32 & 0x20000i32 == 0) by (bit_vector);
    assert(0i32 & 0x0400_0000i32 == 0) by (bit_vector);
    assert(0i32 & 0x0800_0000i32 == 0) by (bit_vector);
    assert(0i32 & 0x4000_0000i32 == 0) by (bit_vector);
    assert(0i32 & 0x1000_0000i32 == 0) by (bit_vector);
    assert(forall|p: i32, q: i32|
        (p == 0x2000_0000i32 || p == 0x20000i32 || p == 0x0400_0000i32 || p == 0x0800_0000i32 || p
            == 0x4000_0000i32 || p == 0x1000_0000i32) && (q == 0x2000_0000i32 || q == 0x20000i32
            || q == 0x0400_0000i32 || q == 0x0800_0000i32 || q == 0x4000_0000i32 || q
            == 0x1000_0000i32) ==> ((p & q != 0) == (p == q))) by (bit_vector);
}

/// A supported namespace is among the flags exactly when the list names it;
/// names that the runtime does not know add nothing.
pub proof fn lemma_namespace_bits_membership(names: Seq<Seq<char>>, name: Seq<char>)
    requires
        namespace_bit(name) != 0,
    ensures
        (namespace_bits(names) & namespace_bit(name) != 0) == names.contains(name),
    decreases names.len(),
{
    let b = namespace_bit(name);
    if names.len() == 0 {
        assert(0i32 & b == 0) by (bit_vector);
    } else {
        let prefix = names.drop_last();
        let last = names.last();
        lemma_namespace_bits_membership(prefix, name);
        let x = namespace_bits(prefix);
        let y = namespace_bit(last);
        assert(((x | y) & b != 0) == ((x & b != 0) || (y & b != 0))) by (bit_vector);
        lemma_supported_bit_meets(y, b);
        if prefix.contains(name) {
            let i = choose|i: int| 0 <= i < prefix.len() && prefix[i] == name;
            assert(names[i] == name);
        }
        if names.contains(name) {
            let i = choose|i: int| 0 <= i < names.len() && names[i] == name;
            if i < names.len() - 1 {
                assert(prefix[i] == name);
            }
        }
        assert(names[names.len() - 1] == last);
    }
}

/// The network mode decides the network namespace flag and leaves every
/// other flag as it was.
pub proof fn lemma_network_mode_only_touches_network(bits: i32, mode: NetworkMode)
    ensures
        with_network_mode(bits, mode) & !newnet_bit() == bits & !newnet_bit(),
        (with_network_mode(bits, mode) & newnet_bit() != 0) == (mode != NetworkMode::Host),
{
    assert((bits & !0x4000_0000i32) & !0x4000_0000i32 == bits & !0x4000_0000i32) by (bit_vector);
    assert((bits | 0x4000_0000i32) & !0x4000_0000i32 == bits & !0x4000_0000i32) by (bit_vector);
    assert((bits & !0x4000_0000i32) & 0x4000_0000i32 == 0) by (bit_vector);
    assert((bits | 0x4000_0000i32) & 0x4000_0000i32 != 0) by (bit_vector);
}

/// Splitting the flags between parent and child loses none and gives none
/// to both.
pub proof fn lemma_split_pid_namespace(bits: i32)
    ensures
        (bits & newpid_bit()) | (bits & !newpid_bit()) == bits,
        (bits & newpid_bit()) & (bits & !newpid_bit()) == 0,
{
    assert((bits & 0x2000_0000i32) | (bits & !0x2000_0000i32) == bits) by (bit_vector);
    assert((bits & 0x2000_0000i32) & (bits & !0x2000_0000i32) == 0) by (bit_vector);
}

} // verus!
