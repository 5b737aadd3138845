//! cgroups v2: where a container's cgroup lives, the limits written into it,
//! and the statistics read back out of it.
use vstd::prelude::*;

use crate::state::path_join;
use crate::text::{
    chars_of, decimal, lemma_token_prefix_at, lemma_trim_start_at, parse_u64_chars,
    parse_u64_spec, push_decimal, push_signed_decimal, push_str, signed_decimal, skip_space,
    skip_word, token_prefix, trim, trim_bounds, trim_start,
};

verus! {

/// The cgroup under which every container's cgroup is made.
pub const CGROUP_ROOT: &'static str = "/sys/fs/cgroup/container-runtime";

/// The controllers that the runtime enables for the containers' cgroups.
pub const SUBTREE_CONTROLLERS: &'static str = "+memory +cpu +pids";

/// The CPU period, in microseconds, used when a quota comes without one.
pub const DEFAULT_CPU_PERIOD: u64 = 100_000;

/// The resource limits of a container.
#[derive(Debug, Clone, Copy, PartialEq, Eq, Structural)]
pub struct CgroupConfig {
    /// The memory limit in bytes.
    pub memory_limit: Option<i64>,
    /// The CPU time, in microseconds, allowed per period.
    pub cpu_quota: Option<i64>,
    /// The CPU period in microseconds.
    pub cpu_period: Option<u64>,
}

/// A container's cgroup.
#[derive(Debug)]
pub struct Cgroup {
    path: String,
}

impl View for Cgroup {
    type V = Seq<char>;

    closed spec fn view(&self) -> Seq<char> {
        self.path@
    }
}

/// A file of a cgroup and the text to write into it.
#[derive(Debug, Clone, PartialEq, Eq)]
pub struct CgroupWrite {
    pub file: String,
    pub content: String,
}

/// Why the limits could not be applied.
#[derive(Debug, Clone, Copy, PartialEq, Eq, Structural)]
pub enum CgroupError {
    /// The memory limit is zero or negative.
    MemoryLimitNotPositive(i64),
}

/// The text of a cgroup error.
pub open spec fn cgroup_error_text(e: CgroupError) -> Seq<char> {
    match e {
        CgroupError::MemoryLimitNotPositive(v) => "memory_limit must > 0, got "@ + signed_decimal(
            v as int,
        ),
    }
}

impl CgroupError {
    /// The text that the runtime shows for this error.
    pub fn message(&self) -> (r: String)
        ensures
            r@ == cgroup_error_text(*self),
    {
        let mut s = String::new();
        match self {
            CgroupError::MemoryLimitNotPositive(v) => {
                push_str(&mut s, "memory_limit must > 0, got ");
                push_signed_decimal(&mut s, *v);
            },
        }
        assert(s@ =~= cgroup_error_text(*self));
        s
    }
}

/// The contents of `cpu.max` for a quota and a period.
pub open spec fn cpu_max_text(quota: i64, period: u64) -> Seq<char> {
    signed_decimal(quota as int) + " "@ + decimal(period as nat)
}

/// The files that the limits of `config` are written to, with their
/// contents, in order: `memory.max`, then `cpu.max`.
pub open spec fn limit_writes_view(config: CgroupConfig) -> Seq<(Seq<char>, Seq<char>)> {
    let memory = match config.memory_limit {
        Some(limit) => seq![("memory.max"@, signed_decimal(limit as int))],
        None => Seq::empty(),
    };
    let cpu = match config.cpu_quota {
        Some(quota) => seq![
            ("cpu.max"@, cpu_max_text(
                quota,
                match config.cpu_period {
                    Some(p) => p,
                    None => 100_000u64,
                },
            )),
        ],
        None => Seq::empty(),
    };
    memory + cpu
}

/// A list of writes as pairs of character sequences.
pub open spec fn writes_view(w: Seq<CgroupWrite>) -> Seq<(Seq<char>, Seq<char>)> {
    w.map_values(|x: CgroupWrite| (x.file@, x.content@))
}

impl Cgroup {
    /// The cgroup of container `id`, under `CGROUP_ROOT`.
    pub fn for_id(id: &str) -> (r: Cgroup)
        ensures
            r@ == path_join(CGROUP_ROOT@, id@),
    {
        Cgroup { path: crate::state::join_path(CGROUP_ROOT, id) }
    }

    /// The cgroup's directory.
    pub fn path(&self) -> (r: &str)
        ensures
            r@ == self@,
    {
        self.path.as_str()
    }

    /// The files to write the limits of `config` into. A memory limit must
    /// be positive; a CPU quota without a period gets a period of 100000
    /// microseconds.
    pub fn limit_writes(config: &CgroupConfig) -> (r: Result<Vec<CgroupWrite>, CgroupError>)
        ensures
            match config.memory_limit {
                Some(limit) if limit <= 0 => r == Err::<Vec<CgroupWrite>, CgroupError>(
                    CgroupError::MemoryLimitNotPositive(limit),
                ),
                _ => r matches Ok(w) && writes_view(w@) == limit_writes_view(*config),
            },
    {
        let mut writes: Vec<CgroupWrite> = Vec::new();
        if let Some(limit) = config.memory_limit {
            if limit <= 0 {
                return Err(CgroupError::MemoryLimitNotPositive(limit));
            }
            let mut content = String::new();
            push_signed_decimal(&mut content, limit);
            assert(content@ =~= signed_decimal(limit as int));
            writes.push(CgroupWrite { file: crate::text::owned("memory.max"), content });
        }
        if let Some(quota) = config.cpu_quota {
            let period = match config.cpu_period {
                Some(p) => p,
                None => DEFAULT_CPU_PERIOD,
            };
            let mut content = String::new();
            push_signed_decimal(&mut content, quota);
            push_str(&mut content, " ");
            push_decimal(&mut content, period);
            assert(content@ =~= cpu_max_text(quota, period));
            writes.push(CgroupWrite { file: crate::text::owned("cpu.max"), content });
        }
        assert(writes_view(writes@) =~= limit_writes_view(*config));
        Ok(writes)
    }
}

/// The name of the cgroup of the container whose process is `pid`.
pub fn cgroup_name_for_pid(pid: i32) -> (r: String)
    ensures
        r@ == "crun-"@ + signed_decimal(pid as int),
{
    let mut s = String::new();
    push_str(&mut s, "crun-");
    push_signed_decimal(&mut s, pid as i64);
    assert(s@ =~= "crun-"@ + signed_decimal(pid as int));
    s
}

/// Whether the contents of `cgroup.procs` list no process (blank text).
pub fn procs_empty(procs: &str) -> (r: bool)
    ensures
        r == (trim(procs@).len() == 0),
{
    proof {
        crate::text::lemma_blank_iff_trim_empty(procs@);
    }
    crate::text::is_blank(procs)
}

// ---------------------------------------------------------------------------
// Statistics
// ---------------------------------------------------------------------------

/// The statistics of a container's cgroup.
#[derive(Debug, Clone, PartialEq, Eq)]
pub struct CgroupStats {
    pub path: String,
    pub memory_current: Option<u64>,
    pub memory_max: Option<String>,
    pub cpu_usage_usec: Option<u64>,
    pub cpu_user_usec: Option<u64>,
    pub cpu_system_usec: Option<u64>,
    pub pids_current: Option<u64>,
    pub pids_max: Option<String>,
}

/// The position of the first newline of `s`, or its length.
pub open spec fn newline_index(s: Seq<char>) -> int
    decreases s.len(),
{
    if s.len() == 0 {
        0
    } else if s[0] == '\n' {
        0
    } else {
        1 + newline_index(s.drop_first())
    }
}

/// The lines of `s`: the pieces between newlines (the last may be empty).
pub open spec fn lines_of(s: Seq<char>) -> Seq<Seq<char>>
    decreases s.len(),
{
    let k = newline_index(s);
    if 0 <= k < s.len() {
        seq![s.subrange(0, k)] + lines_of(s.subrange(k + 1, s.len() as int))
    } else {
        seq![s]
    }
}

/// The value of `key` on one line of `key value` pairs: the second word
/// parsed as a number, when the first word is `key`.
pub open spec fn line_value(line: Seq<char>, key: Seq<char>) -> Option<u64> {
    let t = trim_start(line);
    let k = token_prefix(t);
    let rest = trim_start(t.subrange(k.len() as int, t.len() as int));
    if t.len() > 0 && rest.len() > 0 && k == key {
        parse_u64_spec(token_prefix(rest))
    } else {
        None
    }
}

/// `x`, or `fallback` when `x` is nothing.
pub open spec fn or_else(x: Option<u64>, fallback: Option<u64>) -> Option<u64> {
    match x {
        Some(_) => x,
        None => fallback,
    }
}

/// The value of `key` in lines of `key value` pairs: that of the last line
/// that gives one.
pub open spec fn keyed_value(lines: Seq<Seq<char>>, key: Seq<char>) -> Option<u64>
    decreases lines.len(),
{
    if lines.len() == 0 {
        None
    } else {
        or_else(keyed_value(lines.drop_first(), key), line_value(lines[0], key))
    }
}

/// What a file of `key value` lines (such as `cpu.stat`) gives for `key`.
pub open spec fn keyed_u64_spec(content: Seq<char>, key: Seq<char>) -> Option<u64> {
    keyed_value(lines_of(content), key)
}

proof fn lemma_newline_index_at(s: Seq<char>, i: int)
    requires
        0 <= i <= s.len(),
        forall|j: int| 0 <= j < i ==> #[trigger] s[j] != '\n',
        i == s.len() || s[i] == '\n',
    ensures
        newline_index(s) == i,
    decreases i,
{
    if i > 0 {
        let t = s.drop_first();
        assert forall|j: int| 0 <= j < i - 1 implies #[trigger] t[j] != '\n' by {
            assert(t[j] == s[j + 1]);
        }
        if i < s.len() {
            assert(t[i - 1] == s[i]);
        }
        lemma_newline_index_at(t, i - 1);
    }
}

fn slice_equals(v: &Vec<char>, from: usize, to: usize, w: &Vec<char>) -> (r: bool)
    requires
        from <= to <= v@.len(),
    ensures
        r == (v@.subrange(from as int, to as int) == w@),
{
    if to - from != w.len() {
        return false;
    }
    let mut i: usize = 0;
    while i < w.len()
        invariant
            from + w@.len() == to <= v@.len(),
            i <= w@.len(),
            forall|j: int| 0 <= j < i ==> v@[from + j] == w@[j],
        decreases w@.len() - i,
    {
        if v[from + i] != w[i] {
            assert(v@.subrange(from as int, to as int)[i as int] != w@[i as int]);
            return false;
        }
        i += 1;
    }
    assert(v@.subrange(from as int, to as int) =~= w@);
    true
}

/// `line_value` of the line `v[from..to]`.
fn line_value_at(v: &Vec<char>, from: usize, to: usize, key: &Vec<char>) -> (r: Option<u64>)
    requires
        from <= to <= v@.len(),
    ensures
        r == line_value(v@.subrange(from as int, to as int), key@),
{
    let ghost line = v@.subrange(from as int, to as int);
    let a = skip_space(v, from, to);
    proof {
        assert forall|j: int| 0 <= j < a - from implies crate::text::is_ws(#[trigger] line[j]) by {
            assert(line[j] == v@[from + j]);
        }
        lemma_trim_start_at(line, a - from);
        assert(line.subrange(a - from, line.len() as int) =~= v@.subrange(a as int, to as int));
    }
    let ghost t = v@.subrange(a as int, to as int);
    if a == to {
        return None;
    }
    let b = skip_word(v, a, to);
    proof {
        assert forall|j: int| 0 <= j < b - a implies !crate::text::is_ws(#[trigger] t[j]) by {
            assert(t[j] == v@[a + j]);
        }
        if b < to {
            assert(t[b - a] == v@[b as int]);
        }
        lemma_token_prefix_at(t, b - a);
        assert(t.subrange(0, b - a) =~= v@.subrange(a as int, b as int));
        assert(t.subrange(b - a, t.len() as int) =~= v@.subrange(b as int, to as int));
    }
    let ghost after = v@.subrange(b as int, to as int);
    let c = skip_space(v, b, to);
    proof {
        assert forall|j: int| 0 <= j < c - b implies crate::text::is_ws(#[trigger] after[j]) by {
            assert(after[j] == v@[b + j]);
        }
        if c < to {
            assert(after[c - b] == v@[c as int]);
        }
        lemma_trim_start_at(after, c - b);
        assert(after.subrange(c - b, after.len() as int) =~= v@.subrange(c as int, to as int));
    }
    let ghost rest = v@.subrange(c as int, to as int);
    if c == to {
        return None;
    }
    if !slice_equals(v, a, b, key) {
        return None;
    }
    let d = skip_word(v, c, to);
    proof {
        assert forall|j: int| 0 <= j < d - c implies !crate::text::is_ws(#[trigger] rest[j]) by {
            assert(rest[j] == v@[c + j]);
        }
        if d < to {
            assert(rest[d - c] == v@[d as int]);
        }
        lemma_token_prefix_at(rest, d - c);
        assert(rest.subrange(0, d - c) =~= v@.subrange(c as int, d as int));
    }
    parse_u64_chars(v, c, d)
}

/// The value of `key` in a file of `key value` lines such as `cpu.stat`:
/// the second word, as a number, of the last line whose first word is `key`
/// and whose second word is a number.
pub fn keyed_u64(content: &str, key: &str) -> (r: Option<u64>)
    ensures
        r == keyed_u64_spec(content@, key@),
{
    let v = chars_of(content);
    let k = chars_of(key);
    let n = v.len();
    let mut pos: usize = 0;
    let mut found: Option<u64> = None;
    let mut done = false;
    assert(v@.subrange(0, n as int) =~= v@);
    while !done
        invariant
            v@ == content@,
            k@ == key@,
            n == v@.len(),
            pos <= n,
            !done ==> keyed_u64_spec(content@, key@) == or_else(
                keyed_value(lines_of(v@.subrange(pos as int, n as int)), key@),
                found,
            ),
            done ==> keyed_u64_spec(content@, key@) == found,
        decreases n - pos + (if done {
            0int
        } else {
            1int
        }),
    {
        let mut e = pos;
        while e < n && v[e] != '\n'
            invariant
                pos <= e <= n,
                n == v@.len(),
                forall|j: int| pos <= j < e ==> #[trigger] v@[j] != '\n',
            decreases n - e,
        {
            e += 1;
        }
        let ghost rem = v@.subrange(pos as int, n as int);
        proof {
            assert forall|j: int| 0 <= j < e - pos implies #[trigger] rem[j] != '\n' by {
                assert(rem[j] == v@[pos + j]);
            }
            if e < n {
                assert(rem[e - pos] == v@[e as int]);
            }
            lemma_newline_index_at(rem, e - pos);
            assert(rem.subrange(0, e - pos) =~= v@.subrange(pos as int, e as int));
        }
        let lv = line_value_at(&v, pos, e, &k);
        let ghost old_found = found;
        if lv.is_some() {
            found = lv;
        }
        if e == n {
            proof {
                assert(rem.subrange(0, e - pos) =~= rem);
                assert(lines_of(rem) == seq![rem]);
                assert(seq![rem].drop_first() =~= Seq::<Seq<char>>::empty());
            }
            done = true;
        } else {
            proof {
                let next = v@.subrange(e + 1, n as int);
                assert(rem.subrange(e - pos + 1, rem.len() as int) =~= next);
                let ls = lines_of(rem);
                assert(ls =~= seq![v@.subrange(pos as int, e as int)] + lines_of(next));
                assert(ls.drop_first() =~= lines_of(next));
            }
            pos = e + 1;
        }
    }
    found
}

/// What an optional file gives as an optional number: its trimmed contents
/// parsed, when they parse.
pub open spec fn optional_u64_spec(content: Option<String>) -> Option<u64> {
    match content {
        Some(c) => parse_u64_spec(trim(c@)),
        None => None,
    }
}

/// What an optional file gives as optional text: its trimmed contents.
pub open spec fn optional_text_spec(content: Option<String>) -> Option<Seq<char>> {
    match content {
        Some(c) => Some(trim(c@)),
        None => None,
    }
}

/// What an optional `key value` file gives for `key` (read from its trimmed
/// contents).
pub open spec fn optional_keyed_spec(content: Option<String>, key: Seq<char>) -> Option<u64> {
    match content {
        Some(c) => keyed_u64_spec(trim(c@), key),
        None => None,
    }
}

/// The number in an optional file (`None` when the file is missing or does
/// not hold a number).
pub fn read_optional_u64(content: &Option<String>) -> (r: Option<u64>)
    ensures
        r == optional_u64_spec(*content),
{
    match content {
        Some(c) => {
            let v = chars_of(c.as_str());
            assert(v@.subrange(0, v@.len() as int) =~= c@);
            let (a, b) = trim_bounds(&v, 0, v.len());
            parse_u64_chars(&v, a, b)
        },
        None => None,
    }
}

/// The trimmed text of an optional file.
pub fn read_optional_text(content: &Option<String>) -> (r: Option<String>)
    ensures
        crate::state::opt_view(r) == optional_text_spec(*content),
{
    match content {
        Some(c) => Some(crate::text::trimmed(c.as_str())),
        None => None,
    }
}

/// The value of `key` in an optional `key value` file.
pub fn read_keyed_u64(content: &Option<String>, key: &str) -> (r: Option<u64>)
    ensures
        r == optional_keyed_spec(*content, key@),
{
    match content {
        Some(c) => {
            let t = crate::text::trimmed(c.as_str());
            keyed_u64(t.as_str(), key)
        },
        None => None,
    }
}

impl CgroupStats {
    /// The statistics of the cgroup at `path`, from the contents of its
    /// files (`None` for a file that does not exist): `memory.current`,
    /// `memory.max`, `cpu.stat`, `pids.current` and `pids.max`.
    pub fn from_contents(
        path: &str,
        memory_current: &Option<String>,
        memory_max: &Option<String>,
        cpu_stat: &Option<String>,
        pids_current: &Option<String>,
        pids_max: &Option<String>,
    ) -> (r: CgroupStats)
        ensures
            r.path@ == path@,
            r.memory_current == optional_u64_spec(*memory_current),
            crate::state::opt_view(r.memory_max) == optional_text_spec(*memory_max),
            r.cpu_usage_usec == optional_keyed_spec(*cpu_stat, "usage_usec"@),
            r.cpu_user_usec == optional_keyed_spec(*cpu_stat, "user_usec"@),
            r.cpu_system_usec == optional_keyed_spec(*cpu_stat, "system_usec"@),
            r.pids_current == optional_u64_spec(*pids_current),
            crate::state::opt_view(r.pids_max) == optional_text_spec(*pids_max),
    {
        CgroupStats {
            path: crate::text::owned(path),
            memory_current: read_optional_u64(memory_current),
            memory_max: read_optional_text(memory_max),
            cpu_usage_usec: read_keyed_u64(cpu_stat, "usage_usec"),
            cpu_user_usec: read_keyed_u64(cpu_stat, "user_usec"),
            cpu_system_usec: read_keyed_u64(cpu_stat, "system_usec"),
            pids_current: read_optional_u64(pids_current),
            pids_max: read_optional_text(pids_max),
        }
    }
}

} // verus!
