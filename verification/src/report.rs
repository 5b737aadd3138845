//! The text that the runtime shows for a container's state, for the list
//! of containers and for a container's cgroup statistics.
use vstd::prelude::*;

use crate::cgroup::CgroupStats;
use crate::state::{opt_view, ContainerState, ContainerStatus};
use crate::text::{decimal, owned, push_decimal, push_signed_decimal, push_str, signed_decimal};

verus! {

/// The name of a status as the state report shows it.
pub open spec fn status_title(status: ContainerStatus) -> Seq<char> {
    match status {
        ContainerStatus::Created => "Created"@,
        ContainerStatus::Running => "Running"@,
        ContainerStatus::Stopped => "Stopped"@,
    }
}

/// The name of a status as the list of containers shows it.
pub open spec fn status_word(status: ContainerStatus) -> Seq<char> {
    match status {
        ContainerStatus::Created => "created"@,
        ContainerStatus::Running => "running"@,
        ContainerStatus::Stopped => "stopped"@,
    }
}

/// A pid as shown, `-` for none.
pub open spec fn pid_shown(pid: Option<i32>) -> Seq<char> {
    match pid {
        Some(p) => signed_decimal(p as int),
        None => "-"@,
    }
}

/// Optional text as shown, `-` for none.
pub open spec fn text_shown(t: Option<Seq<char>>) -> Seq<char> {
    match t {
        Some(x) => x,
        None => "-"@,
    }
}

/// `s` followed by spaces up to `width` characters (std's `{:<width}`).
pub open spec fn pad_right(s: Seq<char>, width: nat) -> Seq<char> {
    if s.len() < width {
        s + Seq::new((width - s.len()) as nat, |i: int| ' ')
    } else {
        s
    }
}

/// The lines of the state report of a container.
pub open spec fn state_lines_view(s: ContainerState) -> Seq<Seq<char>> {
    let fixed = seq![
        "id: "@ + s.id@,
        "status: "@ + status_title(s.status),
        "pid: "@ + pid_shown(s.pid),
        "bundle: "@ + s.bundle@,
        "cgroup_path: "@ + text_shown(opt_view(s.cgroup_path)),
        "network_mode: "@ + s.network_mode@,
        "security_profile: "@ + s.security_profile@,
        "created_at_unix: "@ + decimal(s.created_at_unix as nat),
        "updated_at_unix: "@ + decimal(s.updated_at_unix as nat),
    ];
    let exit = match s.exit_code {
        Some(c) => seq!["exit_code: "@ + signed_decimal(c as int)],
        None => Seq::empty(),
    };
    let signal = match s.signal {
        Some(x) => seq!["signal: "@ + x@],
        None => Seq::empty(),
    };
    fixed + exit + signal
}

/// The lines of strings, as character sequences.
pub open spec fn lines_view(lines: Seq<String>) -> Seq<Seq<char>> {
    lines.map_values(|l: String| l@)
}

fn line(label: &str, value: &str) -> (r: String)
    ensures
        r@ == label@ + value@,
{
    let mut s = owned(label);
    push_str(&mut s, value);
    s
}

fn pid_text(pid: Option<i32>) -> (r: String)
    ensures
        r@ == pid_shown(pid),
{
    match pid {
        Some(p) => {
            let mut s = String::new();
            push_signed_decimal(&mut s, p as i64);
            assert(s@ =~= signed_decimal(p as int));
            s
        },
        None => owned("-"),
    }
}

fn number_line(label: &str, n: u64) -> (r: String)
    ensures
        r@ == label@ + decimal(n as nat),
{
    let mut s = owned(label);
    push_decimal(&mut s, n);
    s
}

fn status_title_of(status: ContainerStatus) -> (r: &'static str)
    ensures
        r@ == status_title(status),
{
    match status {
        ContainerStatus::Created => "Created",
        ContainerStatus::Running => "Running",
        ContainerStatus::Stopped => "Stopped",
    }
}

fn status_word_of(status: ContainerStatus) -> (r: &'static str)
    ensures
        r@ == status_word(status),
{
    match status {
        ContainerStatus::Created => "created",
        ContainerStatus::Running => "running",
        ContainerStatus::Stopped => "stopped",
    }
}

/// The state report of a container, line by line.
pub fn state_lines(s: &ContainerState) -> (r: Vec<String>)
    ensures
        lines_view(r@) == state_lines_view(*s),
{
    let mut r: Vec<String> = Vec::new();
    r.push(line("id: ", s.id.as_str()));
    r.push(line("status: ", status_title_of(s.status)));
    let pid = pid_text(s.pid);
    r.push(line("pid: ", pid.as_str()));
    r.push(line("bundle: ", s.bundle.as_str()));
    let cgroup = match &s.cgroup_path {
        Some(p) => p.as_str(),
        None => "-",
    };
    r.push(line("cgroup_path: ", cgroup));
    r.push(line("network_mode: ", s.network_mode.as_str()));
    r.push(line("security_profile: ", s.security_profile.as_str()));
    r.push(number_line("created_at_unix: ", s.created_at_unix));
    r.push(number_line("updated_at_unix: ", s.updated_at_unix));
    let ghost fixed = r@;
    if let Some(code) = s.exit_code {
        let mut t = owned("exit_code: ");
        push_signed_decimal(&mut t, code as i64);
        r.push(t);
    }
    if let Some(signal) = &s.signal {
        r.push(line("signal: ", signal.as_str()));
    }
    assert(lines_view(r@) =~= state_lines_view(*s));
    r
}

fn push_padded(s: &mut String, t: &str, width: usize)
    ensures
        final(s)@ == old(s)@ + pad_right(t@, width as nat),
{
    let ghost start = s@;
    push_str(s, t);
    let n = t.unicode_len();
    if n < width {
        let mut k: usize = n;
        while k < width
            invariant
                n == t@.len(),
                n <= k <= width,
                s@ == start + t@ + Seq::new((k - n) as nat, |i: int| ' '),
            decreases width - k,
        {
            crate::text::push_char(s, ' ');
            k += 1;
            assert(s@ =~= start + t@ + Seq::new((k - n) as nat, |i: int| ' '));
        }
        assert(s@ =~= start + pad_right(t@, width as nat));
    } else {
        assert(s@ =~= start + pad_right(t@, width as nat));
    }
}

/// The header of the list of containers.
pub open spec fn ps_header_view() -> Seq<char> {
    pad_right("ID"@, 24) + " "@ + pad_right("STATUS"@, 10) + " "@ + pad_right("PID"@, 8) + " "@
        + pad_right("NET"@, 8) + " "@ + pad_right("SECURITY"@, 11) + " BUNDLE"@
}

/// The row of a container in the list of containers.
pub open spec fn ps_row_view(s: ContainerState) -> Seq<char> {
    pad_right(s.id@, 24) + " "@ + pad_right(status_word(s.status), 10) + " "@ + pad_right(
        pid_shown(s.pid),
        8,
    ) + " "@ + pad_right(s.network_mode@, 8) + " "@ + pad_right(s.security_profile@, 11) + " "@
        + s.bundle@
}

/// The header of the list of containers.
pub fn ps_header() -> (r: String)
    ensures
        r@ == ps_header_view(),
{
    let mut s = String::new();
    push_padded(&mut s, "ID", 24);
    push_str(&mut s, " ");
    push_padded(&mut s, "STATUS", 10);
    push_str(&mut s, " ");
    push_padded(&mut s, "PID", 8);
    push_str(&mut s, " ");
    push_padded(&mut s, "NET", 8);
    push_str(&mut s, " ");
    push_padded(&mut s, "SECURITY", 11);
    push_str(&mut s, " BUNDLE");
    assert(s@ =~= ps_header_view());
    s
}

/// The row of a container in the list of containers.
pub fn ps_row(state: &ContainerState) -> (r: String)
    ensures
        r@ == ps_row_view(*state),
{
    let mut s = String::new();
    push_padded(&mut s, state.id.as_str(), 24);
    push_str(&mut s, " ");
    push_padded(&mut s, status_word_of(state.status), 10);
    push_str(&mut s, " ");
    let pid = pid_text(state.pid);
    push_padded(&mut s, pid.as_str(), 8);
    push_str(&mut s, " ");
    push_padded(&mut s, state.network_mode.as_str(), 8);
    push_str(&mut s, " ");
    push_padded(&mut s, state.security_profile.as_str(), 11);
    push_str(&mut s, " ");
    push_str(&mut s, state.bundle.as_str());
    assert(s@ =~= ps_row_view(*state));
    s
}

/// An optional number shown on a line of its own, or no line.
pub open spec fn number_line_view(label: Seq<char>, n: Option<u64>) -> Seq<Seq<char>> {
    match n {
        Some(v) => seq![label + decimal(v as nat)],
        None => Seq::empty(),
    }
}

/// Optional text shown on a line of its own, or no line.
pub open spec fn text_line_view(label: Seq<char>, t: Option<Seq<char>>) -> Seq<Seq<char>> {
    match t {
        Some(v) => seq![label + v],
        None => Seq::empty(),
    }
}

/// The lines of the statistics report of container `id`.
pub open spec fn stats_lines_view(id: Seq<char>, stats: CgroupStats) -> Seq<Seq<char>> {
    seq!["id: "@ + id, "cgroup_path: "@ + stats.path@] + number_line_view(
        "memory_current: "@,
        stats.memory_current,
    ) + text_line_view("memory_max: "@, opt_view(stats.memory_max)) + number_line_view(
        "cpu_usage_usec: "@,
        stats.cpu_usage_usec,
    ) + number_line_view("cpu_user_usec: "@, stats.cpu_user_usec) + number_line_view(
        "cpu_system_usec: "@,
        stats.cpu_system_usec,
    ) + number_line_view("pids_current: "@, stats.pids_current) + text_line_view(
        "pids_max: "@,
        opt_view(stats.pids_max),
    )
}

fn push_number_line(r: &mut Vec<String>, label: &str, n: Option<u64>)
    ensures
        lines_view(final(r)@) == lines_view(old(r)@) + number_line_view(label@, n),
{
    let ghost before = r@;
    if let Some(v) = n {
        r.push(number_line(label, v));
    }
    assert(lines_view(r@) =~= lines_view(before) + number_line_view(label@, n));
}

fn push_text_line(r: &mut Vec<String>, label: &str, t: &Option<String>)
    ensures
        lines_view(final(r)@) == lines_view(old(r)@) + text_line_view(label@, opt_view(*t)),
{
    let ghost before = r@;
    if let Some(v) = t {
        r.push(line(label, v.as_str()));
    }
    assert(lines_view(r@) =~= lines_view(before) + text_line_view(label@, opt_view(*t)));
}

/// The statistics report of container `id`, line by line.
pub fn stats_lines(id: &str, stats: &CgroupStats) -> (r: Vec<String>)
    ensures
        lines_view(r@) == stats_lines_view(id@, *stats),
{
    let mut r: Vec<String> = Vec::new();
    r.push(line("id: ", id));
    r.push(line("cgroup_path: ", stats.path.as_str()));
    assert(lines_view(r@) =~= seq!["id: "@ + id@, "cgroup_path: "@ + stats.path@]);
    push_number_line(&mut r, "memory_current: ", stats.memory_current);
    push_text_line(&mut r, "memory_max: ", &stats.memory_max);
    push_number_line(&mut r, "cpu_usage_usec: ", stats.cpu_usage_usec);
    push_number_line(&mut r, "cpu_user_usec: ", stats.cpu_user_usec);
    push_number_line(&mut r, "cpu_system_usec: ", stats.cpu_system_usec);
    push_number_line(&mut r, "pids_current: ", stats.pids_current);
    push_text_line(&mut r, "pids_max: ", &stats.pids_max);
    r
}

/// The list of containers names each status by its own word, the state
/// report's name for it in lower case: `created`, `running` and `stopped`,
/// no two alike.
pub proof fn lemma_status_words(a: ContainerStatus, b: ContainerStatus)
    ensures
        status_word(ContainerStatus::Created) == "created"@,
        status_word(ContainerStatus::Running) == "running"@,
        status_word(ContainerStatus::Stopped) == "stopped"@,
        status_word(a) == status_word(b) ==> a == b,
        status_title(a) == status_title(b) ==> a == b,
        crate::text::ascii_upper(status_word(a)) == crate::text::ascii_upper(status_title(a)),
{
    reveal_strlit("created");
    reveal_strlit("running");
    reveal_strlit("stopped");
    reveal_strlit("Created");
    reveal_strlit("Running");
    reveal_strlit("Stopped");
    assert(status_word(a)[0] != status_word(b)[0] || a == b);
    assert(status_title(a)[0] != status_title(b)[0] || a == b);
    assert(crate::text::ascii_upper(status_word(a)) =~= crate::text::ascii_upper(status_title(a)));
}

/// Whether `s` begins with `p`.
pub open spec fn has_prefix(s: Seq<char>, p: Seq<char>) -> bool {
    p.len() <= s.len() && s.subrange(0, p.len() as int) == p
}

/// Whether `lines` report `label` as `value`: every line that begins with
/// `label` is `label` followed by the value, and there is one exactly when
/// there is a value.
pub open spec fn reports(lines: Seq<Seq<char>>, label: Seq<char>, value: Option<Seq<char>>) -> bool {
    &&& forall|i: int|
        0 <= i < lines.len() && has_prefix(#[trigger] lines[i], label) ==> (value matches Some(v)
            && lines[i] == label + v)
    &&& value matches Some(v) ==> lines.contains(label + v)
}

/// A number as the statistics report writes it.
pub open spec fn shown_number(n: Option<u64>) -> Option<Seq<char>> {
    match n {
        Some(v) => Some(decimal(v as nat)),
        None => None,
    }
}

/// Every line of the statistics report is one of its labelled lines.
spec fn stats_line_shape(l: Seq<char>, id: Seq<char>, stats: CgroupStats) -> bool {
    ||| l == "id: "@ + id
    ||| l == "cgroup_path: "@ + stats.path@
    ||| (shown_number(stats.memory_current) matches Some(v) && l == "memory_current: "@ + v)
    ||| (opt_view(stats.memory_max) matches Some(v) && l == "memory_max: "@ + v)
    ||| (shown_number(stats.cpu_usage_usec) matches Some(v) && l == "cpu_usage_usec: "@ + v)
    ||| (shown_number(stats.cpu_user_usec) matches Some(v) && l == "cpu_user_usec: "@ + v)
    ||| (shown_number(stats.cpu_system_usec) matches Some(v) && l == "cpu_system_usec: "@ + v)
    ||| (shown_number(stats.pids_current) matches Some(v) && l == "pids_current: "@ + v)
    ||| (opt_view(stats.pids_max) matches Some(v) && l == "pids_max: "@ + v)
}

proof fn lemma_stats_line_shapes(id: Seq<char>, stats: CgroupStats)
    ensures
        forall|i: int|
            0 <= i < stats_lines_view(id, stats).len() ==> stats_line_shape(
                #[trigger] stats_lines_view(id, stats)[i],
                id,
                stats,
            ),
{
    let a = seq!["id: "@ + id, "cgroup_path: "@ + stats.path@];
    let p1 = number_line_view("memory_current: "@, stats.memory_current);
    let p2 = text_line_view("memory_max: "@, opt_view(stats.memory_max));
    let p3 = number_line_view("cpu_usage_usec: "@, stats.cpu_usage_usec);
    let p4 = number_line_view("cpu_user_usec: "@, stats.cpu_user_usec);
    let p5 = number_line_view("cpu_system_usec: "@, stats.cpu_system_usec);
    let p6 = number_line_view("pids_current: "@, stats.pids_current);
    let p7 = text_line_view("pids_max: "@, opt_view(stats.pids_max));
    let v = stats_lines_view(id, stats);
    assert(v == a + p1 + p2 + p3 + p4 + p5 + p6 + p7);
    assert forall|i: int| 0 <= i < v.len() implies stats_line_shape(#[trigger] v[i], id, stats) by {
        let n1 = a.len() + p1.len();
        let n2 = n1 + p2.len();
        let n3 = n2 + p3.len();
        let n4 = n3 + p4.len();
        let n5 = n4 + p5.len();
        let n6 = n5 + p6.len();
        if i < a.len() {
        } else if i < n1 {
            assert(v[i] == p1[i - a.len()]);
        } else if i < n2 {
            assert(v[i] == p2[i - n1]);
        } else if i < n3 {
            assert(v[i] == p3[i - n2]);
        } else if i < n4 {
            assert(v[i] == p4[i - n3]);
        } else if i < n5 {
            assert(v[i] == p5[i - n4]);
        } else if i < n6 {
            assert(v[i] == p6[i - n5]);
        } else {
            assert(v[i] == p7[i - n6]);
        }
    }
}

/// The value that the statistics report gives under one of its labels.
spec fn stats_field(stats: CgroupStats, label: Seq<char>) -> Option<Seq<char>> {
    if label == "memory_current: "@ {
        shown_number(stats.memory_current)
    } else if label == "memory_max: "@ {
        opt_view(stats.memory_max)
    } else if label == "cpu_usage_usec: "@ {
        shown_number(stats.cpu_usage_usec)
    } else if label == "cpu_user_usec: "@ {
        shown_number(stats.cpu_user_usec)
    } else if label == "cpu_system_usec: "@ {
        shown_number(stats.cpu_system_usec)
    } else if label == "pids_current: "@ {
        shown_number(stats.pids_current)
    } else {
        opt_view(stats.pids_max)
    }
}

spec fn is_stats_label(label: Seq<char>) -> bool {
    ||| label == "memory_current: "@
    ||| label == "memory_max: "@
    ||| label == "cpu_usage_usec: "@
    ||| label == "cpu_user_usec: "@
    ||| label == "cpu_system_usec: "@
    ||| label == "pids_current: "@
    ||| label == "pids_max: "@
}

proof fn lemma_line_of_label(l: Seq<char>, id: Seq<char>, stats: CgroupStats, label: Seq<char>)
    requires
        stats_line_shape(l, id, stats),
        is_stats_label(label),
        has_prefix(l, label),
    ensures
        stats_field(stats, label) matches Some(v) && l == label + v,
{
    reveal_strlit("id: ");
    reveal_strlit("cgroup_path: ");
    reveal_strlit("memory_current: ");
    reveal_strlit("memory_max: ");
    reveal_strlit("cpu_usage_usec: ");
    reveal_strlit("cpu_user_usec: ");
    reveal_strlit("cpu_system_usec: ");
    reveal_strlit("pids_current: ");
    reveal_strlit("pids_max: ");
    let pre = l.subrange(0, label.len() as int);
    assert(l[0] == pre[0] && l[1] == pre[1] && l[4] == pre[4] && l[5] == pre[5] && l[6] == pre[6]
        && l[7] == pre[7]);
}

/// The statistics report opens with the container's id and cgroup path, and
/// reports each statistic under its own label: a line `label` + value for a
/// statistic that was read (a number in decimal, a limit as read), no line
/// for one that was not, and no line of one label that shows another
/// statistic's value.
pub proof fn lemma_stats_lines_report_their_fields(id: Seq<char>, stats: CgroupStats)
    ensures
        stats_lines_view(id, stats)[0] == "id: "@ + id,
        stats_lines_view(id, stats)[1] == "cgroup_path: "@ + stats.path@,
        reports(stats_lines_view(id, stats), "memory_current: "@, shown_number(stats.memory_current)),
        reports(stats_lines_view(id, stats), "memory_max: "@, opt_view(stats.memory_max)),
        reports(stats_lines_view(id, stats), "cpu_usage_usec: "@, shown_number(stats.cpu_usage_usec)),
        reports(stats_lines_view(id, stats), "cpu_user_usec: "@, shown_number(stats.cpu_user_usec)),
        reports(
            stats_lines_view(id, stats),
            "cpu_system_usec: "@,
            shown_number(stats.cpu_system_usec),
        ),
        reports(stats_lines_view(id, stats), "pids_current: "@, shown_number(stats.pids_current)),
        reports(stats_lines_view(id, stats), "pids_max: "@, opt_view(stats.pids_max)),
{
    lemma_stats_line_shapes(id, stats);
    let v = stats_lines_view(id, stats);
    let a = seq!["id: "@ + id, "cgroup_path: "@ + stats.path@];
    let p1 = number_line_view("memory_current: "@, stats.memory_current);
    let p2 = text_line_view("memory_max: "@, opt_view(stats.memory_max));
    let p3 = number_line_view("cpu_usage_usec: "@, stats.cpu_usage_usec);
    let p4 = number_line_view("cpu_user_usec: "@, stats.cpu_user_usec);
    let p5 = number_line_view("cpu_system_usec: "@, stats.cpu_system_usec);
    let p6 = number_line_view("pids_current: "@, stats.pids_current);
    let p7 = text_line_view("pids_max: "@, opt_view(stats.pids_max));
    assert(v == a + p1 + p2 + p3 + p4 + p5 + p6 + p7);
    let n1 = a.len() + p1.len();
    let n2 = n1 + p2.len();
    let n3 = n2 + p3.len();
    let n4 = n3 + p4.len();
    let n5 = n4 + p5.len();
    let n6 = n5 + p6.len();
    reveal_strlit("memory_current: ");
    reveal_strlit("memory_max: ");
    reveal_strlit("cpu_usage_usec: ");
    reveal_strlit("cpu_user_usec: ");
    reveal_strlit("cpu_system_usec: ");
    reveal_strlit("pids_current: ");
    reveal_strlit("pids_max: ");
    assert forall|label: Seq<char>, i: int|
        #![trigger has_prefix(v[i], label)]
        is_stats_label(label) && 0 <= i < v.len() && has_prefix(v[i], label) implies (
        stats_field(stats, label) matches Some(x) && v[i] == label + x) by {
        lemma_line_of_label(v[i], id, stats, label);
    }
    assert("cpu_usage_usec: "@[0] != "memory_current: "@[0]);
    assert(is_stats_label("memory_current: "@));
    assert(is_stats_label("memory_max: "@));
    assert(is_stats_label("cpu_usage_usec: "@));
    assert(is_stats_label("cpu_user_usec: "@));
    assert(is_stats_label("cpu_system_usec: "@));
    assert(is_stats_label("pids_current: "@));
    assert(is_stats_label("pids_max: "@));
    if p1.len() > 0 {
        assert(v[a.len() as int] == p1[0]);
    }
    if p2.len() > 0 {
        assert(v[n1 as int] == p2[0]);
    }
    if p3.len() > 0 {
        assert(v[n2 as int] == p3[0]);
    }
    if p4.len() > 0 {
        assert(v[n3 as int] == p4[0]);
    }
    if p5.len() > 0 {
        assert(v[n4 as int] == p5[0]);
    }
    if p6.len() > 0 {
        assert(v[n5 as int] == p6[0]);
    }
    if p7.len() > 0 {
        assert(v[n6 as int] == p7[0]);
    }
}

} // verus!
