//! Container state: what the runtime records of each container, how that
//! record moves through the lifecycle, and where it is kept.
use vstd::prelude::*;

use crate::text::{chars_of, is_ascii_alnum, owned, push_str, seq_le, text_le};
use vstd::multiset::Multiset;

verus! {

/// Where the state of all containers is kept.
pub const DEFAULT_STATE_ROOT: &'static str = "/run/crun-rs";

/// The stage of a container's life.
#[derive(Debug, Clone, Copy, PartialEq, Eq, Structural)]
pub enum ContainerStatus {
    /// Recorded, not yet started.
    Created,
    /// Its process has been started.
    Running,
    /// Its process has ended.
    Stopped,
}

/// What the runtime records of a container.
#[derive(Debug, Clone, PartialEq, Eq)]
pub struct ContainerState {
    pub id: String,
    pub pid: Option<i32>,
    pub status: ContainerStatus,
    pub bundle: String,
    pub cgroup_path: Option<String>,
    pub network_mode: String,
    pub security_profile: String,
    pub created_at_unix: u64,
    pub updated_at_unix: u64,
    pub exit_code: Option<i32>,
    pub signal: Option<String>,
}

/// A container state with its text as character sequences.
pub struct ContainerStateView {
    pub id: Seq<char>,
    pub pid: Option<i32>,
    pub status: ContainerStatus,
    pub bundle: Seq<char>,
    pub cgroup_path: Option<Seq<char>>,
    pub network_mode: Seq<char>,
    pub security_profile: Seq<char>,
    pub created_at_unix: u64,
    pub updated_at_unix: u64,
    pub exit_code: Option<i32>,
    pub signal: Option<Seq<char>>,
}

/// An optional string as an optional character sequence.
pub open spec fn opt_view(o: Option<String>) -> Option<Seq<char>> {
    match o {
        Some(s) => Some(s@),
        None => None,
    }
}

impl View for ContainerState {
    type V = ContainerStateView;

    open spec fn view(&self) -> ContainerStateView {
        ContainerStateView {
            id: self.id@,
            pid: self.pid,
            status: self.status,
            bundle: self.bundle@,
            cgroup_path: opt_view(self.cgroup_path),
            network_mode: self.network_mode@,
            security_profile: self.security_profile@,
            created_at_unix: self.created_at_unix,
            updated_at_unix: self.updated_at_unix,
            exit_code: self.exit_code,
            signal: opt_view(self.signal),
        }
    }
}

// ---------------------------------------------------------------------------
// Errors
// ---------------------------------------------------------------------------

/// Why a state operation was refused.
#[derive(Debug, Clone, PartialEq, Eq)]
pub enum StateError {
    /// The container id is empty.
    EmptyId,
    /// The container id holds a character other than an ASCII letter or digit,
    /// `.`, `_` or `-`.
    InvalidId,
    /// The system clock reads a time before 1970.
    ClockBeforeEpoch,
    /// The container is running, so its state may not be deleted.
    StillRunning(String),
    /// The container is not in the created stage.
    NotCreated(String),
    /// The container is not running.
    NotRunning(String),
    /// The running container has no recorded pid.
    NoPid(String),
    /// The running container has no recorded cgroup.
    NoCgroupPath(String),
}

/// The text of a state error.
pub open spec fn state_error_text(e: StateError) -> Seq<char> {
    match e {
        StateError::EmptyId => "container id must not be empty"@,
        StateError::InvalidId => "container id may only contain ASCII letters, numbers, '.', '_' and '-'"@,
        StateError::ClockBeforeEpoch => "system clock is before UNIX_EPOCH"@,
        StateError::StillRunning(id) => "container "@ + id@ + " is running; stop it before delete"@,
        StateError::NotCreated(id) => "container "@ + id@ + " is not created"@,
        StateError::NotRunning(id) => "container "@ + id@ + " is not running"@,
        StateError::NoPid(id) => "container "@ + id@ + " has no pid"@,
        StateError::NoCgroupPath(id) => "container "@ + id@ + " has no cgroup path"@,
    }
}

impl StateError {
    /// The text that the runtime shows for this error.
    pub fn message(&self) -> (r: String)
        ensures
            r@ == state_error_text(*self),
    {
        let mut s = String::new();
        match self {
            StateError::EmptyId => push_str(&mut s, "container id must not be empty"),
            StateError::InvalidId => push_str(
                &mut s,
                "container id may only contain ASCII letters, numbers, '.', '_' and '-'",
            ),
            StateError::ClockBeforeEpoch => push_str(&mut s, "system clock is before UNIX_EPOCH"),
            StateError::StillRunning(id) => {
                push_str(&mut s, "container ");
                push_str(&mut s, id.as_str());
                push_str(&mut s, " is running; stop it before delete");
            },
            StateError::NotCreated(id) => {
                push_str(&mut s, "container ");
                push_str(&mut s, id.as_str());
                push_str(&mut s, " is not created");
            },
            StateError::NotRunning(id) => {
                push_str(&mut s, "container ");
                push_str(&mut s, id.as_str());
                push_str(&mut s, " is not running");
            },
            StateError::NoPid(id) => {
                push_str(&mut s, "container ");
                push_str(&mut s, id.as_str());
                push_str(&mut s, " has no pid");
            },
            StateError::NoCgroupPath(id) => {
                push_str(&mut s, "container ");
                push_str(&mut s, id.as_str());
                push_str(&mut s, " has no cgroup path");
            },
        }
        assert(s@ =~= state_error_text(*self));
        s
    }
}

// ---------------------------------------------------------------------------
// Container ids
// ---------------------------------------------------------------------------

/// Whether `c` may stand in a container id.
pub open spec fn id_char(c: char) -> bool {
    is_ascii_alnum(c) || c == '-' || c == '_' || c == '.'
}

/// Whether `id` is a valid container id: not empty, and made of ASCII
/// letters, digits, `.`, `_` and `-` only.
pub open spec fn valid_id(id: Seq<char>) -> bool {
    &&& id.len() > 0
    &&& forall|i: int| 0 <= i < id.len() ==> id_char(#[trigger] id[i])
}

/// The error for an invalid id.
pub open spec fn id_error(id: Seq<char>) -> StateError {
    if id.len() == 0 {
        StateError::EmptyId
    } else {
        StateError::InvalidId
    }
}

/// Checks a container id. Ids become directory names under the state root;
/// a valid id never holds `/`.
pub fn validate_id(id: &str) -> (r: Result<(), StateError>)
    ensures
        valid_id(id@) ==> r == Ok::<(), StateError>(()),
        !valid_id(id@) ==> r == Err::<(), StateError>(id_error(id@)),
{
    let v = chars_of(id);
    if v.len() == 0 {
        return Err(StateError::EmptyId);
    }
    let mut i: usize = 0;
    while i < v.len()
        invariant
            v@ == id@,
            i <= v@.len(),
            forall|j: int| 0 <= j < i ==> id_char(#[trigger] v@[j]),
        decreases v@.len() - i,
    {
        let c = v[i];
        let u = c as u32;
        let ok = (48 <= u && u <= 57) || (65 <= u && u <= 90) || (97 <= u && u <= 122) || c == '-'
            || c == '_' || c == '.';
        if !ok {
            assert(!id_char(id@[i as int]));
            return Err(StateError::InvalidId);
        }
        i += 1;
    }
    Ok(())
}

// ---------------------------------------------------------------------------
// The clock
// ---------------------------------------------------------------------------

#[verifier::external_type_specification]
#[verifier::external_body]
pub struct ExSystemTimeError(std::time::SystemTimeError);

/// std's `UNIX_EPOCH.elapsed()`: the system time since 1970, or an error
/// when the clock reads an earlier time. It reads the clock, so nothing is
/// stated of what it returns.
#[verifier::external_body]
fn time_since_epoch() -> Result<std::time::Duration, std::time::SystemTimeError> {
    std::time::UNIX_EPOCH.elapsed()
}

/// std's `Duration::as_secs`: the whole seconds of a duration. `Duration` is
/// opaque here, so nothing is stated of the result; it cannot panic.
pub assume_specification[ core::time::Duration::as_secs ](d: &core::time::Duration) -> u64;

/// The current time in seconds since 1970, or an error when the clock reads
/// an earlier time.
pub fn unix_timestamp() -> (r: Result<u64, StateError>)
    ensures
        r is Err ==> r == Err::<u64, StateError>(StateError::ClockBeforeEpoch),
{
    match time_since_epoch() {
        Ok(elapsed) => Ok(elapsed.as_secs()),
        Err(_) => Err(StateError::ClockBeforeEpoch),
    }
}

// ---------------------------------------------------------------------------
// The lifecycle
// ---------------------------------------------------------------------------

/// The record of a container that has been created at `now`.
pub open spec fn created_view(
    id: Seq<char>,
    bundle: Seq<char>,
    network_mode: Seq<char>,
    security_profile: Seq<char>,
    now: u64,
) -> ContainerStateView {
    ContainerStateView {
        id,
        pid: None,
        status: ContainerStatus::Created,
        bundle,
        cgroup_path: None,
        network_mode,
        security_profile,
        created_at_unix: now,
        updated_at_unix: now,
        exit_code: None,
        signal: None,
    }
}

/// The record of a container whose process `pid` was started at `now`
/// without a created record before it.
pub open spec fn running_view(
    id: Seq<char>,
    bundle: Seq<char>,
    pid: i32,
    cgroup_path: Option<Seq<char>>,
    network_mode: Seq<char>,
    security_profile: Seq<char>,
    now: u64,
) -> ContainerStateView {
    ContainerStateView {
        id,
        pid: Some(pid),
        status: ContainerStatus::Running,
        bundle,
        cgroup_path,
        network_mode,
        security_profile,
        created_at_unix: now,
        updated_at_unix: now,
        exit_code: None,
        signal: None,
    }
}

impl ContainerStateView {
    /// This record once its process `pid` has started at `now`.
    pub open spec fn marked_running(self, pid: i32, cgroup_path: Option<Seq<char>>, now: u64) -> Self {
        ContainerStateView {
            pid: Some(pid),
            status: ContainerStatus::Running,
            cgroup_path,
            updated_at_unix: now,
            exit_code: None,
            signal: None,
            ..self
        }
    }

    /// What `mark_running` leaves when the clock cannot be read: the process
    /// is recorded, the time and the last exit are not touched.
    pub open spec fn marked_running_without_time(
        self,
        pid: i32,
        cgroup_path: Option<Seq<char>>,
    ) -> Self {
        ContainerStateView {
            pid: Some(pid),
            status: ContainerStatus::Running,
            cgroup_path,
            ..self
        }
    }

    /// This record once its process has ended at `now`.
    pub open spec fn marked_stopped(
        self,
        exit_code: Option<i32>,
        signal: Option<Seq<char>>,
        now: u64,
    ) -> Self {
        ContainerStateView {
            pid: None,
            status: ContainerStatus::Stopped,
            updated_at_unix: now,
            cgroup_path: None,
            exit_code,
            signal,
            ..self
        }
    }

    /// What `mark_stopped` leaves when the clock cannot be read: the process
    /// is gone and the stage is stopped, nothing else is touched.
    pub open spec fn marked_stopped_without_time(self) -> Self {
        ContainerStateView { pid: None, status: ContainerStatus::Stopped, ..self }
    }
}

impl ContainerState {
    /// The record of a container created at `now`.
    pub fn created_at(
        id: &str,
        bundle: &str,
        network_mode: &str,
        security_profile: &str,
        now: u64,
    ) -> (r: Result<ContainerState, StateError>)
        ensures
            !valid_id(id@) ==> r == Err::<ContainerState, StateError>(id_error(id@)),
            valid_id(id@) ==> (r matches Ok(s) && s@ == created_view(
                id@,
                bundle@,
                network_mode@,
                security_profile@,
                now,
            )),
    {
        validate_id(id)?;
        Ok(ContainerState {
            id: owned(id),
            pid: None,
            status: ContainerStatus::Created,
            bundle: owned(bundle),
            cgroup_path: None,
            network_mode: owned(network_mode),
            security_profile: owned(security_profile),
            created_at_unix: now,
            updated_at_unix: now,
            exit_code: None,
            signal: None,
        })
    }

    /// The record of a container created now. Fails on an invalid id, and
    /// when the clock cannot be read.
    pub fn created(id: &str, bundle: &str, network_mode: &str, security_profile: &str) -> (r:
        Result<ContainerState, StateError>)
        ensures
            !valid_id(id@) ==> r == Err::<ContainerState, StateError>(id_error(id@)),
            valid_id(id@) ==> match r {
                Ok(s) => s@ == created_view(
                    id@,
                    bundle@,
                    network_mode@,
                    security_profile@,
                    s.created_at_unix,
                ),
                Err(e) => e == StateError::ClockBeforeEpoch,
            },
    {
        validate_id(id)?;
        let now = unix_timestamp()?;
        ContainerState::created_at(id, bundle, network_mode, security_profile, now)
    }

    /// The record of a container whose process `pid` started at `now`.
    pub fn running_at(
        id: &str,
        bundle: &str,
        pid: i32,
        cgroup_path: Option<String>,
        network_mode: &str,
        security_profile: &str,
        now: u64,
    ) -> (r: Result<ContainerState, StateError>)
        ensures
            !valid_id(id@) ==> r == Err::<ContainerState, StateError>(id_error(id@)),
            valid_id(id@) ==> (r matches Ok(s) && s@ == running_view(
                id@,
                bundle@,
                pid,
                opt_view(cgroup_path),
                network_mode@,
                security_profile@,
                now,
            )),
    {
        validate_id(id)?;
        Ok(ContainerState {
            id: owned(id),
            pid: Some(pid),
            status: ContainerStatus::Running,
            bundle: owned(bundle),
            cgroup_path,
            network_mode: owned(network_mode),
            security_profile: owned(security_profile),
            created_at_unix: now,
            updated_at_unix: now,
            exit_code: None,
            signal: None,
        })
    }

    /// The record of a container whose process `pid` started now. Fails on
    /// an invalid id, and when the clock cannot be read.
    pub fn running(
        id: &str,
        bundle: &str,
        pid: i32,
        cgroup_path: Option<String>,
        network_mode: &str,
        security_profile: &str,
    ) -> (r: Result<ContainerState, StateError>)
        ensures
            !valid_id(id@) ==> r == Err::<ContainerState, StateError>(id_error(id@)),
            valid_id(id@) ==> match r {
                Ok(s) => s@ == running_view(
                    id@,
                    bundle@,
                    pid,
                    opt_view(cgroup_path),
                    network_mode@,
                    security_profile@,
                    s.created_at_unix,
                ),
                Err(e) => e == StateError::ClockBeforeEpoch,
            },
    {
        validate_id(id)?;
        let now = unix_timestamp()?;
        ContainerState::running_at(
            id,
            bundle,
            pid,
            cgroup_path,
            network_mode,
            security_profile,
            now,
        )
    }

    /// Records that the container's process `pid` started at `now`.
    pub fn mark_running_at(&mut self, pid: i32, cgroup_path: Option<String>, now: u64)
        ensures
            final(self)@ == old(self)@.marked_running(pid, opt_view(cgroup_path), now),
    {
        self.pid = Some(pid);
        self.status = ContainerStatus::Running;
        self.cgroup_path = cgroup_path;
        self.updated_at_unix = now;
        self.exit_code = None;
        self.signal = None;
    }

    /// Records that the container's process `pid` started now. When the
    /// clock cannot be read, the process is recorded and the error returned.
    pub fn mark_running(&mut self, pid: i32, cgroup_path: Option<String>) -> (r: Result<
        (),
        StateError,
    >)
        ensures
            r is Ok ==> final(self)@ == old(self)@.marked_running(
                pid,
                opt_view(cgroup_path),
                final(self).updated_at_unix,
            ),
            r is Err ==> r == Err::<(), StateError>(StateError::ClockBeforeEpoch) && final(self)@
                == old(self)@.marked_running_without_time(pid, opt_view(cgroup_path)),
    {
        match unix_timestamp() {
            Ok(now) => {
                self.mark_running_at(pid, cgroup_path, now);
                Ok(())
            },
            Err(e) => {
                self.pid = Some(pid);
                self.status = ContainerStatus::Running;
                self.cgroup_path = cgroup_path;
                Err(e)
            },
        }
    }

    /// Records that the container's process ended at `now`.
    pub fn mark_stopped_at(&mut self, exit_code: Option<i32>, signal: Option<String>, now: u64)
        ensures
            final(self)@ == old(self)@.marked_stopped(exit_code, opt_view(signal), now),
    {
        self.pid = None;
        self.status = ContainerStatus::Stopped;
        self.updated_at_unix = now;
        self.cgroup_path = None;
        self.exit_code = exit_code;
        self.signal = signal;
    }

    /// Records that the container's process ended now. When the clock cannot
    /// be read, the process is recorded as gone and the error returned.
    pub fn mark_stopped(&mut self, exit_code: Option<i32>, signal: Option<String>) -> (r: Result<
        (),
        StateError,
    >)
        ensures
            r is Ok ==> final(self)@ == old(self)@.marked_stopped(
                exit_code,
                opt_view(signal),
                final(self).updated_at_unix,
            ),
            r is Err ==> r == Err::<(), StateError>(StateError::ClockBeforeEpoch) && final(self)@
                == old(self)@.marked_stopped_without_time(),
    {
        match unix_timestamp() {
            Ok(now) => {
                self.mark_stopped_at(exit_code, signal, now);
                Ok(())
            },
            Err(e) => {
                self.mark_gone();
                Err(e)
            },
        }
    }

    /// Records that the process is gone, without touching the time or the
    /// last exit.
    fn mark_gone(&mut self)
        ensures
            final(self)@ == old(self)@.marked_stopped_without_time(),
    {
        self.pid = None;
        self.status = ContainerStatus::Stopped;
    }
}


// ---------------------------------------------------------------------------
// Liveness
// ---------------------------------------------------------------------------

/// Whether a record that claims a running process is out of date: it has no
/// pid, or its process is gone.
pub open spec fn is_stale(s: ContainerStateView, pid_alive: bool) -> bool {
    s.status == ContainerStatus::Running && (s.pid is None || !pid_alive)
}

/// The signal text recorded for a container whose process vanished.
pub open spec fn stale_signal() -> Option<Seq<char>> {
    Some("STALE"@)
}

impl ContainerState {
    /// The process whose liveness decides whether this record is current:
    /// the pid of a running container, and none otherwise.
    pub fn liveness_probe(&self) -> (r: Option<i32>)
        ensures
            r == (if self.status == ContainerStatus::Running {
                self.pid
            } else {
                None
            }),
    {
        match self.status {
            ContainerStatus::Running => self.pid,
            _ => None,
        }
    }
}

/// Brings a record up to date at `now`, given whether its process is alive
/// (asked only of running records with a pid): a stale record becomes
/// stopped with the signal `STALE`. Returns whether the record changed, and
/// so must be saved.
pub fn refresh_liveness_at(state: &mut ContainerState, pid_alive: bool, now: u64) -> (r: bool)
    ensures
        r == is_stale(old(state)@, pid_alive),
        r ==> final(state)@ == old(state)@.marked_stopped(None, stale_signal(), now),
        !r ==> *final(state) == *old(state),
{
    if state.status != ContainerStatus::Running {
        return false;
    }
    if state.pid.is_some() && pid_alive {
        return false;
    }
    state.mark_stopped_at(None, Some(owned("STALE")), now);
    true
}

/// Brings a record up to date now (see `refresh_liveness_at`). When the
/// clock cannot be read, a stale record is left stopped without a time, and
/// the error returned.
pub fn refresh_liveness(state: &mut ContainerState, pid_alive: bool) -> (r: Result<bool, StateError>)
    ensures
        !is_stale(old(state)@, pid_alive) ==> r == Ok::<bool, StateError>(false) && *final(state)
            == *old(state),
        is_stale(old(state)@, pid_alive) ==> match r {
            Ok(changed) => changed && final(state)@ == old(state)@.marked_stopped(
                None,
                stale_signal(),
                final(state).updated_at_unix,
            ),
            Err(e) => e == StateError::ClockBeforeEpoch && final(state)@
                == old(state)@.marked_stopped_without_time(),
        },
{
    if state.status != ContainerStatus::Running {
        return Ok(false);
    }
    if state.pid.is_some() && pid_alive {
        return Ok(false);
    }
    match unix_timestamp() {
        Ok(now) => Ok(refresh_liveness_at(state, pid_alive, now)),
        Err(e) => {
            state.mark_gone();
            Err(e)
        },
    }
}

/// Whether `s[i..i+2]` is `") "`.
pub open spec fn comm_end_at(s: Seq<char>, i: int) -> bool {
    0 <= i && i + 1 < s.len() && s[i] == ')' && s[i + 1] == ' '
}

/// Whether the contents of `/proc/<pid>/stat` show a live process: the
/// state field, which follows the last `") "`, is not `Z` (zombie). Text
/// without `") "` counts as alive.
pub open spec fn stat_alive(stat: Seq<char>) -> bool {
    forall|i: int|
        comm_end_at(stat, i) && (forall|j: int| comm_end_at(stat, j) ==> j <= i) ==> !(i + 2
            < stat.len() && stat[i + 2] == 'Z')
}

/// Reads liveness from the contents of `/proc/<pid>/stat`.
pub fn stat_shows_alive(stat: &str) -> (r: bool)
    ensures
        r == stat_alive(stat@),
{
    let v = chars_of(stat);
    let n = v.len();
    if n < 2 {
        return true;
    }
    let mut i: usize = n - 1;
    while i > 0
        invariant
            v@ == stat@,
            n == v@.len(),
            n >= 2,
            i <= n - 1,
            forall|j: int| i <= j < n ==> !comm_end_at(stat@, j),
        decreases i,
    {
        let k = i - 1;
        if v[k] == ')' && v[k + 1] == ' ' {
            assert(comm_end_at(stat@, k as int));
            return !(k + 2 < n && v[k + 2] == 'Z');
        }
        i = k;
    }
    assert forall|j: int| !comm_end_at(stat@, j) by {
        if comm_end_at(stat@, j) {
            assert(j >= 0);
        }
    }
    true
}

// ---------------------------------------------------------------------------
// Decisions of the commands
// ---------------------------------------------------------------------------

/// Whether a container at this stage may have its state deleted: any but a
/// running one.
pub open spec fn may_delete(status: ContainerStatus) -> bool {
    status != ContainerStatus::Running
}

/// Whether a container at this stage may be started: only a created one.
pub open spec fn may_start(status: ContainerStatus) -> bool {
    status == ContainerStatus::Created
}

/// A running container's state may not be deleted.
pub fn check_deletable(state: &ContainerState, id: &str) -> (r: Result<(), StateError>)
    ensures
        !may_delete(state.status) ==> (r matches Err(StateError::StillRunning(x)) && x@ == id@),
        may_delete(state.status) ==> r == Ok::<(), StateError>(()),
{
    if state.status == ContainerStatus::Running {
        return Err(StateError::StillRunning(owned(id)));
    }
    Ok(())
}

/// Only a created container can be started.
pub fn require_created(state: &ContainerState, id: &str) -> (r: Result<(), StateError>)
    ensures
        !may_start(state.status) ==> (r matches Err(StateError::NotCreated(x)) && x@ == id@),
        may_start(state.status) ==> r == Ok::<(), StateError>(()),
{
    if state.status != ContainerStatus::Created {
        return Err(StateError::NotCreated(owned(id)));
    }
    Ok(())
}

/// The pid of a running container, which signals and `exec` go to.
pub fn running_pid(state: &ContainerState, id: &str) -> (r: Result<i32, StateError>)
    ensures
        state.status != ContainerStatus::Running ==> (r matches Err(StateError::NotRunning(x))
            && x@ == id@),
        state.status == ContainerStatus::Running ==> match state.pid {
            Some(pid) => r == Ok::<i32, StateError>(pid),
            None => r matches Err(StateError::NoPid(x)) && x@ == id@,
        },
{
    if state.status != ContainerStatus::Running {
        return Err(StateError::NotRunning(owned(id)));
    }
    match state.pid {
        Some(pid) => Ok(pid),
        None => Err(StateError::NoPid(owned(id))),
    }
}

/// The cgroup of a running container, which its statistics are read from.
pub fn running_cgroup_path(state: &ContainerState, id: &str) -> (r: Result<String, StateError>)
    ensures
        state.status != ContainerStatus::Running ==> (r matches Err(StateError::NotRunning(x))
            && x@ == id@),
        state.status == ContainerStatus::Running ==> match state.cgroup_path {
            Some(p) => r matches Ok(q) && q@ == p@,
            None => r matches Err(StateError::NoCgroupPath(x)) && x@ == id@,
        },
{
    if state.status != ContainerStatus::Running {
        return Err(StateError::NotRunning(owned(id)));
    }
    match &state.cgroup_path {
        Some(p) => Ok(owned(p.as_str())),
        None => Err(StateError::NoCgroupPath(owned(id))),
    }
}

/// The record once a container's process `pid` has started at `now`: the
/// created record, if the container was created first, marked running;
/// otherwise a new running record.
pub fn state_after_start_at(
    existing: Option<ContainerState>,
    id: &str,
    bundle: &str,
    pid: i32,
    cgroup_path: Option<String>,
    network_mode: &str,
    security_profile: &str,
    now: u64,
) -> (r: Result<ContainerState, StateError>)
    ensures
        match existing {
            Some(old_state) => r matches Ok(s) && s@ == old_state@.marked_running(
                pid,
                opt_view(cgroup_path),
                now,
            ),
            None => if valid_id(id@) {
                r matches Ok(s) && s@ == running_view(
                    id@,
                    bundle@,
                    pid,
                    opt_view(cgroup_path),
                    network_mode@,
                    security_profile@,
                    now,
                )
            } else {
                r == Err::<ContainerState, StateError>(id_error(id@))
            },
        },
{
    match existing {
        Some(state) => {
            let mut state = state;
            state.mark_running_at(pid, cgroup_path, now);
            Ok(state)
        },
        None => ContainerState::running_at(
            id,
            bundle,
            pid,
            cgroup_path,
            network_mode,
            security_profile,
            now,
        ),
    }
}

// ---------------------------------------------------------------------------
// Where state is kept
// ---------------------------------------------------------------------------

/// std's `Path::join` on text: a part that starts with `/` replaces the
/// base; otherwise the part follows the base, after a `/` unless the base is
/// empty or already ends with one.
pub open spec fn path_join(base: Seq<char>, part: Seq<char>) -> Seq<char> {
    if part.len() > 0 && part[0] == '/' {
        part
    } else if base.len() == 0 {
        part
    } else if base.last() == '/' {
        base + part
    } else {
        base + "/"@ + part
    }
}

/// `base` joined with `part` (see `path_join`).
pub fn join_path(base: &str, part: &str) -> (r: String)
    ensures
        r@ == path_join(base@, part@),
{
    let b = chars_of(base);
    let p = chars_of(part);
    if p.len() > 0 && p[0] == '/' {
        return owned(part);
    }
    if b.len() == 0 {
        return owned(part);
    }
    let mut s = owned(base);
    if b[b.len() - 1] != '/' {
        push_str(&mut s, "/");
    }
    push_str(&mut s, part);
    assert(s@ =~= path_join(base@, part@));
    s
}

/// The directory that holds the state of container `id` under `root`.
pub fn container_dir(root: &str, id: &str) -> (r: String)
    ensures
        r@ == path_join(root@, id@),
{
    join_path(root, id)
}

/// The file that holds the state of container `id` under `root`.
pub fn state_file(root: &str, id: &str) -> (r: String)
    ensures
        r@ == path_join(path_join(root@, id@), "state.json"@),
{
    let dir = container_dir(root, id);
    join_path(dir.as_str(), "state.json")
}

/// The network mode that a stored record without one is read with.
pub fn default_network_mode() -> (r: String)
    ensures
        r@ == "bridge"@,
{
    owned("bridge")
}

/// The security profile that a stored record without one is read with.
pub fn default_security_profile() -> (r: String)
    ensures
        r@ == "default"@,
{
    owned("default")
}

// ---------------------------------------------------------------------------
// Listing
// ---------------------------------------------------------------------------

/// Whether the records are in order of their ids.
pub open spec fn sorted_by_id(s: Seq<ContainerState>) -> bool {
    forall|i: int, j: int| 0 <= i < j < s.len() ==> seq_le(#[trigger] s[i].id@, #[trigger] s[j].id@)
}

/// Whether `p` lists each position of a sequence of length `n` once.
pub open spec fn is_permutation(p: Seq<int>, n: nat) -> bool {
    &&& p.len() == n
    &&& forall|k: int| 0 <= k < n ==> 0 <= #[trigger] p[k] < n
    &&& forall|k: int, l: int| 0 <= k < l < n ==> #[trigger] p[k] != #[trigger] p[l]
}

/// Whether `r` is a stable sort of `s` by id, with `p` giving the position
/// in `s` of each record of `r`: the records of `s` rearranged, in order of
/// their ids, and records with equal ids in the order they had in `s`.
pub open spec fn stable_sort_by_id(s: Seq<ContainerState>, r: Seq<ContainerState>, p: Seq<int>) -> bool {
    &&& is_permutation(p, s.len())
    &&& r.len() == s.len()
    &&& forall|k: int| 0 <= k < r.len() ==> r[k] == s[#[trigger] p[k]]
    &&& sorted_by_id(r)
    &&& forall|k: int, l: int|
        0 <= k < l < r.len() && r[k].id@ == r[l].id@ ==> #[trigger] p[k] < #[trigger] p[l]
}

/// The records in order of their ids (the order in which they are listed);
/// records with equal ids keep their order.
pub fn sort_by_id(states: Vec<ContainerState>) -> (r: Vec<ContainerState>)
    ensures
        r@.to_multiset() == states@.to_multiset(),
        exists|p: Seq<int>| stable_sort_by_id(states@, r@, p),
{
    broadcast use vstd::seq_lib::group_to_multiset_ensures, vstd::multiset::group_multiset_axioms;

    let ghost input = states@;
    let n = states.len();
    let mut rest = states;
    let mut out: Vec<ContainerState> = Vec::new();
    let ghost mut perm: Seq<int> = Seq::empty();
    let mut done: usize = 0;
    proof {
        vstd::multiset::lemma_multiset_empty_len(out@.to_multiset());
        assert(out@.to_multiset() =~= Multiset::<ContainerState>::empty());
        assert(rest@ =~= input.subrange(0, n as int));
    }
    while rest.len() > 0
        invariant
            n == input.len(),
            done <= n,
            rest@ == input.subrange(done as int, n as int),
            out@.to_multiset().add(rest@.to_multiset()) == input.to_multiset(),
            sorted_by_id(out@),
            out@.len() == done,
            perm.len() == done,
            forall|k: int| 0 <= k < done ==> 0 <= #[trigger] perm[k] < done,
            forall|k: int, l: int| 0 <= k < l < done ==> #[trigger] perm[k] != #[trigger] perm[l],
            forall|k: int| 0 <= k < done ==> out@[k] == input[#[trigger] perm[k]],
            forall|k: int, l: int|
                0 <= k < l < done && out@[k].id@ == out@[l].id@ ==> #[trigger] perm[k]
                    < #[trigger] perm[l],
        decreases rest@.len(),
    {
        let ghost before = rest@;
        let x = rest.remove(0);
        proof {
            assert(rest@ == before.remove(0));
            assert(rest@ =~= input.subrange(done + 1, n as int));
            assert(x == input[done as int]);
        }
        let mut pos: usize = 0;
        while pos < out.len() && text_le(out[pos].id.as_str(), x.id.as_str())
            invariant
                pos <= out@.len(),
                forall|k: int| 0 <= k < pos ==> seq_le(#[trigger] out@[k].id@, x.id@),
            decreases out@.len() - pos,
        {
            pos += 1;
        }
        proof {
            if pos < out@.len() {
                crate::text::lemma_seq_le_total(out@[pos as int].id@, x.id@);
                assert forall|k: int| pos <= k < out@.len() implies seq_le(
                    x.id@,
                    #[trigger] out@[k].id@,
                ) && out@[k].id@ != x.id@ by {
                    if k > pos {
                        crate::text::lemma_seq_le_transitive(
                            x.id@,
                            out@[pos as int].id@,
                            out@[k].id@,
                        );
                    }
                    if out@[k].id@ == x.id@ {
                        if k > pos {
                            assert(seq_le(out@[pos as int].id@, out@[k].id@));
                        }
                        assert(seq_le(out@[pos as int].id@, x.id@));
                    }
                }
            }
        }
        let ghost old_out = out@;
        let ghost old_perm = perm;
        out.insert(pos, x);
        proof {
            perm = old_perm.insert(pos as int, done as int);
            assert(out@ == old_out.insert(pos as int, x));
            vstd::seq_lib::to_multiset_insert(old_out, pos as int, x);
            vstd::seq_lib::to_multiset_remove(before, 0);
            assert(before[0] == x);
            assert(before.contains(x));
            vstd::seq_lib::to_multiset_contains(before, x);
            assert(before.to_multiset() =~= rest@.to_multiset().insert(x));
            assert(out@.to_multiset().add(rest@.to_multiset()) =~= old_out.to_multiset().add(
                before.to_multiset(),
            ));
            assert forall|i: int, j: int| 0 <= i < j < out@.len() implies seq_le(
                #[trigger] out@[i].id@,
                #[trigger] out@[j].id@,
            ) by {
                if i < pos && j == pos {
                } else if i < pos && j > pos {
                    assert(out@[j] == old_out[j - 1]);
                } else if i == pos && j > pos {
                    assert(out@[j] == old_out[j - 1]);
                } else if i > pos {
                    assert(out@[i] == old_out[i - 1]);
                    assert(out@[j] == old_out[j - 1]);
                } else {
                    assert(out@[i] == old_out[i]);
                    assert(out@[j] == old_out[j]);
                }
            }
            assert forall|k: int| 0 <= k < done + 1 implies 0 <= #[trigger] perm[k] < done + 1
                && out@[k] == input[perm[k]] by {
                if k < pos {
                    assert(perm[k] == old_perm[k]);
                    assert(out@[k] == old_out[k]);
                } else if k > pos {
                    assert(perm[k] == old_perm[k - 1]);
                    assert(out@[k] == old_out[k - 1]);
                }
            }
            assert forall|k: int, l: int| 0 <= k < l < done + 1 implies #[trigger] perm[k]
                != #[trigger] perm[l] by {
                let kk = if k < pos {
                    k
                } else {
                    k - 1
                };
                let ll = if l < pos {
                    l
                } else {
                    l - 1
                };
                if k != pos && l != pos {
                    assert(perm[k] == old_perm[kk]);
                    assert(perm[l] == old_perm[ll]);
                    assert(old_perm[kk] != old_perm[ll]);
                } else if k == pos {
                    assert(perm[l] == old_perm[ll]);
                } else {
                    assert(perm[k] == old_perm[kk]);
                }
            }
            assert forall|k: int, l: int|
                0 <= k < l < done + 1 && out@[k].id@ == out@[l].id@ implies #[trigger] perm[k]
                < #[trigger] perm[l] by {
                let kk = if k < pos {
                    k
                } else {
                    k - 1
                };
                let ll = if l < pos {
                    l
                } else {
                    l - 1
                };
                if k != pos && l != pos {
                    assert(perm[k] == old_perm[kk]);
                    assert(perm[l] == old_perm[ll]);
                    assert(out@[k] == old_out[kk]);
                    assert(out@[l] == old_out[ll]);
                } else if k == pos {
                    assert(out@[l] == old_out[ll]);
                    assert(l > pos);
                    assert(out@[l].id@ != x.id@);
                } else {
                    assert(perm[k] == old_perm[kk]);
                }
            }
        }
        done = done + 1;
    }
    proof {
        vstd::multiset::lemma_multiset_empty_len(rest@.to_multiset());
        assert(rest@.to_multiset() =~= Multiset::<ContainerState>::empty());
        assert(out@.to_multiset().add(rest@.to_multiset()) =~= out@.to_multiset());
        assert(stable_sort_by_id(input, out@, perm));
    }
    out
}

// ---------------------------------------------------------------------------
// Laws of the lifecycle
// ---------------------------------------------------------------------------

/// Starting and stopping a container never changes what the container is:
/// its id, bundle, network mode, security profile and creation time stay;
/// once stopped it has no process and no cgroup.
pub proof fn lemma_lifecycle_keeps_identity(
    s: ContainerStateView,
    pid: i32,
    cgroup_path: Option<Seq<char>>,
    exit_code: Option<i32>,
    signal: Option<Seq<char>>,
    started: u64,
    stopped: u64,
)
    ensures
        ({
            let r = s.marked_running(pid, cgroup_path, started);
            let t = r.marked_stopped(exit_code, signal, stopped);
            &&& r.id == s.id && t.id == s.id
            &&& r.bundle == s.bundle && t.bundle == s.bundle
            &&& r.network_mode == s.network_mode && t.network_mode == s.network_mode
            &&& r.security_profile == s.security_profile && t.security_profile
                == s.security_profile
            &&& r.created_at_unix == s.created_at_unix && t.created_at_unix == s.created_at_unix
            &&& r.status == ContainerStatus::Running && r.pid == Some(pid)
            &&& r.exit_code is None && r.signal is None
            &&& t.status == ContainerStatus::Stopped && t.pid is None && t.cgroup_path is None
            &&& t.exit_code == exit_code && t.signal == signal
        }),
{
}

/// A record whose process has just started, and is alive, is current; a
/// record made stopped is never stale again, whatever its process does.
pub proof fn lemma_liveness_settles(
    s: ContainerStateView,
    pid: i32,
    cgroup_path: Option<Seq<char>>,
    exit_code: Option<i32>,
    signal: Option<Seq<char>>,
    now: u64,
    pid_alive: bool,
)
    ensures
        !is_stale(s.marked_running(pid, cgroup_path, now), true),
        !is_stale(s.marked_stopped(exit_code, signal, now), pid_alive),
        !is_stale(s.marked_stopped_without_time(), pid_alive),
        s.status != ContainerStatus::Running ==> !is_stale(s, pid_alive),
{
}

/// Refreshing twice is refreshing once: after a refresh the record is not
/// stale, so a second refresh changes nothing.
pub proof fn lemma_refresh_idempotent(s: ContainerStateView, first: bool, second: bool, now: u64)
    ensures
        ({
            let t = if is_stale(s, first) {
                s.marked_stopped(None, stale_signal(), now)
            } else {
                s
            };
            &&& !is_stale(t, first)
            &&& is_stale(s, first) ==> !is_stale(t, second)
        }),
{
}

/// Through the lifecycle: a created record can be started and deleted; a
/// record whose process has ended (whether or not the clock could be read)
/// can be deleted and not started again; a running record can be neither
/// deleted nor started.
pub proof fn lemma_delete_and_start_permissions(
    id: Seq<char>,
    bundle: Seq<char>,
    network_mode: Seq<char>,
    security_profile: Seq<char>,
    now: u64,
    s: ContainerStateView,
    pid: i32,
    cgroup_path: Option<Seq<char>>,
    exit_code: Option<i32>,
    signal: Option<Seq<char>>,
)
    ensures
        may_start(created_view(id, bundle, network_mode, security_profile, now).status),
        may_delete(created_view(id, bundle, network_mode, security_profile, now).status),
        may_delete(s.marked_stopped(exit_code, signal, now).status),
        !may_start(s.marked_stopped(exit_code, signal, now).status),
        may_delete(s.marked_stopped_without_time().status),
        !may_start(s.marked_stopped_without_time().status),
        !may_delete(s.marked_running(pid, cgroup_path, now).status),
        !may_start(s.marked_running(pid, cgroup_path, now).status),
        !may_delete(s.marked_running_without_time(pid, cgroup_path).status),
        !may_delete(
            running_view(id, bundle, pid, cgroup_path, network_mode, security_profile, now).status,
        ),
{
}

/// A valid id is one path component: it holds no `/`, so the container's
/// directory is the root followed by `/` and the id (for a root that is not
/// empty and does not end in `/`).
pub proof fn lemma_valid_id_is_one_component(root: Seq<char>, id: Seq<char>)
    requires
        valid_id(id),
        root.len() > 0,
        root.last() != '/',
    ensures
        forall|i: int| 0 <= i < id.len() ==> id[i] != '/',
        path_join(root, id) == root + "/"@ + id,
{
    assert forall|i: int| 0 <= i < id.len() implies id[i] != '/' by {
        assert(id_char(id[i]));
    }
    assert(id[0] != '/');
}


/// The state of a container with a valid id is kept in
/// `/run/crun-rs/<id>/state.json`.
pub proof fn lemma_state_file_location(id: Seq<char>)
    requires
        valid_id(id),
    ensures
        path_join(path_join(DEFAULT_STATE_ROOT@, id), "state.json"@) == "/run/crun-rs/"@ + id
            + "/state.json"@,
{
    reveal_strlit("/run/crun-rs");
    reveal_strlit("/run/crun-rs/");
    reveal_strlit("state.json");
    reveal_strlit("/state.json");
    reveal_strlit("/");
    lemma_valid_id_is_one_component(DEFAULT_STATE_ROOT@, id);
    let dir = DEFAULT_STATE_ROOT@ + "/"@ + id;
    assert(dir.last() == id.last());
    assert(id_char(id[id.len() - 1]));
    assert("state.json"@[0] != '/');
    assert(dir + "/"@ + "state.json"@ =~= "/run/crun-rs/"@ + id + "/state.json"@);
}


/// A stored record without a network mode or security profile reads as the
/// bridge mode and the default profile, and those names read back as them.
pub proof fn lemma_defaults_name_the_default_modes()
    ensures
        "bridge"@ == crate::network::network_mode_name(crate::network::NetworkMode::Bridge),
        "default"@ == crate::security::security_profile_name(
            crate::security::SecurityProfile::Default,
        ),
        crate::network::network_mode_named("bridge"@) == Some(
            crate::network::NetworkMode::Bridge,
        ),
        crate::security::security_profile_named("default"@) == Some(
            crate::security::SecurityProfile::Default,
        ),
{
    crate::network::lemma_network_mode_name_round_trip(crate::network::NetworkMode::Bridge);
    crate::security::lemma_security_profile_name_round_trip(
        crate::security::SecurityProfile::Default,
    );
}

/// Each lifecycle step records exactly what it is given: starting records
/// the process `pid` and the cgroup path `cgroup_path` it was started with
/// (whatever the record held before), with the time `now` and no last exit;
/// stopping forgets the process and its cgroup and records the exit code and
/// signal it is given; a record created or started without one holds its
/// inputs field by field.
pub proof fn lemma_steps_record_their_inputs(
    s: ContainerStateView,
    id: Seq<char>,
    bundle: Seq<char>,
    network_mode: Seq<char>,
    security_profile: Seq<char>,
    pid: i32,
    cgroup_path: Option<Seq<char>>,
    exit_code: Option<i32>,
    signal: Option<Seq<char>>,
    now: u64,
)
    ensures
        s.marked_running(pid, cgroup_path, now).cgroup_path == cgroup_path,
        s.marked_running(pid, cgroup_path, now).pid == Some(pid),
        s.marked_running(pid, cgroup_path, now).updated_at_unix == now,
        s.marked_running_without_time(pid, cgroup_path).cgroup_path == cgroup_path,
        s.marked_running_without_time(pid, cgroup_path).pid == Some(pid),
        s.marked_running_without_time(pid, cgroup_path).status == ContainerStatus::Running,
        s.marked_running_without_time(pid, cgroup_path).updated_at_unix == s.updated_at_unix,
        s.marked_stopped(exit_code, signal, now).exit_code == exit_code,
        s.marked_stopped(exit_code, signal, now).signal == signal,
        s.marked_stopped(exit_code, signal, now).cgroup_path is None,
        s.marked_stopped(exit_code, signal, now).updated_at_unix == now,
        s.marked_stopped_without_time().pid is None,
        s.marked_stopped_without_time().status == ContainerStatus::Stopped,
        s.marked_stopped_without_time().cgroup_path == s.cgroup_path,
        s.marked_stopped_without_time().exit_code == s.exit_code,
        ({
            let c = created_view(id, bundle, network_mode, security_profile, now);
            &&& c.id == id && c.bundle == bundle && c.network_mode == network_mode
            &&& c.security_profile == security_profile
            &&& c.pid is None && c.cgroup_path is None && c.exit_code is None && c.signal is None
            &&& c.created_at_unix == now && c.updated_at_unix == now
            &&& c.marked_running(pid, cgroup_path, now).cgroup_path == cgroup_path
        }),
        ({
            let r = running_view(id, bundle, pid, cgroup_path, network_mode, security_profile, now);
            &&& r.id == id && r.bundle == bundle && r.network_mode == network_mode
            &&& r.security_profile == security_profile
            &&& r.pid == Some(pid) && r.cgroup_path == cgroup_path
            &&& r.status == ContainerStatus::Running
            &&& r.exit_code is None && r.signal is None
            &&& r.created_at_unix == now && r.updated_at_unix == now
        }),
{
}

/// Joining paths as std's `Path::join` does: an absolute part replaces the
/// base; a relative part is put under the base with one `/` between them
/// (none added when the base already ends in `/`, and none for an empty
/// base). Either way the result ends with the part.
pub proof fn lemma_path_join_as_std(base: Seq<char>, part: Seq<char>)
    ensures
        part.len() > 0 && part[0] == '/' ==> path_join(base, part) == part,
        !(part.len() > 0 && part[0] == '/') && base.len() > 0 && base.last() != '/' ==> path_join(
            base,
            part,
        ) == base + seq!['/'] + part,
        !(part.len() > 0 && part[0] == '/') && base.len() > 0 && base.last() == '/' ==> path_join(
            base,
            part,
        ) == base + part,
        base.len() == 0 ==> path_join(base, part) == part,
        path_join(base, part).len() >= part.len(),
        path_join(base, part).subrange(
            path_join(base, part).len() - part.len(),
            path_join(base, part).len() as int,
        ) == part,
{
    reveal_strlit("/");
    let j = path_join(base, part);
    if part.len() > 0 && part[0] == '/' {
        assert(j.subrange(0, j.len() as int) =~= part);
    } else if base.len() == 0 {
        assert(j.subrange(0, j.len() as int) =~= part);
    } else if base.last() == '/' {
        assert(j.subrange(j.len() - part.len(), j.len() as int) =~= part);
    } else {
        assert("/"@ =~= seq!['/']);
        assert(j.subrange(j.len() - part.len(), j.len() as int) =~= part);
    }
}

} // verus!
