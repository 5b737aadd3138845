//! Signals: reading a signal from its name or number.
use vstd::prelude::*;

use crate::text::{
    ascii_upper, chars_of, parse_i32_chars, parse_i32_spec, push_str, starts_with_at, trim,
    trim_bounds, upper_chars,
};

verus! {

/// The signal that `kill` sends when none is named.
pub const DEFAULT_SIGNAL: &'static str = "SIGTERM";

/// libc's `SIGHUP`: 1 on every Linux target.
#[verifier::external_body]
fn sighup() -> (r: i32)
    ensures
        r == 1,
{
    nix::libc::SIGHUP
}

/// libc's `SIGINT`: 2 on every Linux target.
#[verifier::external_body]
fn sigint() -> (r: i32)
    ensures
        r == 2,
{
    nix::libc::SIGINT
}

/// libc's `SIGQUIT`: 3 on every Linux target.
#[verifier::external_body]
fn sigquit() -> (r: i32)
    ensures
        r == 3,
{
    nix::libc::SIGQUIT
}

/// libc's `SIGKILL`: 9 on every Linux target.
#[verifier::external_body]
fn sigkill() -> (r: i32)
    ensures
        r == 9,
{
    nix::libc::SIGKILL
}

/// libc's `SIGTERM`: 15 on every Linux target.
#[verifier::external_body]
fn sigterm() -> (r: i32)
    ensures
        r == 15,
{
    nix::libc::SIGTERM
}

/// libc's `SIGUSR1`. libc defines it per architecture: 10 on most Linux
/// targets, 16 on MIPS and 30 on SPARC; this states that it is one of those.
#[verifier::external_body]
fn sigusr1() -> (r: i32)
    ensures
        r == 10 || r == 16 || r == 30,
{
    nix::libc::SIGUSR1
}

/// libc's `SIGUSR2`. libc defines it per architecture: 12 on most Linux
/// targets, 17 on MIPS and 31 on SPARC; this states that it is one of those.
#[verifier::external_body]
fn sigusr2() -> (r: i32)
    ensures
        r == 12 || r == 17 || r == 31,
{
    nix::libc::SIGUSR2
}

/// libc's `SIGSTOP`. libc defines it per architecture: 19 on most Linux
/// targets, 23 on MIPS and 17 on SPARC; this states that it is one of those.
#[verifier::external_body]
fn sigstop() -> (r: i32)
    ensures
        r == 19 || r == 23 || r == 17,
{
    nix::libc::SIGSTOP
}

/// libc's `SIGCONT`. libc defines it per architecture: 18 on most Linux
/// targets, 25 on MIPS and 19 on SPARC; this states that it is one of those.
#[verifier::external_body]
fn sigcont() -> (r: i32)
    ensures
        r == 18 || r == 25 || r == 19,
{
    nix::libc::SIGCONT
}

/// The signals that the runtime knows by name.
#[derive(Debug, Clone, Copy, PartialEq, Eq, Structural)]
pub enum SignalName {
    Hup,
    Int,
    Quit,
    Kill,
    Term,
    Usr1,
    Usr2,
    Stop,
    Cont,
}

/// A signal as a user wrote it: by number or by name.
#[derive(Debug, Clone, Copy, PartialEq, Eq, Structural)]
pub enum SignalSpec {
    Number(i32),
    Named(SignalName),
}

/// Why a signal could not be read; each holds the text as given.
#[derive(Debug, Clone, PartialEq, Eq)]
pub enum SignalError {
    NotPositive(String),
    Unsupported(String),
}

/// The part of `value` that names the signal: trimmed, upper-cased, and
/// without one leading `SIG`.
pub open spec fn signal_name_of(value: Seq<char>) -> Seq<char> {
    let u = ascii_upper(trim(value));
    if u.len() >= 3 && u.subrange(0, 3) == "SIG"@ {
        u.subrange(3, u.len() as int)
    } else {
        u
    }
}

/// The signal that a bare name (without `SIG`) names.
pub open spec fn signal_named(name: Seq<char>) -> Option<SignalName> {
    if name == "HUP"@ {
        Some(SignalName::Hup)
    } else if name == "INT"@ {
        Some(SignalName::Int)
    } else if name == "QUIT"@ {
        Some(SignalName::Quit)
    } else if name == "KILL"@ {
        Some(SignalName::Kill)
    } else if name == "TERM"@ {
        Some(SignalName::Term)
    } else if name == "USR1"@ {
        Some(SignalName::Usr1)
    } else if name == "USR2"@ {
        Some(SignalName::Usr2)
    } else if name == "STOP"@ {
        Some(SignalName::Stop)
    } else if name == "CONT"@ {
        Some(SignalName::Cont)
    } else {
        None
    }
}

/// The numbers that libc gives a named signal across the Linux targets it
/// supports: one number where all agree, else the architecture's choices.
pub open spec fn linux_signal_number(s: SignalName, n: int) -> bool {
    match s {
        SignalName::Hup => n == 1,
        SignalName::Int => n == 2,
        SignalName::Quit => n == 3,
        SignalName::Kill => n == 9,
        SignalName::Term => n == 15,
        SignalName::Usr1 => n == 10 || n == 16 || n == 30,
        SignalName::Usr2 => n == 12 || n == 17 || n == 31,
        SignalName::Stop => n == 19 || n == 23 || n == 17,
        SignalName::Cont => n == 18 || n == 25 || n == 19,
    }
}

/// What `parse_signal_spec` gives for `value`, the error aside.
pub open spec fn signal_spec_of(value: Seq<char>) -> Option<SignalSpec> {
    let name = signal_name_of(value);
    match parse_i32_spec(name) {
        Some(n) => if n > 0 {
            Some(SignalSpec::Number(n))
        } else {
            None
        },
        None => match signal_named(name) {
            Some(s) => Some(SignalSpec::Named(s)),
            None => None,
        },
    }
}

fn chars_equal(v: &Vec<char>, from: usize, p: &str) -> (r: bool)
    requires
        from <= v@.len(),
    ensures
        r == (v@.subrange(from as int, v@.len() as int) == p@),
{
    let starts = starts_with_at(v, from, p);
    let n = v.len();
    if starts && n - from == p.unicode_len() {
        assert(v@.subrange(from as int, v@.len() as int) =~= v@.subrange(
            from as int,
            from + p@.len(),
        ));
        true
    } else {
        proof {
            if v@.subrange(from as int, v@.len() as int) == p@ {
                assert(v@.subrange(from as int, from + p@.len()) =~= p@);
            }
        }
        false
    }
}

/// Reads a signal from its number (`15`) or its name, with or without `SIG`
/// and in either case (`SIGTERM`, `term`).
pub fn parse_signal_spec(value: &str) -> (r: Result<SignalSpec, SignalError>)
    ensures
        ({
            let name = signal_name_of(value@);
            match parse_i32_spec(name) {
                Some(n) => if n > 0 {
                    r == Ok::<SignalSpec, SignalError>(SignalSpec::Number(n))
                } else {
                    r matches Err(SignalError::NotPositive(v)) && v@ == value@
                },
                None => match signal_named(name) {
                    Some(s) => r == Ok::<SignalSpec, SignalError>(SignalSpec::Named(s)),
                    None => r matches Err(SignalError::Unsupported(v)) && v@ == value@,
                },
            }
        }),
{
    let v = chars_of(value);
    assert(v@.subrange(0, v@.len() as int) =~= value@);
    let (a, b) = trim_bounds(&v, 0, v.len());
    let u = upper_chars(&v, a, b);
    let start: usize = if starts_with_at(&u, 0, "SIG") {
        3
    } else {
        0
    };
    proof {
        reveal_strlit("SIG");
        assert(u@.subrange(0, u@.len() as int) =~= u@);
        assert(u@.subrange(start as int, u@.len() as int) == signal_name_of(value@));
    }
    match parse_i32_chars(&u, start, u.len()) {
        Some(n) => {
            if n > 0 {
                Ok(SignalSpec::Number(n))
            } else {
                Err(SignalError::NotPositive(crate::text::owned(value)))
            }
        },
        None => {
            if chars_equal(&u, start, "HUP") {
                Ok(SignalSpec::Named(SignalName::Hup))
            } else if chars_equal(&u, start, "INT") {
                Ok(SignalSpec::Named(SignalName::Int))
            } else if chars_equal(&u, start, "QUIT") {
                Ok(SignalSpec::Named(SignalName::Quit))
            } else if chars_equal(&u, start, "KILL") {
                Ok(SignalSpec::Named(SignalName::Kill))
            } else if chars_equal(&u, start, "TERM") {
                Ok(SignalSpec::Named(SignalName::Term))
            } else if chars_equal(&u, start, "USR1") {
                Ok(SignalSpec::Named(SignalName::Usr1))
            } else if chars_equal(&u, start, "USR2") {
                Ok(SignalSpec::Named(SignalName::Usr2))
            } else if chars_equal(&u, start, "STOP") {
                Ok(SignalSpec::Named(SignalName::Stop))
            } else if chars_equal(&u, start, "CONT") {
                Ok(SignalSpec::Named(SignalName::Cont))
            } else {
                Err(SignalError::Unsupported(crate::text::owned(value)))
            }
        },
    }
}

impl SignalName {
    /// The number of this signal on the running system.
    pub fn number(self) -> (r: i32)
        ensures
            linux_signal_number(self, r as int),
    {
        match self {
            SignalName::Hup => sighup(),
            SignalName::Int => sigint(),
            SignalName::Quit => sigquit(),
            SignalName::Kill => sigkill(),
            SignalName::Term => sigterm(),
            SignalName::Usr1 => sigusr1(),
            SignalName::Usr2 => sigusr2(),
            SignalName::Stop => sigstop(),
            SignalName::Cont => sigcont(),
        }
    }
}

/// What `parse_signal` may return for `value`: the number itself, a number
/// that libc gives the named signal on some Linux target, or the error that
/// `parse_signal_spec` gives.
pub open spec fn parse_signal_outcome(value: Seq<char>, r: Result<i32, SignalError>) -> bool {
    match signal_spec_of(value) {
        Some(SignalSpec::Number(n)) => r == Ok::<i32, SignalError>(n),
        Some(SignalSpec::Named(s)) => r matches Ok(n) && linux_signal_number(s, n as int),
        None => ({
            let name = signal_name_of(value);
            &&& parse_i32_spec(name) is Some ==> (r matches Err(SignalError::NotPositive(v)) && v@
                == value)
            &&& parse_i32_spec(name) is None ==> (r matches Err(SignalError::Unsupported(v)) && v@
                == value)
        }),
    }
}

/// Whether a named signal has the same number on every Linux target.
pub open spec fn same_on_every_linux(s: SignalName) -> bool {
    match s {
        SignalName::Hup | SignalName::Int | SignalName::Quit | SignalName::Kill
        | SignalName::Term => true,
        _ => false,
    }
}

/// Reads a signal number from a number or a name (see `parse_signal_spec`).
pub fn parse_signal(value: &str) -> (r: Result<i32, SignalError>)
    ensures
        parse_signal_outcome(value@, r),
{
    match parse_signal_spec(value) {
        Ok(SignalSpec::Number(n)) => Ok(n),
        Ok(SignalSpec::Named(s)) => Ok(s.number()),
        Err(e) => Err(e),
    }
}

/// The text of a signal error.
pub open spec fn signal_error_text(e: SignalError) -> Seq<char> {
    match e {
        SignalError::NotPositive(v) => "signal number must be positive: "@ + v@,
        SignalError::Unsupported(v) => "unsupported signal: "@ + v@,
    }
}

impl SignalError {
    /// The text that the runtime shows for this error.
    pub fn message(&self) -> (r: String)
        ensures
            r@ == signal_error_text(*self),
    {
        let mut s = String::new();
        match self {
            SignalError::NotPositive(v) => {
                push_str(&mut s, "signal number must be positive: ");
                push_str(&mut s, v.as_str());
            },
            SignalError::Unsupported(v) => {
                push_str(&mut s, "unsupported signal: ");
                push_str(&mut s, v.as_str());
            },
        }
        assert(s@ =~= signal_error_text(*self));
        s
    }
}


// ---------------------------------------------------------------------------
// Laws
// ---------------------------------------------------------------------------

/// A positive number written in decimal reads back as itself.
pub proof fn lemma_numbers_read_back(n: i32)
    requires
        n > 0,
    ensures
        signal_spec_of(crate::text::decimal(n as nat)) == Some(SignalSpec::Number(n)),
{
    let d = crate::text::decimal(n as nat);
    crate::text::lemma_decimal_digits(n as nat);
    assert(!crate::text::is_ws(d[0])) by {
        assert(crate::text::is_digit(d[0]));
    }
    assert(!crate::text::is_ws(d.last())) by {
        assert(crate::text::is_digit(d[d.len() - 1]));
    }
    assert(crate::text::trim_start(d) == d);
    assert(crate::text::trim_end(d) == d);
    assert(ascii_upper(d) =~= d) by {
        assert forall|i: int| 0 <= i < d.len() implies #[trigger] ascii_upper(d)[i] == d[i] by {
            assert(crate::text::is_digit(d[i]));
        }
    }
    reveal_strlit("SIG");
    assert(!(d.len() >= 3 && d.subrange(0, 3) == "SIG"@)) by {
        if d.len() >= 3 {
            assert(crate::text::is_digit(d[0]));
            assert(d.subrange(0, 3)[0] == d[0]);
            assert("SIG"@[0] == 'S');
        }
    }
    assert(signal_name_of(d) == d);
    assert(crate::text::unsigned_digits(d) == d) by {
        assert(crate::text::is_digit(d[0]));
    }
    assert(d[0] != '-') by {
        assert(crate::text::is_digit(d[0]));
    }
}

proof fn lemma_upper_keeps_ws(c: char)
    ensures
        crate::text::is_ws(crate::text::upper_char(c)) == crate::text::is_ws(c),
        crate::text::upper_char(crate::text::upper_char(c)) == crate::text::upper_char(c),
{
}

proof fn lemma_trim_start_upper(s: Seq<char>)
    ensures
        crate::text::trim_start(ascii_upper(s)) == ascii_upper(crate::text::trim_start(s)),
    decreases s.len(),
{
    if s.len() > 0 {
        lemma_upper_keeps_ws(s[0]);
        assert(ascii_upper(s)[0] == crate::text::upper_char(s[0]));
        assert(ascii_upper(s).drop_first() =~= ascii_upper(s.drop_first()));
        lemma_trim_start_upper(s.drop_first());
    }
}

proof fn lemma_trim_end_upper(s: Seq<char>)
    ensures
        crate::text::trim_end(ascii_upper(s)) == ascii_upper(crate::text::trim_end(s)),
    decreases s.len(),
{
    if s.len() > 0 {
        lemma_upper_keeps_ws(s.last());
        assert(ascii_upper(s).last() == crate::text::upper_char(s.last()));
        assert(ascii_upper(s).drop_last() =~= ascii_upper(s.drop_last()));
        lemma_trim_end_upper(s.drop_last());
    }
}

/// Signals are read without regard to ASCII case: upper-casing the text
/// first changes nothing.
pub proof fn lemma_signal_case_insensitive(value: Seq<char>)
    ensures
        signal_spec_of(ascii_upper(value)) == signal_spec_of(value),
        signal_name_of(ascii_upper(value)) == signal_name_of(value),
{
    lemma_trim_start_upper(value);
    lemma_trim_end_upper(crate::text::trim_start(value));
    let t = trim(value);
    assert(trim(ascii_upper(value)) == ascii_upper(t));
    assert(ascii_upper(ascii_upper(t)) =~= ascii_upper(t)) by {
        assert forall|i: int| 0 <= i < t.len() implies #[trigger] ascii_upper(ascii_upper(t))[i]
            == ascii_upper(t)[i] by {
            lemma_upper_keeps_ws(t[i]);
        }
    }
}

/// The `SIG` prefix is optional: a name that is already trimmed and upper
/// case, and does not itself start with `SIG`, reads the same with it.
pub proof fn lemma_sig_prefix_optional(name: Seq<char>)
    requires
        name.len() > 0,
        !crate::text::is_ws(name[0]),
        !crate::text::is_ws(name.last()),
        ascii_upper(name) == name,
        !(name.len() >= 3 && name.subrange(0, 3) == "SIG"@),
    ensures
        signal_name_of("SIG"@ + name) == name,
        signal_name_of(name) == name,
        signal_spec_of("SIG"@ + name) == signal_spec_of(name),
{
    reveal_strlit("SIG");
    let full = "SIG"@ + name;
    assert(full[0] == 'S');
    assert(full.last() == name.last());
    assert(crate::text::trim_start(full) == full);
    assert(crate::text::trim_end(full) == full);
    assert(crate::text::trim_start(name) == name);
    assert(crate::text::trim_end(name) == name);
    assert(ascii_upper(full) =~= full) by {
        assert forall|i: int| 0 <= i < full.len() implies #[trigger] ascii_upper(full)[i]
            == full[i] by {
            if i >= 3 {
                assert(full[i] == name[i - 3]);
                assert(ascii_upper(name)[i - 3] == name[i - 3]);
            }
        }
    }
    assert(full.subrange(0, 3) =~= "SIG"@);
    assert(full.subrange(3, full.len() as int) =~= name);
}

/// Two spellings that read as the same signal (such as `term`, `SIGTERM`
/// and ` SigTerm `; see `lemma_signal_case_insensitive` and
/// `lemma_sig_prefix_optional`) succeed or fail together; a success is a
/// positive number; and it is the same number for a number and for every
/// name whose number is the same on every Linux target. For `USR1`, `USR2`,
/// `STOP` and `CONT` both results are among the numbers libc gives that
/// signal.
pub proof fn lemma_signal_spelling(
    v1: Seq<char>,
    v2: Seq<char>,
    r1: Result<i32, SignalError>,
    r2: Result<i32, SignalError>,
)
    requires
        signal_spec_of(v1) == signal_spec_of(v2),
        parse_signal_outcome(v1, r1),
        parse_signal_outcome(v2, r2),
    ensures
        r1 is Ok <==> r2 is Ok,
        r1 matches Ok(n) ==> n > 0,
        r2 matches Ok(n) ==> n > 0,
        (signal_spec_of(v1) matches Some(SignalSpec::Number(_))) ==> r1 == r2,
        (signal_spec_of(v1) matches Some(SignalSpec::Named(s)) && same_on_every_linux(s)) ==> r1
            == r2,
        signal_spec_of(v1) matches Some(SignalSpec::Named(s)) ==> (r1 matches Ok(n1)
            && linux_signal_number(s, n1 as int)) && (r2 matches Ok(n2) && linux_signal_number(
            s,
            n2 as int,
        )),
{
    match signal_spec_of(v1) {
        Some(SignalSpec::Number(n)) => {
            assert(n > 0);
        },
        Some(SignalSpec::Named(s)) => {},
        None => {},
    }
}

} // verus!
