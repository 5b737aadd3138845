use container_runtime::signal::{
    parse_signal, parse_signal_spec, SignalError, SignalName, SignalSpec, DEFAULT_SIGNAL,
};

#[test]
fn parses_named_signals() {
    assert_eq!(parse_signal("SIGTERM").expect("term"), nix::libc::SIGTERM);
    assert_eq!(
        parse_signal("term").expect("term without prefix"),
        nix::libc::SIGTERM
    );
    assert_eq!(parse_signal("KILL").expect("kill"), nix::libc::SIGKILL);
}

#[test]
fn parses_numeric_signals() {
    assert_eq!(parse_signal("15").expect("number"), 15);
    assert!(parse_signal("0").is_err());
}

#[test]
fn parses_every_known_name() {
    let cases = [
        ("HUP", nix::libc::SIGHUP),
        ("int", nix::libc::SIGINT),
        ("SigQuit", nix::libc::SIGQUIT),
        (" sigkill ", nix::libc::SIGKILL),
        ("SIGTERM", nix::libc::SIGTERM),
        ("usr1", nix::libc::SIGUSR1),
        ("SIGUSR2", nix::libc::SIGUSR2),
        ("stop", nix::libc::SIGSTOP),
        ("SIGCONT", nix::libc::SIGCONT),
    ];
    for (name, number) in cases {
        assert_eq!(parse_signal(name), Ok(number), "{name}");
    }
    assert_eq!(parse_signal(DEFAULT_SIGNAL), Ok(nix::libc::SIGTERM));
}

#[test]
fn rejects_bad_signals_with_their_text() {
    assert_eq!(
        parse_signal("-3"),
        Err(SignalError::NotPositive("-3".to_string()))
    );
    assert_eq!(
        parse_signal("SIG0").unwrap_err().message(),
        "signal number must be positive: SIG0"
    );
    assert_eq!(
        parse_signal("SIGSIGTERM"),
        Err(SignalError::Unsupported("SIGSIGTERM".to_string()))
    );
    assert_eq!(
        parse_signal("bogus").unwrap_err().message(),
        "unsupported signal: bogus"
    );
    assert!(parse_signal("99999999999").is_err());
}

#[test]
fn reads_signal_specs() {
    assert_eq!(parse_signal_spec("sig9"), Ok(SignalSpec::Number(9)));
    assert_eq!(parse_signal_spec("+12"), Ok(SignalSpec::Number(12)));
    assert_eq!(
        parse_signal_spec("\tSigHup\n"),
        Ok(SignalSpec::Named(SignalName::Hup))
    );
}

#[test]
fn named_signals_have_their_own_numbers() {
    let names = [
        SignalName::Hup,
        SignalName::Int,
        SignalName::Quit,
        SignalName::Kill,
        SignalName::Term,
        SignalName::Usr1,
        SignalName::Usr2,
        SignalName::Stop,
        SignalName::Cont,
    ];
    let numbers: Vec<i32> = names.iter().map(|s| s.number()).collect();
    assert_eq!(
        numbers,
        vec![
            nix::libc::SIGHUP,
            nix::libc::SIGINT,
            nix::libc::SIGQUIT,
            nix::libc::SIGKILL,
            nix::libc::SIGTERM,
            nix::libc::SIGUSR1,
            nix::libc::SIGUSR2,
            nix::libc::SIGSTOP,
            nix::libc::SIGCONT,
        ]
    );
    for i in 0..numbers.len() {
        for j in (i + 1)..numbers.len() {
            assert_ne!(numbers[i], numbers[j]);
        }
    }
}

#[test]
fn spellings_of_one_signal_agree() {
    for (a, b) in [
        ("term", " SIGTERM "),
        ("sigkill", "KILL"),
        ("usr1", "SigUsr1"),
        ("STOP", "sigstop"),
        ("9", "sig9"),
    ] {
        let (x, y) = (parse_signal(a), parse_signal(b));
        assert_eq!(x, y, "{a} / {b}");
        assert!(x.expect("known signal") > 0);
    }
    assert!(parse_signal("bogus").is_err() && parse_signal("SIGBOGUS").is_err());
}
