use green_light::digest::FileHasher;
use green_light::install::{Action, Event, Install, InstallError, InstallOptions};

const SCRIPT: &str = green_light::install::INSTALL_SCRIPT;
const ABC: &str = "ba7816bf8f01cfea414140de5dae2223b00361a396177a9cb410ff61f20015ad";

fn options(sha256: Option<&str>) -> InstallOptions {
    InstallOptions {
        use_dkms: true,
        hold_packages: false,
        run_file: "/tmp/a.run".to_string(),
        sha256: sha256.map(|s| s.to_string()),
    }
}

fn step(install: &mut Install, event: Event) -> Action {
    assert!(install.accepts(&event));
    install.step(event)
}

fn error(action: Action) -> Option<InstallError> {
    match action {
        Action::Finish { error } => error,
        other => panic!("not over: {other:?}"),
    }
}

fn arguments(action: Action) -> Vec<String> {
    match action {
        Action::Launch { arguments } => arguments,
        other => panic!("no launch: {other:?}"),
    }
}

/// Brings an install to the point where both files are known to exist.
fn checked(options: InstallOptions) -> (Install, Action) {
    let (mut install, first) = Install::begin(options);
    assert!(matches!(first, Action::Check { path } if path == SCRIPT));
    let second = step(&mut install, Event::Checked { exists: true });
    assert!(matches!(second, Action::Check { path } if path == "/tmp/a.run"));
    let third = step(&mut install, Event::Checked { exists: true });
    (install, third)
}

#[test]
fn published_checksum_is_handed_on() {
    let (mut install, action) = checked(options(Some("ABCDEF")));
    assert_eq!(arguments(action), [SCRIPT, "/tmp/a.run", "ABCDEF", "--dkms"]);
    let end = step(&mut install, Event::Exited { success: true, code: Some(0) });
    assert!(error(end).is_none());
    assert!(!install.accepts(&Event::Checked { exists: true }));
}

#[test]
fn missing_checksum_is_computed() {
    let (mut install, action) = checked(options(None));
    assert!(matches!(action, Action::Hash { path } if path == "/tmp/a.run"));
    let hasher = FileHasher::new().update(b"abc");
    let action = step(&mut install, Event::Hashed { hasher });
    assert_eq!(arguments(action), [SCRIPT, "/tmp/a.run", ABC, "--dkms"]);
}

#[test]
fn flags_follow_the_options() {
    for (use_dkms, hold_packages, flags) in [
        (false, false, vec![]),
        (true, false, vec!["--dkms"]),
        (false, true, vec!["--hold"]),
        (true, true, vec!["--dkms", "--hold"]),
    ] {
        let mut o = options(Some("x"));
        o.use_dkms = use_dkms;
        o.hold_packages = hold_packages;
        let (_, action) = checked(o);
        assert_eq!(arguments(action)[3..], flags);
    }
}

#[test]
fn missing_files_are_reported() {
    let (mut install, _) = Install::begin(options(None));
    let e = error(step(&mut install, Event::Checked { exists: false })).unwrap();
    assert_eq!(e.message(), Some(format!("Privileged install script not found at {SCRIPT}")));

    let (mut install, _) = Install::begin(options(None));
    step(&mut install, Event::Checked { exists: true });
    let e = error(step(&mut install, Event::Checked { exists: false })).unwrap();
    assert_eq!(e.message().as_deref(), Some("Run file not found: /tmp/a.run"));
}

#[test]
fn unreadable_run_file_is_reported() {
    let (mut install, _) = checked(options(None));
    let e = error(step(&mut install, Event::NotHashed)).unwrap();
    assert!(matches!(e, InstallError::NotHashed));
    assert_eq!(e.message(), None);
}

#[test]
fn exits_are_told_apart() {
    let end = |event: Event| {
        let (mut install, _) = checked(options(Some("x")));
        error(step(&mut install, event)).and_then(|e| e.message())
    };
    assert_eq!(end(Event::Exited { success: true, code: Some(0) }), None);
    for code in [126, 127] {
        assert_eq!(
            end(Event::Exited { success: false, code: Some(code) }).as_deref(),
            Some("Authentication was cancelled.")
        );
    }
    assert_eq!(
        end(Event::Exited { success: false, code: Some(1) }).as_deref(),
        Some("Install script exited with code 1 (see /var/log/green-light.log)")
    );
    assert_eq!(
        end(Event::Exited { success: false, code: None }).as_deref(),
        Some("Install script exited with code -1 (see /var/log/green-light.log)")
    );
    assert_eq!(
        end(Event::NotLaunched).as_deref(),
        Some("Failed to launch pkexec \u{2014} is polkit installed?")
    );
}
