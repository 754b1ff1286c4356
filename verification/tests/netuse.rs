use std::cell::RefCell;

use nasmirror::engine::netuse::{
    closable, connect, describe_code, server_connections, server_root, to_wide,
    ExistingConnection, NetAction, NetReport, NetUseError,
};

/// Runs a connection to its end, answering each action with the given
/// stand-ins for the Win32 calls.
fn drive(
    share: &str,
    user: &str,
    password: &str,
    disconnect: &dyn Fn(&str),
    add: &dyn Fn(&str, &str, &str) -> u32,
    list: &dyn Fn() -> Vec<ExistingConnection>,
) -> Result<(), NetUseError> {
    let (mut connection, mut action) = connect(share, user, password);
    loop {
        let report = match action {
            NetAction::Disconnect(remote) => {
                disconnect(&remote);
                NetReport::Disconnected
            }
            NetAction::Add { share, user, password } => {
                NetReport::Added(add(&share, &user, &password))
            }
            NetAction::List => NetReport::Listed(list()),
            NetAction::Done(result) => return result,
        };
        assert!(connection.accepts(&report));
        action = connection.step(report);
    }
}

#[test]
fn server_root_of_share() {
    assert_eq!(server_root(r"\\NAS\backup").as_deref(), Some(r"\\NAS"));
    assert_eq!(server_root(r"\\nas").as_deref(), Some(r"\\nas"));
    assert_eq!(server_root(r"\\"), None);
}

#[test]
fn describe_known_and_unknown_codes() {
    assert!(describe_code(1326).contains("wrong user name or password"));
    assert!(describe_code(67).contains("shared folder"));
    assert_eq!(describe_code(999), "network error 999");
}

#[test]
fn describe_code_appends_the_code() {
    assert_eq!(describe_code(86), "wrong user name or password (code 86)");
    assert_eq!(describe_code(5), "access denied for that user (code 5)");
}

fn conn(remote: &str, local: &str) -> ExistingConnection {
    ExistingConnection { remote: remote.to_string(), local: local.to_string() }
}

#[test]
fn connections_are_matched_by_server_in_any_case() {
    let all = vec![
        conn(r"\\nas\photos", ""),
        conn(r"\\other\x", "Y:"),
        conn(r"\\NAS", ""),
        conn(r"\\nasty\x", ""),
        conn(r"\\Nas\music", "Z:"),
    ];
    let found = server_connections(r"\\NAS\backup", &all);
    let remotes: Vec<&str> = found.iter().map(|c| c.remote.as_str()).collect();
    assert_eq!(remotes, [r"\\nas\photos", r"\\NAS", r"\\Nas\music"]);
    assert_eq!(closable(&found), vec![r"\\nas\photos".to_string(), r"\\NAS".to_string()]);
}

#[test]
fn wide_strings_end_with_zero() {
    assert_eq!(to_wide("ab"), vec![97, 98, 0]);
    assert_eq!(to_wide("é"), vec![0xE9, 0]);
    assert_eq!(to_wide("𝄞"), vec![0xD834, 0xDD1E, 0]);
}

#[test]
fn connect_succeeds_at_first_try() {
    let closed = RefCell::new(Vec::<String>::new());
    let r = drive(
        r"\\nas\backup",
        "me",
        "pw",
        &|s: &str| closed.borrow_mut().push(s.to_string()),
        &|_: &str, _: &str, _: &str| 0,
        &|| Vec::new(),
    );
    assert!(r.is_ok());
    assert_eq!(*closed.borrow(), vec![r"\\nas\backup".to_string()]);
}

#[test]
fn connect_reports_the_code() {
    let r = drive(r"\\nas\backup", "me", "pw", &|_: &str| {}, &|_: &str, _: &str, _: &str| 1326, &|| {
        Vec::new()
    });
    match r {
        Err(NetUseError::Connect { share, code }) => {
            assert_eq!(share, r"\\nas\backup");
            assert_eq!(code, 1326);
        }
        _ => panic!("expected a connection error"),
    }
    let e = NetUseError::Connect { share: r"\\nas\backup".into(), code: 53 };
    assert_eq!(
        e.message(),
        r"could not connect to \\nas\backup: network path not found (is the server name right, and the machine on?) (code 53)"
    );
}

#[test]
fn credential_conflict_closes_only_transient_connections() {
    let closed = RefCell::new(Vec::<String>::new());
    let attempts = RefCell::new(0u32);
    let r = drive(
        r"\\nas\backup",
        "me",
        "pw",
        &|s: &str| closed.borrow_mut().push(s.to_string()),
        &|_: &str, _: &str, _: &str| {
            *attempts.borrow_mut() += 1;
            if *attempts.borrow() == 1 { 1219 } else { 0 }
        },
        &|| vec![conn(r"\\nas\photos", ""), conn(r"\\nas\music", "Z:"), conn(r"\\other\x", "")],
    );
    assert!(r.is_ok());
    assert_eq!(*attempts.borrow(), 2);
    assert_eq!(
        *closed.borrow(),
        vec![r"\\nas\backup".to_string(), r"\\nas\photos".to_string()]
    );
}

#[test]
fn conflict_caused_by_mapped_drives_names_them() {
    let r = drive(
        r"\\nas\backup",
        "me",
        "pw",
        &|_: &str| {},
        &|_: &str, _: &str, _: &str| 1219,
        &|| vec![conn(r"\\nas\music", "Z:"), conn(r"\\nas\video", "Y:")],
    );
    match r {
        Err(e @ NetUseError::MappedDriveConflict { .. }) => {
            assert_eq!(
                e.message(),
                r"\\nas is already connected as a different user through Z: (\\nas\music), Y: (\\nas\video). Disconnect those network drives, or use the same user in this job"
            );
        }
        _ => panic!("expected a mapped drive conflict"),
    }
}

#[test]
fn connect_hands_over_the_credentials() {
    let seen = RefCell::new(Vec::<(String, String, String)>::new());
    let r = drive(
        r"\\nas\backup",
        "me",
        "pw",
        &|_: &str| {},
        &|s: &str, u: &str, p: &str| {
            seen.borrow_mut().push((s.to_string(), u.to_string(), p.to_string()));
            0
        },
        &|| Vec::new(),
    );
    assert!(r.is_ok());
    assert_eq!(
        *seen.borrow(),
        vec![(r"\\nas\backup".to_string(), "me".to_string(), "pw".to_string())]
    );
}

#[test]
fn retry_after_conflict_reports_its_own_code() {
    let attempts = RefCell::new(0u32);
    let r = drive(
        r"\\nas\backup",
        "me",
        "pw",
        &|_: &str| {},
        &|_: &str, _: &str, _: &str| {
            *attempts.borrow_mut() += 1;
            if *attempts.borrow() == 1 { 1219 } else { 1326 }
        },
        &|| vec![conn(r"\\nas\photos", "")],
    );
    assert_eq!(*attempts.borrow(), 2);
    match r {
        Err(NetUseError::Connect { code, .. }) => assert_eq!(code, 1326),
        _ => panic!("expected a connection error"),
    }
}
