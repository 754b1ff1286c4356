use nasmirror::engine::restic::{
    backup_args, backup_failure_message, classify_backup_exit, classify_cat_config, forget_args,
    keep_stderr_line,
    map_spawn_error, parse_line, read_fields, event_of, BackupExit, Event, LineFields, ResticError,
};
use nasmirror::engine::types::AdvancedOptions;

/// The estimate the app makes when `bytes_done` is missing: `percent_done`
/// of the total.
fn percent_of(line: &str) -> impl Fn(u64) -> u64 {
    let percent = serde_json::from_str::<serde_json::Value>(line)
        .ok()
        .and_then(|v| v.get("percent_done").and_then(serde_json::Value::as_f64))
        .unwrap_or(0.0);
    move |total: u64| (percent * total as f64) as u64
}

#[test]
fn parse_status_line() {
    let line = r#"{"message_type":"status","percent_done":0.5,"total_files":10,"files_done":5,"total_bytes":2000,"bytes_done":1000,"current_files":["C:\\a.txt"]}"#;
    match parse_line(line, &percent_of(line)) {
        Event::Status(s) => {
            assert_eq!(s.bytes_done, 1000);
            assert_eq!(s.bytes_total, 2000);
            assert_eq!(s.files_done, 5);
            assert_eq!(s.files_total, 10);
            assert_eq!(s.current_file, "C:\\a.txt");
        }
        _ => panic!("expected a status line"),
    }
}

#[test]
fn status_without_bytes_done_uses_percent() {
    let line = r#"{"message_type":"status","percent_done":0.25,"total_bytes":4000}"#;
    match parse_line(line, &percent_of(line)) {
        Event::Status(s) => assert_eq!(s.bytes_done, 1000),
        _ => panic!("expected a status line"),
    }
}

#[test]
fn parse_summary_line() {
    let line = r#"{"message_type":"summary","files_new":3,"files_changed":1,"files_unmodified":7,"data_added":512,"total_files_processed":11,"total_bytes_processed":9000,"snapshot_id":"abc123"}"#;
    match parse_line(line, &percent_of(line)) {
        Event::Summary(s) => {
            assert_eq!(s.snapshot_id, "abc123");
            assert_eq!(s.files_new, 3);
            assert_eq!(s.files_changed, 1);
            assert_eq!(s.data_added, 512);
        }
        _ => panic!("expected a summary line"),
    }
}

#[test]
fn cat_config_outcomes() {
    assert!(matches!(classify_cat_config(Some(0), ""), Ok(true)));
    assert!(matches!(
        classify_cat_config(
            Some(10),
            "Fatal: repository does not exist: unable to open config file\n\
             Is there a repository at the following location?\nrepo"
        ),
        Ok(false)
    ));
    assert!(matches!(
        classify_cat_config(Some(12), "Fatal: wrong password or no key found"),
        Err(ResticError::WrongPassword)
    ));
    assert!(matches!(
        classify_cat_config(Some(1), "Is there a repository at the following location?"),
        Ok(false)
    ));
    assert!(matches!(
        classify_cat_config(Some(1), "Fatal: wrong password or no key found"),
        Err(ResticError::WrongPassword)
    ));
    match classify_cat_config(
        Some(11),
        "Fatal: unable to create lock in backend: repository is already locked",
    ) {
        Err(ResticError::Failed(msg)) => assert!(msg.contains("already locked")),
        _ => panic!("expected Failed"),
    }
}

#[test]
fn backup_exit_codes() {
    assert_eq!(classify_backup_exit(Some(0)), BackupExit::Complete);
    assert_eq!(classify_backup_exit(Some(3)), BackupExit::Incomplete);
    assert_eq!(classify_backup_exit(Some(1)), BackupExit::Failed);
    assert_eq!(classify_backup_exit(Some(12)), BackupExit::Failed);
    assert_eq!(classify_backup_exit(Some(130)), BackupExit::Failed);
    assert_eq!(classify_backup_exit(None), BackupExit::Failed);
}

#[test]
fn parse_other() {
    assert!(matches!(parse_line("not json", &percent_of("not json")), Event::Other));
    let line = r#"{"message_type":"error"}"#;
    assert!(matches!(parse_line(line, &percent_of(line)), Event::Other));
}

#[test]
fn cat_config_failure_falls_back_to_the_last_line_or_the_code() {
    match classify_cat_config(Some(1), "\n  something odd  \n\n") {
        Err(ResticError::Failed(msg)) => assert_eq!(msg, "something odd"),
        _ => panic!("expected Failed"),
    }
    match classify_cat_config(None, "") {
        Err(ResticError::Failed(msg)) => assert_eq!(msg, "restic exited with code None"),
        _ => panic!("expected Failed"),
    }
    match classify_cat_config(Some(1), "first\nFatal: one\nFatal: two") {
        Err(ResticError::Failed(msg)) => assert_eq!(msg, "Fatal: one"),
        _ => panic!("expected Failed"),
    }
}

#[test]
fn restic_error_messages() {
    assert_eq!(
        map_spawn_error(true, "x".into()).message(),
        "could not find 'restic' in your PATH. Install it with 'winget install restic.restic' and restart the app"
    );
    assert_eq!(map_spawn_error(false, "denied".into()).message(), "restic failed: denied");
    assert_eq!(ResticError::WrongPassword.message(), "wrong password for the restic repository");
}

#[test]
fn retention_arguments() {
    assert_eq!(forget_args(0, 0, 0), None);
    assert_eq!(
        forget_args(7, 0, 12),
        Some(vec![
            "forget".to_string(),
            "--prune".into(),
            "--keep-daily".into(),
            "7".into(),
            "--keep-monthly".into(),
            "12".into()
        ])
    );
}

#[test]
fn backup_arguments() {
    let adv = AdvancedOptions {
        exclude_dirs: vec![".git".into(), String::new()],
        exclude_files: vec!["*.tmp".into()],
        ..AdvancedOptions::default()
    };
    assert_eq!(
        backup_args(r"C:\data", true, &adv),
        vec![
            "backup".to_string(),
            r"C:\data".into(),
            "--json".into(),
            "--dry-run".into(),
            "--exclude".into(),
            ".git".into(),
            "--exclude".into(),
            "*.tmp".into()
        ]
    );
}

#[test]
fn backup_failure_names_the_last_stderr_line() {
    let tail = vec!["Fatal: locked".to_string(), "   ".to_string()];
    assert_eq!(backup_failure_message(Some(1), &tail), "restic exited with code Some(1): Fatal: locked");
    assert_eq!(backup_failure_message(None, &Vec::new()), "restic exited with code None");
}

#[test]
fn stderr_keeps_its_last_fifty_lines() {
    let mut tail: Vec<String> = Vec::new();
    for i in 0..60 {
        keep_stderr_line(&mut tail, format!("line {i}"));
    }
    assert_eq!(tail.len(), 50);
    assert_eq!(tail[0], "line 10");
    assert_eq!(tail[49], "line 59");
}

fn no_fields() -> LineFields {
    LineFields {
        message_type: None,
        total_bytes: None,
        bytes_done: None,
        files_done: None,
        total_files: None,
        current_file: None,
        snapshot_id: None,
        files_new: None,
        files_changed: None,
        files_unmodified: None,
        data_added: None,
        total_files_processed: None,
        total_bytes_processed: None,
    }
}

#[test]
fn fields_are_read_from_json() {
    let f = read_fields(r#"{"message_type":"status","total_bytes":2000,"bytes_done":1000,"files_done":5,"total_files":10,"current_files":["C:\\a.txt","C:\\b.txt"]}"#);
    assert_eq!(f.message_type.as_deref(), Some("status"));
    assert_eq!(f.total_bytes, Some(2000));
    assert_eq!(f.bytes_done, Some(1000));
    assert_eq!(f.files_done, Some(5));
    assert_eq!(f.total_files, Some(10));
    assert_eq!(f.current_file.as_deref(), Some("C:\\a.txt"));
    assert_eq!(f.snapshot_id, None);
    assert_eq!(f.files_new, None);
    let g = read_fields("[1, 2]");
    assert_eq!(g.message_type, None);
    assert_eq!(g.total_bytes, None);
}

#[test]
fn status_fields_make_a_status_event() {
    let mut f = no_fields();
    f.message_type = Some("status".to_string());
    f.total_bytes = Some(400);
    f.files_done = Some(3);
    match event_of(f, &|t: u64| t / 4) {
        Event::Status(s) => {
            assert_eq!(s.bytes_total, 400);
            assert_eq!(s.bytes_done, 100);
            assert_eq!(s.files_done, 3);
            assert_eq!(s.files_total, 0);
            assert_eq!(s.current_file, "");
        }
        _ => panic!("expected a status event"),
    }
}

#[test]
fn summary_fields_make_a_summary_event() {
    let mut f = no_fields();
    f.message_type = Some("summary".to_string());
    f.snapshot_id = Some("abc123".to_string());
    f.files_new = Some(2);
    f.data_added = Some(77);
    match event_of(f, &|_: u64| 0) {
        Event::Summary(s) => {
            assert_eq!(s.snapshot_id, "abc123");
            assert_eq!(s.files_new, 2);
            assert_eq!(s.files_changed, 0);
            assert_eq!(s.data_added, 77);
            assert_eq!(s.total_bytes_processed, 0);
        }
        _ => panic!("expected a summary event"),
    }
}

#[test]
fn other_message_types_make_no_event() {
    let mut f = no_fields();
    f.message_type = Some("error".to_string());
    assert!(matches!(event_of(f, &|_: u64| 0), Event::Other));
    assert!(matches!(event_of(no_fields(), &|_: u64| 0), Event::Other));
}
