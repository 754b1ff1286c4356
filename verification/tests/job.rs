use nasmirror::engine::job::{
    Action, BackupEnd, CommandRun, ConnectAttempt, CopyEnd, JobInput, JobRun, ScanEnd, Stage,
};
use nasmirror::engine::netuse::NetUseError;
use nasmirror::engine::robocopy::ScanOutcome;
use nasmirror::engine::types::{
    AdvancedOptions, CopyMode, Credentials, Engine, EngineSummary, JobPhase, JobRequest, Outcome,
    Profile, ResticOptions, ResticSummary, WakeOnLan,
};
use nasmirror::engine::wol::WolError;
use nasmirror::engine::PathError;

fn profile(source: &str, destination: &str) -> Profile {
    Profile {
        id: "p1".into(),
        name: "Photos".into(),
        source: source.into(),
        destination: destination.into(),
        mode: CopyMode::Mirror,
        credentials: None,
        wake_on_lan: None,
        advanced: AdvancedOptions::default(),
        engine: Engine::Robocopy,
        restic: ResticOptions::default(),
    }
}

fn request(profile: Profile, dry_run: bool) -> JobRequest {
    JobRequest { profile, password: None, restic_password: None, dry_run }
}

fn finish(a: Action) -> nasmirror::engine::job::Finish {
    match a {
        Action::Finish(f) => f,
        _ => panic!("expected the end of the job"),
    }
}

fn scan(files: u64, deletions: u64) -> JobInput {
    JobInput::Scanned(ScanEnd::Done(ScanOutcome {
        files_to_copy: files,
        bytes_to_copy: files * 10,
        files_to_delete: deletions,
    }))
}

#[test]
fn rejected_run_is_recorded_with_the_reason() {
    let (mut run, first) = JobRun::new(request(profile(r"  C:\missing ", r"D:\mirror"), false));
    match first {
        Action::Validate { source, destination } => {
            assert_eq!(source, r"C:\missing");
            assert_eq!(destination, r"D:\mirror");
        }
        _ => panic!("the paths are checked first"),
    }
    let f = finish(run.step(JobInput::Validated(Err(PathError::SourceMissing(r"C:\missing".into())))));
    assert_eq!(f.outcome, Outcome::Failed);
    assert!(f.error.unwrap().contains("does not exist"));
    assert!(f.record);
    assert_eq!(f.disconnect, None);
    assert_eq!(run.stage, Stage::Done);
}

#[test]
fn robocopy_job_scans_then_copies() {
    let (mut run, _) = JobRun::new(request(profile(r"C:\src", r"D:\dst"), false));
    let a = run.step(JobInput::Validated(Ok(())));
    assert_eq!(a.phase(), Some(JobPhase::Scanning));
    match a {
        Action::Scan { args } => assert_eq!(args.last().map(String::as_str), Some("/L")),
        _ => panic!("expected the scan"),
    }
    match run.step(scan(3, 0)) {
        Action::Copy { args } => {
            assert_eq!(&args[..3], [r"C:\src", r"D:\dst", "/MIR"]);
            assert!(args.contains(&"/MT:16".to_string()));
        }
        _ => panic!("expected the copy"),
    }
    let tail = vec![
        "   Dirs :   1   1   0   0   0   0".to_string(),
        "  Files :   3   3   0   0   0   0".to_string(),
        "  Bytes :  30  30   0   0   0   0".to_string(),
    ];
    let f = finish(run.step(JobInput::Copied(CopyEnd::Exited { code: Some(1), tail, cancelled: false })));
    assert_eq!(f.outcome, Outcome::Success);
    match f.summary {
        Some(EngineSummary::Robocopy(s)) => assert_eq!((s.files_copied, s.bytes_copied), (3, 30)),
        _ => panic!("expected a robocopy summary"),
    }
    assert!(f.record);
}

#[test]
fn nothing_to_do_means_no_changes() {
    let (mut run, _) = JobRun::new(request(profile(r"C:\src", r"D:\dst"), false));
    run.step(JobInput::Validated(Ok(())));
    let f = finish(run.step(scan(0, 0)));
    assert_eq!(f.outcome, Outcome::NoChanges);
}

#[test]
fn deletions_alone_are_work_in_mirror_mode() {
    let (mut run, _) = JobRun::new(request(profile(r"C:\src", r"D:\dst"), false));
    run.step(JobInput::Validated(Ok(())));
    assert!(matches!(run.step(scan(0, 2)), Action::Copy { .. }));
}

#[test]
fn dry_run_stops_after_the_scan_and_is_not_recorded() {
    let (mut run, _) = JobRun::new(request(profile(r"C:\src", r"D:\dst"), true));
    run.step(JobInput::Validated(Ok(())));
    let f = finish(run.step(scan(5, 1)));
    assert_eq!(f.outcome, Outcome::Success);
    assert!(!f.record);
}

#[test]
fn cancelled_and_failed_copies() {
    let (mut run, _) = JobRun::new(request(profile(r"C:\src", r"D:\dst"), false));
    run.step(JobInput::Validated(Ok(())));
    run.step(scan(1, 0));
    let f = finish(run.step(JobInput::Copied(CopyEnd::Exited { code: None, tail: vec![], cancelled: true })));
    assert_eq!(f.outcome, Outcome::Cancelled);

    let (mut run, _) = JobRun::new(request(profile(r"C:\src", r"D:\dst"), false));
    run.step(JobInput::Validated(Ok(())));
    run.step(scan(1, 0));
    let f = finish(run.step(JobInput::Copied(CopyEnd::Exited { code: Some(8), tail: vec![], cancelled: false })));
    assert_eq!(f.outcome, Outcome::Failed);

    let (mut run, _) = JobRun::new(request(profile(r"C:\src", r"D:\dst"), false));
    run.step(JobInput::Validated(Ok(())));
    run.step(scan(1, 0));
    let f = finish(run.step(JobInput::Copied(CopyEnd::NotStarted("not found".into()))));
    assert_eq!(f.error.as_deref(), Some("could not start robocopy: not found"));
}

#[test]
fn scan_failure_is_explained() {
    let (mut run, _) = JobRun::new(request(profile(r"C:\src", r"D:\dst"), false));
    run.step(JobInput::Validated(Ok(())));
    let f = finish(run.step(JobInput::Scanned(ScanEnd::Failed(
        "robocopy exited with code 16 while scanning".into(),
    ))));
    assert_eq!(f.outcome, Outcome::Failed);
    assert_eq!(
        f.error.as_deref(),
        Some("could not scan the copy: robocopy exited with code 16 while scanning")
    );
}

fn network_job() -> JobRequest {
    let mut p = profile(r"\\nas\photos\2024", "//nas/backup/photos");
    p.credentials = Some(Credentials { user: "me".into(), password: String::new() });
    p.wake_on_lan = Some(WakeOnLan { mac: "aa:bb:cc:dd:ee:ff".into(), host: String::new(), timeout_secs: 90 });
    JobRequest { profile: p, password: Some("secret".into()), restic_password: None, dry_run: false }
}

#[test]
fn network_job_wakes_connects_checks_and_disconnects() {
    let (mut run, _) = JobRun::new(network_job());
    match run.step(JobInput::Validated(Ok(()))) {
        Action::Wake { mac, host, timeout_secs } => {
            assert_eq!(mac, "aa:bb:cc:dd:ee:ff");
            assert_eq!(host, "nas");
            assert_eq!(timeout_secs, 90);
        }
        _ => panic!("expected Wake-on-LAN"),
    }
    match run.step(JobInput::Woken(Ok(()))) {
        Action::Connect { share, user, password } => {
            assert_eq!(share, r"\\nas\backup");
            assert_eq!(user, "me");
            assert_eq!(password, "secret");
        }
        _ => panic!("expected the connection"),
    }
    match run.step(JobInput::Connected(ConnectAttempt::Done(Ok(())))) {
        Action::CheckSource { path } => assert_eq!(path, r"\\nas\photos\2024"),
        _ => panic!("expected the source check"),
    }
    let f = finish(run.step(JobInput::SourceChecked(false)));
    assert_eq!(f.outcome, Outcome::Failed);
    assert_eq!(f.error.as_deref(), Some(r"the source folder does not exist: \\nas\photos\2024"));
    assert_eq!(f.disconnect.as_deref(), Some(r"\\nas\backup"));
}

#[test]
fn failed_connection_disconnects_nothing() {
    let (mut run, _) = JobRun::new(network_job());
    run.step(JobInput::Validated(Ok(())));
    run.step(JobInput::Woken(Ok(())));
    let f = finish(run.step(JobInput::Connected(ConnectAttempt::NoResponse)));
    assert_eq!(f.outcome, Outcome::ConnectionError);
    assert_eq!(
        f.error.as_deref(),
        Some(r"no response from \\nas\backup after 20 s: check that the NAS is powered on and reachable on the network")
    );
    assert_eq!(f.disconnect, None);

    let (mut run, _) = JobRun::new(network_job());
    run.step(JobInput::Validated(Ok(())));
    run.step(JobInput::Woken(Ok(())));
    let f = finish(run.step(JobInput::Connected(ConnectAttempt::Done(Err(NetUseError::Connect {
        share: r"\\nas\backup".into(),
        code: 1326,
    })))));
    assert_eq!(
        f.error.as_deref(),
        Some(r"could not connect to \\nas\backup: wrong user name or password (code 1326)")
    );
}

#[test]
fn wake_failures_end_the_job() {
    let (mut run, _) = JobRun::new(network_job());
    run.step(JobInput::Validated(Ok(())));
    let f = finish(run.step(JobInput::Woken(Err(WolError::Cancelled))));
    assert_eq!(f.outcome, Outcome::Cancelled);
    let (mut run, _) = JobRun::new(network_job());
    run.step(JobInput::Validated(Ok(())));
    let f = finish(run.step(JobInput::Woken(Err(WolError::Timeout("nas".into())))));
    assert_eq!(f.outcome, Outcome::ConnectionError);
}

fn restic_job(password: Option<&str>, dry_run: bool) -> JobRequest {
    let mut p = profile(r"C:\src", r"E:\repo");
    p.engine = Engine::Restic;
    p.restic = ResticOptions { keep_daily: 7, keep_weekly: 0, keep_monthly: 0 };
    JobRequest { profile: p, password: None, restic_password: password.map(String::from), dry_run }
}

fn summary(new: u64, changed: u64) -> ResticSummary {
    ResticSummary {
        snapshot_id: "abc".into(),
        files_new: new,
        files_changed: changed,
        files_unmodified: 0,
        data_added: 0,
        total_files_processed: 0,
        total_bytes_processed: 0,
    }
}

#[test]
fn restic_needs_its_password() {
    let (mut run, _) = JobRun::new(restic_job(Some(""), false));
    let f = finish(run.step(JobInput::Validated(Ok(()))));
    assert_eq!(f.error.as_deref(), Some("This job uses restic: enter the repository password."));
}

#[test]
fn restic_creates_the_repository_backs_up_and_prunes() {
    let (mut run, _) = JobRun::new(restic_job(Some("pw"), false));
    assert!(matches!(run.step(JobInput::Validated(Ok(()))), Action::CheckRepository { .. }));
    let a = run.step(JobInput::RepositoryChecked(CommandRun::Exited {
        code: Some(10),
        stderr: "Fatal: repository does not exist".into(),
    }));
    assert_eq!(a.phase(), Some(JobPhase::Connecting));
    match run.step(JobInput::RepositoryCreated(CommandRun::Exited { code: Some(0), stderr: String::new() })) {
        Action::Backup { repo, password, args } => {
            assert_eq!(repo, r"E:\repo");
            assert_eq!(password, "pw");
            assert_eq!(args, vec!["backup", r"C:\src", "--json"]);
        }
        _ => panic!("expected the backup"),
    }
    match run.step(JobInput::BackupEnded(BackupEnd::Exited {
        code: Some(0),
        stderr_tail: vec![],
        cancelled: false,
        summary: Some(summary(0, 0)),
    })) {
        Action::Prune { args, .. } => assert_eq!(args, vec!["forget", "--prune", "--keep-daily", "7"]),
        _ => panic!("expected the pruning"),
    }
    let f = finish(run.step(JobInput::Pruned));
    assert_eq!(f.outcome, Outcome::NoChanges);
    assert!(matches!(f.summary, Some(EngineSummary::Restic(_))));
}

#[test]
fn restic_wrong_password_and_unreachable_repository() {
    let (mut run, _) = JobRun::new(restic_job(Some("pw"), false));
    run.step(JobInput::Validated(Ok(())));
    let f = finish(run.step(JobInput::RepositoryChecked(CommandRun::Exited {
        code: Some(12),
        stderr: "Fatal: wrong password or no key found".into(),
    })));
    assert_eq!(f.outcome, Outcome::Failed);
    assert_eq!(f.error.as_deref(), Some("wrong password for the restic repository"));

    let (mut run, _) = JobRun::new(restic_job(Some("pw"), false));
    run.step(JobInput::Validated(Ok(())));
    let f = finish(run.step(JobInput::RepositoryChecked(CommandRun::Exited {
        code: Some(1),
        stderr: "Fatal: unable to open repository".into(),
    })));
    assert_eq!(f.outcome, Outcome::ConnectionError);
    assert_eq!(f.error.as_deref(), Some("restic failed: Fatal: unable to open repository"));
}

#[test]
fn restic_exit_three_finishes_with_warnings_without_pruning() {
    let (mut run, _) = JobRun::new(restic_job(Some("pw"), false));
    run.step(JobInput::Validated(Ok(())));
    run.step(JobInput::RepositoryChecked(CommandRun::Exited { code: Some(0), stderr: String::new() }));
    let f = finish(run.step(JobInput::BackupEnded(BackupEnd::Exited {
        code: Some(3),
        stderr_tail: vec!["warning: could not read a.txt".into()],
        cancelled: false,
        summary: Some(summary(2, 0)),
    })));
    assert_eq!(f.outcome, Outcome::SuccessWithMismatches);
    assert_eq!(f.error, None);
}

#[test]
fn restic_failure_quotes_stderr() {
    let (mut run, _) = JobRun::new(restic_job(Some("pw"), true));
    run.step(JobInput::Validated(Ok(())));
    match run.step(JobInput::RepositoryChecked(CommandRun::Exited { code: Some(0), stderr: String::new() })) {
        Action::Backup { args, .. } => assert!(args.contains(&"--dry-run".to_string())),
        _ => panic!("expected the backup"),
    }
    let f = finish(run.step(JobInput::BackupEnded(BackupEnd::Exited {
        code: Some(1),
        stderr_tail: vec!["Fatal: repository is already locked ".into(), String::new()],
        cancelled: false,
        summary: None,
    })));
    assert_eq!(f.outcome, Outcome::Failed);
    assert_eq!(
        f.error.as_deref(),
        Some("restic exited with code Some(1): Fatal: repository is already locked")
    );
    assert!(!f.record);
}

#[test]
fn dry_restic_backup_does_not_prune() {
    let (mut run, _) = JobRun::new(restic_job(Some("pw"), true));
    run.step(JobInput::Validated(Ok(())));
    run.step(JobInput::RepositoryChecked(CommandRun::Exited { code: Some(0), stderr: String::new() }));
    let f = finish(run.step(JobInput::BackupEnded(BackupEnd::Exited {
        code: Some(0),
        stderr_tail: vec![],
        cancelled: false,
        summary: Some(summary(1, 0)),
    })));
    assert_eq!(f.outcome, Outcome::Success);
}

#[test]
fn reports_out_of_turn_are_not_accepted() {
    let (run, _) = JobRun::new(request(profile(r"C:\src", r"D:\dst"), false));
    assert!(run.accepts(&JobInput::Validated(Ok(()))));
    assert!(!run.accepts(&JobInput::Pruned));
}
