//! The course of a job, end to end: checking the paths, waking the NAS,
//! connecting its share, then scanning and copying with robocopy or backing
//! up with restic. Every step that touches the machine (a process, the
//! network, the disk, the clock) is done by the caller; this module decides,
//! from what each step reported, what comes next and how the job ends.
//!
//! A job is driven by [`JobRun::new`], which names the first step, and
//! [`JobRun::step`], which takes what a step reported and names the next
//! one, until a [`Finish`] says how the job ended.

use vstd::prelude::*;

use super::netuse::{net_use_error_message, NetUseError};
use super::restic::{
    backup_args, backup_failure_message, backup_failure_text, classify_backup_exit,
    classify_cat_config, debug_code, failure_reason, forget_args, map_spawn_error,
    no_repository_marker, restic_error_message, spec_backup_args, spec_classify_backup_exit,
    spec_forget_args, BackupExit, ResticError,
};
use super::robocopy::{
    copy_command, parse_summary, scan_command, spec_common_args, spec_copy_only_args,
    spec_parse_summary, spec_robocopy_command, ScanOutcome,
};
use super::types::{
    AdvancedOptions, CopyMode, Engine, EngineSummary, JobPhase, JobRequest, Outcome, Profile,
    ResticOptions, ResticSummary, WakeOnLan,
};
use super::wol::{guess_host_from_share, spec_guess_host, wol_error_message, WolError};
use super::{
    classify_exit_code, is_network_path, path_error_message, replace_slashes, share_root,
    slash_to_backslash, spec_classify_exit_code, spec_is_network_path, spec_share_root, PathError,
};
use crate::text::{
    chars_of, contains, push_str, str_to_string, string_of, string_views, trim, trim_chars,
};

verus! {

/// The optional string's characters.
pub open spec fn opt_view(s: Option<String>) -> Option<Seq<char>> {
    match s {
        Some(x) => Some(x@),
        None => None,
    }
}

/// The share a job connects with its credentials: that of the destination,
/// else that of the source; none for a job without credentials. Paths are
/// read with `/` as `\`, so `//nas/share` is a share too.
pub open spec fn planned_share(has_credentials: bool, source: Seq<char>, destination: Seq<char>) -> Option<
    Seq<char>,
> {
    if !has_credentials {
        None
    } else {
        match spec_share_root(slash_to_backslash(destination)) {
            Some(s) => Some(s),
            None => spec_share_root(slash_to_backslash(source)),
        }
    }
}

/// The host that Wake-on-LAN waits for: the one the job names, else the
/// server of the destination's share, else none (empty).
pub open spec fn wake_host(host: Seq<char>, destination: Seq<char>) -> Seq<char> {
    if host.len() > 0 {
        host
    } else {
        match spec_share_root(slash_to_backslash(destination)) {
            Some(s) => match spec_guess_host(s) {
                Some(h) => h,
                None => Seq::<char>::empty(),
            },
            None => Seq::<char>::empty(),
        }
    }
}

/// Where a job is.
#[derive(Debug, Clone, Copy, PartialEq, Eq, Structural)]
pub enum Stage {
    Validating,
    Waking,
    Connecting,
    CheckingSource,
    CheckingRepository,
    CreatingRepository,
    BackingUp,
    Pruning,
    Scanning,
    Copying,
    Done,
}

/// The Wake-on-LAN to send before anything else.
pub struct WakePlan {
    pub mac: String,
    pub host: String,
    pub timeout_secs: u32,
}

/// A job under way.
pub struct JobRun {
    /// The source folder, trimmed.
    pub source: String,
    /// The destination folder (or restic repository), trimmed.
    pub destination: String,
    pub mode: CopyMode,
    pub engine: Engine,
    pub advanced: AdvancedOptions,
    pub restic: ResticOptions,
    pub dry_run: bool,
    pub wake: Option<WakePlan>,
    /// The share to connect with the job's credentials.
    pub share: Option<String>,
    pub user: String,
    pub password: String,
    pub restic_password: Option<String>,
    pub stage: Stage,
    /// Whether `share` has been connected, and so must be disconnected at
    /// the end.
    pub connected: bool,
    /// The result of a restic backup, kept while its old snapshots are
    /// pruned.
    pub pending: Option<(Outcome, Option<ResticSummary>)>,
}

/// What a restic command that was run reported.
pub enum CommandRun {
    /// It could not be started: `not_found` when restic is not installed.
    NotStarted { not_found: bool, message: String },
    Exited { code: Option<i32>, stderr: String },
}

/// How a connection attempt ended.
pub enum ConnectAttempt {
    Done(Result<(), NetUseError>),
    /// The task that made the attempt failed.
    Crashed(String),
    /// No answer within the time limit.
    NoResponse,
}

/// How `restic backup` ended.
pub enum BackupEnd {
    NotStarted { not_found: bool, message: String },
    NoOutput,
    LogFailed(String),
    WaitFailed(String),
    /// It exited; `summary` is the last summary line it printed.
    Exited {
        code: Option<i32>,
        stderr_tail: Vec<String>,
        cancelled: bool,
        summary: Option<ResticSummary>,
    },
}

/// How the list-only pass ended.
pub enum ScanEnd {
    Cancelled,
    Failed(String),
    Done(ScanOutcome),
}

/// How the copy ended.
pub enum CopyEnd {
    NotStarted(String),
    NoOutput,
    LogFailed(String),
    WaitFailed(String),
    /// Robocopy exited; `tail` holds its last output lines, where the
    /// summary block is.
    Exited { code: Option<i32>, tail: Vec<String>, cancelled: bool },
}

/// What the step that was asked for reported.
pub enum JobInput {
    Validated(Result<(), PathError>),
    Woken(Result<(), WolError>),
    Connected(ConnectAttempt),
    /// Whether the (network) source folder exists.
    SourceChecked(bool),
    RepositoryChecked(CommandRun),
    RepositoryCreated(CommandRun),
    BackupEnded(BackupEnd),
    /// Old snapshots were pruned (a failure only goes to the log).
    Pruned,
    Scanned(ScanEnd),
    Copied(CopyEnd),
}

/// How a job ended.
pub struct Finish {
    pub outcome: Outcome,
    pub summary: Option<EngineSummary>,
    pub error: Option<String>,
    /// The share to disconnect: the one the job connected, if any.
    pub disconnect: Option<String>,
    /// Whether the run goes to the history: every real run does, dry runs
    /// do not (they copy nothing).
    pub record: bool,
}

/// The next thing to do.
pub enum Action {
    /// Check the paths with `validate_paths`.
    Validate { source: String, destination: String },
    /// Wake the NAS and wait for it.
    Wake { mac: String, host: String, timeout_secs: u32 },
    /// Connect the share (`netuse::connect`), with a time limit.
    Connect { share: String, user: String, password: String },
    /// Check that the (network) source folder exists.
    CheckSource { path: String },
    /// `restic cat config` on the repository.
    CheckRepository { repo: String, password: String },
    /// `restic init`.
    CreateRepository { repo: String, password: String },
    /// `restic` with these arguments, reading its JSON lines.
    Backup { repo: String, password: String, args: Vec<String> },
    /// `restic` with these arguments (`forget --prune`).
    Prune { repo: String, password: String, args: Vec<String> },
    /// `robocopy` with these arguments, counting its lines.
    Scan { args: Vec<String> },
    /// `robocopy` with these arguments, reporting progress.
    Copy { args: Vec<String> },
    Finish(Finish),
}

/// The phase announced when an action starts.
pub open spec fn spec_phase(a: Action) -> Option<JobPhase> {
    match a {
        Action::Wake { .. } => Some(JobPhase::WakingTarget),
        Action::Connect { .. } => Some(JobPhase::Connecting),
        Action::CreateRepository { .. } => Some(JobPhase::Connecting),
        Action::Backup { .. } => Some(JobPhase::Copying),
        Action::Scan { .. } => Some(JobPhase::Scanning),
        Action::Copy { .. } => Some(JobPhase::Copying),
        _ => None,
    }
}

impl Action {
    pub fn phase(&self) -> (p: Option<JobPhase>)
        ensures
            p == spec_phase(*self),
    {
        match self {
            Action::Wake { .. } => Some(JobPhase::WakingTarget),
            Action::Connect { .. } => Some(JobPhase::Connecting),
            Action::CreateRepository { .. } => Some(JobPhase::Connecting),
            Action::Backup { .. } => Some(JobPhase::Copying),
            Action::Scan { .. } => Some(JobPhase::Scanning),
            Action::Copy { .. } => Some(JobPhase::Copying),
            _ => None,
        }
    }
}

/// How often progress is reported while copying.
pub const PROGRESS_SAMPLE_INTERVAL_MS: u64 = 200;

/// Whether a progress sample is due, `now_ms` after the start, when the
/// last one went out at `last_ms`.
pub fn sample_due(now_ms: u64, last_ms: u64) -> (b: bool)
    ensures
        b == (now_ms - last_ms >= PROGRESS_SAMPLE_INTERVAL_MS),
{
    now_ms >= last_ms && now_ms - last_ms >= PROGRESS_SAMPLE_INTERVAL_MS
}

/// Which report each stage waits for.
pub open spec fn expects(stage: Stage, input: JobInput) -> bool {
    match input {
        JobInput::Validated(_) => stage == Stage::Validating,
        JobInput::Woken(_) => stage == Stage::Waking,
        JobInput::Connected(_) => stage == Stage::Connecting,
        JobInput::SourceChecked(_) => stage == Stage::CheckingSource,
        JobInput::RepositoryChecked(_) => stage == Stage::CheckingRepository,
        JobInput::RepositoryCreated(_) => stage == Stage::CreatingRepository,
        JobInput::BackupEnded(_) => stage == Stage::BackingUp,
        JobInput::Pruned => stage == Stage::Pruning,
        JobInput::Scanned(_) => stage == Stage::Scanning,
        JobInput::Copied(_) => stage == Stage::Copying,
    }
}

pub open spec fn no_restic_password() -> Seq<char> {
    "This job uses restic: enter the repository password."@
}

impl JobRun {
    pub open spec fn wf(self) -> bool {
        &&& self.stage == Stage::Waking ==> self.wake is Some
        &&& self.stage == Stage::Connecting ==> self.share is Some
        &&& self.connected ==> self.share is Some
        &&& (self.stage == Stage::CheckingRepository || self.stage == Stage::CreatingRepository
            || self.stage == Stage::BackingUp || self.stage == Stage::Pruning)
            ==> self.restic_password is Some
        &&& self.stage == Stage::Pruning ==> self.pending is Some
    }

    /// The repository password (once it is known to be there).
    pub open spec fn repo_password(self) -> String {
        match self.restic_password {
            Some(p) => p,
            None => arbitrary(),
        }
    }

    /// The share's characters (empty when there is none).
    pub open spec fn share_text(self) -> Seq<char> {
        match self.share {
            Some(s) => s@,
            None => Seq::<char>::empty(),
        }
    }
}

/// `act` ends the job with this outcome, summary and error, disconnecting
/// the share if the job connected it and recording every real run.
pub open spec fn ends(
    run: JobRun,
    next: JobRun,
    act: Action,
    outcome: Outcome,
    summary: Option<EngineSummary>,
    error: Option<Seq<char>>,
) -> bool {
    &&& next == JobRun { stage: Stage::Done, ..run }
    &&& act matches Action::Finish(f)
    &&& act->Finish_0.outcome == outcome
    &&& act->Finish_0.summary == summary
    &&& opt_view(act->Finish_0.error) == error
    &&& act->Finish_0.disconnect == (if run.connected {
        run.share
    } else {
        None
    })
    &&& act->Finish_0.record == !run.dry_run
}

/// After the Wake-on-LAN (or without one): the connection, if the job has
/// a share to connect.
pub open spec fn proceeds_to_connect(run: JobRun, next: JobRun, act: Action) -> bool {
    match run.share {
        Some(s) => next == JobRun { stage: Stage::Connecting, ..run } && act == Action::Connect {
            share: s,
            user: run.user,
            password: run.password,
        },
        None => proceeds_to_source(run, next, act),
    }
}

/// First the Wake-on-LAN, if the job has one.
pub open spec fn proceeds_to_wake(run: JobRun, next: JobRun, act: Action) -> bool {
    match run.wake {
        Some(w) => next == JobRun { stage: Stage::Waking, ..run } && act == Action::Wake {
            mac: w.mac,
            host: w.host,
            timeout_secs: w.timeout_secs,
        },
        None => proceeds_to_connect(run, next, act),
    }
}

/// A network source can only be checked once the NAS is awake and its
/// share connected.
pub open spec fn proceeds_to_source(run: JobRun, next: JobRun, act: Action) -> bool {
    if spec_is_network_path(run.source@) {
        next == JobRun { stage: Stage::CheckingSource, ..run } && act == Action::CheckSource {
            path: run.source,
        }
    } else {
        proceeds_to_engine(run, next, act)
    }
}

/// The engine's work: the robocopy scan, or the restic repository check
/// (which needs the repository password).
pub open spec fn proceeds_to_engine(run: JobRun, next: JobRun, act: Action) -> bool {
    if run.engine == Engine::Restic {
        match run.restic_password {
            Some(p) => if p@.len() > 0 {
                next == JobRun { stage: Stage::CheckingRepository, ..run }
                    && act == Action::CheckRepository { repo: run.destination, password: p }
            } else {
                ends(run, next, act, Outcome::Failed, None, Some(no_restic_password()))
            },
            None => ends(run, next, act, Outcome::Failed, None, Some(no_restic_password())),
        }
    } else {
        &&& next == JobRun { stage: Stage::Scanning, ..run }
        &&& act is Scan
        &&& string_views(act->Scan_args@) == spec_robocopy_command(
            run.source@,
            run.destination@,
            run.mode,
            spec_common_args(run.advanced) + seq!["/L"@],
        )
    }
}

/// The backup itself.
pub open spec fn proceeds_to_backup(run: JobRun, next: JobRun, act: Action) -> bool {
    &&& next == JobRun { stage: Stage::BackingUp, ..run }
    &&& act is Backup
    &&& act->Backup_repo == run.destination
    &&& act->Backup_password == run.repo_password()
    &&& string_views(act->Backup_args@) == spec_backup_args(
        run.source@,
        run.dry_run,
        run.advanced,
    )
}

/// What a connection attempt that failed says.
pub open spec fn connect_failure_text(a: ConnectAttempt, share: Seq<char>) -> Seq<char> {
    match a {
        ConnectAttempt::Done(r) => match r {
            Ok(()) => Seq::<char>::empty(),
            Err(e) => net_use_error_message(e),
        },
        ConnectAttempt::Crashed(m) => "internal error while connecting: "@ + m@,
        ConnectAttempt::NoResponse => "no response from "@ + share
            + " after 20 s: check that the NAS is powered on and reachable on the network"@,
    }
}

/// What `restic cat config` says of the repository: whether it exists, or
/// why it cannot be used (with whether the password is what is wrong).
pub open spec fn repository_check(c: CommandRun) -> Result<bool, (bool, Seq<char>)> {
    let wrong = restic_error_message(ResticError::WrongPassword);
    match c {
        CommandRun::NotStarted { not_found, message } => Err(
            (
                false,
                restic_error_message(
                    if not_found {
                        ResticError::NotFound
                    } else {
                        ResticError::Failed(message)
                    },
                ),
            ),
        ),
        CommandRun::Exited { code, stderr } => if code == Some(0i32) {
            Ok(true)
        } else if code == Some(10i32) {
            Ok(false)
        } else if code == Some(12i32) {
            Err((true, wrong))
        } else if contains(stderr@, no_repository_marker()) {
            Ok(false)
        } else if contains(stderr@, "wrong password"@) {
            Err((true, wrong))
        } else {
            Err((false, "restic failed: "@ + failure_reason(code, stderr@)))
        },
    }
}

/// What `restic init` says: done, or why not.
pub open spec fn creation_check(c: CommandRun) -> Result<(), Seq<char>> {
    match c {
        CommandRun::NotStarted { not_found, message } => Err(
            restic_error_message(
                if not_found {
                    ResticError::NotFound
                } else {
                    ResticError::Failed(message)
                },
            ),
        ),
        CommandRun::Exited { code, stderr } => if code == Some(0i32) {
            Ok(())
        } else {
            Err("restic failed: "@ + trim(stderr@))
        },
    }
}

pub open spec fn restic_summary(s: Option<ResticSummary>) -> Option<EngineSummary> {
    match s {
        Some(x) => Some(EngineSummary::Restic(x)),
        None => None,
    }
}

pub open spec fn robocopy_summary(s: Option<super::types::RobocopySummary>) -> Option<
    EngineSummary,
> {
    match s {
        Some(x) => Some(EngineSummary::Robocopy(x)),
        None => None,
    }
}

/// A complete backup that added and changed nothing reports "no changes".
pub open spec fn backup_outcome(s: Option<ResticSummary>) -> Outcome {
    match s {
        Some(x) => if x.files_new == 0 && x.files_changed == 0 {
            Outcome::NoChanges
        } else {
            Outcome::Success
        },
        None => Outcome::Success,
    }
}

/// The exit code of a process that may have been killed (-1 then).
pub open spec fn code_or_minus_one(code: Option<i32>) -> i32 {
    match code {
        Some(c) => c,
        None => -1i32,
    }
}

/// After a backup that created a complete snapshot: prune old snapshots
/// when the job has a retention policy and this is a real run, else end.
pub open spec fn after_complete_backup(
    run: JobRun,
    next: JobRun,
    act: Action,
    summary: Option<ResticSummary>,
) -> bool {
    let o = backup_outcome(summary);
    match spec_forget_args(run.restic.keep_daily, run.restic.keep_weekly, run.restic.keep_monthly) {
        Some(a) => if !run.dry_run {
            &&& next == JobRun { stage: Stage::Pruning, pending: Some((o, summary)), ..run }
            &&& act is Prune
            &&& act->Prune_repo == run.destination
            &&& act->Prune_password == run.repo_password()
            &&& string_views(act->Prune_args@) == a
        } else {
            ends(run, next, act, o, restic_summary(summary), None)
        },
        None => ends(run, next, act, o, restic_summary(summary), None),
    }
}

pub open spec fn after_backup(run: JobRun, next: JobRun, act: Action, end: BackupEnd) -> bool {
    match end {
        BackupEnd::NotStarted { not_found, message } => ends(
            run,
            next,
            act,
            Outcome::Failed,
            None,
            Some(
                restic_error_message(
                    if not_found {
                        ResticError::NotFound
                    } else {
                        ResticError::Failed(message)
                    },
                ),
            ),
        ),
        BackupEnd::NoOutput => ends(
            run,
            next,
            act,
            Outcome::Failed,
            None,
            Some("restic produced no output"@),
        ),
        BackupEnd::LogFailed(e) => ends(
            run,
            next,
            act,
            Outcome::Failed,
            None,
            Some("could not create the log file: "@ + e@),
        ),
        BackupEnd::WaitFailed(e) => ends(
            run,
            next,
            act,
            Outcome::Failed,
            None,
            Some("restic did not exit cleanly: "@ + e@),
        ),
        BackupEnd::Exited { code, stderr_tail, cancelled, summary } => if cancelled {
            ends(run, next, act, Outcome::Cancelled, restic_summary(summary), None)
        } else {
            match spec_classify_backup_exit(code) {
                BackupExit::Failed => ends(
                    run,
                    next,
                    act,
                    Outcome::Failed,
                    restic_summary(summary),
                    Some(backup_failure_text(code, string_views(stderr_tail@))),
                ),
                BackupExit::Incomplete => ends(
                    run,
                    next,
                    act,
                    Outcome::SuccessWithMismatches,
                    restic_summary(summary),
                    None,
                ),
                BackupExit::Complete => after_complete_backup(run, next, act, summary),
            }
        },
    }
}

pub open spec fn after_scan(run: JobRun, next: JobRun, act: Action, end: ScanEnd) -> bool {
    match end {
        ScanEnd::Cancelled => ends(run, next, act, Outcome::Cancelled, None, None),
        ScanEnd::Failed(e) => ends(
            run,
            next,
            act,
            Outcome::Failed,
            None,
            Some("could not scan the copy: "@ + e@),
        ),
        ScanEnd::Done(s) => if s.files_to_copy == 0 && s.files_to_delete == 0 {
            ends(run, next, act, Outcome::NoChanges, None, None)
        } else if run.dry_run {
            ends(run, next, act, Outcome::Success, None, None)
        } else {
            &&& next == JobRun { stage: Stage::Copying, ..run }
            &&& act is Copy
            &&& string_views(act->Copy_args@) == spec_robocopy_command(
                run.source@,
                run.destination@,
                run.mode,
                spec_common_args(run.advanced) + spec_copy_only_args(run.advanced),
            )
        },
    }
}

pub open spec fn after_copy(run: JobRun, next: JobRun, act: Action, end: CopyEnd) -> bool {
    match end {
        CopyEnd::NotStarted(e) => ends(
            run,
            next,
            act,
            Outcome::Failed,
            None,
            Some("could not start robocopy: "@ + e@),
        ),
        CopyEnd::NoOutput => ends(
            run,
            next,
            act,
            Outcome::Failed,
            None,
            Some("robocopy produced no output"@),
        ),
        CopyEnd::LogFailed(e) => ends(
            run,
            next,
            act,
            Outcome::Failed,
            None,
            Some("could not create the log file: "@ + e@),
        ),
        CopyEnd::WaitFailed(e) => ends(
            run,
            next,
            act,
            Outcome::Failed,
            None,
            Some("robocopy did not exit cleanly: "@ + e@),
        ),
        CopyEnd::Exited { code, tail, cancelled } => {
            let c = code_or_minus_one(code);
            let s = robocopy_summary(spec_parse_summary(string_views(tail@), c));
            if cancelled {
                ends(run, next, act, Outcome::Cancelled, s, None)
            } else {
                ends(run, next, act, spec_classify_exit_code(c), s, None)
            }
        },
    }
}

/// The step a job takes on each report: `next` is where it is then, `act`
/// what it does next.
pub open spec fn follows(run: JobRun, input: JobInput, next: JobRun, act: Action) -> bool {
    match input {
        JobInput::Validated(v) => match v {
            Ok(()) => proceeds_to_wake(run, next, act),
            Err(e) => ends(run, next, act, Outcome::Failed, None, Some(path_error_message(e))),
        },
        JobInput::Woken(w) => match w {
            Ok(()) => proceeds_to_connect(run, next, act),
            Err(e) => ends(
                run,
                next,
                act,
                if e is Cancelled {
                    Outcome::Cancelled
                } else {
                    Outcome::ConnectionError
                },
                None,
                Some(wol_error_message(e)),
            ),
        },
        JobInput::Connected(a) => if a matches ConnectAttempt::Done(Ok(())) {
            proceeds_to_source(JobRun { connected: true, ..run }, next, act)
        } else {
            ends(
                run,
                next,
                act,
                Outcome::ConnectionError,
                None,
                Some(connect_failure_text(a, run.share_text())),
            )
        },
        JobInput::SourceChecked(exists) => if exists {
            proceeds_to_engine(run, next, act)
        } else {
            ends(
                run,
                next,
                act,
                Outcome::Failed,
                None,
                Some(path_error_message(PathError::SourceMissing(run.source))),
            )
        },
        JobInput::RepositoryChecked(c) => match repository_check(c) {
            Ok(initialized) => if initialized {
                proceeds_to_backup(run, next, act)
            } else {
                next == JobRun { stage: Stage::CreatingRepository, ..run }
                    && act == Action::CreateRepository {
                    repo: run.destination,
                    password: run.repo_password(),
                }
            },
            Err(why) => ends(
                run,
                next,
                act,
                if why.0 {
                    Outcome::Failed
                } else {
                    Outcome::ConnectionError
                },
                None,
                Some(why.1),
            ),
        },
        JobInput::RepositoryCreated(c) => match creation_check(c) {
            Ok(()) => proceeds_to_backup(run, next, act),
            Err(m) => ends(
                run,
                next,
                act,
                Outcome::Failed,
                None,
                Some("could not initialise the restic repository: "@ + m),
            ),
        },
        JobInput::BackupEnded(end) => after_backup(run, next, act, end),
        JobInput::Pruned => match run.pending {
            Some(p) => ends(run, next, act, p.0, restic_summary(p.1), None),
            None => false,
        },
        JobInput::Scanned(end) => after_scan(run, next, act, end),
        JobInput::Copied(end) => after_copy(run, next, act, end),
    }
}

/// How a job starts from its request: trimmed paths, the plans for the
/// Wake-on-LAN and the connection, and the path check first.
pub open spec fn starts(req: JobRequest, run: JobRun, act: Action) -> bool {
    let p = req.profile;
    &&& run.source@ == trim(p.source@)
    &&& run.destination@ == trim(p.destination@)
    &&& run.mode == p.mode
    &&& run.engine == p.engine
    &&& run.advanced == p.advanced
    &&& run.restic == p.restic
    &&& run.dry_run == req.dry_run
    &&& match p.wake_on_lan {
        Some(w) => run.wake matches Some(plan) && plan.mac == w.mac && plan.host@ == wake_host(
            w.host@,
            run.destination@,
        ) && plan.timeout_secs == w.timeout_secs,
        None => run.wake is None,
    }
    &&& opt_view(run.share) == planned_share(p.credentials is Some, run.source@, run.destination@)
    &&& run.user@ == match p.credentials {
        Some(c) => c.user@,
        None => Seq::<char>::empty(),
    }
    &&& run.password@ == match req.password {
        Some(pw) => pw@,
        None => Seq::<char>::empty(),
    }
    &&& run.restic_password == req.restic_password
    &&& run.stage == Stage::Validating
    &&& !run.connected
    &&& run.pending is None
    &&& act == Action::Validate { source: run.source, destination: run.destination }
}

fn trimmed(s: &str) -> (r: String)
    ensures
        r@ == trim(s@),
{
    string_of(&trim_chars(s))
}

/// The UNC form of a trimmed path: `/` read as `\`.
fn unc_form(s: &String) -> (r: String)
    ensures
        r@ == slash_to_backslash(s@),
{
    string_of(&replace_slashes(&chars_of(s.as_str())))
}

fn share_of_paths(has_credentials: bool, source: &String, destination: &String) -> (r: Option<
    String,
>)
    ensures
        opt_view(r) == planned_share(has_credentials, source@, destination@),
{
    if !has_credentials {
        return None;
    }
    match share_root(unc_form(destination).as_str()) {
        Some(s) => Some(s),
        None => share_root(unc_form(source).as_str()),
    }
}

fn host_to_wake(host: String, destination: &String) -> (r: String)
    ensures
        r@ == wake_host(host@, destination@),
{
    if !host.as_str().is_empty() {
        return host;
    }
    match share_root(unc_form(destination).as_str()) {
        Some(s) => match guess_host_from_share(s.as_str()) {
            Some(h) => h,
            None => String::new(),
        },
        None => String::new(),
    }
}

fn copy_summary(s: &ResticSummary) -> (r: ResticSummary)
    ensures
        r == *s,
{
    ResticSummary {
        snapshot_id: s.snapshot_id.clone(),
        files_new: s.files_new,
        files_changed: s.files_changed,
        files_unmodified: s.files_unmodified,
        data_added: s.data_added,
        total_files_processed: s.total_files_processed,
        total_bytes_processed: s.total_bytes_processed,
    }
}

fn copy_string(s: &String) -> (r: String)
    ensures
        r == *s,
{
    s.clone()
}

impl JobRun {
    /// Sets a job up from its request. The first step is always the check of
    /// its paths.
    pub fn new(request: JobRequest) -> (r: (JobRun, Action))
        ensures
            starts(request, r.0, r.1),
            r.0.wf(),
    {
        let JobRequest { profile, password, restic_password, dry_run } = request;
        let Profile {
            id: _,
            name: _,
            source,
            destination,
            mode,
            credentials,
            wake_on_lan,
            advanced,
            engine,
            restic,
        } = profile;
        let source = trimmed(source.as_str());
        let destination = trimmed(destination.as_str());
        let wake = match wake_on_lan {
            Some(w) => Some(
                WakePlan {
                    mac: w.mac,
                    host: host_to_wake(w.host, &destination),
                    timeout_secs: w.timeout_secs,
                },
            ),
            None => None,
        };
        let share = share_of_paths(credentials.is_some(), &source, &destination);
        let user = match credentials {
            Some(c) => c.user,
            None => String::new(),
        };
        let password = match password {
            Some(p) => p,
            None => String::new(),
        };
        let act = Action::Validate {
            source: copy_string(&source),
            destination: copy_string(&destination),
        };
        let run = JobRun {
            source,
            destination,
            mode,
            engine,
            advanced,
            restic,
            dry_run,
            wake,
            share,
            user,
            password,
            restic_password,
            stage: Stage::Validating,
            connected: false,
            pending: None,
        };
        (run, act)
    }

    /// Whether `input` is the report this job waits for.
    pub fn accepts(&self, input: &JobInput) -> (b: bool)
        ensures
            b == expects(self.stage, *input),
    {
        match input {
            JobInput::Validated(_) => self.stage == Stage::Validating,
            JobInput::Woken(_) => self.stage == Stage::Waking,
            JobInput::Connected(_) => self.stage == Stage::Connecting,
            JobInput::SourceChecked(_) => self.stage == Stage::CheckingSource,
            JobInput::RepositoryChecked(_) => self.stage == Stage::CheckingRepository,
            JobInput::RepositoryCreated(_) => self.stage == Stage::CreatingRepository,
            JobInput::BackupEnded(_) => self.stage == Stage::BackingUp,
            JobInput::Pruned => self.stage == Stage::Pruning,
            JobInput::Scanned(_) => self.stage == Stage::Scanning,
            JobInput::Copied(_) => self.stage == Stage::Copying,
        }
    }

    fn end(&mut self, outcome: Outcome, summary: Option<EngineSummary>, error: Option<String>) -> (act:
        Action)
        ensures
            ends(*old(self), *final(self), act, outcome, summary, opt_view(error)),
    {
        self.stage = Stage::Done;
        let disconnect = if self.connected {
            match &self.share {
                Some(s) => Some(copy_string(s)),
                None => None,
            }
        } else {
            None
        };
        Action::Finish(Finish { outcome, summary, error, disconnect, record: !self.dry_run })
    }

    fn to_engine(&mut self) -> (act: Action)
        requires
            old(self).connected ==> old(self).share is Some,
        ensures
            proceeds_to_engine(*old(self), *final(self), act),
            final(self).wf(),
    {
        if self.engine == Engine::Restic {
            let p = match &self.restic_password {
                Some(p) => copy_string(p),
                None => {
                    return self.end(Outcome::Failed, None, Some(str_to_string(
                        "This job uses restic: enter the repository password.",
                    )));
                },
            };
            if p.as_str().is_empty() {
                return self.end(Outcome::Failed, None, Some(str_to_string(
                    "This job uses restic: enter the repository password.",
                )));
            }
            self.stage = Stage::CheckingRepository;
            Action::CheckRepository { repo: copy_string(&self.destination), password: p }
        } else {
            self.stage = Stage::Scanning;
            Action::Scan {
                args: scan_command(
                    self.source.as_str(),
                    self.destination.as_str(),
                    self.mode,
                    &self.advanced,
                ),
            }
        }
    }

    fn to_source(&mut self) -> (act: Action)
        requires
            old(self).connected ==> old(self).share is Some,
        ensures
            proceeds_to_source(*old(self), *final(self), act),
            final(self).wf(),
    {
        if is_network_path(self.source.as_str()) {
            self.stage = Stage::CheckingSource;
            Action::CheckSource { path: copy_string(&self.source) }
        } else {
            self.to_engine()
        }
    }

    fn to_connect(&mut self) -> (act: Action)
        requires
            old(self).connected ==> old(self).share is Some,
        ensures
            proceeds_to_connect(*old(self), *final(self), act),
            final(self).wf(),
    {
        match &self.share {
            Some(s) => {
                let share = copy_string(s);
                self.stage = Stage::Connecting;
                Action::Connect {
                    share,
                    user: copy_string(&self.user),
                    password: copy_string(&self.password),
                }
            },
            None => self.to_source(),
        }
    }

    fn to_wake(&mut self) -> (act: Action)
        requires
            old(self).connected ==> old(self).share is Some,
        ensures
            proceeds_to_wake(*old(self), *final(self), act),
            final(self).wf(),
    {
        match &self.wake {
            Some(w) => {
                let act = Action::Wake {
                    mac: copy_string(&w.mac),
                    host: copy_string(&w.host),
                    timeout_secs: w.timeout_secs,
                };
                self.stage = Stage::Waking;
                act
            },
            None => self.to_connect(),
        }
    }

    fn to_backup(&mut self) -> (act: Action)
        requires
            old(self).wf(),
            old(self).restic_password is Some,
        ensures
            proceeds_to_backup(*old(self), *final(self), act),
            final(self).wf(),
    {
        let password = match &self.restic_password {
            Some(p) => copy_string(p),
            None => String::new(),
        };
        let args = backup_args(self.source.as_str(), self.dry_run, &self.advanced);
        self.stage = Stage::BackingUp;
        Action::Backup { repo: copy_string(&self.destination), password, args }
    }

    fn on_repository_check(&mut self, c: CommandRun) -> (act: Action)
        requires
            old(self).wf(),
            old(self).stage == Stage::CheckingRepository,
        ensures
            follows(*old(self), JobInput::RepositoryChecked(c), *final(self), act),
            final(self).wf(),
    {
        let ghost c0 = c;
        let r = match c {
            CommandRun::NotStarted { not_found, message } => Err(
                map_spawn_error(not_found, message),
            ),
            CommandRun::Exited { code, stderr } => classify_cat_config(code, stderr.as_str()),
        };
        proof {
            reveal_strlit("wrong password");
        }
        match r {
            Ok(true) => self.to_backup(),
            Ok(false) => {
                let password = match &self.restic_password {
                    Some(p) => copy_string(p),
                    None => String::new(),
                };
                self.stage = Stage::CreatingRepository;
                Action::CreateRepository { repo: copy_string(&self.destination), password }
            },
            Err(e) => {
                let wrong = match e {
                    ResticError::WrongPassword => true,
                    _ => false,
                };
                let m = e.message();
                if wrong {
                    self.end(Outcome::Failed, None, Some(m))
                } else {
                    self.end(Outcome::ConnectionError, None, Some(m))
                }
            },
        }
    }

    fn on_repository_created(&mut self, c: CommandRun) -> (act: Action)
        requires
            old(self).wf(),
            old(self).stage == Stage::CreatingRepository,
        ensures
            follows(*old(self), JobInput::RepositoryCreated(c), *final(self), act),
            final(self).wf(),
    {
        let e = match c {
            CommandRun::NotStarted { not_found, message } => map_spawn_error(not_found, message),
            CommandRun::Exited { code, stderr } => {
                if code == Some(0i32) {
                    return self.to_backup();
                }
                super::restic::failure_from_stderr(stderr.as_str())
            },
        };
        let mut m = str_to_string("could not initialise the restic repository: ");
        let em = e.message();
        push_str(&mut m, em.as_str());
        self.end(Outcome::Failed, None, Some(m))
    }

    fn on_backup_end(&mut self, end: BackupEnd) -> (act: Action)
        requires
            old(self).wf(),
            old(self).stage == Stage::BackingUp,
        ensures
            follows(*old(self), JobInput::BackupEnded(end), *final(self), act),
            final(self).wf(),
    {
        match end {
            BackupEnd::NotStarted { not_found, message } => {
                let m = map_spawn_error(not_found, message).message();
                self.end(Outcome::Failed, None, Some(m))
            },
            BackupEnd::NoOutput => self.end(
                Outcome::Failed,
                None,
                Some(str_to_string("restic produced no output")),
            ),
            BackupEnd::LogFailed(e) => {
                let mut m = str_to_string("could not create the log file: ");
                push_str(&mut m, e.as_str());
                self.end(Outcome::Failed, None, Some(m))
            },
            BackupEnd::WaitFailed(e) => {
                let mut m = str_to_string("restic did not exit cleanly: ");
                push_str(&mut m, e.as_str());
                self.end(Outcome::Failed, None, Some(m))
            },
            BackupEnd::Exited { code, stderr_tail, cancelled, summary } => {
                if cancelled {
                    let s = match summary {
                        Some(x) => Some(EngineSummary::Restic(x)),
                        None => None,
                    };
                    return self.end(Outcome::Cancelled, s, None);
                }
                match classify_backup_exit(code) {
                    BackupExit::Failed => {
                        let m = backup_failure_message(code, &stderr_tail);
                        let s = match summary {
                            Some(x) => Some(EngineSummary::Restic(x)),
                            None => None,
                        };
                        self.end(Outcome::Failed, s, Some(m))
                    },
                    BackupExit::Incomplete => {
                        let s = match summary {
                            Some(x) => Some(EngineSummary::Restic(x)),
                            None => None,
                        };
                        self.end(Outcome::SuccessWithMismatches, s, None)
                    },
                    BackupExit::Complete => self.after_complete(summary),
                }
            },
        }
    }

    fn after_complete(&mut self, summary: Option<ResticSummary>) -> (act: Action)
        requires
            old(self).wf(),
            old(self).stage == Stage::BackingUp,
        ensures
            after_complete_backup(*old(self), *final(self), act, summary),
            final(self).wf(),
    {
        let o = match &summary {
            Some(x) => if x.files_new == 0 && x.files_changed == 0 {
                Outcome::NoChanges
            } else {
                Outcome::Success
            },
            None => Outcome::Success,
        };
        let args = forget_args(
            self.restic.keep_daily,
            self.restic.keep_weekly,
            self.restic.keep_monthly,
        );
        match args {
            Some(a) => {
                if !self.dry_run {
                    let password = match &self.restic_password {
                        Some(p) => copy_string(p),
                        None => String::new(),
                    };
                    let repo = copy_string(&self.destination);
                    self.stage = Stage::Pruning;
                    self.pending = Some((o, summary));
                    return Action::Prune { repo, password, args: a };
                }
            },
            None => {},
        }
        let s = match summary {
            Some(x) => Some(EngineSummary::Restic(x)),
            None => None,
        };
        self.end(o, s, None)
    }

    fn on_pruned(&mut self) -> (act: Action)
        requires
            old(self).wf(),
            old(self).stage == Stage::Pruning,
        ensures
            follows(*old(self), JobInput::Pruned, *final(self), act),
            final(self).wf(),
    {
        let (o, s) = match &self.pending {
            Some(p) => {
                let s = match &p.1 {
                    Some(x) => Some(EngineSummary::Restic(copy_summary(x))),
                    None => None,
                };
                (p.0, s)
            },
            None => (Outcome::Success, None),
        };
        self.end(o, s, None)
    }

    fn on_scan_end(&mut self, end: ScanEnd) -> (act: Action)
        requires
            old(self).wf(),
            old(self).stage == Stage::Scanning,
        ensures
            follows(*old(self), JobInput::Scanned(end), *final(self), act),
            final(self).wf(),
    {
        match end {
            ScanEnd::Cancelled => self.end(Outcome::Cancelled, None, None),
            ScanEnd::Failed(e) => {
                let mut m = str_to_string("could not scan the copy: ");
                push_str(&mut m, e.as_str());
                self.end(Outcome::Failed, None, Some(m))
            },
            ScanEnd::Done(s) => {
                if s.files_to_copy == 0 && s.files_to_delete == 0 {
                    self.end(Outcome::NoChanges, None, None)
                } else if self.dry_run {
                    self.end(Outcome::Success, None, None)
                } else {
                    self.stage = Stage::Copying;
                    Action::Copy {
                        args: copy_command(
                            self.source.as_str(),
                            self.destination.as_str(),
                            self.mode,
                            &self.advanced,
                        ),
                    }
                }
            },
        }
    }

    fn on_copy_end(&mut self, end: CopyEnd) -> (act: Action)
        requires
            old(self).wf(),
            old(self).stage == Stage::Copying,
        ensures
            follows(*old(self), JobInput::Copied(end), *final(self), act),
            final(self).wf(),
    {
        match end {
            CopyEnd::NotStarted(e) => {
                let mut m = str_to_string("could not start robocopy: ");
                push_str(&mut m, e.as_str());
                self.end(Outcome::Failed, None, Some(m))
            },
            CopyEnd::NoOutput => self.end(
                Outcome::Failed,
                None,
                Some(str_to_string("robocopy produced no output")),
            ),
            CopyEnd::LogFailed(e) => {
                let mut m = str_to_string("could not create the log file: ");
                push_str(&mut m, e.as_str());
                self.end(Outcome::Failed, None, Some(m))
            },
            CopyEnd::WaitFailed(e) => {
                let mut m = str_to_string("robocopy did not exit cleanly: ");
                push_str(&mut m, e.as_str());
                self.end(Outcome::Failed, None, Some(m))
            },
            CopyEnd::Exited { code, tail, cancelled } => {
                let c = match code {
                    Some(c) => c,
                    None => -1,
                };
                let s = match parse_summary(tail.as_slice(), c) {
                    Some(x) => Some(EngineSummary::Robocopy(x)),
                    None => None,
                };
                if cancelled {
                    self.end(Outcome::Cancelled, s, None)
                } else {
                    let o = classify_exit_code(c);
                    self.end(o, s, None)
                }
            },
        }
    }

    /// Takes the report of the step that was asked for and names the next
    /// one.
    pub fn step(&mut self, input: JobInput) -> (act: Action)
        requires
            old(self).wf(),
            expects(old(self).stage, input),
        ensures
            follows(*old(self), input, *final(self), act),
            final(self).wf(),
    {
        match input {
            JobInput::Validated(v) => match v {
                Ok(()) => self.to_wake(),
                Err(e) => {
                    let m = e.message();
                    self.end(Outcome::Failed, None, Some(m))
                },
            },
            JobInput::Woken(w) => match w {
                Ok(()) => self.to_connect(),
                Err(e) => {
                    let m = e.message();
                    match e {
                        WolError::Cancelled => self.end(Outcome::Cancelled, None, Some(m)),
                        _ => self.end(Outcome::ConnectionError, None, Some(m)),
                    }
                },
            },
            JobInput::Connected(a) => match a {
                ConnectAttempt::Done(Ok(())) => {
                    self.connected = true;
                    self.to_source()
                },
                ConnectAttempt::Done(Err(e)) => {
                    let m = e.message();
                    self.end(Outcome::ConnectionError, None, Some(m))
                },
                ConnectAttempt::Crashed(e) => {
                    let mut m = str_to_string("internal error while connecting: ");
                    push_str(&mut m, e.as_str());
                    self.end(Outcome::ConnectionError, None, Some(m))
                },
                ConnectAttempt::NoResponse => {
                    let mut m = str_to_string("no response from ");
                    match &self.share {
                        Some(s) => push_str(&mut m, s.as_str()),
                        None => {},
                    }
                    push_str(
                        &mut m,
                        " after 20 s: check that the NAS is powered on and reachable on the network",
                    );
                    self.end(Outcome::ConnectionError, None, Some(m))
                },
            },
            JobInput::SourceChecked(exists) => {
                if exists {
                    self.to_engine()
                } else {
                    let m = PathError::SourceMissing(copy_string(&self.source)).message();
                    self.end(Outcome::Failed, None, Some(m))
                }
            },
            JobInput::RepositoryChecked(c) => self.on_repository_check(c),
            JobInput::RepositoryCreated(c) => self.on_repository_created(c),
            JobInput::BackupEnded(end) => self.on_backup_end(end),
            JobInput::Pruned => self.on_pruned(),
            JobInput::Scanned(end) => self.on_scan_end(end),
            JobInput::Copied(end) => self.on_copy_end(end),
        }
    }
}

/// A dry run copies nothing: it never starts the copy nor prunes restic
/// snapshots, a restic backup it starts is itself a dry run, and it stays a
/// dry run to the end, where it is not recorded in the history.
pub proof fn law_dry_run_copies_nothing(run: JobRun, input: JobInput, next: JobRun, act: Action)
    requires
        run.wf(),
        expects(run.stage, input),
        follows(run, input, next, act),
        run.dry_run,
    ensures
        !(act is Copy),
        !(act is Prune),
        next.dry_run,
        act is Backup ==> string_views(act->Backup_args@)[3] == "--dry-run"@,
        act is Finish ==> !act->Finish_0.record,
{
}

/// Every real run is recorded in the history when it ends.
pub proof fn law_real_runs_are_recorded(run: JobRun, input: JobInput, next: JobRun, act: Action)
    requires
        run.wf(),
        expects(run.stage, input),
        follows(run, input, next, act),
        !run.dry_run,
    ensures
        act is Finish ==> act->Finish_0.record,
        !next.dry_run,
{
}

/// A job that connected its share disconnects it when it ends, and one that
/// did not disconnects nothing. The share is only ever connected by a
/// successful connection, and stays connected until the end.
pub proof fn law_disconnects_what_it_connected(
    run: JobRun,
    input: JobInput,
    next: JobRun,
    act: Action,
)
    requires
        run.wf(),
        expects(run.stage, input),
        follows(run, input, next, act),
    ensures
        act is Finish ==> act->Finish_0.disconnect == (if next.connected {
            next.share
        } else {
            None
        }),
        next.share == run.share,
        run.connected ==> next.connected,
        !run.connected && next.connected ==> run.stage == Stage::Connecting && input matches JobInput::Connected(
            ConnectAttempt::Done(Ok(())),
        ),
{
}

/// A job ends exactly when it says how it ended, and then waits for
/// nothing more.
pub proof fn law_finish_is_final(run: JobRun, input: JobInput, next: JobRun, act: Action)
    requires
        run.wf(),
        expects(run.stage, input),
        follows(run, input, next, act),
    ensures
        (act is Finish) <==> next.stage == Stage::Done,
        !expects(Stage::Done, input),
{
}

/// Robocopy only copies after a scan that found something to copy or to
/// delete, and never in a dry run.
pub proof fn law_copy_needs_work(run: JobRun, input: JobInput, next: JobRun, act: Action)
    requires
        run.wf(),
        expects(run.stage, input),
        follows(run, input, next, act),
    ensures
        act is Copy ==> !run.dry_run && (input matches JobInput::Scanned(ScanEnd::Done(s)) && (
        s.files_to_copy > 0 || s.files_to_delete > 0)),
{
}

/// The scan is a list-only pass (`/L`): it changes nothing, and it reports
/// what the copy would do, deletions included.
pub proof fn law_scan_is_list_only(run: JobRun, input: JobInput, next: JobRun, act: Action)
    requires
        run.wf(),
        expects(run.stage, input),
        follows(run, input, next, act),
        act is Scan,
    ensures
        string_views(act->Scan_args@).last() == "/L"@,
{
}

/// No path separator (`\\` or `/`) in `s`.
pub open spec fn no_separator(s: Seq<char>) -> bool {
    forall|k: int| 0 <= k < s.len() ==> !super::is_sep(#[trigger] s[k])
}

proof fn lemma_index_from_bounds(s: Seq<char>, c: char, from: int)
    requires
        0 <= from <= s.len(),
    ensures
        from <= crate::text::index_from(s, c, from) <= s.len(),
    decreases s.len() - from,
{
    if from < s.len() && s[from] != c {
        lemma_index_from_bounds(s, c, from + 1);
    }
}

/// When a job with Wake-on-LAN names no host, the host it waits for is the
/// server of its destination's share: for a destination `\\host\share...`
/// (either separator), `host`, whatever the source.
pub proof fn law_wake_waits_for_the_destination_server(
    req: JobRequest,
    run: JobRun,
    act: Action,
    w: WakeOnLan,
    sep1: char,
    sep2: char,
    sep3: char,
    host: Seq<char>,
    share: Seq<char>,
    tail: Seq<char>,
)
    requires
        starts(req, run, act),
        req.profile.wake_on_lan == Some(w),
        w.host@.len() == 0,
        super::is_sep(sep1),
        super::is_sep(sep2),
        super::is_sep(sep3),
        host.len() > 0,
        no_separator(host),
        share.len() > 0,
        no_separator(share),
        trim(req.profile.destination@) == seq![sep1, sep2] + host + seq![sep3] + share + tail,
    ensures
        run.wake matches Some(plan) && plan.host@ == host,
{
    let d = trim(req.profile.destination@);
    let u = slash_to_backslash(d);
    let t = slash_to_backslash(tail);
    let hl = host.len() as int;
    assert(u =~= seq!['\\', '\\'] + host + seq!['\\'] + share + t);
    let rest = u.skip(2);
    assert(rest =~= host + seq!['\\'] + share + t);
    crate::text::lemma_index_from(rest, '\\', 0, hl);
    let e1 = crate::text::index_from(rest, '\\', 0);
    assert(e1 == hl);
    assert(rest[hl + 1] == share[0]);
    lemma_index_from_bounds(rest, '\\', hl + 2);
    let e2 = crate::text::index_from(rest, '\\', e1 + 1);
    assert(e2 == crate::text::index_from(rest, '\\', hl + 2));
    assert(u.subrange(0, 2) =~= seq!['\\', '\\']);
    let root = seq!['\\', '\\'] + rest.take(e1) + seq!['\\'] + rest.subrange(e1 + 1, e2);
    assert(spec_share_root(u) == Some(root));
    assert(rest.take(e1) =~= host);
    let rest2 = root.skip(2);
    assert(rest2 =~= host + seq!['\\'] + rest.subrange(e1 + 1, e2));
    crate::text::lemma_index_from(rest2, '\\', 0, hl);
    assert(root.subrange(0, 2) =~= seq!['\\', '\\']);
    assert(rest2.take(hl) =~= host);
    assert(spec_guess_host(root) == Some(host));
}

/// A host that the job names is the one Wake-on-LAN waits for.
pub proof fn law_wake_waits_for_the_named_host(req: JobRequest, run: JobRun, act: Action, w: WakeOnLan)
    requires
        starts(req, run, act),
        req.profile.wake_on_lan == Some(w),
        w.host@.len() > 0,
    ensures
        run.wake matches Some(plan) && plan.host@ == w.host@ && plan.mac == w.mac,
{
}

/// A restic backup that exits with code 0 reports "no changes" only when its
/// summary says that no file was new and none changed; any new or changed
/// file, or a missing summary, makes it a success. With a retention policy
/// on a real run, that outcome waits while the snapshots are pruned.
pub proof fn law_backup_without_new_or_changed_files_changes_nothing(
    run: JobRun,
    stderr_tail: Vec<String>,
    summary: Option<ResticSummary>,
    next: JobRun,
    act: Action,
)
    requires
        run.wf(),
        run.stage == Stage::BackingUp,
        follows(
            run,
            JobInput::BackupEnded(
                BackupEnd::Exited { code: Some(0i32), stderr_tail, cancelled: false, summary },
            ),
            next,
            act,
        ),
    ensures
        act is Finish || act is Prune,
        act is Finish ==> (act->Finish_0.outcome == Outcome::NoChanges <==> (summary matches Some(
            x,
        ) && x.files_new == 0 && x.files_changed == 0)),
        act is Finish ==> (act->Finish_0.outcome == Outcome::NoChanges || act->Finish_0.outcome
            == Outcome::Success),
        act is Prune ==> (next.pending matches Some(p) && (p.0 == Outcome::NoChanges <==> (
        summary matches Some(x) && x.files_new == 0 && x.files_changed == 0)) && (p.0
            == Outcome::NoChanges || p.0 == Outcome::Success)),
{
}

/// Pruning ends the job with the outcome and the totals of the backup before
/// it.
pub proof fn law_pruning_keeps_the_backup_outcome(run: JobRun, next: JobRun, act: Action)
    requires
        run.wf(),
        run.stage == Stage::Pruning,
        follows(run, JobInput::Pruned, next, act),
    ensures
        run.pending matches Some(p) && act is Finish && act->Finish_0.outcome == p.0
            && act->Finish_0.summary == restic_summary(p.1),
{
}

/// A restic backup that exits with code 3 (snapshot created, some source
/// files unreadable) finishes with warnings, and its retention policy is not
/// applied.
pub proof fn law_incomplete_backup_warns(
    run: JobRun,
    code: Option<i32>,
    stderr_tail: Vec<String>,
    summary: Option<ResticSummary>,
    next: JobRun,
    act: Action,
)
    requires
        run.wf(),
        run.stage == Stage::BackingUp,
        code == Some(3i32),
        follows(
            run,
            JobInput::BackupEnded(
                BackupEnd::Exited { code, stderr_tail, cancelled: false, summary },
            ),
            next,
            act,
        ),
    ensures
        act is Finish,
        act->Finish_0.outcome == Outcome::SuccessWithMismatches,
        act->Finish_0.error is None,
{
}

} // verus!
