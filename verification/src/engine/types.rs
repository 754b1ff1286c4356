//! The data a job is made of: saved profiles, requests, phases, outcomes and
//! the summaries each engine reports.

use vstd::prelude::*;

verus! {

#[derive(Debug, Clone, Copy, PartialEq, Eq, Structural)]
pub enum CopyMode {
    /// Adds and updates; never deletes anything at the destination.
    Accumulate,
    /// Makes the destination identical to the source (deletes extra files).
    Mirror,
}

pub open spec fn spec_robocopy_flag(mode: CopyMode) -> Seq<char> {
    match mode {
        CopyMode::Accumulate => "/E"@,
        CopyMode::Mirror => "/MIR"@,
    }
}

impl CopyMode {
    pub fn robocopy_flag(self) -> (r: &'static str)
        ensures
            r@ == spec_robocopy_flag(self),
    {
        match self {
            CopyMode::Accumulate => "/E",
            CopyMode::Mirror => "/MIR",
        }
    }
}

/// Which tool performs the copy, chosen per job. Robocopy is fast and simple
/// but copies whole files with no history; restic adds deduplication,
/// encryption and versioned snapshots, at the cost of speed and an external
/// binary.
#[derive(Debug, Clone, Copy, PartialEq, Eq, Structural)]
pub enum Engine {
    Robocopy,
    Restic,
}

impl Default for Engine {
    fn default() -> (r: Self)
        ensures
            r == Engine::Robocopy,
    {
        Engine::Robocopy
    }
}

/// Restic settings for a job. Like the network password, the repository
/// password is never persisted; it is requested on every run.
#[derive(Debug, Clone, Copy, PartialEq, Eq, Structural)]
pub struct ResticOptions {
    pub keep_daily: u32,
    pub keep_weekly: u32,
    pub keep_monthly: u32,
}

impl Default for ResticOptions {
    fn default() -> (r: Self)
        ensures
            r.keep_daily == 0 && r.keep_weekly == 0 && r.keep_monthly == 0,
    {
        ResticOptions { keep_daily: 0, keep_weekly: 0, keep_monthly: 0 }
    }
}

#[derive(Debug, Clone)]
pub struct Credentials {
    pub user: String,
    /// Never persisted in the profile saved to disk.
    pub password: String,
}

#[derive(Debug, Clone)]
pub struct WakeOnLan {
    pub mac: String,
    pub host: String,
    pub timeout_secs: u32,
}

/// How long Wake-on-LAN waits for the target when the profile does not say.
pub fn default_wol_timeout() -> (r: u32)
    ensures
        r == 120,
{
    120
}

#[derive(Debug, Clone)]
pub struct AdvancedOptions {
    pub threads: u32,
    pub unbuffered_io: bool,
    pub retries: u32,
    pub wait_secs: u32,
    pub fat_time_tolerance: bool,
    pub dst_adjust: bool,
    pub exclude_dirs: Vec<String>,
    pub exclude_files: Vec<String>,
    pub extra_flags: Vec<String>,
}

pub fn default_threads() -> (r: u32)
    ensures
        r == 16,
{
    16
}

pub fn default_retries() -> (r: u32)
    ensures
        r == 1,
{
    1
}

pub fn default_wait() -> (r: u32)
    ensures
        r == 2,
{
    2
}

impl Default for AdvancedOptions {
    fn default() -> (r: Self)
        ensures
            r.threads == 16,
            !r.unbuffered_io,
            r.retries == 1,
            r.wait_secs == 2,
            !r.fat_time_tolerance,
            !r.dst_adjust,
            r.exclude_dirs@.len() == 0,
            r.exclude_files@.len() == 0,
            r.extra_flags@.len() == 0,
    {
        AdvancedOptions {
            threads: default_threads(),
            unbuffered_io: false,
            retries: default_retries(),
            wait_secs: default_wait(),
            fat_time_tolerance: false,
            dst_adjust: false,
            exclude_dirs: Vec::new(),
            exclude_files: Vec::new(),
            extra_flags: Vec::new(),
        }
    }
}

/// A named, saved copy job.
#[derive(Debug, Clone)]
pub struct Profile {
    pub id: String,
    pub name: String,
    pub source: String,
    pub destination: String,
    pub mode: CopyMode,
    pub credentials: Option<Credentials>,
    pub wake_on_lan: Option<WakeOnLan>,
    pub advanced: AdvancedOptions,
    pub engine: Engine,
    pub restic: ResticOptions,
}

#[derive(Debug, Clone)]
pub struct JobRequest {
    pub profile: Profile,
    /// Held only in memory for this request, never in the saved profile.
    pub password: Option<String>,
    /// Restic repository password (when `profile.engine == Restic`). Never
    /// persisted.
    pub restic_password: Option<String>,
    /// Scan only (robocopy /L): nothing is copied or deleted.
    pub dry_run: bool,
}

#[derive(Debug, Clone, Copy, PartialEq, Eq, Structural)]
pub enum JobPhase {
    Connecting,
    WakingTarget,
    Scanning,
    Copying,
    Cancelling,
    Done,
}

/// Why the job ended. For robocopy it is derived from the real exit code
/// (0-7 = success with varying detail, 8+ = failure; see the robocopy docs),
/// never inferred from the progress reaching 100%.
#[derive(Debug, Clone, Copy, PartialEq, Eq, Structural)]
pub enum Outcome {
    NoChanges,
    Success,
    SuccessWithMismatches,
    Failed,
    Cancelled,
    ConnectionError,
}

#[derive(Debug, Clone, Copy, PartialEq, Eq, Structural)]
pub struct RobocopySummary {
    pub exit_code: i32,
    pub dirs_copied: u64,
    pub files_copied: u64,
    pub files_failed: u64,
    pub files_extra: u64,
    pub bytes_copied: u64,
    pub bytes_failed: u64,
}

/// From the `summary` message of `restic backup --json` (message_type: "summary").
#[derive(Debug, Clone)]
pub struct ResticSummary {
    pub snapshot_id: String,
    pub files_new: u64,
    pub files_changed: u64,
    pub files_unmodified: u64,
    pub data_added: u64,
    pub total_files_processed: u64,
    pub total_bytes_processed: u64,
}

#[derive(Debug, Clone)]
pub enum EngineSummary {
    Robocopy(RobocopySummary),
    Restic(ResticSummary),
}

/// A single progress sample. The engine sends raw counters rather than
/// pre-averaged values; smoothing and charting are left to the frontend.
#[derive(Debug, Clone)]
pub struct ProgressSample {
    pub job_id: String,
    pub at_ms: u64,
    pub bytes_done: u64,
    pub bytes_total: u64,
    pub files_done: u64,
    pub files_total: u64,
    pub current_file: String,
    pub current_file_bytes_done: u64,
    pub current_file_bytes_total: u64,
}

} // verus!
