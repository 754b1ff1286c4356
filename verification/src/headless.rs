//! The unattended mode, `nasmirror --job "<name>" [--dry-run]`, used by
//! scheduled tasks: which saved jobs it can run, and the exit code it ends
//! with.
//!
//! Exit codes: 0 success (or nothing to copy), 1 failure or connection
//! error, 2 cancelled, 3 job not found, 4 completed with mismatches, 5 the
//! job needs a password and cannot run without the window.

use vstd::prelude::*;

use crate::engine::types::{Engine, JobRequest, Outcome, Profile};
use crate::text::{push_str, str_to_string};

verus! {

/// The job named on the command line does not exist.
pub const EXIT_NOT_FOUND: i32 = 3;

/// The job needs a password (network or restic) that is never stored, so
/// it cannot run without the window. Distinct from 4 ("completed with
/// mismatches") so a scheduled task can tell them apart.
pub const EXIT_NEEDS_WINDOW: i32 = 5;

pub open spec fn spec_exit_code(outcome: Outcome) -> i32 {
    match outcome {
        Outcome::Success | Outcome::NoChanges => 0,
        Outcome::SuccessWithMismatches => 4,
        Outcome::Cancelled => 2,
        Outcome::Failed | Outcome::ConnectionError => 1,
    }
}

/// The exit code of a job that ran.
pub fn exit_code(outcome: Outcome) -> (c: i32)
    ensures
        c == spec_exit_code(outcome),
{
    match outcome {
        Outcome::Success | Outcome::NoChanges => 0,
        Outcome::SuccessWithMismatches => 4,
        Outcome::Cancelled => 2,
        Outcome::Failed | Outcome::ConnectionError => 1,
    }
}

/// Why the unattended mode does not run a job.
#[derive(Debug, Clone, Copy, PartialEq, Eq, Structural)]
pub enum Refusal {
    NotFound,
    /// The job connects a share with a user and password.
    NeedsCredentials,
    /// The job uses restic, whose repository password is never stored.
    NeedsResticPassword,
}

pub open spec fn spec_refusal(profile: Option<Profile>) -> Option<Refusal> {
    match profile {
        None => Some(Refusal::NotFound),
        Some(p) => if p.credentials is Some {
            Some(Refusal::NeedsCredentials)
        } else if p.engine == Engine::Restic {
            Some(Refusal::NeedsResticPassword)
        } else {
            None
        },
    }
}

/// Whether the job that was found (if any) can run without the window.
/// Passwords are never stored in a job, so one that needs them cannot
/// authenticate: it is refused with a clear message instead of hanging or
/// failing silently.
pub fn refusal(profile: &Option<Profile>) -> (r: Option<Refusal>)
    ensures
        r == spec_refusal(*profile),
{
    match profile {
        None => Some(Refusal::NotFound),
        Some(p) => if p.credentials.is_some() {
            Some(Refusal::NeedsCredentials)
        } else if p.engine == Engine::Restic {
            Some(Refusal::NeedsResticPassword)
        } else {
            None
        },
    }
}

pub open spec fn spec_refusal_code(r: Refusal) -> i32 {
    match r {
        Refusal::NotFound => EXIT_NOT_FOUND,
        _ => EXIT_NEEDS_WINDOW,
    }
}

pub open spec fn refusal_text(r: Refusal, name: Seq<char>) -> Seq<char> {
    match r {
        Refusal::NotFound => "Job not found: '"@ + name
            + "'. Use the same name you gave it in the window."@,
        Refusal::NeedsCredentials => "Job '"@ + name
            + "' needs a network user and password, so it cannot run without a window yet. Use a destination that is already authenticated (a persistent network drive), or drop the credentials from the job."@,
        Refusal::NeedsResticPassword => "Job '"@ + name
            + "' uses the restic engine, which cannot run without a window yet: the repository password is never stored. Run it from the window, or switch the job to robocopy."@,
    }
}

impl Refusal {
    pub fn exit_code(&self) -> (c: i32)
        ensures
            c == spec_refusal_code(*self),
    {
        match self {
            Refusal::NotFound => EXIT_NOT_FOUND,
            _ => EXIT_NEEDS_WINDOW,
        }
    }

    /// What is printed for the job named `name`.
    pub fn message(&self, name: &str) -> (m: String)
        ensures
            m@ == refusal_text(*self, name@),
    {
        match self {
            Refusal::NotFound => {
                let mut m = str_to_string("Job not found: '");
                push_str(&mut m, name);
                push_str(&mut m, "'. Use the same name you gave it in the window.");
                m
            },
            Refusal::NeedsCredentials => {
                let mut m = str_to_string("Job '");
                push_str(&mut m, name);
                push_str(
                    &mut m,
                    "' needs a network user and password, so it cannot run without a window yet. Use a destination that is already authenticated (a persistent network drive), or drop the credentials from the job.",
                );
                m
            },
            Refusal::NeedsResticPassword => {
                let mut m = str_to_string("Job '");
                push_str(&mut m, name);
                push_str(
                    &mut m,
                    "' uses the restic engine, which cannot run without a window yet: the repository password is never stored. Run it from the window, or switch the job to robocopy.",
                );
                m
            },
        }
    }
}

/// The request of an unattended run: no passwords.
pub fn unattended_request(profile: Profile, dry_run: bool) -> (r: JobRequest)
    ensures
        r.profile == profile,
        r.password is None,
        r.restic_password is None,
        r.dry_run == dry_run,
{
    JobRequest { profile, password: None, restic_password: None, dry_run }
}

/// A job that needs a password is never run unattended: it ends with exit
/// code 5, whatever else it holds.
pub proof fn law_password_jobs_exit_with_five(p: Profile)
    requires
        p.credentials is Some || p.engine == Engine::Restic,
    ensures
        spec_refusal(Some(p)) matches Some(r) && spec_refusal_code(r) == EXIT_NEEDS_WINDOW,
{
}

/// Every outcome of a job that ran maps to one of the documented codes, and
/// only "not found" and "needs the window" use 3 and 5.
pub proof fn law_exit_codes_are_distinct(o: Outcome)
    ensures
        spec_exit_code(o) == 0 || spec_exit_code(o) == 1 || spec_exit_code(o) == 2
            || spec_exit_code(o) == 4,
        spec_exit_code(o) != EXIT_NOT_FOUND,
        spec_exit_code(o) != EXIT_NEEDS_WINDOW,
{
}

} // verus!
