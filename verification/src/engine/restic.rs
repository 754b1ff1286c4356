//! Alternative engine to robocopy: the `restic` binary, which must be on the
//! PATH (`winget install restic.restic`). It adds what robocopy cannot:
//! block-level deduplication, AES-256 encryption of the repository and
//! versioned snapshots (each backup is a new version, not an overwrite).
//!
//! The job destination is used as the path of a local restic repository
//! (`RESTIC_REPOSITORY=<destination>`); if the destination is a mounted
//! `\\nas\share`, the repository simply lives there. This module holds what
//! restic is asked and how its answers are read.

use vstd::prelude::*;

use super::job::opt_view;
use super::robocopy::last_n;
use super::types::{AdvancedOptions, ProgressSample, ResticSummary};
use crate::text::{
    chars_eq, chars_of, contains, dec, dec_i64, dec_signed, dec_u64, push_all, push_str,
    split, starts_with, str_to_string, string_of, string_views, trim, trim_bounds,
};

verus! {

#[derive(Debug)]
pub enum ResticError {
    NotFound,
    WrongPassword,
    Failed(String),
}

pub open spec fn restic_error_message(e: ResticError) -> Seq<char> {
    match e {
        ResticError::NotFound =>
            "could not find 'restic' in your PATH. Install it with 'winget install restic.restic' and restart the app"@,
        ResticError::WrongPassword => "wrong password for the restic repository"@,
        ResticError::Failed(s) => "restic failed: "@ + s@,
    }
}

impl ResticError {
    /// The message shown to the user.
    pub fn message(&self) -> (m: String)
        ensures
            m@ == restic_error_message(*self),
    {
        match self {
            ResticError::NotFound => str_to_string(
                "could not find 'restic' in your PATH. Install it with 'winget install restic.restic' and restart the app",
            ),
            ResticError::WrongPassword => str_to_string("wrong password for the restic repository"),
            ResticError::Failed(s) => {
                let mut m = str_to_string("restic failed: ");
                push_str(&mut m, s.as_str());
                m
            },
        }
    }
}

/// The error for a failure to start restic: a missing binary is reported as
/// such, anything else with the system's message.
pub fn map_spawn_error(not_found: bool, message: String) -> (r: ResticError)
    ensures
        not_found ==> r is NotFound,
        !not_found ==> r == ResticError::Failed(message),
{
    if not_found {
        ResticError::NotFound
    } else {
        ResticError::Failed(message)
    }
}

/// The error for a restic command that exited unsuccessfully: its standard
/// error, trimmed.
pub fn failure_from_stderr(stderr: &str) -> (r: ResticError)
    ensures
        r matches ResticError::Failed(m) && m@ == trim(stderr@),
{
    ResticError::Failed(string_of(&crate::text::trim_chars(stderr)))
}

/// `{:?}` of an optional exit code.
pub open spec fn debug_code(code: Option<i32>) -> Seq<char> {
    match code {
        Some(c) => "Some("@ + dec_signed(c as int) + ")"@,
        None => "None"@,
    }
}

/// The first of `lines` that starts with `Fatal:`.
pub open spec fn first_fatal(lines: Seq<Seq<char>>) -> Option<Seq<char>>
    decreases lines.len(),
{
    if lines.len() == 0 {
        None
    } else {
        match first_fatal(lines.drop_last()) {
            Some(l) => Some(l),
            None => if starts_with(lines.last(), "Fatal:"@) {
                Some(lines.last())
            } else {
                None
            },
        }
    }
}

/// The last non-empty line of `lines`.
pub open spec fn last_non_empty(lines: Seq<Seq<char>>) -> Option<Seq<char>>
    decreases lines.len(),
{
    if lines.len() == 0 {
        None
    } else if lines.last().len() > 0 {
        Some(lines.last())
    } else {
        last_non_empty(lines.drop_last())
    }
}

/// The lines of `s`, each trimmed (what `s.lines().map(str::trim)` yields,
/// up to empty lines at the end, which trim to nothing).
pub open spec fn trimmed_lines(s: Seq<char>) -> Seq<Seq<char>> {
    trim_each(split(s, '\n'))
}

/// Each of `ls`, trimmed.
pub open spec fn trim_each(ls: Seq<Seq<char>>) -> Seq<Seq<char>> {
    ls.map_values(|l: Seq<char>| trim(l))
}

/// The character sequences that `v` holds.
pub open spec fn char_rows(v: Seq<Vec<char>>) -> Seq<Seq<char>> {
    v.map_values(|x: Vec<char>| x@)
}

/// What explains a failed `cat config`: the first `Fatal:` line, otherwise the
/// last non-empty line, otherwise the exit code.
pub open spec fn failure_reason(code: Option<i32>, stderr: Seq<char>) -> Seq<char> {
    match first_fatal(trimmed_lines(stderr)) {
        Some(l) => l,
        None => match last_non_empty(trimmed_lines(stderr)) {
            Some(l) => l,
            None => "restic exited with code "@ + debug_code(code),
        },
    }
}

pub open spec fn no_repository_marker() -> Seq<char> {
    "Is there a repository at the following location?"@
}

/// Reads the result of `restic cat config`. Only "the repository does not
/// exist" may lead to `restic init`: a wrong password or an unreachable
/// repository would otherwise end in a misleading "config file already
/// exists" from `init`. Exit codes 10 and 12 exist since restic 0.17; older
/// versions exit with 1 and are recognised by their message.
pub fn classify_cat_config(code: Option<i32>, stderr: &str) -> (r: Result<bool, ResticError>)
    ensures
        code == Some(0i32) ==> r == Ok::<bool, ResticError>(true),
        code == Some(10i32) ==> r == Ok::<bool, ResticError>(false),
        code == Some(12i32) ==> r matches Err(ResticError::WrongPassword),
        code != Some(0i32) && code != Some(10i32) && code != Some(12i32) ==> {
            if contains(stderr@, no_repository_marker()) {
                r == Ok::<bool, ResticError>(false)
            } else if contains(stderr@, "wrong password"@) {
                r matches Err(ResticError::WrongPassword)
            } else {
                r matches Err(ResticError::Failed(m)) && m@ == failure_reason(code, stderr@)
            }
        },
{
    match code {
        Some(0) => return Ok(true),
        Some(10) => return Ok(false),
        Some(12) => return Err(ResticError::WrongPassword),
        _ => {},
    }
    let v = chars_of(stderr);
    assert(v@.subrange(0, v@.len() as int) =~= v@);
    if crate::text::contains_at(&v, 0, v.len(), &chars_of("Is there a repository at the following location?")) {
        return Ok(false);
    }
    if crate::text::contains_at(&v, 0, v.len(), &chars_of("wrong password")) {
        return Err(ResticError::WrongPassword);
    }
    Err(ResticError::Failed(reason(code, &v)))
}

fn debug_code_string(code: Option<i32>) -> (s: String)
    ensures
        s@ == debug_code(code),
{
    match code {
        Some(c) => {
            let mut s = str_to_string("Some(");
            push_all(&mut s, &dec_i64(c as i64));
            push_str(&mut s, ")");
            s
        },
        None => str_to_string("None"),
    }
}

/// The trimmed lines of `v`.
fn lines_trimmed(v: &Vec<char>) -> (r: Vec<Vec<char>>)
    ensures
        char_rows(r@) == trimmed_lines(v@),
{
    let mut out: Vec<Vec<char>> = Vec::new();
    let mut start: usize = 0;
    let mut i: usize = 0;
    proof {
        assert(v@.subrange(0, 0) =~= Seq::<char>::empty());
        assert(split(Seq::<char>::empty(), '\n') =~= seq![Seq::<char>::empty()]);
    }
    while i < v.len()
        invariant
            start <= i <= v@.len(),
            split(v@.subrange(0, i as int), '\n').last() == v@.subrange(start as int, i as int),
            split(v@.subrange(0, i as int), '\n').len() >= 1,
            char_rows(out@) == trim_each(split(v@.subrange(0, i as int), '\n').drop_last()),
        decreases v.len() - i,
    {
        let ghost s = v@.subrange(0, i as int);
        let ghost s2 = v@.subrange(0, i + 1);
        let ghost before = char_rows(out@);
        proof {
            assert(s2.drop_last() =~= s);
            assert(s2.last() == v@[i as int]);
        }
        if v[i] == '\n' {
            let (a, b) = trim_bounds(v, start, i);
            let piece = crate::text::copy_range(v, a, b);
            let ghost pv = piece@;
            out.push(piece);
            proof {
                let sp = split(s, '\n');
                assert(split(s2, '\n') == sp.push(Seq::<char>::empty()));
                assert(split(s2, '\n').drop_last() =~= sp);
                assert(sp =~= sp.drop_last().push(sp.last()));
                assert(char_rows(out@) =~= before.push(pv));
                assert(trim_each(sp) =~= trim_each(sp.drop_last()).push(trim(sp.last())));
                assert(v@.subrange(i + 1, i + 1) =~= Seq::<char>::empty());
            }
            start = i + 1;
        } else {
            proof {
                let sp = split(s, '\n');
                assert(split(s2, '\n') == sp.update(sp.len() - 1, sp.last().push(v@[i as int])));
                assert(split(s2, '\n').drop_last() =~= sp.drop_last());
                assert(v@.subrange(start as int, i + 1) =~= v@.subrange(start as int, i as int).push(
                    v@[i as int],
                ));
            }
        }
        i += 1;
    }
    let (a, b) = trim_bounds(v, start, v.len());
    let piece = crate::text::copy_range(v, a, b);
    let ghost before = char_rows(out@);
    let ghost pv = piece@;
    out.push(piece);
    proof {
        let sp = split(v@.subrange(0, v@.len() as int), '\n');
        assert(v@.subrange(0, v@.len() as int) =~= v@);
        assert(sp =~= sp.drop_last().push(sp.last()));
        assert(char_rows(out@) =~= before.push(pv));
        assert(trim_each(sp) =~= trim_each(sp.drop_last()).push(trim(sp.last())));
    }
    out
}

fn reason(code: Option<i32>, v: &Vec<char>) -> (m: String)
    ensures
        m@ == failure_reason(code, v@),
{
    let lines = lines_trimmed(v);
    let ghost ls = char_rows(lines@);
    let fatal = chars_of("Fatal:");
    let mut i: usize = 0;
    while i < lines.len()
        invariant
            i <= lines@.len(),
            ls == char_rows(lines@),
            ls == trimmed_lines(v@),
            fatal@ == "Fatal:"@,
            first_fatal(ls.take(i as int)) is None,
        decreases lines.len() - i,
    {
        assert(ls.take(i + 1).drop_last() =~= ls.take(i as int));
        assert(ls.take(i + 1).last() == lines@[i as int]@);
        assert(lines@[i as int]@.subrange(0, lines@[i as int]@.len() as int) =~= lines@[i as int]@);
        if crate::text::has_prefix_at(&lines[i], 0, lines[i].len(), &fatal) {
            proof {
                lemma_first_fatal_prefix(ls, i + 1);
            }
            return string_of(&lines[i]);
        }
        i += 1;
    }
    assert(ls.take(ls.len() as int) =~= ls);
    let mut j = lines.len();
    while j > 0
        invariant
            j <= lines@.len(),
            ls == char_rows(lines@),
            ls == trimmed_lines(v@),
            first_fatal(ls) is None,
            last_non_empty(ls) == last_non_empty(ls.take(j as int)),
        decreases j,
    {
        assert(ls.take(j as int).drop_last() =~= ls.take(j - 1));
        assert(ls.take(j as int).last() == lines@[j - 1]@);
        if lines[j - 1].len() > 0 {
            return string_of(&lines[j - 1]);
        }
        j -= 1;
    }
    assert(ls.take(0) =~= Seq::<Seq<char>>::empty());
    let mut m = str_to_string("restic exited with code ");
    let d = debug_code_string(code);
    push_str(&mut m, d.as_str());
    m
}

/// A `Fatal:` line found among the first `k` lines is the first one overall.
proof fn lemma_first_fatal_prefix(ls: Seq<Seq<char>>, k: int)
    requires
        0 <= k <= ls.len(),
        first_fatal(ls.take(k)) is Some,
    ensures
        first_fatal(ls) == first_fatal(ls.take(k)),
    decreases ls.len() - k,
{
    if k < ls.len() {
        assert(ls.take(k + 1).drop_last() =~= ls.take(k));
        lemma_first_fatal_prefix(ls, k + 1);
    } else {
        assert(ls.take(k) =~= ls);
    }
}

/// How `restic backup` ended, from its exit code (restic docs, "Exit status
/// codes"): 0 = snapshot created; 3 = snapshot created, but some source files
/// could not be read, so it is incomplete; anything else = no snapshot.
#[derive(Debug, Clone, Copy, PartialEq, Eq, Structural)]
pub enum BackupExit {
    Complete,
    Incomplete,
    Failed,
}

pub open spec fn spec_classify_backup_exit(code: Option<i32>) -> BackupExit {
    match code {
        Some(0) => BackupExit::Complete,
        Some(3) => BackupExit::Incomplete,
        _ => BackupExit::Failed,
    }
}

pub fn classify_backup_exit(code: Option<i32>) -> (r: BackupExit)
    ensures
        r == spec_classify_backup_exit(code),
{
    match code {
        Some(0) => BackupExit::Complete,
        Some(3) => BackupExit::Incomplete,
        _ => BackupExit::Failed,
    }
}

/// How many lines of restic's standard error are kept: the end is where it
/// explains failures.
pub const STDERR_TAIL_LINES: usize = 50;

/// Adds a line of restic's standard error to `tail`, which keeps only the
/// last `STDERR_TAIL_LINES`.
pub fn keep_stderr_line(tail: &mut Vec<String>, line: String)
    ensures
        string_views(final(tail)@) == last_n(
            string_views(old(tail)@).push(line@),
            STDERR_TAIL_LINES as nat,
        ),
{
    let ghost all = string_views(tail@).push(line@);
    tail.push(line);
    assert(string_views(tail@) =~= all);
    assert(all.skip(0) =~= all);
    while tail.len() > STDERR_TAIL_LINES
        invariant
            all.len() >= string_views(tail@).len(),
            string_views(tail@).len() == all.len() || string_views(tail@).len() >= STDERR_TAIL_LINES,
            string_views(tail@) == all.skip(all.len() - string_views(tail@).len()),
        decreases tail.len(),
    {
        let ghost cur = string_views(tail@);
        let _ = tail.remove(0);
        assert(string_views(tail@) =~= cur.drop_first());
        assert(all.skip(all.len() - cur.len() + 1) =~= cur.drop_first());
    }
    proof {
        if all.len() <= STDERR_TAIL_LINES {
            assert(all.skip(0) =~= all);
        }
    }
}

/// The error of a `restic backup` that exited without a snapshot: its exit
/// code and, when there is one, the last non-blank line of its standard
/// error (where restic explains failures: wrong password, locked
/// repository, ...), trimmed.
pub open spec fn backup_failure_text(code: Option<i32>, stderr_tail: Seq<Seq<char>>) -> Seq<char> {
    match last_non_empty(trim_each(stderr_tail)) {
        Some(l) => "restic exited with code "@ + debug_code(code) + ": "@ + l,
        None => "restic exited with code "@ + debug_code(code),
    }
}

pub fn backup_failure_message(code: Option<i32>, stderr_tail: &Vec<String>) -> (m: String)
    ensures
        m@ == backup_failure_text(code, string_views(stderr_tail@)),
{
    let ghost ls = trim_each(string_views(stderr_tail@));
    let mut j = stderr_tail.len();
    assert(ls.take(j as int) =~= ls);
    while j > 0
        invariant
            j <= stderr_tail@.len(),
            ls == trim_each(string_views(stderr_tail@)),
            last_non_empty(ls) == last_non_empty(ls.take(j as int)),
        decreases j,
    {
        assert(ls.take(j as int).drop_last() =~= ls.take(j - 1));
        let t = crate::text::trim_chars(stderr_tail[j - 1].as_str());
        assert(ls.take(j as int).last() == t@);
        if t.len() > 0 {
            let mut m = str_to_string("restic exited with code ");
            let d = debug_code_string(code);
            push_str(&mut m, d.as_str());
            push_str(&mut m, ": ");
            push_all(&mut m, &t);
            return m;
        }
        j -= 1;
    }
    assert(ls.take(0) =~= Seq::<Seq<char>>::empty());
    let mut m = str_to_string("restic exited with code ");
    let d = debug_code_string(code);
    push_str(&mut m, d.as_str());
    m
}

/// The arguments of `restic forget --prune` for a retention policy: how many
/// daily, weekly and monthly snapshots to keep. `None` when no policy is
/// configured, so that nothing is deleted.
pub open spec fn spec_forget_args(keep_daily: u32, keep_weekly: u32, keep_monthly: u32) -> Option<Seq<Seq<char>>> {
    if keep_daily == 0 && keep_weekly == 0 && keep_monthly == 0 {
        None
    } else {
        Some(
            seq!["forget"@, "--prune"@] + (if keep_daily > 0 {
                seq!["--keep-daily"@, dec(keep_daily as nat)]
            } else {
                Seq::<Seq<char>>::empty()
            }) + (if keep_weekly > 0 {
                seq!["--keep-weekly"@, dec(keep_weekly as nat)]
            } else {
                Seq::<Seq<char>>::empty()
            }) + (if keep_monthly > 0 {
                seq!["--keep-monthly"@, dec(keep_monthly as nat)]
            } else {
                Seq::<Seq<char>>::empty()
            }),
        )
    }
}

/// The value that follows `flag` wherever `flag` stands in `args`.
pub open spec fn flag_value_is(args: Seq<Seq<char>>, flag: Seq<char>, value: Seq<char>) -> bool {
    forall|i: int| 0 <= i < args.len() && #[trigger] args[i] == flag ==> i + 1 < args.len() && args[i
        + 1] == value
}

/// A retention policy deletes nothing unless one of its counts is set; then
/// the arguments are `forget --prune` and, for each count that is set and for
/// it alone, its `--keep-...` flag followed by that count in decimal.
pub proof fn law_each_keep_flag_carries_its_own_count(
    keep_daily: u32,
    keep_weekly: u32,
    keep_monthly: u32,
)
    ensures
        spec_forget_args(keep_daily, keep_weekly, keep_monthly) is None <==> (keep_daily == 0
            && keep_weekly == 0 && keep_monthly == 0),
        spec_forget_args(keep_daily, keep_weekly, keep_monthly) matches Some(a) ==> {
            &&& a.len() >= 4
            &&& a[0] == "forget"@
            &&& a[1] == "--prune"@
            &&& (keep_daily > 0 <==> a.contains("--keep-daily"@))
            &&& (keep_weekly > 0 <==> a.contains("--keep-weekly"@))
            &&& (keep_monthly > 0 <==> a.contains("--keep-monthly"@))
            &&& flag_value_is(a, "--keep-daily"@, dec(keep_daily as nat))
            &&& flag_value_is(a, "--keep-weekly"@, dec(keep_weekly as nat))
            &&& flag_value_is(a, "--keep-monthly"@, dec(keep_monthly as nat))
        },
{
    reveal_strlit("forget");
    reveal_strlit("--prune");
    reveal_strlit("--keep-daily");
    reveal_strlit("--keep-weekly");
    reveal_strlit("--keep-monthly");
    crate::text::lemma_dec_digits(keep_daily as nat);
    crate::text::lemma_dec_digits(keep_weekly as nat);
    crate::text::lemma_dec_digits(keep_monthly as nat);
    let dd = dec(keep_daily as nat);
    let dw = dec(keep_weekly as nat);
    let dm = dec(keep_monthly as nat);
    let fd = "--keep-daily"@;
    let fw = "--keep-weekly"@;
    let fm = "--keep-monthly"@;
    let ff = "forget"@;
    let fp = "--prune"@;
    assert(crate::text::is_digit(dd[0]) && crate::text::is_digit(dw[0]) && crate::text::is_digit(
        dm[0],
    ));
    assert(fd[0] == '-' && fw[0] == '-' && fm[0] == '-' && fp[0] == '-' && ff[0] == 'f');
    assert(dd != fd && dd != fw && dd != fm);
    assert(dw != fd && dw != fw && dw != fm);
    assert(dm != fd && dm != fw && dm != fm);
    assert(fd.len() == 12 && fw.len() == 13 && fm.len() == 14 && fp.len() == 7 && ff.len() == 6);
    assert(fd != fw && fd != fm && fw != fm && fp != fd && fp != fw && fp != fm);
    assert(ff != fd && ff != fw && ff != fm);
    match spec_forget_args(keep_daily, keep_weekly, keep_monthly) {
        Some(a) => {
            let pd = if keep_daily > 0 {
                seq![fd, dd]
            } else {
                Seq::<Seq<char>>::empty()
            };
            let pw = if keep_weekly > 0 {
                seq![fw, dw]
            } else {
                Seq::<Seq<char>>::empty()
            };
            let pm = if keep_monthly > 0 {
                seq![fm, dm]
            } else {
                Seq::<Seq<char>>::empty()
            };
            assert(a == seq![ff, fp] + pd + pw + pm);
            let od = 2int;
            let ow: int = 2 + pd.len() as int;
            let om: int = ow + pw.len() as int;
            assert forall|i: int| 0 <= i < a.len() implies (a[i] == if 0 <= i - om < pm.len() {
                pm[i - om]
            } else if 0 <= i - ow < pw.len() {
                pw[i - ow]
            } else if 0 <= i - od < pd.len() {
                pd[i - od]
            } else if i == 0 {
                ff
            } else {
                fp
            }) by {}
            if keep_daily > 0 {
                assert(a[od] == fd);
            }
            if keep_weekly > 0 {
                assert(a[ow] == fw);
            }
            if keep_monthly > 0 {
                assert(a[om] == fm);
            }
        },
        None => {},
    }
}

fn number(n: u32) -> (s: String)
    ensures
        s@ == dec(n as nat),
{
    string_of(&dec_u64(n as u64))
}

pub fn forget_args(keep_daily: u32, keep_weekly: u32, keep_monthly: u32) -> (r: Option<Vec<String>>)
    ensures
        match r {
            Some(a) => spec_forget_args(keep_daily, keep_weekly, keep_monthly) == Some(string_views(a@)),
            None => spec_forget_args(keep_daily, keep_weekly, keep_monthly) is None,
        },
{
    if keep_daily == 0 && keep_weekly == 0 && keep_monthly == 0 {
        return None;
    }
    let mut args: Vec<String> = Vec::new();
    args.push(str_to_string("forget"));
    args.push(str_to_string("--prune"));
    if keep_daily > 0 {
        args.push(str_to_string("--keep-daily"));
        args.push(number(keep_daily));
    }
    if keep_weekly > 0 {
        args.push(str_to_string("--keep-weekly"));
        args.push(number(keep_weekly));
    }
    if keep_monthly > 0 {
        args.push(str_to_string("--keep-monthly"));
        args.push(number(keep_monthly));
    }
    assert(spec_forget_args(keep_daily, keep_weekly, keep_monthly) == Some(string_views(args@)));
    Some(args)
}

/// `--exclude, item` for each non-empty item.
pub open spec fn excludes(items: Seq<Seq<char>>) -> Seq<Seq<char>>
    decreases items.len(),
{
    if items.len() == 0 {
        Seq::<Seq<char>>::empty()
    } else if items.last().len() == 0 {
        excludes(items.drop_last())
    } else {
        excludes(items.drop_last()) + seq!["--exclude"@, items.last()]
    }
}

pub open spec fn spec_backup_args(source: Seq<char>, dry_run: bool, adv: AdvancedOptions) -> Seq<Seq<char>> {
    seq!["backup"@, source, "--json"@] + (if dry_run {
        seq!["--dry-run"@]
    } else {
        Seq::<Seq<char>>::empty()
    }) + excludes(string_views(adv.exclude_dirs@)) + excludes(string_views(adv.exclude_files@))
}

fn push_excludes(args: &mut Vec<String>, items: &Vec<String>)
    ensures
        string_views(final(args)@) == string_views(old(args)@) + excludes(string_views(items@)),
{
    let ghost start = string_views(args@);
    let mut i: usize = 0;
    while i < items.len()
        invariant
            i <= items@.len(),
            string_views(args@) == start + excludes(string_views(items@.take(i as int))),
        decreases items.len() - i,
    {
        let ghost before = string_views(args@);
        assert(string_views(items@.take(i + 1)).drop_last() =~= string_views(items@.take(i as int)));
        assert(string_views(items@.take(i + 1)).last() == items@[i as int]@);
        if !items[i].as_str().is_empty() {
            args.push(str_to_string("--exclude"));
            args.push(items[i].clone());
            assert(string_views(args@) =~= before + seq!["--exclude"@, items@[i as int]@]);
        }
        i += 1;
    }
    assert(items@.take(items@.len() as int) =~= items@);
}

/// The arguments of `restic backup` for a job: JSON output, a dry run when
/// only scanning, and the job's exclusions.
pub fn backup_args(source: &str, dry_run: bool, adv: &AdvancedOptions) -> (args: Vec<String>)
    ensures
        string_views(args@) == spec_backup_args(source@, dry_run, *adv),
{
    let mut args: Vec<String> = Vec::new();
    args.push(str_to_string("backup"));
    args.push(str_to_string(source));
    args.push(str_to_string("--json"));
    if dry_run {
        args.push(str_to_string("--dry-run"));
    }
    push_excludes(&mut args, &adv.exclude_dirs);
    push_excludes(&mut args, &adv.exclude_files);
    assert(string_views(args@) =~= spec_backup_args(source@, dry_run, *adv));
    args
}

/// The string at `key` of the JSON object that `line` holds, as
/// `serde_json` reads it.
pub uninterp spec fn json_str_at(line: Seq<char>, key: Seq<char>) -> Option<Seq<char>>;

/// The unsigned integer at `key` of the JSON object that `line` holds.
pub uninterp spec fn json_u64_at(line: Seq<char>, key: Seq<char>) -> Option<u64>;

/// The first element, when it is a string, of the array at `key` of the
/// JSON object that `line` holds.
pub uninterp spec fn json_first_str_at(line: Seq<char>, key: Seq<char>) -> Option<Seq<char>>;

/// `serde_json::from_str::<Value>`, `Value::get` and `Value::as_str`: the
/// string at `key` when `line` is a JSON object that has one there, `None`
/// otherwise. The result depends on `line` and `key` alone and is named by
/// `json_str_at`; what JSON parsing returns is not restated here.
#[verifier::external_body]
fn json_str(line: &str, key: &str) -> (r: Option<String>)
    ensures
        match r {
            Some(s) => json_str_at(line@, key@) == Some(s@),
            None => json_str_at(line@, key@) is None,
        },
{
    let v = serde_json::from_str::<serde_json::Value>(line).ok()?;
    Some(v.get(key)?.as_str()?.to_string())
}

/// `serde_json::from_str::<Value>`, `Value::get` and `Value::as_u64`: the
/// unsigned integer at `key` when `line` is a JSON object that has one
/// there, `None` otherwise; named by `json_u64_at`.
#[verifier::external_body]
fn json_u64(line: &str, key: &str) -> (r: Option<u64>)
    ensures
        r == json_u64_at(line@, key@),
{
    let v = serde_json::from_str::<serde_json::Value>(line).ok()?;
    v.get(key)?.as_u64()
}

/// `serde_json::from_str::<Value>`, `Value::get`, `Value::as_array`,
/// `slice::first` and `Value::as_str`: the first element of the array at
/// `key`, when it is a string; named by `json_first_str_at`.
#[verifier::external_body]
fn json_first_str(line: &str, key: &str) -> (r: Option<String>)
    ensures
        match r {
            Some(s) => json_first_str_at(line@, key@) == Some(s@),
            None => json_first_str_at(line@, key@) is None,
        },
{
    let v = serde_json::from_str::<serde_json::Value>(line).ok()?;
    Some(v.get(key)?.as_array()?.first()?.as_str()?.to_string())
}

pub struct StatusUpdate {
    pub bytes_done: u64,
    pub bytes_total: u64,
    pub files_done: u64,
    pub files_total: u64,
    pub current_file: String,
}

impl StatusUpdate {
    /// The progress sample a status line gives (restic reports no progress
    /// within the current file).
    pub fn sample(self, job_id: String, at_ms: u64) -> (p: ProgressSample)
        ensures
            p == (ProgressSample {
                job_id,
                at_ms,
                bytes_done: self.bytes_done,
                bytes_total: self.bytes_total,
                files_done: self.files_done,
                files_total: self.files_total,
                current_file: self.current_file,
                current_file_bytes_done: 0,
                current_file_bytes_total: 0,
            }),
    {
        ProgressSample {
            job_id,
            at_ms,
            bytes_done: self.bytes_done,
            bytes_total: self.bytes_total,
            files_done: self.files_done,
            files_total: self.files_total,
            current_file: self.current_file,
            current_file_bytes_done: 0,
            current_file_bytes_total: 0,
        }
    }
}

pub enum Event {
    Status(StatusUpdate),
    Summary(ResticSummary),
    /// A line in an unexpected format, a per-file error, or anything else that
    /// does not change the result: written to the log as-is, ignored by the UI.
    Other,
}

/// A number field, 0 when missing.
pub open spec fn u64_field(line: Seq<char>, key: Seq<char>) -> u64 {
    or_zero(json_u64_at(line, key))
}

/// A string field, empty when missing.
pub open spec fn str_field(line: Seq<char>, key: Seq<char>) -> Seq<char> {
    or_empty(json_str_at(line, key))
}

pub open spec fn or_zero(v: Option<u64>) -> u64 {
    match v {
        Some(v) => v,
        None => 0,
    }
}

pub open spec fn or_empty(v: Option<Seq<char>>) -> Seq<char> {
    match v {
        Some(v) => v,
        None => Seq::<char>::empty(),
    }
}

/// The fields of a line of `restic backup --json` that a backup reads, each
/// `None` when the line has no such field (or is no JSON object).
pub struct LineFields {
    pub message_type: Option<String>,
    pub total_bytes: Option<u64>,
    pub bytes_done: Option<u64>,
    pub files_done: Option<u64>,
    pub total_files: Option<u64>,
    /// The first of `current_files`.
    pub current_file: Option<String>,
    pub snapshot_id: Option<String>,
    pub files_new: Option<u64>,
    pub files_changed: Option<u64>,
    pub files_unmodified: Option<u64>,
    pub data_added: Option<u64>,
    pub total_files_processed: Option<u64>,
    pub total_bytes_processed: Option<u64>,
}

/// `f` holds the fields that JSON reading finds in `line`.
pub open spec fn fields_of(line: Seq<char>, f: LineFields) -> bool {
    &&& opt_view(f.message_type) == json_str_at(line, "message_type"@)
    &&& f.total_bytes == json_u64_at(line, "total_bytes"@)
    &&& f.bytes_done == json_u64_at(line, "bytes_done"@)
    &&& f.files_done == json_u64_at(line, "files_done"@)
    &&& f.total_files == json_u64_at(line, "total_files"@)
    &&& opt_view(f.current_file) == json_first_str_at(line, "current_files"@)
    &&& opt_view(f.snapshot_id) == json_str_at(line, "snapshot_id"@)
    &&& f.files_new == json_u64_at(line, "files_new"@)
    &&& f.files_changed == json_u64_at(line, "files_changed"@)
    &&& f.files_unmodified == json_u64_at(line, "files_unmodified"@)
    &&& f.data_added == json_u64_at(line, "data_added"@)
    &&& f.total_files_processed == json_u64_at(line, "total_files_processed"@)
    &&& f.total_bytes_processed == json_u64_at(line, "total_bytes_processed"@)
}

fn str_at(line: &str, key: &str) -> (r: Option<String>)
    ensures
        opt_view(r) == json_str_at(line@, key@),
{
    json_str(line, key)
}

fn first_str_at(line: &str, key: &str) -> (r: Option<String>)
    ensures
        opt_view(r) == json_first_str_at(line@, key@),
{
    json_first_str(line, key)
}

/// Reads the fields of a line of `restic backup --json`.
pub fn read_fields(line: &str) -> (f: LineFields)
    ensures
        fields_of(line@, f),
{
    LineFields {
        message_type: str_at(line, "message_type"),
        total_bytes: json_u64(line, "total_bytes"),
        bytes_done: json_u64(line, "bytes_done"),
        files_done: json_u64(line, "files_done"),
        total_files: json_u64(line, "total_files"),
        current_file: first_str_at(line, "current_files"),
        snapshot_id: str_at(line, "snapshot_id"),
        files_new: json_u64(line, "files_new"),
        files_changed: json_u64(line, "files_changed"),
        files_unmodified: json_u64(line, "files_unmodified"),
        data_added: json_u64(line, "data_added"),
        total_files_processed: json_u64(line, "total_files_processed"),
        total_bytes_processed: json_u64(line, "total_bytes_processed"),
    }
}

fn value_or_zero(v: Option<u64>) -> (r: u64)
    ensures
        r == or_zero(v),
{
    match v {
        Some(v) => v,
        None => 0,
    }
}

fn text_or_empty(v: Option<String>) -> (r: String)
    ensures
        r@ == or_empty(opt_view(v)),
{
    match v {
        Some(v) => v,
        None => String::new(),
    }
}

/// What a line of `restic backup --json` with the fields `f` means: a
/// progress update for a "status" line, the totals for a "summary" line,
/// nothing for any other. A missing number reads as 0 and a missing string
/// as empty, except a missing `bytes_done`, which `estimate` makes from
/// `total_bytes`.
pub fn event_of<F: Fn(u64) -> u64>(f: LineFields, estimate: &F) -> (r: Event)
    requires
        forall|t: u64| estimate.requires((t,)),
    ensures
        opt_view(f.message_type) == Some("status"@) ==> (r matches Event::Status(s) && {
            &&& s.bytes_total == or_zero(f.total_bytes)
            &&& match f.bytes_done {
                Some(b) => s.bytes_done == b,
                None => estimate.ensures((s.bytes_total,), s.bytes_done),
            }
            &&& s.files_done == or_zero(f.files_done)
            &&& s.files_total == or_zero(f.total_files)
            &&& s.current_file@ == or_empty(opt_view(f.current_file))
        }),
        opt_view(f.message_type) == Some("summary"@) ==> (r matches Event::Summary(s) && {
            &&& s.snapshot_id@ == or_empty(opt_view(f.snapshot_id))
            &&& s.files_new == or_zero(f.files_new)
            &&& s.files_changed == or_zero(f.files_changed)
            &&& s.files_unmodified == or_zero(f.files_unmodified)
            &&& s.data_added == or_zero(f.data_added)
            &&& s.total_files_processed == or_zero(f.total_files_processed)
            &&& s.total_bytes_processed == or_zero(f.total_bytes_processed)
        }),
        opt_view(f.message_type) != Some("status"@) && opt_view(f.message_type) != Some(
            "summary"@,
        ) ==> r is Other,
{
    let mt = match f.message_type {
        Some(m) => m,
        None => return Event::Other,
    };
    let mtv = chars_of(mt.as_str());
    proof {
        reveal_strlit("status");
        reveal_strlit("summary");
        assert("summary"@.len() == 7);
        assert("status"@.len() == 6);
        assert("summary"@ != "status"@);
    }
    if chars_eq(&mtv, &chars_of("status")) {
        let total_bytes = value_or_zero(f.total_bytes);
        let bytes_done = match f.bytes_done {
            Some(b) => b,
            None => estimate(total_bytes),
        };
        Event::Status(
            StatusUpdate {
                bytes_done,
                bytes_total: total_bytes,
                files_done: value_or_zero(f.files_done),
                files_total: value_or_zero(f.total_files),
                current_file: text_or_empty(f.current_file),
            },
        )
    } else if chars_eq(&mtv, &chars_of("summary")) {
        Event::Summary(
            ResticSummary {
                snapshot_id: text_or_empty(f.snapshot_id),
                files_new: value_or_zero(f.files_new),
                files_changed: value_or_zero(f.files_changed),
                files_unmodified: value_or_zero(f.files_unmodified),
                data_added: value_or_zero(f.data_added),
                total_files_processed: value_or_zero(f.total_files_processed),
                total_bytes_processed: value_or_zero(f.total_bytes_processed),
            },
        )
    } else {
        Event::Other
    }
}

/// `restic backup --json` prints one JSON object per line (`message_type`:
/// "status" while copying, "summary" at the end). Fields are read loosely
/// rather than with a strict schema, so a field that is missing or renamed in
/// another restic version reads as 0/empty instead of discarding the whole
/// line.
///
/// Some restic versions omit `bytes_done` in the first status lines; it is
/// then estimated by `estimate` from `total_bytes` (the estimate comes from
/// the fractional `percent_done`, which is left to the caller).
pub fn parse_line<F: Fn(u64) -> u64>(line: &str, estimate: &F) -> (r: Event)
    requires
        forall|t: u64| estimate.requires((t,)),
    ensures
        json_str_at(line@, "message_type"@) == Some("status"@) ==> (r matches Event::Status(s) && {
            &&& s.bytes_total == u64_field(line@, "total_bytes"@)
            &&& match json_u64_at(line@, "bytes_done"@) {
                Some(b) => s.bytes_done == b,
                None => estimate.ensures((s.bytes_total,), s.bytes_done),
            }
            &&& s.files_done == u64_field(line@, "files_done"@)
            &&& s.files_total == u64_field(line@, "total_files"@)
            &&& s.current_file@ == or_empty(json_first_str_at(line@, "current_files"@))
        }),
        json_str_at(line@, "message_type"@) == Some("summary"@) ==> (r matches Event::Summary(s) && {
            &&& s.snapshot_id@ == str_field(line@, "snapshot_id"@)
            &&& s.files_new == u64_field(line@, "files_new"@)
            &&& s.files_changed == u64_field(line@, "files_changed"@)
            &&& s.files_unmodified == u64_field(line@, "files_unmodified"@)
            &&& s.data_added == u64_field(line@, "data_added"@)
            &&& s.total_files_processed == u64_field(line@, "total_files_processed"@)
            &&& s.total_bytes_processed == u64_field(line@, "total_bytes_processed"@)
        }),
        json_str_at(line@, "message_type"@) != Some("status"@) && json_str_at(
            line@,
            "message_type"@,
        ) != Some("summary"@) ==> r is Other,
{
    event_of(read_fields(line), estimate)
}

} // verus!
