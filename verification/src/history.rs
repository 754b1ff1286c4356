//! The run history: one entry per finished real run, stored as a `.json`
//! next to the run's `.log`, and listed newest first.
//!
//! Reading and writing the files is the caller's; this module holds the
//! rules: which file an entry id may name, what an old log without an entry
//! is listed as, in which order runs are listed, what part of a long log is
//! shown, and what a run counts as copied.

use vstd::prelude::*;

use crate::engine::types::EngineSummary;
use crate::text::{
    chars_of, copy_range, find_char, index_from, is_ascii_alpha, lemma_index_from, push_all,
    push_str, starts_with, str_to_string, string_of, string_of_range, string_push,
};

verus! {

/// How many bytes `c` takes in UTF-8.
pub open spec fn utf8_width(c: char) -> nat {
    let u = c as u32;
    if u < 0x80 {
        1
    } else if u < 0x800 {
        2
    } else if u < 0x10000 {
        3
    } else {
        4
    }
}

/// The length in bytes of the UTF-8 encoding of `s` (`str::len`).
pub open spec fn utf8_len(s: Seq<char>) -> nat
    decreases s.len(),
{
    if s.len() == 0 {
        0
    } else {
        utf8_len(s.drop_last()) + utf8_width(s.last())
    }
}

pub open spec fn dash_to_colon(s: Seq<char>) -> Seq<char> {
    s.map_values(|c: char| if c == '-' { ':' } else { c })
}

/// `backup_2026-09-23_21-05-00` -> `2026-09-23 21:05:00`. A trailing
/// tie-breaker (`..._2`, for two runs in the same second) is ignored.
pub open spec fn spec_date_from_stem(stem: Seq<char>) -> Option<Seq<char>> {
    if !starts_with(stem, "backup_"@) {
        None
    } else {
        let rest = stem.skip(7);
        let u = index_from(rest, '_', 0);
        if u >= rest.len() {
            None
        } else {
            let date = rest.take(u);
            let after = rest.skip(u + 1);
            let time = after.take(index_from(after, '_', 0));
            if utf8_len(date) != 10 || utf8_len(time) != 8 {
                None
            } else {
                Some(date + seq![' '] + dash_to_colon(time))
            }
        }
    }
}

proof fn lemma_utf8_len_prefix(s: Seq<char>, k: int)
    requires
        0 <= k <= s.len(),
    ensures
        utf8_len(s.take(k)) <= utf8_len(s),
    decreases s.len(),
{
    if k < s.len() {
        assert(s.drop_last().take(k) =~= s.take(k));
        lemma_utf8_len_prefix(s.drop_last(), k);
    } else {
        assert(s.take(k) =~= s);
    }
}

/// Whether `v[lo..hi]` takes exactly `target` bytes in UTF-8.
fn utf8_len_is(v: &Vec<char>, lo: usize, hi: usize, target: u64) -> (b: bool)
    requires
        lo <= hi <= v@.len(),
        target <= 100,
    ensures
        b == (utf8_len(v@.subrange(lo as int, hi as int)) == target),
{
    let ghost s = v@.subrange(lo as int, hi as int);
    let mut n: u64 = 0;
    let mut i = lo;
    while i < hi
        invariant
            lo <= i <= hi <= v@.len(),
            s == v@.subrange(lo as int, hi as int),
            n == utf8_len(v@.subrange(lo as int, i as int)),
            n <= target <= 100,
        decreases hi - i,
    {
        assert(v@.subrange(lo as int, i + 1).drop_last() =~= v@.subrange(lo as int, i as int));
        let u = v[i] as u32;
        let w: u64 = if u < 0x80 {
            1
        } else if u < 0x800 {
            2
        } else if u < 0x10000 {
            3
        } else {
            4
        };
        n = n + w;
        i += 1;
        if n > target {
            proof {
                assert(s.take(i - lo) =~= v@.subrange(lo as int, i as int));
                lemma_utf8_len_prefix(s, i - lo);
            }
            return false;
        }
    }
    n == target
}

/// The date and time a log's name carries, for the history of runs that
/// left a log but no entry.
pub fn date_from_stem(stem: &str) -> (r: Option<String>)
    ensures
        match r {
            Some(d) => spec_date_from_stem(stem@) == Some(d@),
            None => spec_date_from_stem(stem@) is None,
        },
{
    let v = chars_of(stem);
    let n = v.len();
    let prefix = chars_of("backup_");
    proof {
        reveal_strlit("backup_");
    }
    assert(v@.subrange(0, n as int) =~= v@);
    if !crate::text::has_prefix_at(&v, 0, n, &prefix) {
        return None;
    }
    let ghost rest = v@.skip(7);
    let u = match find_char(&v, 7, n, '_') {
        Some(k) => k,
        None => n,
    };
    proof {
        assert forall|k: int| 0 <= k < u - 7 implies rest[k] != '_' by {
            assert(rest[k] == v@[k + 7]);
        }
        lemma_index_from(rest, '_', 0, u - 7);
    }
    if u >= n {
        return None;
    }
    let ghost after = rest.skip(u - 7 + 1);
    let t = match find_char(&v, u + 1, n, '_') {
        Some(k) => k,
        None => n,
    };
    proof {
        assert forall|k: int| 0 <= k < t - u - 1 implies after[k] != '_' by {
            assert(after[k] == v@[k + u + 1]);
        }
        lemma_index_from(after, '_', 0, t - u - 1);
        assert(rest.take(u - 7) =~= v@.subrange(7, u as int));
        assert(after.take(t - u - 1) =~= v@.subrange(u + 1, t as int));
    }
    if !utf8_len_is(&v, 7, u, 10) || !utf8_len_is(&v, u + 1, t, 8) {
        return None;
    }
    let mut d = string_of_range(&v, 7, u);
    string_push(&mut d, ' ');
    let mut i = u + 1;
    let ghost head = d@;
    while i < t
        invariant
            u + 1 <= i <= t <= n == v@.len(),
            d@ == head + dash_to_colon(v@.subrange(u + 1, i as int)),
        decreases t - i,
    {
        let c = if v[i] == '-' {
            ':'
        } else {
            v[i]
        };
        string_push(&mut d, c);
        assert(dash_to_colon(v@.subrange(u + 1, i + 1)) =~= dash_to_colon(
            v@.subrange(u + 1, i as int),
        ).push(c));
        i += 1;
    }
    assert(d@ =~= v@.subrange(7, u as int) + seq![' '] + dash_to_colon(
        v@.subrange(u + 1, t as int),
    ));
    Some(d)
}

/// Whether `<id>.<ext>` names a file directly inside the log folder, by the
/// rules of Windows paths: the id is not empty, `.` or `..`, and the name
/// has no separator (`\` or `/`) and no drive prefix (`C:`), so that it is
/// its own file name.
pub open spec fn names_a_log_file(id: Seq<char>, name: Seq<char>) -> bool {
    &&& id.len() > 0
    &&& id != seq!['.']
    &&& id != seq!['.', '.']
    &&& forall|k: int| 0 <= k < name.len() ==> name[k] != '\\' && name[k] != '/'
    &&& !(name.len() >= 2 && name[1] == ':' && is_ascii_alpha(name[0]))
}

/// The file name of an entry's `.<ext>` file. The frontend sends only the
/// entry id, never a path, so a tampered value cannot reach files elsewhere
/// on disk: anything but a plain file name is refused.
pub fn entry_file_name(id: &str, ext: &str) -> (r: Result<String, String>)
    ensures
        match r {
            Ok(name) => name@ == id@ + seq!['.'] + ext@ && names_a_log_file(id@, name@),
            Err(m) => !names_a_log_file(id@, id@ + seq!['.'] + ext@) && m@
                == "invalid log id"@,
        },
{
    let mut name = str_to_string(id);
    string_push(&mut name, '.');
    push_str(&mut name, ext);
    assert(name@ =~= id@ + seq!['.'] + ext@);
    let iv = chars_of(id);
    let nv = chars_of(name.as_str());
    let ok_id = iv.len() > 0 && !(iv.len() == 1 && iv[0] == '.') && !(iv.len() == 2 && iv[0]
        == '.' && iv[1] == '.');
    proof {
        if iv@.len() == 1 && iv@[0] == '.' {
            assert(iv@ =~= seq!['.']);
        }
        if iv@.len() == 2 && iv@[0] == '.' && iv@[1] == '.' {
            assert(iv@ =~= seq!['.', '.']);
        }
        if iv@ == seq!['.'] {
            assert(iv@[0] == '.');
        }
        if iv@ == seq!['.', '.'] {
            assert(iv@[0] == '.' && iv@[1] == '.');
        }
    }
    let no_sep = match find_char(&nv, 0, nv.len(), '\\') {
        Some(k) => {
            assert(name@[k as int] == '\\');
            false
        },
        None => match find_char(&nv, 0, nv.len(), '/') {
            Some(k) => {
                assert(name@[k as int] == '/');
                false
            },
            None => true,
        },
    };
    let drive = nv.len() >= 2 && nv[1] == ':' && (('a' <= nv[0] && nv[0] <= 'z') || ('A'
        <= nv[0] && nv[0] <= 'Z'));
    if ok_id && no_sep && !drive {
        Ok(name)
    } else {
        Err(str_to_string("invalid log id"))
    }
}

/// How many characters of a log the history shows: logs of large copies can
/// be tens of MB, and the detail view only needs the tail, which holds the
/// summary.
pub const MAX_LOG_CHARS: usize = 200000;

pub open spec fn spec_log_tail(text: Seq<char>) -> Seq<char> {
    if text.len() > 200000 {
        "[...log trimmed: showing the last 200000 characters...]\n"@ + text.skip(
            text.len() - 200000,
        )
    } else {
        text
    }
}

/// What the history shows of a log: all of it, or its last 200000
/// characters after a note saying so.
pub fn log_tail(text: String) -> (r: String)
    ensures
        r@ == spec_log_tail(text@),
{
    let v = chars_of(text.as_str());
    if v.len() > MAX_LOG_CHARS {
        let mut r = str_to_string("[...log trimmed: showing the last 200000 characters...]\n");
        push_all(&mut r, &copy_range(&v, v.len() - MAX_LOG_CHARS, v.len()));
        assert(v@.subrange(v@.len() - 200000, v@.len() as int) =~= v@.skip(v@.len() - 200000));
        r
    } else {
        text
    }
}

/// Whether the counters of a run's summary can be added up.
pub open spec fn totals_fit(summary: Option<EngineSummary>) -> bool {
    match summary {
        Some(EngineSummary::Restic(s)) => s.files_new + s.files_changed <= u64::MAX,
        _ => true,
    }
}

/// What a run counts as copied: files and bytes. For restic, new and
/// changed files, and the data added to the repository.
pub open spec fn spec_copied_totals(summary: Option<EngineSummary>) -> (int, int) {
    match summary {
        Some(EngineSummary::Robocopy(s)) => (s.files_copied as int, s.bytes_copied as int),
        Some(EngineSummary::Restic(s)) => (s.files_new + s.files_changed, s.data_added as int),
        None => (0, 0),
    }
}

pub fn copied_totals(summary: &Option<EngineSummary>) -> (r: (u64, u64))
    requires
        totals_fit(*summary),
    ensures
        (r.0 as int, r.1 as int) == spec_copied_totals(*summary),
{
    match summary {
        Some(EngineSummary::Robocopy(s)) => (s.files_copied, s.bytes_copied),
        Some(EngineSummary::Restic(s)) => (s.files_new + s.files_changed, s.data_added),
        None => (0, 0),
    }
}

/// What happened to one of the two files of an entry on deletion.
pub enum Removal {
    /// It did not exist.
    Missing,
    Removed,
    /// It could not be removed, for this reason.
    Failed(String),
}

pub open spec fn removal_error(r: Removal) -> Option<Seq<char>> {
    match r {
        Removal::Failed(e) => Some("could not delete: "@ + e@),
        _ => None,
    }
}

/// The result of deleting an entry's `.log` and `.json`. Either may be
/// missing (a failure before copying leaves no log, and an old log has no
/// entry), so it is only an error if neither existed, or if one could not be
/// removed (the later failure is reported).
pub fn deletion_outcome(log: Removal, json: Removal) -> (r: Result<(), String>)
    ensures
        match (removal_error(json), removal_error(log)) {
            (Some(e), _) => r matches Err(m) && m@ == e,
            (None, Some(e)) => r matches Err(m) && m@ == e,
            (None, None) => if log is Removed || json is Removed {
                r is Ok
            } else {
                r matches Err(m) && m@ == "that history entry no longer exists"@
            },
        },
{
    let removed = match (&log, &json) {
        (Removal::Removed, _) => true,
        (_, Removal::Removed) => true,
        _ => false,
    };
    match json {
        Removal::Failed(e) => {
            let mut m = str_to_string("could not delete: ");
            push_str(&mut m, e.as_str());
            return Err(m);
        },
        _ => {},
    }
    match log {
        Removal::Failed(e) => {
            let mut m = str_to_string("could not delete: ");
            push_str(&mut m, e.as_str());
            return Err(m);
        },
        _ => {},
    }
    if removed {
        Ok(())
    } else {
        Err(str_to_string("that history entry no longer exists"))
    }
}

/// The order of `str` comparison: lexicographic, character by character.
pub open spec fn lex_lt(a: Seq<char>, b: Seq<char>) -> bool
    decreases a.len(),
{
    if a.len() == 0 {
        b.len() > 0
    } else if b.len() == 0 {
        false
    } else if a[0] != b[0] {
        a[0] < b[0]
    } else {
        lex_lt(a.drop_first(), b.drop_first())
    }
}

/// Ids are compared as `str` compares them, from the first character: where
/// `a` and `b` first differ (they agree on their first `i` characters), the
/// one with the smaller character there comes first; when one ends there, the
/// shorter one comes first.
pub proof fn law_ids_compare_from_their_first_difference(a: Seq<char>, b: Seq<char>, i: int)
    requires
        0 <= i <= a.len(),
        i <= b.len(),
        a.take(i) == b.take(i),
    ensures
        i < a.len() && i < b.len() && a[i] != b[i] ==> (lex_lt(a, b) <==> a[i] < b[i]),
        i == a.len() ==> (lex_lt(a, b) <==> i < b.len()),
        i == b.len() && i < a.len() ==> !lex_lt(a, b),
    decreases i,
{
    if i > 0 {
        assert(a[0] == a.take(i)[0] && b[0] == b.take(i)[0]);
        assert(a.drop_first().take(i - 1) =~= a.take(i).drop_first());
        assert(b.drop_first().take(i - 1) =~= b.take(i).drop_first());
        law_ids_compare_from_their_first_difference(a.drop_first(), b.drop_first(), i - 1);
    }
}

pub proof fn lemma_lex_irreflexive(a: Seq<char>)
    ensures
        !lex_lt(a, a),
    decreases a.len(),
{
    if a.len() > 0 {
        lemma_lex_irreflexive(a.drop_first());
    }
}

pub proof fn lemma_lex_transitive(a: Seq<char>, b: Seq<char>, c: Seq<char>)
    requires
        lex_lt(a, b),
        lex_lt(b, c),
    ensures
        lex_lt(a, c),
    decreases a.len(),
{
    if a.len() > 0 && b.len() > 0 && c.len() > 0 && a[0] == b[0] && b[0] == c[0] {
        lemma_lex_transitive(a.drop_first(), b.drop_first(), c.drop_first());
    }
}

pub proof fn lemma_lex_total(a: Seq<char>, b: Seq<char>)
    requires
        a != b,
    ensures
        lex_lt(a, b) || lex_lt(b, a),
    decreases a.len(),
{
    if a.len() == 0 {
        if b.len() == 0 {
            assert(a =~= b);
        }
    } else if b.len() > 0 && a[0] == b[0] {
        if a.drop_first() == b.drop_first() {
            assert(a =~= seq![a[0]] + a.drop_first());
            assert(b =~= seq![b[0]] + b.drop_first());
        }
        lemma_lex_total(a.drop_first(), b.drop_first());
    }
}

/// Whether `a` sorts before `b` in `str` order.
pub fn lex_less(a: &Vec<char>, b: &Vec<char>) -> (r: bool)
    ensures
        r == lex_lt(a@, b@),
{
    let mut i: usize = 0;
    assert(a@.skip(0) =~= a@);
    assert(b@.skip(0) =~= b@);
    while i < a.len() && i < b.len() && a[i] == b[i]
        invariant
            i <= a@.len(),
            i <= b@.len(),
            lex_lt(a@, b@) == lex_lt(a@.skip(i as int), b@.skip(i as int)),
        decreases a.len() - i,
    {
        assert(a@.skip(i as int).drop_first() =~= a@.skip(i + 1));
        assert(b@.skip(i as int).drop_first() =~= b@.skip(i + 1));
        i += 1;
    }
    if i == a.len() {
        i < b.len()
    } else if i == b.len() {
        false
    } else {
        a[i] < b[i]
    }
}

/// A line of the history: a recorded entry, or an old log without one.
pub struct HistoryRow {
    /// The entry id: the file name without its extension.
    pub id: String,
    /// Which recorded entry this is (its position among those read), or
    /// none for an old log.
    pub entry: Option<usize>,
    /// For an old log, the date in its name (empty if it has none).
    pub finished_at: String,
}

pub open spec fn row_view(r: HistoryRow) -> (Seq<char>, Option<usize>, Seq<char>) {
    (r.id@, r.entry, r.finished_at@)
}

pub open spec fn row_views(rows: Seq<HistoryRow>) -> Seq<(Seq<char>, Option<usize>, Seq<char>)> {
    rows.map_values(|r: HistoryRow| row_view(r))
}

pub open spec fn date_or_empty(stem: Seq<char>) -> Seq<char> {
    match spec_date_from_stem(stem) {
        Some(d) => d,
        None => Seq::<char>::empty(),
    }
}

/// The recorded entries, in the order they were read.
pub open spec fn recorded_rows(ids: Seq<Seq<char>>) -> Seq<(Seq<char>, Option<usize>, Seq<char>)> {
    Seq::new(ids.len(), |i: int| (ids[i], Some(i as usize), Seq::<char>::empty()))
}

/// The logs that have no entry (written by older versions): listed with
/// the date in their name and no outcome.
pub open spec fn old_log_rows(stems: Seq<Seq<char>>, known: Seq<Seq<char>>) -> Seq<
    (Seq<char>, Option<usize>, Seq<char>),
>
    decreases stems.len(),
{
    if stems.len() == 0 {
        Seq::empty()
    } else if known.contains(stems.last()) {
        old_log_rows(stems.drop_last(), known)
    } else {
        old_log_rows(stems.drop_last(), known).push(
            (stems.last(), None, date_or_empty(stems.last())),
        )
    }
}

/// Newer runs first: ids name runs by date and time, so a greater id is a
/// later run. Runs with the same id keep the order they were read in.
pub open spec fn ordered_before(a: Seq<char>, pa: int, b: Seq<char>, pb: int) -> bool {
    lex_lt(b, a) || (a == b && pa < pb)
}

/// `out` is `rows` rearranged (row `k` of `out` is row `perm[k]` of `rows`),
/// newest first.
pub open spec fn is_arrangement(
    out: Seq<(Seq<char>, Option<usize>, Seq<char>)>,
    rows: Seq<(Seq<char>, Option<usize>, Seq<char>)>,
    perm: Seq<int>,
) -> bool {
    &&& out.len() == rows.len()
    &&& perm.len() == rows.len()
    &&& forall|k: int| 0 <= k < out.len() ==> 0 <= #[trigger] perm[k] < rows.len() && out[k]
        == rows[perm[k]]
    &&& forall|k: int, l: int|
        0 <= k < l < out.len() ==> ordered_before(out[k].0, perm[k], out[l].0, perm[l])
}

/// In the history's order, of two rows the upper one has the later id: where
/// the ids first differ its character is the greater, and it is never a
/// proper prefix of the lower one's id.
pub proof fn law_later_ids_are_listed_first(
    out: Seq<(Seq<char>, Option<usize>, Seq<char>)>,
    rows: Seq<(Seq<char>, Option<usize>, Seq<char>)>,
    perm: Seq<int>,
    k: int,
    l: int,
    i: int,
)
    requires
        is_arrangement(out, rows, perm),
        0 <= k < l < out.len(),
        0 <= i <= out[k].0.len(),
        i <= out[l].0.len(),
        out[k].0.take(i) == out[l].0.take(i),
    ensures
        i < out[k].0.len() && i < out[l].0.len() && out[k].0[i] != out[l].0[i] ==> out[k].0[i]
            > out[l].0[i],
        i == out[k].0.len() ==> i == out[l].0.len(),
{
    let a = out[k].0;
    let b = out[l].0;
    assert(ordered_before(a, perm[k], b, perm[l]));
    law_ids_compare_from_their_first_difference(b, a, i);
}

fn copy_row(r: &HistoryRow) -> (c: HistoryRow)
    ensures
        c == *r,
{
    HistoryRow { id: r.id.clone(), entry: r.entry, finished_at: r.finished_at.clone() }
}

fn contains_string(v: &Vec<String>, s: &String) -> (b: bool)
    ensures
        b == crate::text::string_views(v@).contains(s@),
{
    let mut i: usize = 0;
    while i < v.len()
        invariant
            i <= v@.len(),
            forall|k: int| 0 <= k < i ==> v@[k]@ != s@,
        decreases v.len() - i,
    {
        if v[i] == *s {
            assert(crate::text::string_views(v@)[i as int] == s@);
            return true;
        }
        i += 1;
    }
    proof {
        if crate::text::string_views(v@).contains(s@) {
            let k = choose|k: int|
                0 <= k < crate::text::string_views(v@).len() && crate::text::string_views(v@)[k]
                    == s@;
            assert(v@[k]@ == s@);
        }
    }
    false
}

/// The history's lines, newest run first: the entries read from the `.json`
/// files (their ids in `entry_ids`, their file names without extension in
/// `entry_stems`), then the `.log` files (named by `log_stems`) that have no
/// entry, ordered by id, newest first; runs with the same id keep the order
/// they were read in.
pub fn arrange(entry_ids: &Vec<String>, entry_stems: &Vec<String>, log_stems: &Vec<String>) -> (r:
    Vec<HistoryRow>)
    ensures
        exists|perm: Seq<int>|
            is_arrangement(
                row_views(r@),
                recorded_rows(crate::text::string_views(entry_ids@)) + old_log_rows(
                    crate::text::string_views(log_stems@),
                    crate::text::string_views(entry_stems@),
                ),
                perm,
            ),
{
    let ghost ids = crate::text::string_views(entry_ids@);
    let ghost known = crate::text::string_views(entry_stems@);
    let ghost stems = crate::text::string_views(log_stems@);
    let mut rows: Vec<HistoryRow> = Vec::new();
    let mut i: usize = 0;
    while i < entry_ids.len()
        invariant
            i <= entry_ids@.len(),
            ids == crate::text::string_views(entry_ids@),
            row_views(rows@) == recorded_rows(ids).take(i as int),
        decreases entry_ids.len() - i,
    {
        let ghost before = rows@;
        let row = HistoryRow { id: entry_ids[i].clone(), entry: Some(i), finished_at: String::new() };
        rows.push(row);
        assert(row_views(rows@) =~= row_views(before).push(row_view(row)));
        assert(row_views(rows@) =~= recorded_rows(ids).take(i + 1));
        i += 1;
    }
    assert(recorded_rows(ids).take(ids.len() as int) =~= recorded_rows(ids));
    let ghost head = row_views(rows@);
    let mut j: usize = 0;
    while j < log_stems.len()
        invariant
            j <= log_stems@.len(),
            stems == crate::text::string_views(log_stems@),
            known == crate::text::string_views(entry_stems@),
            row_views(rows@) == head + old_log_rows(stems.take(j as int), known),
        decreases log_stems.len() - j,
    {
        assert(stems.take(j + 1).drop_last() =~= stems.take(j as int));
        assert(stems.take(j + 1).last() == log_stems@[j as int]@);
        if !contains_string(entry_stems, &log_stems[j]) {
            let d = match date_from_stem(log_stems[j].as_str()) {
                Some(d) => d,
                None => String::new(),
            };
            let ghost before = rows@;
            let row = HistoryRow { id: log_stems[j].clone(), entry: None, finished_at: d };
            rows.push(row);
            assert(row_views(rows@) =~= row_views(before).push(row_view(row)));
        }
        assert(row_views(rows@) =~= head + old_log_rows(stems.take(j + 1), known));
        j += 1;
    }
    assert(stems.take(stems.len() as int) =~= stems);
    let ghost all = row_views(rows@);
    let mut out: Vec<HistoryRow> = Vec::new();
    let ghost mut perm: Seq<int> = Seq::empty();
    let mut n: usize = 0;
    while n < rows.len()
        invariant
            n <= rows@.len(),
            all == row_views(rows@),
            is_arrangement(row_views(out@), all.take(n as int), perm),
        decreases rows.len() - n,
    {
        let key = chars_of(rows[n].id.as_str());
        let ghost kv = key@;
        let ghost old_out = row_views(out@);
        let ghost old_perm = perm;
        let mut k: usize = 0;
        loop
            invariant
                k <= out@.len(),
                old_out == row_views(out@),
                kv == key@,
                forall|m: int| 0 <= m < k ==> !lex_lt(#[trigger] old_out[m].0, kv),
            ensures
                k <= out@.len(),
                forall|m: int| 0 <= m < k ==> !lex_lt(#[trigger] old_out[m].0, kv),
                k < out@.len() ==> lex_lt(old_out[k as int].0, kv),
            decreases out.len() - k,
        {
            if k >= out.len() {
                break;
            }
            let less = lex_less(&chars_of(out[k].id.as_str()), &key);
            assert(old_out[k as int] == row_view(out@[k as int]));
            if less {
                break;
            }
            k += 1;
        }
        let row = copy_row(&rows[n]);
        out.insert(k, row);
        proof {
            assert(all[n as int] == row_view(rows@[n as int]));
            assert(all[n as int].0 == kv);
            perm = old_perm.insert(k as int, n as int);
            let nv = row_views(out@);
            assert(nv =~= old_out.insert(k as int, all[n as int]));
            let rows_n = all.take(n + 1);
            assert(rows_n =~= all.take(n as int).push(all[n as int]));
            assert forall|a: int| 0 <= a < nv.len() implies 0 <= #[trigger] perm[a] < n + 1
                && nv[a] == rows_n[perm[a]] by {
                if a < k {
                    assert(perm[a] == old_perm[a]);
                    assert(nv[a] == old_out[a]);
                } else if a > k {
                    assert(perm[a] == old_perm[a - 1]);
                    assert(nv[a] == old_out[a - 1]);
                }
            }
            assert forall|a: int, b: int| 0 <= a < b < nv.len() implies ordered_before(
                nv[a].0,
                perm[a],
                nv[b].0,
                perm[b],
            ) by {
                if a < k && b < k {
                    assert(ordered_before(old_out[a].0, old_perm[a], old_out[b].0, old_perm[b]));
                } else if a > k && b > k {
                    assert(ordered_before(
                        old_out[a - 1].0,
                        old_perm[a - 1],
                        old_out[b - 1].0,
                        old_perm[b - 1],
                    ));
                } else if a < k && b > k {
                    assert(ordered_before(
                        old_out[a].0,
                        old_perm[a],
                        old_out[b - 1].0,
                        old_perm[b - 1],
                    ));
                } else if a < k && b == k {
                    assert(!lex_lt(old_out[a].0, kv));
                    assert(0 <= old_perm[a] < n);
                    if old_out[a].0 != kv {
                        lemma_lex_total(old_out[a].0, kv);
                    }
                } else {
                    assert(a == k && b > k);
                    assert(0 <= old_perm[b - 1] < n);
                    assert(lex_lt(old_out[k as int].0, kv));
                    if b - 1 > k {
                        assert(ordered_before(
                            old_out[k as int].0,
                            old_perm[k as int],
                            old_out[b - 1].0,
                            old_perm[b - 1],
                        ));
                        if old_out[b - 1].0 != old_out[k as int].0 {
                            lemma_lex_transitive(old_out[b - 1].0, old_out[k as int].0, kv);
                        }
                    }
                }
            }
        }
        n += 1;
    }
    assert(all.take(all.len() as int) =~= all);
    out
}

} // verus!
