//! What robocopy is asked to do and what its output says: the argument
//! lists, the meaning of each output line, the tallies kept while it runs,
//! the final summary block and the names of the log files.

use vstd::prelude::*;

use super::types::{spec_robocopy_flag, AdvancedOptions, CopyMode, ProgressSample, RobocopySummary};
use crate::text::{
    all_digits, chars_of, copy_range, dec, dec_i64, dec_u64, digit_value, digits_value,
    append_strings, has_prefix_at, is_digit, is_digit_char, lemma_string_views_push, push_all,
    push_str, starts_with, str_to_string,
    string_of, string_of_range, string_views, trim, trim_bounds, trim_start, words, words_of,
};

verus! {

/// `regex_lite`'s `\s`: ASCII whitespace.
pub open spec fn is_ascii_ws(c: char) -> bool {
    c == ' ' || c == '\t' || c == '\n' || c == '\x0B' || c == '\x0C' || c == '\r'
}

/// The end of the run of ASCII whitespace that starts at `i`.
pub open spec fn ascii_ws_end(s: Seq<char>, i: int) -> int
    decreases s.len() - i,
{
    if i < 0 || i >= s.len() || !is_ascii_ws(s[i]) {
        i
    } else {
        ascii_ws_end(s, i + 1)
    }
}

/// The end of the run of ASCII digits that starts at `i`.
pub open spec fn digits_end(s: Seq<char>, i: int) -> int
    decreases s.len() - i,
{
    if i < 0 || i >= s.len() || !is_digit(s[i]) {
        i
    } else {
        digits_end(s, i + 1)
    }
}

/// `str::parse::<u64>()`: an optional `+`, then at least one digit, and a
/// value that fits.
pub open spec fn spec_parse_u64(s: Seq<char>) -> Option<u64> {
    let d = if s.len() > 0 && s[0] == '+' {
        s.drop_first()
    } else {
        s
    };
    if d.len() > 0 && all_digits(d) && digits_value(d) <= u64::MAX {
        Some(digits_value(d) as u64)
    } else {
        None
    }
}

/// `parse().unwrap_or(0)`.
pub open spec fn u64_or_zero(s: Seq<char>) -> u64 {
    match spec_parse_u64(s) {
        Some(v) => v,
        None => 0,
    }
}

/// A file line with `/BYTES /NP /NC /NDL` (`^\s*(\d+)\t(.+)$`): optional
/// whitespace, the size in bytes, a tab, then the path (at least one
/// character, no line break). Gives the size and the trimmed path.
pub open spec fn file_line(line: Seq<char>) -> Option<(u64, Seq<char>)> {
    let w = ascii_ws_end(line, 0);
    let d = digits_end(line, w);
    if d > w && d + 1 < line.len() && line[d] == '\t' && (forall|k: int|
        d + 1 <= k < line.len() ==> line[k] != '\n') {
        Some((u64_or_zero(line.subrange(w, d)), trim(line.skip(d + 1))))
    } else {
        None
    }
}

pub open spec fn extra_marker() -> Seq<char> {
    seq!['*', 'E', 'X', 'T', 'R', 'A']
}

/// A mirror-mode deletion line (`^\*EXTRA\s+\S+` after leading whitespace):
/// `*EXTRA File` / `*EXTRA Dir` followed by size and path.
pub open spec fn extra_line(line: Seq<char>) -> bool {
    let t = trim_start(line);
    starts_with(t, extra_marker()) && ascii_ws_end(t, 6) > 6 && ascii_ws_end(t, 6) < t.len()
}

pub enum RcLine {
    File { bytes: u64, path: String },
    ExtraDeleted,
    Other(String),
}

fn is_ascii_ws_char(c: char) -> (b: bool)
    ensures
        b == is_ascii_ws(c),
{
    c == ' ' || c == '\t' || c == '\n' || c == '\x0B' || c == '\x0C' || c == '\r'
}

fn skip_ascii_ws(v: &Vec<char>, i: usize) -> (e: usize)
    requires
        i <= v@.len(),
    ensures
        e as int == ascii_ws_end(v@, i as int),
        i <= e <= v@.len(),
{
    let mut e = i;
    while e < v.len() && is_ascii_ws_char(v[e])
        invariant
            i <= e <= v@.len(),
            ascii_ws_end(v@, e as int) == ascii_ws_end(v@, i as int),
        decreases v.len() - e,
    {
        e += 1;
    }
    e
}

fn skip_digits(v: &Vec<char>, i: usize) -> (e: usize)
    requires
        i <= v@.len(),
    ensures
        e as int == digits_end(v@, i as int),
        i <= e <= v@.len(),
        forall|k: int| i <= k < e ==> is_digit(#[trigger] v@[k]),
{
    let mut e = i;
    while e < v.len() && is_digit_char(v[e])
        invariant
            i <= e <= v@.len(),
            digits_end(v@, e as int) == digits_end(v@, i as int),
            forall|k: int| i <= k < e ==> is_digit(#[trigger] v@[k]),
        decreases v.len() - e,
    {
        e += 1;
    }
    e
}

pub proof fn lemma_digits_value_prefix(s: Seq<char>, j: int)
    requires
        0 <= j <= s.len(),
    ensures
        digits_value(s.take(j)) <= digits_value(s),
    decreases s.len() - j,
{
    if j < s.len() {
        lemma_digits_value_prefix(s, j + 1);
        assert(s.take(j + 1).drop_last() =~= s.take(j));
        assert(digits_value(s.take(j + 1)) == digits_value(s.take(j)) * 10 + digit_value(
            s.take(j + 1).last(),
        ));
    } else {
        assert(s.take(j) =~= s);
    }
}

/// `v[lo..hi]` read as `u64` (`str::parse`).
pub fn parse_u64_range(v: &Vec<char>, lo: usize, hi: usize) -> (r: Option<u64>)
    requires
        lo <= hi <= v@.len(),
    ensures
        r == spec_parse_u64(v@.subrange(lo as int, hi as int)),
{
    let ghost s = v@.subrange(lo as int, hi as int);
    let mut start = lo;
    if lo < hi && v[lo] == '+' {
        start = lo + 1;
    }
    let ghost d = v@.subrange(start as int, hi as int);
    assert(d == if s.len() > 0 && s[0] == '+' {
        s.drop_first()
    } else {
        s
    });
    if start == hi {
        return None;
    }
    let mut acc: u64 = 0;
    let mut i = start;
    while i < hi
        invariant
            lo <= start <= i <= hi <= v@.len(),
            d == v@.subrange(start as int, hi as int),
            s == v@.subrange(lo as int, hi as int),
            d == (if s.len() > 0 && s[0] == '+' {
                s.drop_first()
            } else {
                s
            }),
            d.len() > 0,
            all_digits(d.take(i - start)),
            acc as nat == digits_value(d.take(i - start)),
        decreases hi - i,
    {
        let c = v[i];
        assert(d[i - start] == c);
        if !is_digit_char(c) {
            assert(!all_digits(d));
            return None;
        }
        assert(d.take(i + 1 - start).drop_last() =~= d.take(i - start));
        let dig: u64 = (c as u32 - 48) as u64;
        if acc > (u64::MAX - dig) / 10 {
            proof {
                assert(digits_value(d.take(i + 1 - start)) == digits_value(d.take(i - start)) * 10
                    + digit_value(c));
                assert(digits_value(d.take(i + 1 - start)) > u64::MAX) by (nonlinear_arith)
                    requires
                        acc > (u64::MAX - dig) / 10,
                        digits_value(d.take(i + 1 - start)) == acc * 10 + dig,
                        dig <= 9,
                ;
                lemma_digits_value_prefix(d, i + 1 - start);
                assert(d.take(d.len() as int) =~= d);
            }
            return None;
        }
        assert(acc * 10 + dig <= u64::MAX) by (nonlinear_arith)
            requires
                acc <= (u64::MAX - dig) / 10,
                dig <= 9,
        ;
        acc = acc * 10 + dig;
        assert(all_digits(d.take(i + 1 - start)));
        i += 1;
    }
    assert(d.take(d.len() as int) =~= d);
    Some(acc)
}

fn file_line_of(v: &Vec<char>) -> (r: Option<(u64, String)>)
    ensures
        match r {
            Some((b, p)) => file_line(v@) == Some((b, p@)),
            None => file_line(v@) is None,
        },
{
    let n = v.len();
    let w = skip_ascii_ws(v, 0);
    let d = skip_digits(v, w);
    if d > w && n - d > 1 && v[d] == '\t' {
        let mut k = d + 1;
        while k < n
            invariant
                d + 1 <= k <= n == v@.len(),
                w as int == ascii_ws_end(v@, 0),
                d as int == digits_end(v@, w as int),
                d > w,
                forall|j: int| d + 1 <= j < k ==> v@[j] != '\n',
            decreases n - k,
        {
            if v[k] == '\n' {
                assert(!(forall|j: int| d + 1 <= j < v@.len() ==> v@[j] != '\n'));
                return None;
            }
            k += 1;
        }
        let bytes = match parse_u64_range(v, w, d) {
            Some(b) => b,
            None => 0,
        };
        let (a, b) = trim_bounds(v, d + 1, n);
        let path = string_of_range(v, a, b);
        assert(v@.subrange(d + 1, n as int) =~= v@.skip(d + 1));
        return Some((bytes, path));
    }
    None
}

fn is_extra_line(v: &Vec<char>) -> (b: bool)
    ensures
        b == extra_line(v@),
{
    let n = v.len();
    let mut i: usize = 0;
    assert(v@.subrange(0, n as int) =~= v@);
    while i < n && crate::text::is_ws_char(v[i])
        invariant
            i <= n == v@.len(),
            trim_start(v@.subrange(i as int, n as int)) == trim_start(v@),
        decreases n - i,
    {
        assert(v@.subrange(i as int, n as int).drop_first() =~= v@.subrange(i + 1, n as int));
        i += 1;
    }
    let t_vec = copy_range(v, i, n);
    assert(trim_start(t_vec@) == t_vec@);
    let marker = copy_marker();
    assert(t_vec@.subrange(0, t_vec@.len() as int) =~= t_vec@);
    if has_prefix_at(&t_vec, 0, t_vec.len(), &marker) {
        let e = skip_ascii_ws(&t_vec, 6);
        e > 6 && e < t_vec.len()
    } else {
        false
    }
}

/// Reads one line of robocopy output.
pub fn parse_line(line: &str) -> (r: RcLine)
    ensures
        match r {
            RcLine::File { bytes, path } => file_line(line@) == Some((bytes, path@)),
            RcLine::ExtraDeleted => file_line(line@) is None && extra_line(line@),
            RcLine::Other(s) => file_line(line@) is None && !extra_line(line@) && s@ == line@,
        },
{
    let v = chars_of(line);
    match file_line_of(&v) {
        Some((bytes, path)) => RcLine::File { bytes, path },
        None => {
            if is_extra_line(&v) {
                RcLine::ExtraDeleted
            } else {
                RcLine::Other(str_to_string(line))
            }
        },
    }
}

fn copy_marker() -> (m: Vec<char>)
    ensures
        m@ == extra_marker(),
{
    let mut m: Vec<char> = Vec::new();
    m.push('*');
    m.push('E');
    m.push('X');
    m.push('T');
    m.push('R');
    m.push('A');
    assert(m@ =~= extra_marker());
    m
}

/// `flag, item` for each non-empty item.
pub open spec fn flagged(flag: Seq<char>, items: Seq<Seq<char>>) -> Seq<Seq<char>>
    decreases items.len(),
{
    if items.len() == 0 {
        Seq::<Seq<char>>::empty()
    } else if items.last().len() == 0 {
        flagged(flag, items.drop_last())
    } else {
        flagged(flag, items.drop_last()) + seq![flag, items.last()]
    }
}

/// The non-empty items.
pub open spec fn non_empty(items: Seq<Seq<char>>) -> Seq<Seq<char>>
    decreases items.len(),
{
    if items.len() == 0 {
        Seq::<Seq<char>>::empty()
    } else if items.last().len() == 0 {
        non_empty(items.drop_last())
    } else {
        non_empty(items.drop_last()).push(items.last())
    }
}

pub open spec fn spec_common_args(adv: AdvancedOptions) -> Seq<Seq<char>> {
    seq!["/BYTES"@, "/NP"@, "/NC"@, "/NDL"@, "/R:"@ + dec(adv.retries as nat), "/W:"@ + dec(adv.wait_secs as nat)]
        + (if adv.fat_time_tolerance {
        seq!["/FFT"@]
    } else {
        Seq::<Seq<char>>::empty()
    }) + (if adv.dst_adjust {
        seq!["/DST"@]
    } else {
        Seq::<Seq<char>>::empty()
    }) + flagged("/XD"@, string_views(adv.exclude_dirs@)) + flagged(
        "/XF"@,
        string_views(adv.exclude_files@),
    ) + non_empty(string_views(adv.extra_flags@))
}

fn with_number(prefix: &str, n: u32) -> (s: String)
    ensures
        s@ == prefix@ + dec(n as nat),
{
    let mut s = str_to_string(prefix);
    push_all(&mut s, &dec_u64(n as u64));
    s
}

/// Appends `flag, item` for each non-empty item.
fn push_flagged(args: &mut Vec<String>, flag: &str, items: &Vec<String>)
    ensures
        string_views(final(args)@) == string_views(old(args)@) + flagged(flag@, string_views(items@)),
{
    let ghost start = string_views(args@);
    let mut i: usize = 0;
    while i < items.len()
        invariant
            i <= items@.len(),
            string_views(args@) == start + flagged(flag@, string_views(items@.take(i as int))),
        decreases items.len() - i,
    {
        let ghost before = string_views(args@);
        assert(string_views(items@.take(i + 1)).drop_last() =~= string_views(items@.take(i as int)));
        assert(string_views(items@.take(i + 1)).last() == items@[i as int]@);
        if !items[i].as_str().is_empty() {
            let f = str_to_string(flag);
            let it = items[i].clone();
            args.push(f);
            args.push(it);
            assert(string_views(args@) =~= before + seq![flag@, items@[i as int]@]);
        }
        i += 1;
    }
    assert(items@.take(items@.len() as int) =~= items@);
}

/// Flags shared by the scan (`/L`) and the actual copy. Deliberately does NOT
/// include `/XX`: in mirror mode robocopy must report (and count) the files it
/// will delete from the destination, otherwise a job whose only work is
/// deletions would be reported as "no changes" and never run. The mode flag
/// (`/E` or `/MIR`) is added separately, next to source and destination.
pub fn common_args(mode: CopyMode, adv: &AdvancedOptions) -> (args: Vec<String>)
    ensures
        string_views(args@) == spec_common_args(*adv),
{
    let _ = mode;
    let mut args: Vec<String> = Vec::new();
    args.push(str_to_string("/BYTES"));
    args.push(str_to_string("/NP"));
    args.push(str_to_string("/NC"));
    args.push(str_to_string("/NDL"));
    args.push(with_number("/R:", adv.retries));
    args.push(with_number("/W:", adv.wait_secs));
    if adv.fat_time_tolerance {
        args.push(str_to_string("/FFT"));
    }
    if adv.dst_adjust {
        args.push(str_to_string("/DST"));
    }
    let ghost fixed = string_views(args@);
    push_flagged(&mut args, "/XD", &adv.exclude_dirs);
    push_flagged(&mut args, "/XF", &adv.exclude_files);
    let mut i: usize = 0;
    let ghost mid = string_views(args@);
    while i < adv.extra_flags.len()
        invariant
            i <= adv.extra_flags@.len(),
            string_views(args@) == mid + non_empty(string_views(adv.extra_flags@.take(i as int))),
        decreases adv.extra_flags.len() - i,
    {
        let ghost before = string_views(args@);
        assert(string_views(adv.extra_flags@.take(i + 1)).drop_last() =~= string_views(
            adv.extra_flags@.take(i as int),
        ));
        if !adv.extra_flags[i].as_str().is_empty() {
            let x = adv.extra_flags[i].clone();
            args.push(x);
            assert(string_views(args@) =~= before.push(adv.extra_flags@[i as int]@));
        }
        i += 1;
    }
    assert(adv.extra_flags@.take(adv.extra_flags@.len() as int) =~= adv.extra_flags@);
    assert(string_views(args@) =~= spec_common_args(*adv));
    args
}

/// Neither `/XX` (which would hide the deletions a mirror makes) nor `/L`
/// (which would turn a copy into a listing) is among `items`.
pub open spec fn free_of_listing_flags(items: Seq<Seq<char>>) -> bool {
    !items.contains("/XX"@) && !items.contains("/L"@)
}

proof fn lemma_concat_contains(a: Seq<Seq<char>>, b: Seq<Seq<char>>, x: Seq<char>)
    requires
        (a + b).contains(x),
    ensures
        a.contains(x) || b.contains(x),
{
    let i = choose|i: int| 0 <= i < (a + b).len() && (a + b)[i] == x;
    if i < a.len() {
        assert(a[i] == x);
    } else {
        assert(b[i - a.len()] == x);
    }
}

proof fn lemma_drop_last_contains(items: Seq<Seq<char>>, x: Seq<char>)
    requires
        items.len() > 0,
        items.drop_last().contains(x),
    ensures
        items.contains(x),
{
    let i = choose|i: int| 0 <= i < items.drop_last().len() && items.drop_last()[i] == x;
    assert(items[i] == x);
}

proof fn lemma_flagged_items(flag: Seq<char>, items: Seq<Seq<char>>, x: Seq<char>)
    requires
        flagged(flag, items).contains(x),
    ensures
        x == flag || items.contains(x),
    decreases items.len(),
{
    if items.len() == 0 {
    } else if items.last().len() == 0 {
        lemma_flagged_items(flag, items.drop_last(), x);
        if x != flag {
            lemma_drop_last_contains(items, x);
        }
    } else {
        let rest = flagged(flag, items.drop_last());
        lemma_concat_contains(rest, seq![flag, items.last()], x);
        if rest.contains(x) {
            lemma_flagged_items(flag, items.drop_last(), x);
            if x != flag {
                lemma_drop_last_contains(items, x);
            }
        } else {
            let j = choose|j: int| 0 <= j < 2 && seq![flag, items.last()][j] == x;
            if j == 1 {
                assert(items[items.len() - 1] == x);
            }
        }
    }
}

proof fn lemma_non_empty_items(items: Seq<Seq<char>>, x: Seq<char>)
    requires
        non_empty(items).contains(x),
    ensures
        items.contains(x),
    decreases items.len(),
{
    if items.len() == 0 {
    } else if items.last().len() == 0 {
        lemma_non_empty_items(items.drop_last(), x);
        lemma_drop_last_contains(items, x);
    } else {
        let rest = non_empty(items.drop_last());
        let i = choose|i: int| 0 <= i < rest.push(items.last()).len() && rest.push(items.last())[i]
            == x;
        if i < rest.len() {
            assert(rest[i] == x);
            lemma_non_empty_items(items.drop_last(), x);
            lemma_drop_last_contains(items, x);
        } else {
            assert(items[items.len() - 1] == x);
        }
    }
}

/// The flags common to the scan and the copy open with the fixed six
/// (`/BYTES /NP /NC /NDL /R:n /W:n`), and never hold `/XX` or `/L` unless the
/// job's own exclusions or extra flags bring them: a mirror always reports
/// its deletions, and only the scan lists instead of copying. (The mode plays
/// no part: the flags are a function of the options alone.)
pub proof fn law_common_args_never_list_or_hide_deletions(adv: AdvancedOptions)
    requires
        free_of_listing_flags(string_views(adv.exclude_dirs@)),
        free_of_listing_flags(string_views(adv.exclude_files@)),
        free_of_listing_flags(string_views(adv.extra_flags@)),
    ensures
        spec_common_args(adv).take(6) == seq![
            "/BYTES"@,
            "/NP"@,
            "/NC"@,
            "/NDL"@,
            "/R:"@ + dec(adv.retries as nat),
            "/W:"@ + dec(adv.wait_secs as nat),
        ],
        free_of_listing_flags(spec_common_args(adv)),
{
    reveal_strlit("/BYTES");
    reveal_strlit("/NP");
    reveal_strlit("/NC");
    reveal_strlit("/NDL");
    reveal_strlit("/R:");
    reveal_strlit("/W:");
    reveal_strlit("/FFT");
    reveal_strlit("/DST");
    reveal_strlit("/XD");
    reveal_strlit("/XF");
    reveal_strlit("/XX");
    reveal_strlit("/L");
    let fixed = seq![
        "/BYTES"@,
        "/NP"@,
        "/NC"@,
        "/NDL"@,
        "/R:"@ + dec(adv.retries as nat),
        "/W:"@ + dec(adv.wait_secs as nat),
    ];
    let fft = if adv.fat_time_tolerance {
        seq!["/FFT"@]
    } else {
        Seq::<Seq<char>>::empty()
    };
    let dst = if adv.dst_adjust {
        seq!["/DST"@]
    } else {
        Seq::<Seq<char>>::empty()
    };
    let xd = flagged("/XD"@, string_views(adv.exclude_dirs@));
    let xf = flagged("/XF"@, string_views(adv.exclude_files@));
    let extra = non_empty(string_views(adv.extra_flags@));
    let all = spec_common_args(adv);
    assert(all == fixed + fft + dst + xd + xf + extra);
    assert(all.take(6) =~= fixed);
    assert("/XX"@.len() == 3 && "/XX"@[1] == 'X' && "/XX"@[2] == 'X');
    assert("/L"@.len() == 2);
    assert("/XD"@.len() == 3 && "/XD"@[2] == 'D');
    assert("/XF"@.len() == 3 && "/XF"@[2] == 'F');
    assert("/XX"@ != "/XD"@ && "/XX"@ != "/XF"@ && "/L"@ != "/XD"@ && "/L"@ != "/XF"@);
    assert forall|x: Seq<char>| x == "/XX"@ || x == "/L"@ implies !all.contains(x) by {
        if all.contains(x) {
            lemma_concat_contains(fixed + fft + dst + xd + xf, extra, x);
            if extra.contains(x) {
                lemma_non_empty_items(string_views(adv.extra_flags@), x);
            } else {
                lemma_concat_contains(fixed + fft + dst + xd, xf, x);
                if xf.contains(x) {
                    lemma_flagged_items("/XF"@, string_views(adv.exclude_files@), x);
                } else {
                    lemma_concat_contains(fixed + fft + dst, xd, x);
                    if xd.contains(x) {
                        lemma_flagged_items("/XD"@, string_views(adv.exclude_dirs@), x);
                    } else {
                        lemma_concat_contains(fixed + fft, dst, x);
                        if dst.contains(x) {
                            assert(dst[0] == x);
                        } else {
                            lemma_concat_contains(fixed, fft, x);
                            if fixed.contains(x) {
                                let i = choose|i: int| 0 <= i < fixed.len() && fixed[i] == x;
                                assert(fixed[i][1] != x[1] || fixed[i].len() != x.len());
                            } else {
                                assert(fft[0] == x);
                            }
                        }
                    }
                }
            }
        }
    }
}

pub open spec fn spec_copy_only_args(adv: AdvancedOptions) -> Seq<Seq<char>> {
    (if adv.threads > 0 {
        seq!["/MT:"@ + dec(adv.threads as nat)]
    } else {
        Seq::<Seq<char>>::empty()
    }) + (if adv.unbuffered_io {
        seq!["/J"@]
    } else {
        Seq::<Seq<char>>::empty()
    })
}

/// The full argument list of a robocopy run: source, destination, mode flag,
/// then `flags`.
pub open spec fn spec_robocopy_command(src: Seq<char>, dst: Seq<char>, mode: CopyMode, flags: Seq<
    Seq<char>,
>) -> Seq<Seq<char>> {
    seq![src, dst, spec_robocopy_flag(mode)] + flags
}

fn command_head(src: &str, dst: &str, mode: CopyMode) -> (args: Vec<String>)
    ensures
        string_views(args@) == seq![src@, dst@, spec_robocopy_flag(mode)],
{
    let mut args: Vec<String> = Vec::new();
    args.push(str_to_string(src));
    args.push(str_to_string(dst));
    args.push(str_to_string(mode.robocopy_flag()));
    assert(string_views(args@) =~= seq![src@, dst@, spec_robocopy_flag(mode)]);
    args
}

/// The arguments of the list-only pass (`/L`), which changes nothing and
/// reports what the copy would do.
pub fn scan_command(src: &str, dst: &str, mode: CopyMode, adv: &AdvancedOptions) -> (args: Vec<
    String,
>)
    ensures
        string_views(args@) == spec_robocopy_command(
            src@,
            dst@,
            mode,
            spec_common_args(*adv) + seq!["/L"@],
        ),
{
    let mut args = command_head(src, dst, mode);
    append_strings(&mut args, &common_args(mode, adv));
    let ghost before = args@;
    let l = str_to_string("/L");
    args.push(l);
    proof {
        lemma_string_views_push(before, l);
    }
    assert(string_views(args@) =~= spec_robocopy_command(
        src@,
        dst@,
        mode,
        spec_common_args(*adv) + seq!["/L"@],
    ));
    args
}

/// The arguments of the copy itself: the shared flags, then those of the
/// copy only.
pub fn copy_command(src: &str, dst: &str, mode: CopyMode, adv: &AdvancedOptions) -> (args: Vec<
    String,
>)
    ensures
        string_views(args@) == spec_robocopy_command(
            src@,
            dst@,
            mode,
            spec_common_args(*adv) + spec_copy_only_args(*adv),
        ),
{
    let mut args = command_head(src, dst, mode);
    append_strings(&mut args, &common_args(mode, adv));
    append_strings(&mut args, &copy_only_args(adv));
    assert(string_views(args@) =~= spec_robocopy_command(
        src@,
        dst@,
        mode,
        spec_common_args(*adv) + spec_copy_only_args(*adv),
    ));
    args
}

/// Flags for the copy only: multithreading and unbuffered I/O.
pub fn copy_only_args(adv: &AdvancedOptions) -> (args: Vec<String>)
    ensures
        string_views(args@) == spec_copy_only_args(*adv),
{
    let mut args: Vec<String> = Vec::new();
    if adv.threads > 0 {
        args.push(with_number("/MT:", adv.threads));
    }
    if adv.unbuffered_io {
        args.push(str_to_string("/J"));
    }
    assert(string_views(args@) =~= spec_copy_only_args(*adv));
    args
}

pub open spec fn pow10(n: nat) -> nat
    decreases n,
{
    if n == 0 {
        1
    } else {
        10 * pow10((n - 1) as nat)
    }
}

/// The multiplier of a size suffix: `k`, `m`, `g` and `t` (either case) are
/// powers of 1024; any other letter counts as 1.
pub open spec fn suffix_mult(c: char) -> nat {
    let l = crate::text::ascii_lower(c);
    if l == 'k' {
        1024
    } else if l == 'm' {
        1048576
    } else if l == 'g' {
        1073741824
    } else if l == 't' {
        1099511627776
    } else {
        1
    }
}

/// The number text of a size token and its multiplier.
pub open spec fn size_parts(tok: Seq<char>) -> (Seq<char>, nat) {
    let t = trim(tok);
    if t.len() > 0 && crate::text::is_ascii_alpha(t.last()) {
        (trim(t.drop_last()), suffix_mult(t.last()))
    } else {
        (trim(t), 1)
    }
}

pub open spec fn unsigned_part(s: Seq<char>) -> Seq<char> {
    if s.len() > 0 && s[0] == '+' {
        s.drop_first()
    } else {
        s
    }
}

pub open spec fn int_digits(s: Seq<char>) -> Seq<char> {
    let d = unsigned_part(s);
    d.take(crate::text::index_from(d, '.', 0))
}

pub open spec fn frac_digits(s: Seq<char>) -> Seq<char> {
    let d = unsigned_part(s);
    let p = crate::text::index_from(d, '.', 0);
    if p < d.len() {
        d.skip(p + 1)
    } else {
        Seq::<char>::empty()
    }
}

/// A plain decimal number: an optional `+`, digits, and at most one `.`
/// with at least one digit somewhere.
pub open spec fn decimal_ok(s: Seq<char>) -> bool {
    all_digits(int_digits(s)) && all_digits(frac_digits(s)) && (int_digits(s).len() > 0
        || frac_digits(s).len() > 0)
}

/// `(int + frac / 10^len(frac)) * mult`, rounded to the nearest integer,
/// halves away from zero.
pub open spec fn rounded_size(ip: Seq<char>, fp: Seq<char>, mult: nat) -> nat {
    let den = pow10(fp.len());
    let num = digits_value(ip) * den + digits_value(fp);
    (2 * num * mult + den) / (2 * den)
}

/// A robocopy byte count: the decimal number of the token times its suffix,
/// rounded, capped at `u64::MAX`; 0 for an empty or unreadable token.
pub open spec fn spec_parse_size(tok: Seq<char>) -> u64 {
    let (num, mult) = size_parts(tok);
    if trim(tok).len() == 0 || !decimal_ok(num) {
        0
    } else {
        let r = rounded_size(int_digits(num), frac_digits(num), mult);
        if r >= u64::MAX {
            u64::MAX
        } else {
            r as u64
        }
    }
}

proof fn lemma_nested_div(a: nat, x: nat, c: nat, m: nat)
    requires
        c > 0,
        m > 0,
    ensures
        (a + x / c) / m == (a * c + x) / (c * m),
{
    vstd::arithmetic::div_mod::lemma_hoist_over_denominator(x as int, a as int, c);
    vstd::arithmetic::div_mod::lemma_div_denominator((x + a * c) as int, c as int, m as int);
}

proof fn lemma_pow10_pos(n: nat)
    ensures
        pow10(n) > 0,
    decreases n,
{
    if n > 0 {
        lemma_pow10_pos((n - 1) as nat);
    }
}

proof fn lemma_digits_cons(c: char, t: Seq<char>)
    ensures
        digits_value(seq![c] + t) == digit_value(c) * pow10(t.len()) + digits_value(t),
    decreases t.len(),
{
    let u = seq![c] + t;
    assert(digits_value(u) == digits_value(u.drop_last()) * 10 + digit_value(u.last()));
    if t.len() == 0 {
        assert(u.drop_last() =~= Seq::<char>::empty());
        assert(u.last() == c);
        assert(pow10(0) == 1);
    } else {
        lemma_digits_cons(c, t.drop_last());
        assert(u.drop_last() =~= seq![c] + t.drop_last());
        assert(u.last() == t.last());
        let a = digit_value(c);
        let p = pow10((t.len() - 1) as nat);
        let b = digits_value(t.drop_last());
        assert(digits_value(t) == b * 10 + digit_value(t.last()));
        assert(pow10(t.len()) == 10 * p);
        assert((a * p + b) * 10 + digit_value(t.last()) == a * (10 * p) + (b * 10 + digit_value(
            t.last(),
        ))) by (nonlinear_arith);
    }
}

fn mult_of(c: char) -> (m: u64)
    ensures
        m as nat == suffix_mult(c),
        1 <= m <= 1099511627776,
{
    let l = crate::text::ascii_lower_char(c);
    if l == 'k' {
        1024
    } else if l == 'm' {
        1048576
    } else if l == 'g' {
        1073741824
    } else if l == 't' {
        1099511627776
    } else {
        1
    }
}

fn digit_u128(c: char) -> (d: u128)
    requires
        is_digit(c),
    ensures
        d as nat == digit_value(c),
        d <= 9,
{
    (c as u32 - 48) as u128
}

fn all_digits_in(v: &Vec<char>, lo: usize, hi: usize) -> (b: bool)
    requires
        lo <= hi <= v@.len(),
    ensures
        b == all_digits(v@.subrange(lo as int, hi as int)),
{
    let ghost s = v@.subrange(lo as int, hi as int);
    let mut i = lo;
    while i < hi
        invariant
            lo <= i <= hi <= v@.len(),
            s == v@.subrange(lo as int, hi as int),
            forall|k: int| 0 <= k < i - lo ==> is_digit(#[trigger] s[k]),
        decreases hi - i,
    {
        assert(s[i - lo] == v@[i as int]);
        if !is_digit_char(v[i]) {
            return false;
        }
        i += 1;
    }
    true
}

/// Where the integer and fraction digits of the number `v[lo..hi]` lie, if
/// it is a plain decimal number.
fn decimal_parts(v: &Vec<char>, lo: usize, hi: usize) -> (r: Option<(usize, usize, usize, usize)>)
    requires
        lo <= hi <= v@.len(),
    ensures
        match r {
            Some((ia, ib, fa, fb)) => {
                &&& decimal_ok(v@.subrange(lo as int, hi as int))
                &&& ia <= ib <= v@.len() && fa <= fb <= v@.len()
                &&& v@.subrange(ia as int, ib as int) == int_digits(v@.subrange(lo as int, hi as int))
                &&& v@.subrange(fa as int, fb as int) == frac_digits(v@.subrange(lo as int, hi as int))
            },
            None => !decimal_ok(v@.subrange(lo as int, hi as int)),
        },
{
    let ghost num = v@.subrange(lo as int, hi as int);
    let mut a = lo;
    if a < hi && v[a] == '+' {
        a = a + 1;
    }
    let ghost d = v@.subrange(a as int, hi as int);
    assert(d =~= unsigned_part(num));
    let p = match crate::text::find_char(v, a, hi, '.') {
        Some(i) => i,
        None => hi,
    };
    proof {
        assert forall|k: int| 0 <= k < p - a implies d[k] != '.' by {
            assert(d[k] == v@[a + k]);
        }
        crate::text::lemma_index_from(d, '.', 0, p - a);
    }
    let fstart = if p < hi {
        p + 1
    } else {
        hi
    };
    assert(v@.subrange(a as int, p as int) =~= int_digits(num));
    assert(v@.subrange(fstart as int, hi as int) =~= frac_digits(num));
    if !all_digits_in(v, a, p) || !all_digits_in(v, fstart, hi) || (p == a && fstart == hi) {
        return None;
    }
    Some((a, p, fstart, hi))
}

/// The value of the digits `v[lo..hi]` when it is below `u64::MAX / mult`.
fn int_value(v: &Vec<char>, lo: usize, hi: usize, mult: u64) -> (r: Option<u128>)
    requires
        lo <= hi <= v@.len(),
        all_digits(v@.subrange(lo as int, hi as int)),
        1 <= mult <= 1099511627776,
    ensures
        match r {
            Some(x) => x as nat == digits_value(v@.subrange(lo as int, hi as int)) && x * mult
                < u64::MAX,
            None => digits_value(v@.subrange(lo as int, hi as int)) * mult >= u64::MAX,
        },
{
    let ghost ip = v@.subrange(lo as int, hi as int);
    let m128 = mult as u128;
    let mut acc: u128 = 0;
    let mut k = lo;
    assert(ip.take(0) =~= Seq::<char>::empty());
    while k < hi
        invariant
            lo <= k <= hi <= v@.len(),
            ip == v@.subrange(lo as int, hi as int),
            all_digits(ip),
            acc as nat == digits_value(ip.take(k - lo)),
            acc * mult < u64::MAX,
            m128 == mult,
            1 <= mult <= 1099511627776,
        decreases hi - k,
    {
        assert(ip[k - lo] == v@[k as int]);
        let dg = digit_u128(v[k]);
        assert(ip.take(k + 1 - lo).drop_last() =~= ip.take(k - lo));
        assert(acc < u64::MAX) by (nonlinear_arith)
            requires
                acc * mult < u64::MAX,
                mult >= 1,
        ;
        acc = acc * 10 + dg;
        assert(acc as nat == digits_value(ip.take(k + 1 - lo)));
        assert(acc * m128 < 0x1_0000_0000_0000_0000_0000_0000_0000u128) by (nonlinear_arith)
            requires
                acc < 0x1_0000_0000_0000_0000_0u128,
                m128 <= 1099511627776,
        ;
        if acc * m128 >= 0xFFFF_FFFF_FFFF_FFFFu128 {
            proof {
                lemma_digits_value_prefix(ip, k + 1 - lo);
                assert(ip.take(ip.len() as int) =~= ip);
                vstd::arithmetic::mul::lemma_mul_inequality(
                    acc as int,
                    digits_value(ip) as int,
                    mult as int,
                );
            }
            return None;
        }
        k += 1;
    }
    assert(ip.take(hi - lo) =~= ip);
    Some(acc)
}

/// `floor(2 * mult * value(digits) / 10^len)` of the fraction digits
/// `v[lo..hi]`, by Horner's rule from the last digit.
fn frac_scaled(v: &Vec<char>, lo: usize, hi: usize, mult: u64) -> (q: u128)
    requires
        lo <= hi <= v@.len(),
        all_digits(v@.subrange(lo as int, hi as int)),
        1 <= mult <= 1099511627776,
    ensures
        q as int == (2 * mult * digits_value(v@.subrange(lo as int, hi as int))) / (pow10(
            (hi - lo) as nat,
        ) as int),
        q <= 2 * mult,
{
    let ghost fp = v@.subrange(lo as int, hi as int);
    let m2: u128 = 2 * (mult as u128);
    let mut q: u128 = 0;
    let mut e = hi;
    proof {
        assert(fp.skip(hi - lo) =~= Seq::<char>::empty());
        assert(digits_value(Seq::<char>::empty()) == 0);
        assert(pow10(0) == 1);
        assert(m2 * 0 == 0);
    }
    while e > lo
        invariant
            lo <= e <= hi <= v@.len(),
            fp == v@.subrange(lo as int, hi as int),
            all_digits(fp),
            m2 == 2 * mult,
            1 <= mult <= 1099511627776,
            q as int == (m2 * digits_value(fp.skip(e - lo))) / (pow10((hi - e) as nat) as int),
            q <= m2,
        decreases e - lo,
    {
        let ghost j = e - 1 - lo;
        assert(fp[j] == v@[e - 1]);
        let dg = digit_u128(v[e - 1]);
        proof {
            let sfx = fp.skip(j + 1);
            let sv = digits_value(sfx);
            let pw = pow10((hi - e) as nat);
            assert(fp.skip(j) =~= seq![fp[j]] + sfx);
            lemma_digits_cons(fp[j], sfx);
            assert(sfx.len() == hi - e);
            lemma_pow10_pos((hi - e) as nat);
            lemma_nested_div((dg * m2) as nat, (m2 * sv) as nat, pw, 10);
            assert(pow10((hi - e + 1) as nat) == 10 * pw);
            assert((dg * m2) * pw + m2 * sv == m2 * (dg * pw + sv)) by (nonlinear_arith);
            assert(pw * 10 == 10 * pw);
            assert(all_digits(sfx)) by {
                assert forall|k: int| 0 <= k < sfx.len() implies is_digit(#[trigger] sfx[k]) by {
                    assert(sfx[k] == fp[j + 1 + k]);
                }
            }
            lemma_digits_below_pow(sfx);
            assert(dg * pw + sv < 10 * pw) by (nonlinear_arith)
                requires
                    dg <= 9,
                    sv < pw,
            ;
            assert(m2 * (dg * pw + sv) <= m2 * (10 * pw)) by (nonlinear_arith)
                requires
                    dg * pw + sv < 10 * pw,
                    m2 > 0,
            ;
            vstd::arithmetic::div_mod::lemma_div_is_ordered(
                (m2 * (dg * pw + sv)) as int,
                (m2 * (10 * pw)) as int,
                (10 * pw) as int,
            );
            assert(m2 * (10 * pw) == (10 * pw) * m2) by (nonlinear_arith);
            vstd::arithmetic::div_mod::lemma_div_multiples_vanish(m2 as int, (10 * pw) as int);
        }
        q = (dg * m2 + q) / 10;
        e -= 1;
    }
    assert(fp.skip(0) =~= fp);
    q
}

proof fn lemma_round(iv: nat, fv: nat, den: nat, mult: nat, q: nat)
    requires
        den > 0,
        q == (2 * mult * fv) / den,
    ensures
        (2 * (iv * den + fv) * mult + den) / (2 * den) == iv * mult + (q + 1) / 2,
{
    let m2 = 2 * mult;
    lemma_nested_div(1, (m2 * fv) as nat, den, 2);
    assert(2 * (iv * den + fv) * mult + den == (m2 * fv + den) + (iv * mult) * (2 * den))
        by (nonlinear_arith)
        requires
            m2 == 2 * mult,
    ;
    vstd::arithmetic::div_mod::lemma_hoist_over_denominator(
        (m2 * fv + den) as int,
        (iv * mult) as int,
        (2 * den) as nat,
    );
    assert(den * 2 == 2 * den);
    assert(1 * den + m2 * fv == m2 * fv + den);
}

proof fn lemma_round_large(iv: nat, fv: nat, den: nat, mult: nat)
    requires
        den > 0,
        iv * mult >= u64::MAX,
    ensures
        (2 * (iv * den + fv) * mult + den) / (2 * den) >= u64::MAX,
{
    let x = iv * mult;
    assert(2 * (iv * den + fv) * mult + den >= (2 * den) * x) by (nonlinear_arith)
        requires
            x == iv * mult,
    ;
    vstd::arithmetic::div_mod::lemma_div_is_ordered(
        ((2 * den) * x) as int,
        (2 * (iv * den + fv) * mult + den) as int,
        (2 * den) as int,
    );
    vstd::arithmetic::div_mod::lemma_div_multiples_vanish(x as int, (2 * den) as int);
}

/// Robocopy abbreviates large byte counts with a one-letter suffix (k/m/g/t,
/// base 1024) attached to the number, e.g. "45.2m". Only the plain decimal
/// form that robocopy prints is read (an optional `+`, digits, at most one
/// point); an exponent ("1e3"), "inf" or "nan" gives 0, as does a negative
/// number. The value is computed exactly,
/// not in floating point, and rounded to the nearest byte (capped at
/// `u64::MAX`), so it can differ from an `f64` reading in the last digit of
/// very long numbers.
pub fn parse_size(tok: &str) -> (r: u64)
    ensures
        r == spec_parse_size(tok@),
{
    let t = crate::text::trim_chars(tok);
    if t.len() == 0 {
        return 0;
    }
    let last = t[t.len() - 1];
    let alpha = ('a' <= last && last <= 'z') || ('A' <= last && last <= 'Z');
    let (a, b, mult) = if alpha {
        let (a, b) = trim_bounds(&t, 0, t.len() - 1);
        assert(t@.subrange(0, t@.len() - 1) =~= t@.drop_last());
        (a, b, mult_of(last))
    } else {
        let (a, b) = trim_bounds(&t, 0, t.len());
        assert(t@.subrange(0, t@.len() as int) =~= t@);
        (a, b, 1u64)
    };
    let ghost num = t@.subrange(a as int, b as int);
    assert(size_parts(tok@) == (num, mult as nat));
    let (ia, ib, fa, fb) = match decimal_parts(&t, a, b) {
        Some(x) => x,
        None => return 0,
    };
    let ghost ip = t@.subrange(ia as int, ib as int);
    let ghost fp = t@.subrange(fa as int, fb as int);
    proof {
        lemma_pow10_pos(fp.len());
    }
    let iv = match int_value(&t, ia, ib, mult) {
        Some(x) => x,
        None => {
            proof {
                lemma_round_large(digits_value(ip), digits_value(fp), pow10(fp.len()), mult as nat);
            }
            return u64::MAX;
        },
    };
    let q = frac_scaled(&t, fa, fb, mult);
    let g = (q + 1) / 2;
    proof {
        lemma_round(digits_value(ip), digits_value(fp), pow10(fp.len()), mult as nat, q as nat);
    }
    let total = iv * (mult as u128) + g;
    if total >= 0xFFFF_FFFF_FFFF_FFFFu128 {
        u64::MAX
    } else {
        total as u64
    }
}

proof fn lemma_digits_below_pow(s: Seq<char>)
    requires
        all_digits(s),
    ensures
        digits_value(s) < pow10(s.len()),
    decreases s.len(),
{
    if s.len() > 0 {
        lemma_digits_below_pow(s.drop_last());
        let v = digits_value(s.drop_last());
        let p = pow10((s.len() - 1) as nat);
        assert(is_digit(s[s.len() - 1]));
        assert(digit_value(s.last()) <= 9);
        assert(v * 10 + digit_value(s.last()) < 10 * p) by (nonlinear_arith)
            requires
                v < p,
                digit_value(s.last()) <= 9,
        ;
    }
}

/// A count column (`str::parse::<u64>`, 0 when unreadable).
pub fn parse_count(tok: &str) -> (r: u64)
    ensures
        r == u64_or_zero(tok@),
{
    let v = chars_of(tok);
    assert(v@.subrange(0, v@.len() as int) =~= v@);
    match parse_u64_range(&v, 0, v.len()) {
        Some(x) => x,
        None => 0,
    }
}

/// A column of a data row: it starts with a digit.
pub open spec fn column_ok(t: Seq<char>) -> bool {
    t.len() > 0 && is_digit(t[0])
}

/// The data row of a summary line: the six columns after the first `:`,
/// each starting with a digit.
pub open spec fn line_row(line: Seq<char>) -> Option<Seq<Seq<char>>> {
    let idx = crate::text::index_from(line, ':', 0);
    let toks = words(line.skip(idx + 1));
    if idx < line.len() && toks.len() == 6 && (forall|i: int|
        0 <= i < 6 ==> #[trigger] column_ok(toks[i])) {
        Some(toks)
    } else {
        None
    }
}

/// The data rows among `lines`, in order.
pub open spec fn rows_of(lines: Seq<Seq<char>>) -> Seq<Seq<Seq<char>>>
    decreases lines.len(),
{
    if lines.len() == 0 {
        Seq::<Seq<Seq<char>>>::empty()
    } else {
        match line_row(lines.last()) {
            Some(r) => rows_of(lines.drop_last()).push(r),
            None => rows_of(lines.drop_last()),
        }
    }
}

/// The summary block, read by position: the first data row is directories,
/// the second files, the third bytes; the columns are Total, Copied,
/// Skipped, Mismatch, FAILED, Extras.
pub open spec fn spec_parse_summary(lines: Seq<Seq<char>>, exit_code: i32) -> Option<RobocopySummary> {
    let rows = rows_of(lines);
    if rows.len() < 3 {
        None
    } else {
        Some(
            RobocopySummary {
                exit_code,
                dirs_copied: u64_or_zero(rows[0][1]),
                files_copied: u64_or_zero(rows[1][1]),
                files_failed: u64_or_zero(rows[1][4]),
                files_extra: u64_or_zero(rows[1][5]),
                bytes_copied: spec_parse_size(rows[2][1]),
                bytes_failed: spec_parse_size(rows[2][4]),
            },
        )
    }
}

fn line_row_of(line: &String) -> (r: Option<Vec<Vec<char>>>)
    ensures
        match r {
            Some(t) => line_row(line@) == Some(t@.map_values(|x: Vec<char>| x@)),
            None => line_row(line@) is None,
        },
{
    let v = chars_of(line.as_str());
    let n = v.len();
    let idx = match crate::text::find_char(&v, 0, n, ':') {
        Some(i) => i,
        None => {
            proof {
                crate::text::lemma_index_from(v@, ':', 0, n as int);
            }
            return None;
        },
    };
    proof {
        crate::text::lemma_index_from(v@, ':', 0, idx as int);
    }
    let toks = words_of(&v, idx + 1, n);
    assert(v@.subrange(idx + 1, n as int) =~= v@.skip(idx + 1));
    let ghost tv = toks@.map_values(|x: Vec<char>| x@);
    if toks.len() != 6 {
        return None;
    }
    let mut i: usize = 0;
    while i < 6
        invariant
            i <= 6,
            toks@.len() == 6,
            tv == toks@.map_values(|x: Vec<char>| x@),
            tv == words(line@.skip(idx + 1)),
            idx < line@.len(),
            idx as int == crate::text::index_from(line@, ':', 0),
            forall|k: int| 0 <= k < i ==> #[trigger] column_ok(tv[k]),
        decreases 6 - i,
    {
        assert(tv[i as int] == toks@[i as int]@);
        assert(toks[i as int]@.len() > 0 ==> tv[i as int][0] == toks@[i as int]@[0]);
        if toks[i].len() == 0 || !is_digit_char(toks[i][0]) {
            assert(!column_ok(tv[i as int]));
            return None;
        }
        assert(column_ok(tv[i as int]));
        i += 1;
    }
    assert(line_row(line@) == Some(tv));
    Some(toks)
}

/// In every Windows language, robocopy prints a final block of rows
/// "<Label> :  Total  Copied  Skipped  Mismatch  FAILED  Extras". The label
/// text is localized, so data rows are identified by position instead
/// (1st = Dirs, 2nd = Files, 3rd = Bytes), which is stable across locales.
pub fn parse_summary(tail_lines: &[String], exit_code: i32) -> (r: Option<RobocopySummary>)
    ensures
        r == spec_parse_summary(string_views(tail_lines@), exit_code),
{
    let ghost lines = string_views(tail_lines@);
    let mut rows: Vec<Vec<Vec<char>>> = Vec::new();
    let mut i: usize = 0;
    while i < tail_lines.len()
        invariant
            i <= tail_lines@.len(),
            lines == string_views(tail_lines@),
            rows@.map_values(|r: Vec<Vec<char>>| r@.map_values(|x: Vec<char>| x@)) == rows_of(
                lines.take(i as int),
            ),
            forall|k: int| 0 <= k < rows@.len() ==> (#[trigger] rows@[k])@.len() == 6,
        decreases tail_lines.len() - i,
    {
        let ghost before = rows@.map_values(|r: Vec<Vec<char>>| r@.map_values(|x: Vec<char>| x@));
        assert(lines.take(i + 1).drop_last() =~= lines.take(i as int));
        assert(lines.take(i + 1).last() == tail_lines@[i as int]@);
        match line_row_of(&tail_lines[i]) {
            Some(t) => {
                let ghost tv = t@.map_values(|x: Vec<char>| x@);
                rows.push(t);
                assert(rows@.map_values(|r: Vec<Vec<char>>| r@.map_values(|x: Vec<char>| x@))
                    =~= before.push(tv));
            },
            None => {},
        }
        i += 1;
    }
    assert(lines.take(tail_lines@.len() as int) =~= lines);
    if rows.len() < 3 {
        return None;
    }
    let ghost rv = rows@.map_values(|r: Vec<Vec<char>>| r@.map_values(|x: Vec<char>| x@));
    assert(rv[0][1] == rows@[0]@[1]@);
    assert(rv[1][1] == rows@[1]@[1]@);
    assert(rv[1][4] == rows@[1]@[4]@);
    assert(rv[1][5] == rows@[1]@[5]@);
    assert(rv[2][1] == rows@[2]@[1]@);
    assert(rv[2][4] == rows@[2]@[4]@);
    let dirs_copied = count_of(&rows[0][1]);
    let files_copied = count_of(&rows[1][1]);
    let files_failed = count_of(&rows[1][4]);
    let files_extra = count_of(&rows[1][5]);
    let bytes_copied = parse_size(string_of(&rows[2][1]).as_str());
    let bytes_failed = parse_size(string_of(&rows[2][4]).as_str());
    Some(
        RobocopySummary {
            exit_code,
            dirs_copied,
            files_copied,
            files_failed,
            files_extra,
            bytes_copied,
            bytes_failed,
        },
    )
}

fn count_of(v: &Vec<char>) -> (r: u64)
    ensures
        r == u64_or_zero(v@),
{
    assert(v@.subrange(0, v@.len() as int) =~= v@);
    match parse_u64_range(v, 0, v.len()) {
        Some(x) => x,
        None => 0,
    }
}

/// Total size of the file lines among `lines`.
pub open spec fn file_bytes_sum(lines: Seq<Seq<char>>) -> nat
    decreases lines.len(),
{
    if lines.len() == 0 {
        0
    } else {
        file_bytes_sum(lines.drop_last()) + match file_line(lines.last()) {
            Some((b, _)) => b as nat,
            None => 0,
        }
    }
}

/// Number of file lines among `lines`.
pub open spec fn file_count(lines: Seq<Seq<char>>) -> nat
    decreases lines.len(),
{
    if lines.len() == 0 {
        0
    } else {
        file_count(lines.drop_last()) + if file_line(lines.last()) is Some {
            1nat
        } else {
            0nat
        }
    }
}

/// Number of deletion lines among `lines`.
pub open spec fn extra_count(lines: Seq<Seq<char>>) -> nat
    decreases lines.len(),
{
    if lines.len() == 0 {
        0
    } else {
        extra_count(lines.drop_last()) + if file_line(lines.last()) is None && extra_line(
            lines.last(),
        ) {
            1nat
        } else {
            0nat
        }
    }
}

/// The path of the last file line among `lines` (empty when there is none).
pub open spec fn last_file_path(lines: Seq<Seq<char>>) -> Seq<char>
    decreases lines.len(),
{
    if lines.len() == 0 {
        Seq::<char>::empty()
    } else {
        match file_line(lines.last()) {
            Some((_, p)) => p,
            None => last_file_path(lines.drop_last()),
        }
    }
}

/// The last `n` items of `s` (all of them when there are fewer).
pub open spec fn last_n<T>(s: Seq<T>, n: nat) -> Seq<T> {
    if s.len() <= n {
        s
    } else {
        s.skip(s.len() - n)
    }
}

/// What the list-only pass (`/L`) found the copy will do.
pub struct ScanOutcome {
    pub files_to_copy: u64,
    pub bytes_to_copy: u64,
    pub files_to_delete: u64,
}

/// The counters of a scan, over the output lines read so far.
pub struct ScanTally {
    pub files_to_copy: u64,
    pub bytes_to_copy: u64,
    pub files_to_delete: u64,
    pub seen: Ghost<Seq<Seq<char>>>,
}

impl ScanTally {
    pub open spec fn wf(&self) -> bool {
        &&& self.files_to_copy as nat == file_count(self.seen@)
        &&& self.bytes_to_copy as nat == file_bytes_sum(self.seen@)
        &&& self.files_to_delete as nat == extra_count(self.seen@)
    }

    /// Whether one more line can be counted without overflowing a counter.
    pub open spec fn fits(&self, line: Seq<char>) -> bool {
        match file_line(line) {
            Some((b, _)) => self.files_to_copy < u64::MAX && self.bytes_to_copy + b <= u64::MAX,
            None => extra_line(line) ==> self.files_to_delete < u64::MAX,
        }
    }

    pub fn new() -> (t: Self)
        ensures
            t.wf(),
            t.seen@ == Seq::<Seq<char>>::empty(),
    {
        ScanTally { files_to_copy: 0, bytes_to_copy: 0, files_to_delete: 0, seen: Ghost(Seq::empty()) }
    }

    pub fn can_count(&self, line: &str) -> (b: bool)
        ensures
            b == self.fits(line@),
    {
        match parse_line(line) {
            RcLine::File { bytes, .. } => self.files_to_copy < u64::MAX && bytes <= u64::MAX
                - self.bytes_to_copy,
            RcLine::ExtraDeleted => self.files_to_delete < u64::MAX,
            RcLine::Other(_) => true,
        }
    }

    /// Counts one output line of the scan.
    pub fn count(&mut self, line: &str)
        requires
            old(self).wf(),
            old(self).fits(line@),
        ensures
            final(self).wf(),
            final(self).seen@ == old(self).seen@.push(line@),
    {
        let ghost before = self.seen@;
        let ghost after = before.push(line@);
        assert(after.drop_last() =~= before);
        match parse_line(line) {
            RcLine::File { bytes, .. } => {
                self.files_to_copy = self.files_to_copy + 1;
                self.bytes_to_copy = self.bytes_to_copy + bytes;
            },
            RcLine::ExtraDeleted => {
                self.files_to_delete = self.files_to_delete + 1;
            },
            RcLine::Other(_) => {},
        }
        self.seen = Ghost(after);
    }

    /// The scan's result once robocopy has exited. A code of 8 or more (or no
    /// code at all) means robocopy could not read the source or destination:
    /// without this check an empty scan would be taken as "no changes" and a
    /// scheduled task would report success without copying anything.
    pub fn finish(&self, exit_code: Option<i32>) -> (r: Result<ScanOutcome, String>)
        ensures
            ({
                let code: int = match exit_code {
                    Some(c) => c as int,
                    None => -1,
                };
                match r {
                    Ok(o) => 0 <= code < 8 && o.files_to_copy == self.files_to_copy
                        && o.bytes_to_copy == self.bytes_to_copy && o.files_to_delete
                        == self.files_to_delete,
                    Err(m) => !(0 <= code < 8) && m@ == "robocopy exited with code "@
                        + crate::text::dec_signed(code) + " while scanning"@,
                }
            }),
    {
        let code: i32 = match exit_code {
            Some(c) => c,
            None => -1,
        };
        if !(0 <= code && code < 8) {
            let mut m = str_to_string("robocopy exited with code ");
            push_all(&mut m, &dec_i64(code as i64));
            push_str(&mut m, " while scanning");
            return Err(m);
        }
        Ok(
            ScanOutcome {
                files_to_copy: self.files_to_copy,
                bytes_to_copy: self.bytes_to_copy,
                files_to_delete: self.files_to_delete,
            },
        )
    }
}

/// How many output lines the copy keeps for the summary block at its end.
pub const TAIL_LINES: usize = 80;

/// Progress of a running copy, over the output lines read so far.
pub struct CopyTally {
    pub tail: Vec<String>,
    pub bytes_done: u64,
    pub files_done: u64,
    pub current_file: String,
    pub seen: Ghost<Seq<Seq<char>>>,
}

impl CopyTally {
    pub open spec fn wf(&self) -> bool {
        &&& string_views(self.tail@) == last_n(self.seen@, TAIL_LINES as nat)
        &&& self.bytes_done as nat == file_bytes_sum(self.seen@)
        &&& self.files_done as nat == file_count(self.seen@)
        &&& self.current_file@ == last_file_path(self.seen@)
    }

    pub open spec fn fits(&self, line: Seq<char>) -> bool {
        match file_line(line) {
            Some((b, _)) => self.files_done < u64::MAX && self.bytes_done + b <= u64::MAX,
            None => true,
        }
    }

    pub fn new() -> (t: Self)
        ensures
            t.wf(),
            t.seen@ == Seq::<Seq<char>>::empty(),
    {
        let t = CopyTally {
            tail: Vec::new(),
            bytes_done: 0,
            files_done: 0,
            current_file: String::new(),
            seen: Ghost(Seq::empty()),
        };
        assert(string_views(t.tail@) =~= Seq::<Seq<char>>::empty());
        t
    }

    pub fn can_count(&self, line: &str) -> (b: bool)
        ensures
            b == self.fits(line@),
    {
        match parse_line(line) {
            RcLine::File { bytes, .. } => self.files_done < u64::MAX && bytes <= u64::MAX
                - self.bytes_done,
            _ => true,
        }
    }

    /// Records one output line of the copy: it joins the tail (which keeps
    /// the last `TAIL_LINES` lines), and a file line adds its size and
    /// becomes the current file.
    pub fn count(&mut self, line: String)
        requires
            old(self).wf(),
            old(self).fits(line@),
        ensures
            final(self).wf(),
            final(self).seen@ == old(self).seen@.push(line@),
    {
        let ghost before = self.seen@;
        let ghost after = before.push(line@);
        assert(after.drop_last() =~= before);
        let ghost tail_before = string_views(self.tail@);
        match parse_line(line.as_str()) {
            RcLine::File { bytes, path } => {
                self.bytes_done = self.bytes_done + bytes;
                self.files_done = self.files_done + 1;
                self.current_file = path;
            },
            _ => {},
        }
        self.tail.push(line);
        assert(string_views(self.tail@) =~= tail_before.push(after.last()));
        if self.tail.len() > TAIL_LINES {
            let ghost pushed = string_views(self.tail@);
            let _ = self.tail.remove(0);
            assert(string_views(self.tail@) =~= pushed.drop_first());
            assert(last_n(after, TAIL_LINES as nat) =~= pushed.drop_first());
        } else {
            assert(last_n(after, TAIL_LINES as nat) =~= after);
        }
        self.seen = Ghost(after);
    }

    /// A progress sample at `at_ms`: the totals are those of the scan, or
    /// what has been done when that is more.
    pub fn sample(&self, job_id: &str, at_ms: u64, scan: &ScanOutcome, last: bool) -> (p: ProgressSample)
        ensures
            p.job_id@ == job_id@,
            p.at_ms == at_ms,
            p.bytes_done == self.bytes_done,
            p.files_done == self.files_done,
            p.bytes_total == if scan.bytes_to_copy >= self.bytes_done {
                scan.bytes_to_copy
            } else {
                self.bytes_done
            },
            p.files_total == if scan.files_to_copy >= self.files_done {
                scan.files_to_copy
            } else {
                self.files_done
            },
            last ==> p.current_file@ == Seq::<char>::empty(),
            !last ==> p.current_file@ == self.current_file@,
            p.current_file_bytes_done == 0,
            p.current_file_bytes_total == 0,
    {
        let current_file = if last {
            String::new()
        } else {
            self.current_file.clone()
        };
        ProgressSample {
            job_id: str_to_string(job_id),
            at_ms,
            bytes_done: self.bytes_done,
            bytes_total: if scan.bytes_to_copy >= self.bytes_done {
                scan.bytes_to_copy
            } else {
                self.bytes_done
            },
            files_done: self.files_done,
            files_total: if scan.files_to_copy >= self.files_done {
                scan.files_to_copy
            } else {
                self.files_done
            },
            current_file,
            current_file_bytes_done: 0,
            current_file_bytes_total: 0,
        }
    }
}

/// The log file name of a run started at `stamp`: the first attempt is
/// `backup_<stamp>.log`, later ones add `_<n>`.
pub open spec fn spec_log_name(stamp: Seq<char>, attempt: nat) -> Seq<char> {
    if attempt <= 1 {
        "backup_"@ + stamp + ".log"@
    } else {
        "backup_"@ + stamp + "_"@ + dec(attempt) + ".log"@
    }
}

/// The name of the log file for a run that started at `stamp`, on the given
/// attempt. Two back-to-back jobs (e.g. a scheduled task, or one that fails
/// immediately) can start within the same second; the second one takes the
/// next attempt instead of overwriting the first one's log and history.
pub fn log_file_name(stamp: &str, attempt: u32) -> (r: String)
    ensures
        r@ == spec_log_name(stamp@, attempt as nat),
{
    let mut s = str_to_string("backup_");
    push_str(&mut s, stamp);
    if attempt > 1 {
        push_str(&mut s, "_");
        push_all(&mut s, &dec_u64(attempt as u64));
    }
    push_str(&mut s, ".log");
    s
}

/// The attempt after `attempt`, up to 999; after that the first name is
/// reused.
pub fn next_log_attempt(attempt: u32) -> (r: Option<u32>)
    ensures
        r == if attempt < 999 {
            Some((if attempt < 1 {
                2
            } else {
                attempt + 1
            }) as u32)
        } else {
            None::<u32>
        },
{
    if attempt < 1 {
        Some(2)
    } else if attempt < 999 {
        Some(attempt + 1)
    } else {
        None
    }
}

/// `taken` answered `b` when asked about `name`.
pub open spec fn answered<F: Fn(&str) -> bool>(taken: F, name: Seq<char>, b: bool) -> bool {
    exists|s: &str| s@ == name && #[trigger] taken.ensures((s,), b)
}

/// Picks the log file name of a run that starts at `stamp`: the first
/// attempt's name unless `taken` says it is (a `.log` or a `.json` of that
/// name exists: a run that fails before copying leaves only the `.json`),
/// else the first free one of the next attempts, up to 999; if all are
/// taken, the first name again.
pub fn default_log_name<F: Fn(&str) -> bool>(stamp: &str, taken: &F) -> (r: String)
    requires
        forall|s: &str| taken.requires((s,)),
    ensures
        exists|k: nat|
            1 <= k <= 999 && r@ == spec_log_name(stamp@, k) && (forall|j: nat|
                1 <= j < k ==> #[trigger] answered(*taken, spec_log_name(stamp@, j), true)) && (
            answered(*taken, spec_log_name(stamp@, k), false) || (k == 1 && forall|j: nat|
                1 <= j <= 999 ==> #[trigger] answered(*taken, spec_log_name(stamp@, j), true))),
{
    let first = log_file_name(stamp, 1);
    let t1 = taken(first.as_str());
    assert(answered(*taken, spec_log_name(stamp@, 1), t1));
    if !t1 {
        assert(forall|j: nat| 1 <= j < 1 ==> #[trigger] answered(*taken, spec_log_name(stamp@, j), true));
        return first;
    }
    let mut n: u32 = 2;
    while n <= 999
        invariant
            2 <= n <= 1000,
            first@ == spec_log_name(stamp@, 1),
            forall|s: &str| taken.requires((s,)),
            forall|j: nat| 1 <= j < n ==> #[trigger] answered(*taken, spec_log_name(stamp@, j), true),
        decreases 1000 - n,
    {
        let candidate = log_file_name(stamp, n);
        let t = taken(candidate.as_str());
        assert(answered(*taken, spec_log_name(stamp@, n as nat), t));
        if !t {
            return candidate;
        }
        n += 1;
    }
    assert(forall|j: nat| 1 <= j <= 999 ==> #[trigger] answered(*taken, spec_log_name(stamp@, j), true));
    assert(forall|j: nat| 1 <= j < 1 ==> #[trigger] answered(*taken, spec_log_name(stamp@, j), true));
    first
}

/// Log names of different attempts in the same second never collide.
pub proof fn lemma_log_names_distinct(stamp: Seq<char>, a: nat, b: nat)
    requires
        1 <= a,
        1 <= b,
        a != b,
    ensures
        spec_log_name(stamp, a) != spec_log_name(stamp, b),
{
    reveal_strlit("backup_");
    reveal_strlit(".log");
    reveal_strlit("_");
    let pre = "backup_"@ + stamp;
    let k: int = pre.len() as int;
    crate::text::lemma_dec_digits(a);
    crate::text::lemma_dec_digits(b);
    if a == 1 || b == 1 {
        let n = if a == 1 {
            b
        } else {
            a
        };
        let one = spec_log_name(stamp, 1);
        let other = spec_log_name(stamp, n);
        assert(one[k as int] == '.');
        assert(other[k as int] == '_');
    } else {
        let x = spec_log_name(stamp, a);
        let y = spec_log_name(stamp, b);
        if x == y {
            assert(x.len() == y.len());
            assert(dec(a).len() == dec(b).len());
            assert(x.subrange(k + 1, k + 1 + dec(a).len() as int) =~= dec(a));
            assert(y.subrange(k + 1, k + 1 + dec(b).len() as int) =~= dec(b));
            crate::text::lemma_dec_injective(a, b);
        }
    }
}

} // verus!
