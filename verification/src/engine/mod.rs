pub mod console;
pub mod job;
pub mod netuse;
pub mod restic;
pub mod robocopy;
pub mod types;
pub mod wol;

use std::sync::atomic::AtomicBool;
use std::sync::Arc;

use vstd::prelude::*;

use types::Outcome;

use crate::text::{
    chars_of, copy_range, find_char, has_prefix_at, index_from, is_ascii_alpha, join,
    lemma_index_from, lemma_split_nonempty, push_all, push_str, split, starts_with,
    str_to_string, string_of, string_push, trim, trim_bounds, trim_start,
};

verus! {

#[derive(Debug)]
pub enum PathError {
    SourceMissing(String),
    DestinationEmpty,
    SameSourceAndDestination,
    DestinationInsideSource,
    SourceInsideDestination,
}

pub open spec fn path_error_message(e: PathError) -> Seq<char> {
    match e {
        PathError::SourceMissing(s) => "the source folder does not exist: "@ + s@,
        PathError::DestinationEmpty => "choose a destination folder"@,
        PathError::SameSourceAndDestination => "source and destination are the same folder"@,
        PathError::DestinationInsideSource =>
            "the destination is inside the source folder: that would copy forever"@,
        PathError::SourceInsideDestination =>
            "the source is inside the destination folder: mirror mode would delete it"@,
    }
}

impl PathError {
    /// The message shown to the user.
    pub fn message(&self) -> (m: String)
        ensures
            m@ == path_error_message(*self),
    {
        match self {
            PathError::SourceMissing(s) => {
                let mut m = str_to_string("the source folder does not exist: ");
                push_str(&mut m, s.as_str());
                m
            },
            PathError::DestinationEmpty => str_to_string("choose a destination folder"),
            PathError::SameSourceAndDestination => str_to_string(
                "source and destination are the same folder",
            ),
            PathError::DestinationInsideSource => str_to_string(
                "the destination is inside the source folder: that would copy forever",
            ),
            PathError::SourceInsideDestination => str_to_string(
                "the source is inside the destination folder: mirror mode would delete it",
            ),
        }
    }
}

/// The character sequences held by a vector of character vectors.
pub open spec fn views(v: Seq<Vec<char>>) -> Seq<Seq<char>> {
    v.map_values(|x: Vec<char>| x@)
}

pub open spec fn is_sep(c: char) -> bool {
    c == '\\' || c == '/'
}

pub open spec fn slash_to_backslash(s: Seq<char>) -> Seq<char> {
    s.map_values(|c: char| if c == '/' { '\\' } else { c })
}

/// `str::trim_end_matches(['\\', '/'])`.
pub open spec fn trim_end_seps(s: Seq<char>) -> Seq<char>
    decreases s.len(),
{
    if s.len() > 0 && is_sep(s.last()) {
        trim_end_seps(s.drop_last())
    } else {
        s
    }
}

/// What `str::to_lowercase` returns for a string (Unicode lower case).
pub uninterp spec fn spec_to_lowercase(s: Seq<char>) -> Seq<char>;

/// `str::to_lowercase`, which depends on its argument alone; its result is
/// named by `spec_to_lowercase`.
#[verifier::external_body]
fn to_lowercase(s: &str) -> (r: String)
    ensures
        r@ == spec_to_lowercase(s@),
{
    s.to_lowercase()
}

/// The comparable form of a path: trimmed, without trailing separators,
/// lower case, with `\` as the only separator.
pub open spec fn spec_normalize(p: Seq<char>) -> Seq<char> {
    slash_to_backslash(spec_to_lowercase(trim_end_seps(trim(p))))
}

pub(crate) fn replace_slashes(v: &Vec<char>) -> (r: Vec<char>)
    ensures
        r@ == slash_to_backslash(v@),
{
    let mut out: Vec<char> = Vec::new();
    let mut i: usize = 0;
    while i < v.len()
        invariant
            i <= v@.len(),
            out@ == slash_to_backslash(v@.subrange(0, i as int)),
        decreases v.len() - i,
    {
        let c = if v[i] == '/' {
            '\\'
        } else {
            v[i]
        };
        out.push(c);
        assert(slash_to_backslash(v@.subrange(0, i + 1)) =~= slash_to_backslash(
            v@.subrange(0, i as int),
        ).push(c));
        i += 1;
    }
    assert(v@.subrange(0, v@.len() as int) =~= v@);
    out
}

pub fn normalize(p: &str) -> (r: String)
    ensures
        r@ == spec_normalize(p@),
{
    let v = chars_of(p);
    let (a, b) = trim_bounds(&v, 0, v.len());
    assert(v@.subrange(0, v@.len() as int) =~= v@);
    let mut e = b;
    while e > a && (v[e - 1] == '\\' || v[e - 1] == '/')
        invariant
            a <= e <= b <= v@.len(),
            trim_end_seps(v@.subrange(a as int, e as int)) == trim_end_seps(
                v@.subrange(a as int, b as int),
            ),
        decreases e - a,
    {
        assert(v@.subrange(a as int, e as int).drop_last() =~= v@.subrange(a as int, e - 1));
        e -= 1;
    }
    assert(trim_end_seps(v@.subrange(a as int, e as int)) == v@.subrange(a as int, e as int));
    let trimmed = string_of(&copy_range(&v, a, e));
    let lower = to_lowercase(trimmed.as_str());
    let lv = chars_of(lower.as_str());
    string_of(&replace_slashes(&lv))
}

/// `\\server\share` at the start of a (backslash-only) path: both names
/// non-empty.
pub open spec fn is_unc(raw: Seq<char>) -> bool {
    let e1 = index_from(raw, '\\', 2);
    &&& raw.len() >= 2
    &&& raw[0] == '\\'
    &&& raw[1] == '\\'
    &&& e1 > 2
    &&& e1 < raw.len()
    &&& index_from(raw, '\\', e1 + 1) > e1 + 1
}

pub open spec fn unc_end(raw: Seq<char>) -> int {
    index_from(raw, '\\', index_from(raw, '\\', 2) + 1)
}

/// How the lexical model reads the start of a Windows path: its prefix
/// (`\\server\share` or a drive `X:`), whether it is rooted, and where its
/// components begin.
pub open spec fn lex_root(raw: Seq<char>) -> (Seq<char>, bool, int) {
    if is_unc(raw) {
        (raw.take(unc_end(raw)), true, unc_end(raw))
    } else if raw.len() >= 2 && is_ascii_alpha(raw[0]) && raw[1] == ':' {
        (raw.take(2), raw.len() > 2 && raw[2] == '\\', 2)
    } else {
        (Seq::<char>::empty(), raw.len() > 0 && raw[0] == '\\', 0)
    }
}

/// One component: empty and `.` components vanish, `..` drops the previous
/// one (never past the root), any other name is appended.
pub open spec fn lex_step(acc: Seq<Seq<char>>, seg: Seq<char>) -> Seq<Seq<char>> {
    if seg.len() == 0 || seg == seq!['.'] {
        acc
    } else if seg == seq!['.', '.'] {
        if acc.len() > 0 {
            acc.drop_last()
        } else {
            acc
        }
    } else {
        acc.push(seg)
    }
}

pub open spec fn lex_fold(segs: Seq<Seq<char>>) -> Seq<Seq<char>>
    decreases segs.len(),
{
    if segs.len() == 0 {
        Seq::<Seq<char>>::empty()
    } else {
        lex_step(lex_fold(segs.drop_last()), segs.last())
    }
}

pub open spec fn lex_parts(raw: Seq<char>) -> Seq<Seq<char>> {
    lex_fold(split(raw.skip(lex_root(raw).2), '\\'))
}

pub open spec fn render(prefix: Seq<char>, root: bool, parts: Seq<Seq<char>>) -> Seq<char> {
    prefix + (if root {
        seq!['\\']
    } else {
        Seq::<char>::empty()
    }) + join(parts, seq!['\\'])
}

pub open spec fn lex_raw(path: Seq<char>) -> Seq<char> {
    slash_to_backslash(trim(path))
}

/// `path` with `.` and `..` resolved without touching the disk.
pub open spec fn spec_lexical_normalize(path: Seq<char>) -> Seq<char> {
    let raw = lex_raw(path);
    render(lex_root(raw).0, lex_root(raw).1, lex_parts(raw))
}

/// Reads the prefix of a backslash-only path.
fn root_of(raw: &Vec<char>) -> (r: (usize, bool, usize))
    ensures
        r.0 <= raw@.len(),
        r.2 <= raw@.len(),
        raw@.take(r.0 as int) == lex_root(raw@).0,
        r.1 == lex_root(raw@).1,
        r.2 == lex_root(raw@).2,
{
    let n = raw.len();
    if n >= 2 && raw[0] == '\\' && raw[1] == '\\' {
        let e1 = match find_char(raw, 2, n, '\\') {
            Some(i) => i,
            None => n,
        };
        proof {
            lemma_index_from(raw@, '\\', 2, e1 as int);
        }
        if e1 > 2 && e1 < n {
            let e2 = match find_char(raw, e1 + 1, n, '\\') {
                Some(i) => i,
                None => n,
            };
            proof {
                lemma_index_from(raw@, '\\', e1 + 1, e2 as int);
            }
            if e2 > e1 + 1 {
                return (e2, true, e2);
            }
        }
    }
    if n >= 2 && (('a' <= raw[0] && raw[0] <= 'z') || ('A' <= raw[0] && raw[0] <= 'Z')) && raw[1]
        == ':' {
        return (2, n > 2 && raw[2] == '\\', 2);
    }
    assert(raw@.take(0) =~= Seq::<char>::empty());
    (0, n > 0 && raw[0] == '\\', 0)
}

fn is_dot(v: &Vec<char>) -> (b: bool)
    ensures
        b == (v@ == seq!['.']),
{
    if v.len() == 1 && v[0] == '.' {
        assert(v@ =~= seq!['.']);
        true
    } else {
        false
    }
}

fn is_dot_dot(v: &Vec<char>) -> (b: bool)
    ensures
        b == (v@ == seq!['.', '.']),
{
    if v.len() == 2 && v[0] == '.' && v[1] == '.' {
        assert(v@ =~= seq!['.', '.']);
        true
    } else {
        false
    }
}

fn apply_segment(parts: &mut Vec<Vec<char>>, seg: Vec<char>)
    ensures
        views(final(parts)@) == lex_step(views(old(parts)@), seg@),
{
    let ghost before = views(parts@);
    if seg.len() == 0 || is_dot(&seg) {
    } else if is_dot_dot(&seg) {
        if parts.len() > 0 {
            parts.pop();
            assert(views(parts@) =~= before.drop_last());
        }
    } else {
        let ghost sv = seg@;
        parts.push(seg);
        assert(parts@.last()@ == sv);
        assert(views(parts@) =~= before.push(sv));
    }
}

/// The components of `raw[start..]`, folded by `lex_step`.
fn fold_components(raw: &Vec<char>, start: usize) -> (parts: Vec<Vec<char>>)
    requires
        start <= raw@.len(),
    ensures
        views(parts@) == lex_fold(split(raw@.skip(start as int), '\\')),
{
    let mut parts: Vec<Vec<char>> = Vec::new();
    let mut cur: Vec<char> = Vec::new();
    let mut i = start;
    proof {
        assert(raw@.subrange(start as int, start as int) =~= Seq::<char>::empty());
        assert(views(parts@) =~= Seq::<Seq<char>>::empty());
    }
    while i < raw.len()
        invariant
            start <= i <= raw@.len(),
            split(raw@.subrange(start as int, i as int), '\\').last() == cur@,
            lex_fold(split(raw@.subrange(start as int, i as int), '\\').drop_last())
                == views(parts@),
        decreases raw.len() - i,
    {
        let ghost s = raw@.subrange(start as int, i as int);
        let ghost s2 = raw@.subrange(start as int, i + 1);
        proof {
            assert(s2.drop_last() =~= s);
            assert(s2.last() == raw@[i as int]);
            lemma_split_nonempty(s, '\\');
        }
        if raw[i] == '\\' {
            let seg = cur;
            cur = Vec::new();
            proof {
                assert(split(s2, '\\') == split(s, '\\').push(Seq::<char>::empty()));
                assert(split(s2, '\\').drop_last() =~= split(s, '\\'));
                let sp = split(s, '\\');
                assert(sp.drop_last().push(sp.last()) =~= sp);
                assert(lex_fold(sp) == lex_step(lex_fold(sp.drop_last()), sp.last()));
            }
            apply_segment(&mut parts, seg);
            assert(cur@ =~= Seq::<char>::empty());
        } else {
            cur.push(raw[i]);
            proof {
                let sp = split(s, '\\');
                assert(split(s2, '\\') == sp.update(sp.len() - 1, sp.last().push(raw@[i as int])));
                assert(split(s2, '\\').drop_last() =~= sp.drop_last());
            }
        }
        i += 1;
    }
    proof {
        let s = raw@.subrange(start as int, raw@.len() as int);
        assert(s =~= raw@.skip(start as int));
        lemma_split_nonempty(s, '\\');
        let sp = split(s, '\\');
        assert(sp.drop_last().push(sp.last()) =~= sp);
        assert(lex_fold(sp) == lex_step(lex_fold(sp.drop_last()), sp.last()));
    }
    apply_segment(&mut parts, cur);
    parts
}

/// `render` of a prefix of `parts`.
fn render_string(raw: &Vec<char>, prefix_len: usize, root: bool, parts: &Vec<Vec<char>>, k: usize) -> (s: String)
    requires
        prefix_len <= raw@.len(),
        k <= parts@.len(),
    ensures
        s@ == render(raw@.take(prefix_len as int), root, views(parts@).take(k as int)),
{
    let mut s = string_of(&copy_range(raw, 0, prefix_len));
    assert(raw@.subrange(0, prefix_len as int) =~= raw@.take(prefix_len as int));
    if root {
        string_push(&mut s, '\\');
    }
    let ghost base = s@;
    let mut i: usize = 0;
    while i < k
        invariant
            i <= k <= parts@.len(),
            s@ == base + join(views(parts@).take(i as int), seq!['\\']),
        decreases k - i,
    {
        let ghost dv = views(parts@);
        proof {
            assert(dv.take(i + 1).drop_last() =~= dv.take(i as int));
            assert(dv.take(i + 1).last() == parts@[i as int]@);
        }
        if i > 0 {
            string_push(&mut s, '\\');
        } else {
            assert(dv.take(0) =~= Seq::<Seq<char>>::empty());
        }
        push_all(&mut s, &parts[i]);
        proof {
            if i > 0 {
                assert(s@ =~= base + (join(dv.take(i as int), seq!['\\']) + seq!['\\'] + dv.take(
                    i + 1,
                ).last()));
            } else {
                assert(dv.take(1).len() == 1);
                assert(s@ =~= base + join(dv.take(1), seq!['\\']));
            }
        }
        i += 1;
    }
    proof {
        let p = raw@.take(prefix_len as int);
        let r = if root {
            seq!['\\']
        } else {
            Seq::<char>::empty()
        };
        assert(base =~= p + r);
        assert(s@ =~= p + r + join(views(parts@).take(k as int), seq!['\\']));
    }
    s
}

/// The parts of `path` that the lexical model reads.
fn lex_components(path: &str) -> (r: (Vec<char>, usize, bool, Vec<Vec<char>>))
    ensures
        r.0@ == lex_raw(path@),
        r.1 <= r.0@.len(),
        r.0@.take(r.1 as int) == lex_root(r.0@).0,
        r.2 == lex_root(r.0@).1,
        views(r.3@) == lex_parts(r.0@),
{
    let t = chars_of(path);
    let (a, b) = trim_bounds(&t, 0, t.len());
    assert(t@.subrange(0, t@.len() as int) =~= t@);
    let raw = replace_slashes(&copy_range(&t, a, b));
    let (plen, root, start) = root_of(&raw);
    let parts = fold_components(&raw, start);
    (raw, plen, root, parts)
}

/// Resolves `.` and `..` without touching the disk. A `..` at the root stays
/// at the root instead of escaping it.
///
/// Windows path syntax is read as follows: after trimming and turning `/`
/// into `\`, a path starts with `\\server\share` (rooted), with a drive `X:`
/// (rooted when a `\` follows), or with nothing (rooted when it starts with
/// `\`); the rest is split at `\`, and empty and `.` components are dropped.
pub fn lexical_normalize(path: &str) -> (r: String)
    ensures
        r@ == spec_lexical_normalize(path@),
{
    let (raw, plen, root, parts) = lex_components(path);
    let s = render_string(&raw, plen, root, &parts, parts.len());
    assert(views(parts@).take(parts@.len() as int) =~= views(parts@));
    s
}

/// Strips the verbatim prefix (`\\?\`) that `canonicalize` adds on Windows,
/// so the result is still a regular, comparable path.
pub open spec fn spec_strip_verbatim(s: Seq<char>) -> Seq<char> {
    if starts_with(s, "\\\\?\\UNC\\"@) {
        "\\\\"@ + s.skip("\\\\?\\UNC\\"@.len() as int)
    } else if starts_with(s, "\\\\?\\"@) {
        s.skip("\\\\?\\"@.len() as int)
    } else {
        s
    }
}

fn strip_verbatim(s: &str) -> (r: String)
    ensures
        r@ == spec_strip_verbatim(s@),
{
    let v = chars_of(s);
    let unc = chars_of("\\\\?\\UNC\\");
    let verb = chars_of("\\\\?\\");
    assert(v@.subrange(0, v@.len() as int) =~= v@);
    if has_prefix_at(&v, 0, v.len(), &unc) {
        let mut r = str_to_string("\\\\");
        push_all(&mut r, &copy_range(&v, unc.len(), v.len()));
        assert(v@.subrange(unc@.len() as int, v@.len() as int) =~= v@.skip(unc@.len() as int));
        r
    } else if has_prefix_at(&v, 0, v.len(), &verb) {
        assert(v@.subrange(verb@.len() as int, v@.len() as int) =~= v@.skip(verb@.len() as int));
        string_of(&copy_range(&v, verb.len(), v.len()))
    } else {
        str_to_string(s)
    }
}

/// `PathBuf::push` of a plain component.
pub open spec fn path_push(base: Seq<char>, part: Seq<char>) -> Seq<char> {
    if base.len() == 0 || is_sep(base.last()) {
        base + part
    } else {
        base + seq!['\\'] + part
    }
}

pub open spec fn push_parts(base: Seq<char>, parts: Seq<Seq<char>>) -> Seq<char>
    decreases parts.len(),
{
    if parts.len() == 0 {
        base
    } else {
        path_push(push_parts(base, parts.drop_last()), parts.last())
    }
}

/// The canonicalizer reported no result for `head`.
pub open spec fn canon_fails<F: Fn(&str) -> Option<String>>(f: F, head: Seq<char>) -> bool {
    exists|h: &str| h@ == head && #[trigger] f.ensures((h,), None::<String>)
}

/// The canonicalizer turned `head` into `c`.
pub open spec fn canon_gives<F: Fn(&str) -> Option<String>>(f: F, head: Seq<char>, c: Seq<char>) -> bool {
    exists|h: &str, s: String| h@ == head && s@ == c && #[trigger] f.ensures((h,), Some(s))
}

pub open spec fn lex_head(path: Seq<char>, k: int) -> Seq<char> {
    let raw = lex_raw(path);
    render(lex_root(raw).0, lex_root(raw).1, lex_parts(raw).take(k))
}

/// `out` is a comparable form of `path` that `resolve_for_compare` may give
/// when `f` answers its queries: network paths get lexical normalization
/// only; a local path is canonicalized at its longest prefix that `f`
/// resolves (the rest of its components appended), or kept lexical when no
/// prefix resolves.
pub open spec fn resolved_by<F: Fn(&str) -> Option<String>>(f: F, path: Seq<char>, out: Seq<char>) -> bool {
    let raw = lex_raw(path);
    let parts = lex_parts(raw);
    let lex = spec_lexical_normalize(path);
    if starts_with(lex, seq!['\\', '\\']) {
        out == spec_normalize(lex)
    } else {
        ||| exists|k: int, c: Seq<char>|
            0 <= k <= parts.len() && #[trigger] canon_gives(f, lex_head(path, k), c) && (forall|j: int|
                k < j <= parts.len() ==> #[trigger] canon_fails(f, lex_head(path, j))) && out
                == spec_normalize(push_parts(spec_strip_verbatim(c), parts.skip(k)))
        ||| (forall|j: int| 0 <= j <= parts.len() ==> #[trigger] canon_fails(f, lex_head(path, j)))
            && out == spec_normalize(lex)
    }
}

/// Puts a path in comparable form: resolves `.` and `..`, then canonicalizes
/// the part that already exists on disk, which `canonicalize` reports
/// (resolving symlinks, junctions and 8.3 short names). Without this,
/// `C:\source\sub\..\..\source` would not be recognised as the source itself
/// and would slip past the checks in `validate_paths`.
///
/// Network paths get lexical normalization only: `validate_paths` runs
/// before Wake-on-LAN, and touching a NAS that is still asleep would block
/// until SMB hits its own timeout.
pub fn resolve_for_compare<F: Fn(&str) -> Option<String>>(path: &str, canonicalize: &F) -> (r: String)
    requires
        forall|p: &str| canonicalize.requires((p,)),
    ensures
        resolved_by(*canonicalize, path@, r@),
{
    let (raw, plen, root, parts) = lex_components(path);
    let n = parts.len();
    let lex = render_string(&raw, plen, root, &parts, n);
    assert(views(parts@).take(n as int) =~= views(parts@));
    let lexv = chars_of(lex.as_str());
    let two = chars_of("\\\\");
    proof {
        reveal_strlit("\\\\");
        assert(two@ =~= seq!['\\', '\\']);
        assert(lexv@.subrange(0, lexv@.len() as int) =~= lexv@);
    }
    if has_prefix_at(&lexv, 0, lexv.len(), &two) {
        return normalize(lex.as_str());
    }
    let mut k = n;
    loop
        invariant
            k <= n == parts@.len(),
            raw@ == lex_raw(path@),
            plen <= raw@.len(),
            raw@.take(plen as int) == lex_root(raw@).0,
            root == lex_root(raw@).1,
            views(parts@) == lex_parts(raw@),
            lex@ == spec_lexical_normalize(path@),
            !starts_with(lex@, seq!['\\', '\\']),
            forall|p: &str| canonicalize.requires((p,)),
            forall|j: int| k < j <= n ==> #[trigger] canon_fails(*canonicalize, lex_head(path@, j)),
        ensures
            lex@ == spec_lexical_normalize(path@),
            !starts_with(lex@, seq!['\\', '\\']),
            n == parts@.len(),
            views(parts@) == lex_parts(raw@),
            raw@ == lex_raw(path@),
            forall|j: int| 0 <= j <= n ==> #[trigger] canon_fails(*canonicalize, lex_head(path@, j)),
        decreases k,
    {
        let head = render_string(&raw, plen, root, &parts, k);
        assert(head@ == lex_head(path@, k as int));
        match canonicalize(head.as_str()) {
            Some(c) => {
                assert(canon_gives(*canonicalize, lex_head(path@, k as int), c@));
                let mut out = strip_verbatim(c.as_str());
                let ghost base = out@;
                let ghost tail = views(parts@).skip(k as int);
                let mut m = k;
                while m < n
                    invariant
                        k <= m <= n == parts@.len(),
                        tail == views(parts@).skip(k as int),
                        out@ == push_parts(base, tail.take(m - k)),
                    decreases n - m,
                {
                    let ghost before = out@;
                    let pv = &parts[m];
                    let ov = chars_of(out.as_str());
                    if ov.len() == 0 {
                        push_all(&mut out, pv);
                    } else {
                        let last = ov[ov.len() - 1];
                        if !(last == '\\' || last == '/') {
                            string_push(&mut out, '\\');
                        }
                        push_all(&mut out, pv);
                    }
                    proof {
                        assert(tail.take(m + 1 - k).drop_last() =~= tail.take(m - k));
                        assert(tail.take(m + 1 - k).last() == parts@[m as int]@);
                        assert(out@ =~= path_push(before, parts@[m as int]@));
                    }
                    m += 1;
                }
                assert(tail.take(n - k) =~= tail);
                return normalize(out.as_str());
            },
            None => {
                assert(canon_fails(*canonicalize, lex_head(path@, k as int)));
            },
        }
        if k == 0 {
            break;
        }
        k -= 1;
    }
    normalize(lex.as_str())
}

pub open spec fn spec_is_network_path(path: Seq<char>) -> bool {
    let p = trim_start(path);
    starts_with(p, seq!['\\', '\\']) || starts_with(p, seq!['/', '/'])
}

pub fn is_network_path(path: &str) -> (b: bool)
    ensures
        b == spec_is_network_path(path@),
{
    let v = chars_of(path);
    let mut i: usize = 0;
    assert(v@.subrange(0, v@.len() as int) =~= v@);
    while i < v.len() && crate::text::is_ws_char(v[i])
        invariant
            i <= v@.len(),
            trim_start(v@.subrange(i as int, v@.len() as int)) == trim_start(v@),
        decreases v.len() - i,
    {
        assert(v@.subrange(i as int, v@.len() as int).drop_first() =~= v@.subrange(
            i + 1,
            v@.len() as int,
        ));
        i += 1;
    }
    assert(trim_start(v@.subrange(i as int, v@.len() as int)) == v@.subrange(
        i as int,
        v@.len() as int,
    ));
    let rest = v.len() - i;
    let ghost p = v@.subrange(i as int, v@.len() as int);
    if rest >= 2 {
        assert(p.subrange(0, 2) =~= seq![v@[i as int], v@[i + 1]]);
    }
    rest >= 2 && ((v[i] == '\\' && v[i + 1] == '\\') || (v[i] == '/' && v[i + 1] == '/'))
}

/// `\\host\share` of a UNC path: the first two names after the leading
/// `\\`, both non-empty.
pub open spec fn spec_share_root(path: Seq<char>) -> Option<Seq<char>> {
    let rest = path.skip(2);
    let e1 = index_from(rest, '\\', 0);
    let e2 = index_from(rest, '\\', e1 + 1);
    if !starts_with(path, seq!['\\', '\\']) || e1 >= rest.len() || e1 == 0 || e2 == e1 + 1 {
        None
    } else {
        Some(seq!['\\', '\\'] + rest.take(e1) + seq!['\\'] + rest.subrange(e1 + 1, e2))
    }
}

pub fn share_root(path: &str) -> (r: Option<String>)
    ensures
        match r {
            Some(s) => spec_share_root(path@) == Some(s@),
            None => spec_share_root(path@) is None,
        },
{
    let v = chars_of(path);
    let n = v.len();
    if n < 2 || v[0] != '\\' || v[1] != '\\' {
        proof {
            if n >= 2 {
                assert(v@.subrange(0, 2) =~= seq![v@[0], v@[1]]);
            }
        }
        return None;
    }
    assert(v@.subrange(0, 2) =~= seq!['\\', '\\']);
    let ghost rest = v@.skip(2);
    let e1 = match find_char(&v, 2, n, '\\') {
        Some(i) => i,
        None => n,
    };
    proof {
        assert forall|k: int| 0 <= k < e1 - 2 implies rest[k] != '\\' by {
            assert(rest[k] == v@[k + 2]);
        }
        lemma_index_from(rest, '\\', 0, e1 - 2);
    }
    if e1 >= n || e1 == 2 {
        return None;
    }
    let e2 = match find_char(&v, e1 + 1, n, '\\') {
        Some(i) => i,
        None => n,
    };
    proof {
        assert forall|k: int| e1 - 1 <= k < e2 - 2 implies rest[k] != '\\' by {
            assert(rest[k] == v@[k + 2]);
        }
        lemma_index_from(rest, '\\', e1 - 1, e2 - 2);
    }
    if e2 == e1 + 1 {
        return None;
    }
    let mut s = str_to_string("\\\\");
    proof {
        reveal_strlit("\\\\");
    }
    push_all(&mut s, &copy_range(&v, 2, e1));
    string_push(&mut s, '\\');
    push_all(&mut s, &copy_range(&v, e1 + 1, e2));
    assert(rest.take(e1 - 2) =~= v@.subrange(2, e1 as int));
    assert(rest.subrange(e1 - 1, e2 - 2) =~= v@.subrange(e1 + 1, e2 as int));
    Some(s)
}

/// The result of comparing the comparable forms of source and destination.
pub open spec fn compare_resolved(src_n: Seq<char>, dst_n: Seq<char>) -> Result<(), PathError> {
    if src_n == dst_n {
        Err(PathError::SameSourceAndDestination)
    } else if starts_with(dst_n, src_n + seq!['\\']) {
        Err(PathError::DestinationInsideSource)
    } else if starts_with(src_n, dst_n + seq!['\\']) {
        Err(PathError::SourceInsideDestination)
    } else {
        Ok(())
    }
}

/// Paths that pass the check are apart: the source and the destination are
/// not the same folder, and neither lies inside the other.
pub proof fn law_accepted_paths_are_apart(src_n: Seq<char>, dst_n: Seq<char>)
    requires
        compare_resolved(src_n, dst_n) is Ok,
    ensures
        src_n != dst_n,
        !starts_with(dst_n, src_n + seq!['\\']),
        !starts_with(src_n, dst_n + seq!['\\']),
{
}

/// `a` starts with `b` followed by a backslash.
fn inside(a: &String, b: &String) -> (r: bool)
    ensures
        r == starts_with(a@, b@ + seq!['\\']),
{
    let av = chars_of(a.as_str());
    let mut bv = chars_of(b.as_str());
    let ghost b0 = bv@;
    bv.push('\\');
    assert(bv@ =~= b0 + seq!['\\']);
    assert(av@.subrange(0, av@.len() as int) =~= av@);
    has_prefix_at(&av, 0, av.len(), &bv)
}

/// Sanity checks before starting a potentially destructive copy: identical
/// source and destination, or one folder nested inside the other. If the
/// source lives inside the destination, `/MIR` sees the source folder as an
/// "extra" in the destination and deletes it.
///
/// A network source is not checked for existence here: this runs before
/// Wake-on-LAN and before the share is connected with the job's credentials,
/// so touching it could block on a sleeping NAS or fail for lack of a login.
/// The job checks it once the share is reachable.
///
/// `is_dir` reports whether a local folder exists, and `canonicalize` gives
/// the canonical form of a path that exists on disk (see
/// `resolve_for_compare`).
pub fn validate_paths<D: Fn(&str) -> bool, F: Fn(&str) -> Option<String>>(
    source: &str,
    destination: &str,
    is_dir: &D,
    canonicalize: &F,
) -> (r: Result<(), PathError>)
    requires
        forall|p: &str| is_dir.requires((p,)),
        forall|p: &str| canonicalize.requires((p,)),
    ensures
        r matches Err(PathError::SourceMissing(s)) ==> s@ == source@ && !spec_is_network_path(
            source@,
        ) && is_dir.ensures((source,), false),
        (r matches Err(PathError::SourceMissing(_))) || spec_is_network_path(source@)
            || is_dir.ensures((source,), true),
        !(r matches Err(PathError::SourceMissing(_))) ==> ((r matches Err(
            PathError::DestinationEmpty,
        )) <==> trim(destination@).len() == 0),
        !(r matches Err(PathError::SourceMissing(_))) && trim(destination@).len() > 0 ==> exists|
            sn: Seq<char>,
            dn: Seq<char>,
        |
            resolved_by(*canonicalize, source@, sn) && resolved_by(*canonicalize, destination@, dn)
                && r == compare_resolved(sn, dn),
{
    if !is_network_path(source) && !is_dir(source) {
        return Err(PathError::SourceMissing(str_to_string(source)));
    }
    if crate::text::trim_chars(destination).len() == 0 {
        return Err(PathError::DestinationEmpty);
    }
    let src_n = resolve_for_compare(source, canonicalize);
    let dst_n = resolve_for_compare(destination, canonicalize);
    let r = if src_n == dst_n {
        Err(PathError::SameSourceAndDestination)
    } else if inside(&dst_n, &src_n) {
        Err(PathError::DestinationInsideSource)
    } else if inside(&src_n, &dst_n) {
        Err(PathError::SourceInsideDestination)
    } else {
        Ok(())
    };
    assert(r == compare_resolved(src_n@, dst_n@));
    r
}

/// Robocopy exit codes are a bitmask: 0 = nothing to do, 1 = files copied,
/// 2 = extra files detected, 4 = mismatches, 8 = some copies failed,
/// 16 = fatal error. Bits 8 and 16 are real failures.
pub open spec fn spec_classify_exit_code(code: i32) -> Outcome {
    if code & 16 != 0 || code & 8 != 0 {
        Outcome::Failed
    } else if code & 4 != 0 {
        Outcome::SuccessWithMismatches
    } else {
        Outcome::Success
    }
}

/// How robocopy's exit bits decide a copy's outcome: a failure bit (8 or 16)
/// makes it a failure whatever else is set; without one, the mismatch bit (4)
/// makes it a success with mismatches; and the informational bits (1: files
/// copied, 2: extra files) never change the outcome.
pub proof fn law_failure_bits_decide_the_copy(code: i32)
    ensures
        code & 8 != 0 || code & 16 != 0 ==> spec_classify_exit_code(code) == Outcome::Failed,
        code & 8 == 0 && code & 16 == 0 && code & 4 != 0 ==> spec_classify_exit_code(code)
            == Outcome::SuccessWithMismatches,
        code & 8 == 0 && code & 16 == 0 && code & 4 == 0 ==> spec_classify_exit_code(code)
            == Outcome::Success,
        spec_classify_exit_code(code | 3) == spec_classify_exit_code(code),
        spec_classify_exit_code(code & !3) == spec_classify_exit_code(code),
{
    assert((code | 3) & 16 == code & 16 && (code | 3) & 8 == code & 8 && (code | 3) & 4 == code
        & 4) by (bit_vector);
    assert((code & !3) & 16 == code & 16 && (code & !3) & 8 == code & 8 && (code & !3) & 4 == code
        & 4) by (bit_vector);
}

pub fn classify_exit_code(code: i32) -> (r: Outcome)
    ensures
        r == spec_classify_exit_code(code),
{
    if code & 16 != 0 || code & 8 != 0 {
        Outcome::Failed
    } else if code & 4 != 0 {
        Outcome::SuccessWithMismatches
    } else {
        Outcome::Success
    }
}

pub struct JobContext {
    pub job_id: String,
    pub cancel: Arc<AtomicBool>,
}

impl JobContext {
    /// A context for a new job, not cancelled.
    pub fn new(job_id: String) -> (r: Self)
        ensures
            r.job_id == job_id,
    {
        JobContext { job_id, cancel: Arc::new(AtomicBool::new(false)) }
    }
}

} // verus!
