//! The saved jobs (profiles) and where the app keeps its files.
//!
//! The app data folder is `%APPDATA%\NASMirror`, resolved the same way by
//! the window and the unattended mode, so a scheduled run uses exactly the
//! jobs and logs created in the window. Reading and writing the files is
//! the caller's; this module holds the paths, the rules of loading and
//! saving, and the operations on the list of jobs.

use vstd::prelude::*;

use crate::engine::types::{Credentials, Profile};
use crate::text::{ascii_lower, ascii_lower_char, chars_of, is_ascii_alpha, push_str, str_to_string};

verus! {

/// `PathBuf::push` of a plain name on Windows: a `\` goes between the two
/// unless the base is empty, already ends with a separator, or is a bare
/// drive (`C:`).
pub open spec fn path_join(base: Seq<char>, name: Seq<char>) -> Seq<char> {
    if base.len() == 0 || base.last() == '\\' || base.last() == '/' || (base.len() == 2 && base[1]
        == ':' && is_ascii_alpha(base[0])) {
        base + name
    } else {
        base + seq!['\\'] + name
    }
}

pub fn join_path(base: &str, name: &str) -> (r: String)
    ensures
        r@ == path_join(base@, name@),
{
    let b = chars_of(base);
    let n = b.len();
    let plain = n == 0 || b[n - 1] == '\\' || b[n - 1] == '/' || (n == 2 && b[1] == ':' && ((
    'a' <= b[0] && b[0] <= 'z') || ('A' <= b[0] && b[0] <= 'Z')));
    let mut r = str_to_string(base);
    if !plain {
        crate::text::string_push(&mut r, '\\');
    }
    push_str(&mut r, name);
    proof {
        if n > 0 {
            assert(b@.last() == b@[n - 1]);
        }
    }
    r
}

pub open spec fn spec_app_data_dir(appdata: Option<Seq<char>>) -> Seq<char> {
    path_join(
        match appdata {
            Some(a) => a,
            None => "."@,
        },
        "NASMirror"@,
    )
}

/// The app data folder, from the `APPDATA` environment variable (the
/// current folder when it is not set).
pub fn app_data_dir(appdata: Option<&str>) -> (r: String)
    ensures
        r@ == spec_app_data_dir(
            match appdata {
                Some(a) => Some(a@),
                None => None,
            },
        ),
{
    match appdata {
        Some(a) => join_path(a, "NASMirror"),
        None => join_path(".", "NASMirror"),
    }
}

/// Where the run logs (and their history entries) go.
pub fn log_dir(app_data: &str) -> (r: String)
    ensures
        r@ == path_join(app_data@, "logs"@),
{
    join_path(app_data, "logs")
}

pub fn profiles_path(app_data: &str) -> (r: String)
    ensures
        r@ == path_join(app_data@, "profiles.json"@),
{
    join_path(app_data, "profiles.json")
}

/// How the saved jobs are written: into `temp` first, which then replaces
/// `target`, so an interruption leaves the previous file intact.
pub struct SavePlan {
    pub dir: String,
    pub temp: String,
    pub target: String,
}

pub fn save_profiles(app_data: &str) -> (r: SavePlan)
    ensures
        r.dir@ == app_data@,
        r.temp@ == path_join(app_data@, "profiles.json.tmp"@),
        r.target@ == path_join(app_data@, "profiles.json"@),
{
    SavePlan {
        dir: str_to_string(app_data),
        temp: join_path(app_data, "profiles.json.tmp"),
        target: profiles_path(app_data),
    }
}

/// Where a corrupt profiles file is moved: its name carries the time, so an
/// earlier corrupt copy is kept too.
pub fn corrupt_path(app_data: &str, stamp: &str) -> (r: String)
    ensures
        r@ == path_join(app_data@, "profiles.json.corrupt-"@ + stamp@),
{
    let mut name = str_to_string("profiles.json.corrupt-");
    push_str(&mut name, stamp);
    join_path(app_data, name.as_str())
}

/// What reading the profiles file gave.
pub enum ProfilesFile {
    /// There is no file yet.
    Missing,
    /// The file is not UTF-8.
    NotUtf8,
    /// The file exists but cannot be read (held open by another program,
    /// no permission, ...), for this reason.
    Unreadable(String),
    /// Its jobs.
    Parsed(Vec<Profile>),
    /// It is not a valid list of jobs.
    Malformed,
}

/// What to do with it.
pub enum LoadPlan {
    Use(Vec<Profile>),
    /// Move the file aside (see `corrupt_path`), then start with no jobs; if
    /// it cannot be moved, that error stops the load, so the next save
    /// cannot overwrite it.
    SetAside,
    Fail(String),
}

/// The saved jobs. Only a missing file means "no jobs yet": any other read
/// error is returned, because treating it as an empty list would make the
/// next save overwrite every job. A file that is unusable (not UTF-8, or not
/// valid) is set aside rather than overwritten.
pub fn load_profiles(file: ProfilesFile) -> (r: LoadPlan)
    ensures
        match file {
            ProfilesFile::Missing => r matches LoadPlan::Use(v) && v@.len() == 0,
            ProfilesFile::NotUtf8 => r is SetAside,
            ProfilesFile::Unreadable(e) => r == LoadPlan::Fail(e),
            ProfilesFile::Parsed(p) => r == LoadPlan::Use(p),
            ProfilesFile::Malformed => r is SetAside,
        },
{
    match file {
        ProfilesFile::Missing => LoadPlan::Use(Vec::new()),
        ProfilesFile::NotUtf8 => LoadPlan::SetAside,
        ProfilesFile::Unreadable(e) => LoadPlan::Fail(e),
        ProfilesFile::Parsed(p) => LoadPlan::Use(p),
        ProfilesFile::Malformed => LoadPlan::SetAside,
    }
}

/// `q` is `p` with its password (if it has credentials) cleared.
pub open spec fn password_cleared(p: Profile, q: Profile) -> bool {
    match p.credentials {
        Some(c) => q.credentials matches Some(d) && d.user == c.user && d.password@.len() == 0
            && q == Profile { credentials: q.credentials, ..p },
        None => q == p,
    }
}

/// The position of the first job with this id, or the length when there is
/// none.
pub open spec fn index_of_id(ps: Seq<Profile>, id: Seq<char>, from: int) -> int
    decreases ps.len() - from,
{
    if from < 0 || from >= ps.len() {
        ps.len() as int
    } else if ps[from].id@ == id {
        from
    } else {
        index_of_id(ps, id, from + 1)
    }
}

pub proof fn lemma_index_of_id(ps: Seq<Profile>, id: Seq<char>, from: int, i: int)
    requires
        0 <= from <= i <= ps.len(),
        forall|k: int| from <= k < i ==> ps[k].id@ != id,
        i == ps.len() || ps[i].id@ == id,
    ensures
        index_of_id(ps, id, from) == i,
    decreases i - from,
{
    if from < i {
        lemma_index_of_id(ps, id, from + 1, i);
    }
}

/// Saves a job: it replaces the first job with the same id, or is added at
/// the end. Passwords are never persisted: the password of its credentials
/// is cleared here as a safeguard, since the window keeps it only in the
/// request.
pub fn upsert_profile(profiles: Vec<Profile>, profile: Profile) -> (r: Vec<Profile>)
    ensures
        exists|q: Profile|
            password_cleared(profile, q) && q.id == profile.id && r@ == (if index_of_id(
                profiles@,
                profile.id@,
                0,
            ) < profiles@.len() {
                profiles@.update(index_of_id(profiles@, profile.id@, 0), q)
            } else {
                profiles@.push(q)
            }),
{
    let mut profile = profile;
    let ghost p0 = profile;
    let creds = profile.credentials;
    profile.credentials = match creds {
        Some(c) => Some(Credentials { user: c.user, password: String::new() }),
        None => None,
    };
    assert(password_cleared(p0, profile));
    let ghost ps = profiles@;
    let k = position_of_id(&profiles, &profile.id);
    let mut list = profiles;
    let ghost q = profile;
    if k < list.len() {
        list.set(k, profile);
        assert(password_cleared(p0, q) && q.id == p0.id && list@ == ps.update(k as int, q));
    } else {
        list.push(profile);
        assert(password_cleared(p0, q) && q.id == p0.id && list@ == ps.push(q));
    }
    list
}

fn position_of_id(profiles: &Vec<Profile>, id: &String) -> (k: usize)
    ensures
        k == index_of_id(profiles@, id@, 0),
{
    let mut i: usize = 0;
    while i < profiles.len()
        invariant
            i <= profiles@.len(),
            forall|k: int| 0 <= k < i ==> profiles@[k].id@ != id@,
        decreases profiles.len() - i,
    {
        if profiles[i].id == *id {
            proof {
                lemma_index_of_id(profiles@, id@, 0, i as int);
            }
            return i;
        }
        i += 1;
    }
    proof {
        lemma_index_of_id(profiles@, id@, 0, profiles@.len() as int);
    }
    i
}

/// The jobs of `ps` whose id is not `id`, in order.
pub open spec fn without_id(ps: Seq<Profile>, id: Seq<char>) -> Seq<Profile>
    decreases ps.len(),
{
    if ps.len() == 0 {
        Seq::<Profile>::empty()
    } else if ps.last().id@ == id {
        without_id(ps.drop_last(), id)
    } else {
        without_id(ps.drop_last(), id).push(ps.last())
    }
}

/// Deletes every job with this id.
pub fn delete_profile(profiles: Vec<Profile>, id: &str) -> (r: Vec<Profile>)
    ensures
        r@ == without_id(profiles@, id@),
{
    let idv = str_to_string(id);
    let mut rest = profiles;
    let ghost ps = rest@;
    let mut kept: Vec<Profile> = Vec::new();
    let ghost mut taken: Seq<Profile> = Seq::empty();
    while rest.len() > 0
        invariant
            ps == taken + rest@,
            idv@ == id@,
            kept@ == without_id(taken, id@),
        decreases rest.len(),
    {
        let ghost before = rest@;
        let p = rest.remove(0);
        proof {
            let t2 = taken.push(p);
            assert(t2.drop_last() =~= taken);
            assert(before =~= seq![p] + rest@);
            assert(ps =~= t2 + rest@);
            taken = t2;
        }
        if p.id != idv {
            kept.push(p);
        }
    }
    assert(taken =~= ps);
    kept
}

proof fn lemma_without_id_update(ps: Seq<Profile>, k: int, q: Profile, id: Seq<char>)
    requires
        0 <= k < ps.len(),
        ps[k].id@ == id,
        q.id@ == id,
    ensures
        without_id(ps.update(k, q), id) == without_id(ps, id),
    decreases ps.len(),
{
    let us = ps.update(k, q);
    if k == ps.len() - 1 {
        assert(us.drop_last() =~= ps.drop_last());
    } else {
        assert(us.drop_last() =~= ps.drop_last().update(k, q));
        lemma_without_id_update(ps.drop_last(), k, q, id);
    }
}

/// Deleting a job right after saving it leaves the other jobs as they were
/// before the save.
pub proof fn law_delete_undoes_save(ps: Seq<Profile>, q: Profile)
    ensures
        without_id(
            if index_of_id(ps, q.id@, 0) < ps.len() {
                ps.update(index_of_id(ps, q.id@, 0), q)
            } else {
                ps.push(q)
            },
            q.id@,
        ) == without_id(ps, q.id@),
{
    let k = index_of_id(ps, q.id@, 0);
    lemma_index_of_id_found(ps, q.id@, 0);
    if k < ps.len() {
        lemma_without_id_update(ps, k, q, q.id@);
    } else {
        assert(ps.push(q).drop_last() =~= ps);
    }
}

proof fn lemma_index_of_id_found(ps: Seq<Profile>, id: Seq<char>, from: int)
    requires
        0 <= from,
    ensures
        0 <= index_of_id(ps, id, from) <= ps.len(),
        index_of_id(ps, id, from) < ps.len() ==> ps[index_of_id(ps, id, from)].id@ == id,
    decreases ps.len() - from,
{
    if from < ps.len() && ps[from].id@ != id {
        lemma_index_of_id_found(ps, id, from + 1);
    }
}

/// `str::eq_ignore_ascii_case`: equal up to the case of ASCII letters.
pub open spec fn eq_ignore_ascii_case(a: Seq<char>, b: Seq<char>) -> bool {
    a.len() == b.len() && forall|i: int| 0 <= i < a.len() ==> ascii_lower(a[i]) == ascii_lower(b[i])
}

/// Whether a job is the one asked for by id or by name (the name in any
/// ASCII case).
pub open spec fn is_asked(p: Profile, id_or_name: Seq<char>) -> bool {
    p.id@ == id_or_name || eq_ignore_ascii_case(p.name@, id_or_name)
}

fn same_ignoring_ascii_case(a: &str, b: &str) -> (r: bool)
    ensures
        r == eq_ignore_ascii_case(a@, b@),
{
    let av = chars_of(a);
    let bv = chars_of(b);
    if av.len() != bv.len() {
        return false;
    }
    let mut i: usize = 0;
    while i < av.len()
        invariant
            i <= av@.len() == bv@.len(),
            av@ == a@,
            bv@ == b@,
            forall|k: int| 0 <= k < i ==> ascii_lower(av@[k]) == ascii_lower(bv@[k]),
        decreases av.len() - i,
    {
        if ascii_lower_char(av[i]) != ascii_lower_char(bv[i]) {
            assert(ascii_lower(av@[i as int]) != ascii_lower(bv@[i as int]));
            return false;
        }
        i += 1;
    }
    true
}

fn first_asked(profiles: &Vec<Profile>, id_or_name: &str) -> (r: Option<usize>)
    ensures
        match r {
            Some(k) => k < profiles@.len() && is_asked(profiles@[k as int], id_or_name@) && forall|
                j: int,
            | 0 <= j < k ==> !is_asked(#[trigger] profiles@[j], id_or_name@),
            None => forall|j: int|
                0 <= j < profiles@.len() ==> !is_asked(#[trigger] profiles@[j], id_or_name@),
        },
{
    let wanted = str_to_string(id_or_name);
    let mut i: usize = 0;
    while i < profiles.len()
        invariant
            i <= profiles@.len(),
            wanted@ == id_or_name@,
            forall|j: int| 0 <= j < i ==> !is_asked(#[trigger] profiles@[j], id_or_name@),
        decreases profiles.len() - i,
    {
        if profiles[i].id == wanted || same_ignoring_ascii_case(
            profiles[i].name.as_str(),
            id_or_name,
        ) {
            return Some(i);
        }
        i += 1;
    }
    None
}

/// The first job asked for by `id_or_name`: its id, or its name in any
/// ASCII case.
pub fn find_profile(profiles: Vec<Profile>, id_or_name: &str) -> (r: Option<Profile>)
    ensures
        match r {
            Some(p) => exists|k: int|
                0 <= k < profiles@.len() && profiles@[k] == p && is_asked(p, id_or_name@) && forall|
                    j: int,
                | 0 <= j < k ==> !is_asked(#[trigger] profiles@[j], id_or_name@),
            None => forall|j: int|
                0 <= j < profiles@.len() ==> !is_asked(#[trigger] profiles@[j], id_or_name@),
        },
{
    let ghost ps = profiles@;
    match first_asked(&profiles, id_or_name) {
        Some(k) => {
            let mut list = profiles;
            let p = list.remove(k);
            assert(ps[k as int] == p);
            Some(p)
        },
        None => None,
    }
}

} // verus!
