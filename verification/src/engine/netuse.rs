//! Connecting SMB shares (`\\server\share`) with a user name and password.
//!
//! The connection itself goes through `WNetAddConnection2W`, which is
//! synchronous, never prompts, and returns the actual result of the attempt
//! as a Win32 error code. This module decides what to do with those codes:
//! when to retry, which existing connections may be closed first, and how a
//! failure is explained.

use vstd::prelude::*;

use crate::text::{
    chars_of, copy_range, dec, dec_u64, find_char, index_from, join, lemma_index_from, push_all,
    push_str, starts_with, str_to_string, string_of, string_push,
};

verus! {

/// A session with the server already exists using different credentials.
pub const ERROR_SESSION_CREDENTIAL_CONFLICT: u32 = 1219;

#[derive(Debug)]
pub enum NetUseError {
    Connect { share: String, code: u32 },
    MappedDriveConflict { server: String, drives: String },
}

/// The plain-language explanation of the most common network error codes.
pub open spec fn code_hint(code: u32) -> Option<Seq<char>> {
    if code == 53 {
        Some("network path not found (is the server name right, and the machine on?)"@)
    } else if code == 67 {
        Some("that shared folder does not exist on the server"@)
    } else if code == 86 || code == 1326 {
        Some("wrong user name or password"@)
    } else if code == 1219 {
        Some("Windows already has a session with that server under a different user"@)
    } else if code == 1244 || code == 5 {
        Some("access denied for that user"@)
    } else if code == 1231 || code == 1232 {
        Some("the server is not reachable on the network"@)
    } else {
        None
    }
}

pub open spec fn spec_describe_code(code: u32) -> Seq<char> {
    match code_hint(code) {
        Some(h) => h + " (code "@ + dec(code as nat) + ")"@,
        None => "network error "@ + dec(code as nat),
    }
}

pub open spec fn net_use_error_message(e: NetUseError) -> Seq<char> {
    match e {
        NetUseError::Connect { share, code } => "could not connect to "@ + share@ + ": "@
            + spec_describe_code(code),
        NetUseError::MappedDriveConflict { server, drives } => server@
            + " is already connected as a different user through "@ + drives@
            + ". Disconnect those network drives, or use the same user in this job"@,
    }
}

fn hint_text(code: u32) -> (r: Option<&'static str>)
    ensures
        match r {
            Some(h) => code_hint(code) == Some(h@),
            None => code_hint(code) is None,
        },
{
    if code == 53 {
        Some("network path not found (is the server name right, and the machine on?)")
    } else if code == 67 {
        Some("that shared folder does not exist on the server")
    } else if code == 86 || code == 1326 {
        Some("wrong user name or password")
    } else if code == 1219 {
        Some("Windows already has a session with that server under a different user")
    } else if code == 1244 || code == 5 {
        Some("access denied for that user")
    } else if code == 1231 || code == 1232 {
        Some("the server is not reachable on the network")
    } else {
        None
    }
}

/// Turns the most common network error codes into an actionable message.
pub fn describe_code(code: u32) -> (s: String)
    ensures
        s@ == spec_describe_code(code),
{
    match hint_text(code) {
        Some(h) => {
            let mut s = str_to_string(h);
            push_str(&mut s, " (code ");
            push_all(&mut s, &dec_u64(code as u64));
            push_str(&mut s, ")");
            s
        },
        None => {
            let mut s = str_to_string("network error ");
            push_all(&mut s, &dec_u64(code as u64));
            s
        },
    }
}

impl NetUseError {
    /// The message shown to the user.
    pub fn message(&self) -> (m: String)
        ensures
            m@ == net_use_error_message(*self),
    {
        match self {
            NetUseError::Connect { share, code } => {
                let mut m = str_to_string("could not connect to ");
                push_str(&mut m, share.as_str());
                push_str(&mut m, ": ");
                let d = describe_code(*code);
                push_str(&mut m, d.as_str());
                m
            },
            NetUseError::MappedDriveConflict { server, drives } => {
                let mut m = str_to_string(server.as_str());
                push_str(&mut m, " is already connected as a different user through ");
                push_str(&mut m, drives.as_str());
                push_str(
                    &mut m,
                    ". Disconnect those network drives, or use the same user in this job",
                );
                m
            },
        }
    }
}

/// `s` without its leading backslashes.
pub open spec fn skip_backslashes(s: Seq<char>) -> Seq<char>
    decreases s.len(),
{
    if s.len() > 0 && s[0] == '\\' {
        skip_backslashes(s.drop_first())
    } else {
        s
    }
}

/// `\\SERVER\share` -> `\\SERVER`: the first name after the leading
/// backslashes, when there is one.
pub open spec fn spec_server_root(share: Seq<char>) -> Option<Seq<char>> {
    let t = skip_backslashes(share);
    let e = index_from(t, '\\', 0);
    if e == 0 {
        None
    } else {
        Some(seq!['\\', '\\'] + t.take(e))
    }
}

/// Windows allows only one set of credentials per SMB server: if a session
/// with a different user already exists (to any share on that server),
/// connecting fails with error 1219. This is the server part of a share.
pub fn server_root(share: &str) -> (r: Option<String>)
    ensures
        match r {
            Some(s) => spec_server_root(share@) == Some(s@),
            None => spec_server_root(share@) is None,
        },
{
    let v = chars_of(share);
    let n = v.len();
    let mut i: usize = 0;
    assert(v@.subrange(0, n as int) =~= v@);
    while i < n && v[i] == '\\'
        invariant
            i <= n == v@.len(),
            skip_backslashes(v@.subrange(i as int, n as int)) == skip_backslashes(v@),
        decreases n - i,
    {
        assert(v@.subrange(i as int, n as int).drop_first() =~= v@.subrange(i + 1, n as int));
        i += 1;
    }
    let ghost t = v@.subrange(i as int, n as int);
    assert(skip_backslashes(t) == t);
    let e = match find_char(&v, i, n, '\\') {
        Some(k) => k,
        None => n,
    };
    proof {
        assert forall|k: int| 0 <= k < e - i implies t[k] != '\\' by {
            assert(t[k] == v@[k + i]);
        }
        lemma_index_from(t, '\\', 0, e - i);
    }
    if e == i {
        return None;
    }
    let mut s = str_to_string("\\\\");
    proof {
        reveal_strlit("\\\\");
    }
    push_all(&mut s, &copy_range(&v, i, e));
    assert(t.take(e - i) =~= v@.subrange(i as int, e as int));
    Some(s)
}

/// The UTF-16 code units of one character.
pub open spec fn utf16_of(c: char) -> Seq<u16> {
    let u = c as u32;
    if u < 0x10000 {
        seq![u as u16]
    } else {
        seq![(0xD800 + (u - 0x10000) / 1024) as u16, (0xDC00 + (u - 0x10000) % 1024) as u16]
    }
}

/// The UTF-16 encoding of a character sequence.
pub open spec fn utf16(s: Seq<char>) -> Seq<u16>
    decreases s.len(),
{
    if s.len() == 0 {
        Seq::<u16>::empty()
    } else {
        utf16(s.drop_last()) + utf16_of(s.last())
    }
}

/// A string as the Win32 API takes it: UTF-16, terminated by a zero.
pub fn to_wide(s: &str) -> (w: Vec<u16>)
    ensures
        w@ == utf16(s@).push(0u16),
{
    let v = chars_of(s);
    let mut w: Vec<u16> = Vec::new();
    let mut i: usize = 0;
    while i < v.len()
        invariant
            i <= v@.len(),
            w@ == utf16(v@.take(i as int)),
        decreases v.len() - i,
    {
        assert(v@.take(i + 1).drop_last() =~= v@.take(i as int));
        let u = v[i] as u32;
        if u < 0x10000 {
            w.push(u as u16);
        } else {
            let x = u - 0x10000;
            w.push((0xD800 + x / 1024) as u16);
            w.push((0xDC00 + x % 1024) as u16);
        }
        assert(w@ =~= utf16(v@.take(i + 1)));
        i += 1;
    }
    assert(v@.take(v@.len() as int) =~= v@);
    w.push(0);
    w
}

/// What `str::to_uppercase` returns for a string (Unicode upper case).
pub uninterp spec fn spec_to_uppercase(s: Seq<char>) -> Seq<char>;

/// `str::to_uppercase`, which depends on its argument alone; its result is
/// named by `spec_to_uppercase`.
#[verifier::external_body]
fn to_uppercase(s: &str) -> (r: String)
    ensures
        r@ == spec_to_uppercase(s@),
{
    s.to_uppercase()
}

/// An open connection to an SMB resource, as Windows lists them.
pub struct ExistingConnection {
    pub remote: String,
    /// Drive letter (`Z:`) for a mapped network drive; empty for a
    /// connection without a drive letter (a folder opened in Explorer, a
    /// previous run, ...).
    pub local: String,
}

/// Whether a remote name lies on `server` (both compared in upper case): the
/// server itself or something below it.
pub open spec fn on_server(remote: Seq<char>, server: Seq<char>) -> bool {
    let r = spec_to_uppercase(remote);
    let s = spec_to_uppercase(server);
    r == s || starts_with(r, s + seq!['\\'])
}

/// The connections of `conns` whose remote name lies on `server`, in order.
pub open spec fn conns_on_server(conns: Seq<ExistingConnection>, server: Seq<char>) -> Seq<
    ExistingConnection,
>
    decreases conns.len(),
{
    if conns.len() == 0 {
        Seq::<ExistingConnection>::empty()
    } else if on_server(conns.last().remote@, server) {
        conns_on_server(conns.drop_last(), server).push(conns.last())
    } else {
        conns_on_server(conns.drop_last(), server)
    }
}

/// The connections of `all` to the same server as `share`, in order.
pub open spec fn spec_server_connections(share: Seq<char>, all: Seq<ExistingConnection>) -> Seq<
    ExistingConnection,
> {
    match spec_server_root(share) {
        Some(server) => conns_on_server(all, server),
        None => Seq::<ExistingConnection>::empty(),
    }
}

fn copy_connection(c: &ExistingConnection) -> (r: ExistingConnection)
    ensures
        r == *c,
{
    ExistingConnection { remote: c.remote.clone(), local: c.local.clone() }
}

/// Keeps, of the open connections `all`, those to the same server as
/// `share`.
pub fn server_connections(share: &str, all: &Vec<ExistingConnection>) -> (r: Vec<ExistingConnection>)
    ensures
        r@ == spec_server_connections(share@, all@),
{
    let server = match server_root(share) {
        Some(s) => s,
        None => return Vec::new(),
    };
    let server_upper = to_uppercase(server.as_str());
    let mut prefix = server_upper.clone();
    string_push(&mut prefix, '\\');
    let sv = chars_of(server_upper.as_str());
    let pv = chars_of(prefix.as_str());
    let mut found: Vec<ExistingConnection> = Vec::new();
    let mut i: usize = 0;
    while i < all.len()
        invariant
            i <= all@.len(),
            spec_server_root(share@) == Some(server@),
            sv@ == spec_to_uppercase(server@),
            pv@ == spec_to_uppercase(server@) + seq!['\\'],
            found@ == conns_on_server(all@.take(i as int), server@),
        decreases all.len() - i,
    {
        assert(all@.take(i + 1).drop_last() =~= all@.take(i as int));
        let ru = to_uppercase(all[i].remote.as_str());
        let rv = chars_of(ru.as_str());
        assert(rv@.subrange(0, rv@.len() as int) =~= rv@);
        if crate::text::chars_eq(&rv, &sv) || crate::text::has_prefix_at(&rv, 0, rv.len(), &pv) {
            found.push(copy_connection(&all[i]));
        }
        i += 1;
    }
    assert(all@.take(all@.len() as int) =~= all@);
    found
}

/// The remote names of the connections without a drive letter: the only
/// ones that may be closed to make room for the job's credentials.
pub open spec fn transient_remotes(conns: Seq<ExistingConnection>) -> Seq<Seq<char>>
    decreases conns.len(),
{
    if conns.len() == 0 {
        Seq::<Seq<char>>::empty()
    } else if conns.last().local@.len() == 0 {
        transient_remotes(conns.drop_last()).push(conns.last().remote@)
    } else {
        transient_remotes(conns.drop_last())
    }
}

/// The user's mapped network drives are never disconnected: every
/// connection that may be closed is one without a drive letter.
pub proof fn law_mapped_drives_are_never_closed(conns: Seq<ExistingConnection>, i: int)
    requires
        0 <= i < transient_remotes(conns).len(),
    ensures
        exists|j: int|
            0 <= j < conns.len() && conns[j].local@.len() == 0 && #[trigger] conns[j].remote@
                == transient_remotes(conns)[i],
    decreases conns.len(),
{
    let prev = transient_remotes(conns.drop_last());
    if conns.last().local@.len() == 0 && i == prev.len() {
        assert(conns[conns.len() - 1].remote@ == transient_remotes(conns)[i]);
    } else {
        law_mapped_drives_are_never_closed(conns.drop_last(), i);
        let j = choose|j: int|
            0 <= j < conns.drop_last().len() && conns.drop_last()[j].local@.len() == 0
                && #[trigger] conns.drop_last()[j].remote@ == prev[i];
        assert(conns[j] == conns.drop_last()[j]);
    }
}

/// `Z: (\\server\share)` for each mapped network drive among `conns`.
pub open spec fn mapped_labels(conns: Seq<ExistingConnection>) -> Seq<Seq<char>>
    decreases conns.len(),
{
    if conns.len() == 0 {
        Seq::<Seq<char>>::empty()
    } else if conns.last().local@.len() > 0 {
        mapped_labels(conns.drop_last()).push(
            conns.last().local@ + " ("@ + conns.last().remote@ + ")"@,
        )
    } else {
        mapped_labels(conns.drop_last())
    }
}

/// The connections that may be closed before retrying: those without a
/// drive letter. Mapped network drives are never among them.
pub fn closable(conns: &Vec<ExistingConnection>) -> (r: Vec<String>)
    ensures
        crate::text::string_views(r@) == transient_remotes(conns@),
{
    let mut out: Vec<String> = Vec::new();
    let mut i: usize = 0;
    while i < conns.len()
        invariant
            i <= conns@.len(),
            crate::text::string_views(out@) == transient_remotes(conns@.take(i as int)),
        decreases conns.len() - i,
    {
        assert(conns@.take(i + 1).drop_last() =~= conns@.take(i as int));
        if conns[i].local.as_str().is_empty() {
            out.push(conns[i].remote.clone());
        }
        assert(crate::text::string_views(out@) =~= transient_remotes(conns@.take(i + 1)));
        i += 1;
    }
    assert(conns@.take(conns@.len() as int) =~= conns@);
    out
}

fn mapped_drives(conns: &Vec<ExistingConnection>) -> (r: Vec<String>)
    ensures
        crate::text::string_views(r@) == mapped_labels(conns@),
{
    let mut out: Vec<String> = Vec::new();
    let mut i: usize = 0;
    while i < conns.len()
        invariant
            i <= conns@.len(),
            crate::text::string_views(out@) == mapped_labels(conns@.take(i as int)),
        decreases conns.len() - i,
    {
        assert(conns@.take(i + 1).drop_last() =~= conns@.take(i as int));
        if !conns[i].local.as_str().is_empty() {
            let mut label = conns[i].local.clone();
            push_str(&mut label, " (");
            push_str(&mut label, conns[i].remote.as_str());
            push_str(&mut label, ")");
            out.push(label);
        }
        assert(crate::text::string_views(out@) =~= mapped_labels(conns@.take(i + 1)));
        i += 1;
    }
    assert(conns@.take(conns@.len() as int) =~= conns@);
    out
}

fn join_strings(parts: &Vec<String>, sep: &str) -> (r: String)
    ensures
        r@ == join(crate::text::string_views(parts@), sep@),
{
    let mut r = String::new();
    let mut i: usize = 0;
    while i < parts.len()
        invariant
            i <= parts@.len(),
            r@ == join(crate::text::string_views(parts@.take(i as int)), sep@),
        decreases parts.len() - i,
    {
        let ghost before = crate::text::string_views(parts@.take(i as int));
        let ghost after = crate::text::string_views(parts@.take(i + 1));
        assert(after.drop_last() =~= before);
        if i > 0 {
            push_str(&mut r, sep);
        }
        push_str(&mut r, parts[i].as_str());
        proof {
            if i == 0 {
                assert(after =~= seq![parts@[0]@]);
                assert(r@ =~= after[0]);
            } else {
                assert(r@ =~= join(before, sep@) + sep@ + after.last());
            }
        }
        i += 1;
    }
    assert(parts@.take(parts@.len() as int) =~= parts@);
    r
}

/// The server named in a credential conflict: the share's server, or the
/// share itself when it names none.
pub open spec fn server_label(share: Seq<char>) -> Seq<char> {
    match spec_server_root(share) {
        Some(s) => s,
        None => share,
    }
}

/// What the second attempt gives, made after closing the connections
/// without a drive letter: if the conflict remains and mapped network drives
/// cause it, the error names them.
pub open spec fn retry_outcome(
    share: Seq<char>,
    code: u32,
    existing: Seq<ExistingConnection>,
    r: Result<(), NetUseError>,
) -> bool {
    if code == ERROR_SESSION_CREDENTIAL_CONFLICT && mapped_labels(existing).len() > 0 {
        r matches Err(NetUseError::MappedDriveConflict { server, drives }) && server@
            == server_label(share) && drives@ == join(mapped_labels(existing), ", "@)
    } else {
        first_outcome(share, code, r)
    }
}

/// What an attempt that ends the connection gives: success on code 0, else
/// the error with its code.
pub open spec fn first_outcome(share: Seq<char>, code: u32, r: Result<(), NetUseError>) -> bool {
    if code == 0 {
        r is Ok
    } else {
        r matches Err(NetUseError::Connect { share: s, code: c }) && s@ == share && c == code
    }
}

/// The result of the second attempt.
pub fn retry_result(share: &str, code: u32, existing: &Vec<ExistingConnection>) -> (r: Result<
    (),
    NetUseError,
>)
    ensures
        retry_outcome(share@, code, existing@, r),
{
    let mapped = mapped_drives(existing);
    if code == ERROR_SESSION_CREDENTIAL_CONFLICT && mapped.len() > 0 {
        let server = match server_root(share) {
            Some(s) => s,
            None => str_to_string(share),
        };
        return Err(
            NetUseError::MappedDriveConflict { server, drives: join_strings(&mapped, ", ") },
        );
    }
    if code != 0 {
        return Err(NetUseError::Connect { share: str_to_string(share), code });
    }
    Ok(())
}

/// Where a connection is.
#[derive(Debug, Clone, Copy, PartialEq, Eq, Structural)]
pub enum ConnectStage {
    Clearing,
    FirstAttempt,
    Listing,
    Closing,
    Retrying,
    Done,
}

/// The next thing to do while connecting a share.
pub enum NetAction {
    /// Drop this connection (`WNetCancelConnection2W`, its result ignored:
    /// having nothing connected is not an error).
    Disconnect(String),
    /// Make the connection (`WNetAddConnection2W`) and report its Win32 code.
    Add { share: String, user: String, password: String },
    /// List the open disk connections (`WNetOpenEnumW`).
    List,
    Done(Result<(), NetUseError>),
}

/// What the action that was asked for reported.
pub enum NetReport {
    Disconnected,
    Added(u32),
    Listed(Vec<ExistingConnection>),
}

/// A connection under way.
pub struct Connector {
    pub share: String,
    pub user: String,
    pub password: String,
    pub stage: ConnectStage,
    /// The connections to the share's server, once listed.
    pub existing: Vec<ExistingConnection>,
    /// Those of them that may be closed: the ones without a drive letter.
    pub closing: Vec<String>,
    /// How many of those have been closed.
    pub closed: usize,
}

impl Connector {
    pub open spec fn wf(self) -> bool {
        &&& (self.stage == ConnectStage::Closing || self.stage == ConnectStage::Retrying) ==> (
        crate::text::string_views(self.closing@) == transient_remotes(self.existing@)
            && self.closed <= self.closing@.len())
        &&& self.stage == ConnectStage::Retrying ==> self.closed == self.closing@.len()
    }
}

pub open spec fn add_action(c: Connector) -> NetAction {
    NetAction::Add { share: c.share, user: c.user, password: c.password }
}

/// Which report each stage waits for.
pub open spec fn connect_expects(stage: ConnectStage, r: NetReport) -> bool {
    match r {
        NetReport::Disconnected => stage == ConnectStage::Clearing || stage == ConnectStage::Closing,
        NetReport::Added(_) => stage == ConnectStage::FirstAttempt || stage
            == ConnectStage::Retrying,
        NetReport::Listed(_) => stage == ConnectStage::Listing,
    }
}

/// The step a connection takes on each report.
pub open spec fn connect_follows(c: Connector, r: NetReport, next: Connector, act: NetAction) -> bool {
    match r {
        NetReport::Disconnected => if c.stage == ConnectStage::Clearing {
            next == Connector { stage: ConnectStage::FirstAttempt, ..c } && act == add_action(c)
        } else if c.closed < c.closing@.len() {
            next == Connector { closed: (c.closed + 1) as usize, ..c } && act
                == NetAction::Disconnect(c.closing@[c.closed as int])
        } else {
            next == Connector { stage: ConnectStage::Retrying, ..c } && act == add_action(c)
        },
        NetReport::Added(code) => if c.stage == ConnectStage::FirstAttempt
            && code == ERROR_SESSION_CREDENTIAL_CONFLICT {
            next == Connector { stage: ConnectStage::Listing, ..c } && act == NetAction::List
        } else {
            &&& next == Connector { stage: ConnectStage::Done, ..c }
            &&& act is Done
            &&& if c.stage == ConnectStage::FirstAttempt {
                first_outcome(c.share@, code, act->Done_0)
            } else {
                retry_outcome(c.share@, code, c.existing@, act->Done_0)
            }
        },
        NetReport::Listed(all) => {
            &&& next.share == c.share
            &&& next.user == c.user
            &&& next.password == c.password
            &&& next.existing@ == spec_server_connections(c.share@, all@)
            &&& crate::text::string_views(next.closing@) == transient_remotes(next.existing@)
            &&& if next.closing@.len() > 0 {
                next.stage == ConnectStage::Closing && next.closed == 1 && act
                    == NetAction::Disconnect(next.closing@[0])
            } else {
                next.stage == ConnectStage::Retrying && next.closed == 0 && act == add_action(
                    next,
                )
            }
        },
    }
}

/// Starts connecting `share` with the given credentials, never prompting.
/// Any existing connection to the share is dropped first. On failure the
/// error carries the Win32 code so it can be explained (bad credentials,
/// missing share, server offline, ...).
///
/// If Windows already has a session with the server under another user
/// (error 1219), the connections to that server are listed, only those
/// WITHOUT a drive letter (transient ones: Explorer, previous runs) are
/// closed, and the connection is retried once. The user's mapped network
/// drives are never disconnected: if they cause the conflict, the error
/// names them.
pub fn connect(share: &str, user: &str, password: &str) -> (r: (Connector, NetAction))
    ensures
        r.0.share@ == share@,
        r.0.user@ == user@,
        r.0.password@ == password@,
        r.0.stage == ConnectStage::Clearing,
        r.0.existing@.len() == 0,
        r.0.closing@.len() == 0,
        r.0.closed == 0,
        r.0.wf(),
        r.1 == NetAction::Disconnect(r.0.share),
{
    let c = Connector {
        share: str_to_string(share),
        user: str_to_string(user),
        password: str_to_string(password),
        stage: ConnectStage::Clearing,
        existing: Vec::new(),
        closing: Vec::new(),
        closed: 0,
    };
    let act = NetAction::Disconnect(c.share.clone());
    (c, act)
}

impl Connector {
    fn add(&self) -> (act: NetAction)
        ensures
            act == add_action(*self),
    {
        NetAction::Add {
            share: self.share.clone(),
            user: self.user.clone(),
            password: self.password.clone(),
        }
    }

    /// Whether `r` is the report this connection waits for.
    pub fn accepts(&self, r: &NetReport) -> (b: bool)
        ensures
            b == connect_expects(self.stage, *r),
    {
        match r {
            NetReport::Disconnected => self.stage == ConnectStage::Clearing || self.stage
                == ConnectStage::Closing,
            NetReport::Added(_) => self.stage == ConnectStage::FirstAttempt || self.stage
                == ConnectStage::Retrying,
            NetReport::Listed(_) => self.stage == ConnectStage::Listing,
        }
    }

    /// Takes the report of the action that was asked for and names the next
    /// one.
    pub fn step(&mut self, r: NetReport) -> (act: NetAction)
        requires
            old(self).wf(),
            connect_expects(old(self).stage, r),
        ensures
            connect_follows(*old(self), r, *final(self), act),
            final(self).wf(),
    {
        match r {
            NetReport::Disconnected => {
                if self.stage == ConnectStage::Clearing {
                    self.stage = ConnectStage::FirstAttempt;
                    self.add()
                } else if self.closed < self.closing.len() {
                    let remote = self.closing[self.closed].clone();
                    self.closed = self.closed + 1;
                    NetAction::Disconnect(remote)
                } else {
                    self.stage = ConnectStage::Retrying;
                    self.add()
                }
            },
            NetReport::Added(code) => {
                if self.stage == ConnectStage::FirstAttempt && code
                    == ERROR_SESSION_CREDENTIAL_CONFLICT {
                    self.stage = ConnectStage::Listing;
                    return NetAction::List;
                }
                let result = if self.stage == ConnectStage::FirstAttempt {
                    if code != 0 {
                        Err(NetUseError::Connect { share: self.share.clone(), code })
                    } else {
                        Ok(())
                    }
                } else {
                    retry_result(self.share.as_str(), code, &self.existing)
                };
                self.stage = ConnectStage::Done;
                NetAction::Done(result)
            },
            NetReport::Listed(all) => {
                let existing = server_connections(self.share.as_str(), &all);
                let closing = closable(&existing);
                self.existing = existing;
                self.closing = closing;
                if self.closing.len() > 0 {
                    self.stage = ConnectStage::Closing;
                    self.closed = 1;
                    NetAction::Disconnect(self.closing[0].clone())
                } else {
                    self.stage = ConnectStage::Retrying;
                    self.closed = 0;
                    self.add()
                }
            },
        }
    }
}

/// The user's mapped network drives are never disconnected: a connection
/// only ever disconnects the share itself, or a connection to its server
/// that has no drive letter.
pub proof fn law_only_transient_connections_are_closed(
    c: Connector,
    r: NetReport,
    next: Connector,
    act: NetAction,
)
    requires
        c.wf(),
        connect_expects(c.stage, r),
        connect_follows(c, r, next, act),
        act is Disconnect,
    ensures
        exists|j: int|
            0 <= j < next.existing@.len() && next.existing@[j].local@.len() == 0
                && #[trigger] next.existing@[j].remote@ == act->Disconnect_0@,
{
    let i: int = if r is Listed {
        0
    } else {
        c.closed as int
    };
    assert(crate::text::string_views(next.closing@)[i] == next.closing@[i]@);
    law_mapped_drives_are_never_closed(next.existing@, i);
}

/// After a credential conflict (1219) on the first attempt, the connection
/// is never given up: the server's connections are listed, and the closing
/// goes on until every transient one is closed before the single retry,
/// whose code decides the result.
pub proof fn law_conflict_leads_to_one_retry(
    c: Connector,
    r: NetReport,
    next: Connector,
    act: NetAction,
)
    requires
        c.wf(),
        connect_expects(c.stage, r),
        connect_follows(c, r, next, act),
    ensures
        c.stage == ConnectStage::FirstAttempt && r == NetReport::Added(
            ERROR_SESSION_CREDENTIAL_CONFLICT,
        ) ==> act == NetAction::List,
        next.stage == ConnectStage::Retrying ==> act is Add && next.closed == next.closing@.len(),
        c.stage == ConnectStage::Retrying ==> (r matches NetReport::Added(code) && act is Done
            && retry_outcome(c.share@, code, c.existing@, act->Done_0)),
{
}

} // verus!
